//! Reading fixed-layout records and lists out of decoded ABI tokens.
//!
//! A record is a tuple whose fields follow a schema of field kinds. The walk
//! checks the arity first, then each field in order, and reports the first
//! field that does not hold a value of its kind.

use vstd::prelude::*;
use crate::abi::{AbiToken, Word256};

verus! {

/// Why a token stream could not be read as the expected value.
#[derive(Clone, Copy, Debug, PartialEq, Eq)]
pub enum CodecError {
    /// The response text is not an even run of hex digits.
    HexDecode,
    /// The response is shorter than its leading offset word.
    ResponseTooShort(usize),
    /// The ABI decoder refused the bytes.
    AbiDecode,
    /// A record has `got` fields where its schema has `want`.
    UnexpectedArity(usize, usize),
    /// A field holds a token of another kind than its schema names.
    UnexpectedTokenKind,
    /// An integer field holds a number too wide for the value it stands for.
    ValueOverflow,
    /// The vault address is not valid address text.
    InvalidVaultAddress,
    /// The pool address at this position is not valid address text.
    InvalidPoolAddress(usize),
}

/// The kind of value a record field must hold.
#[derive(Clone, Copy, Debug, PartialEq, Eq)]
pub enum FieldKind {
    /// A 20-byte address.
    Address,
    /// An unsigned integer kept as a full 256-bit word.
    Word,
    /// An unsigned integer below 2^32, kept as its low byte.
    Small,
    /// An unsigned integer below 2^64.
    Word64,
    /// A boolean.
    Flag,
    /// A nested tuple, read by its own schema.
    Record,
    /// A dynamic array, read item by item.
    List,
}

/// The error, if any, of reading token `t` as a field of kind `k`.
pub open spec fn field_error(t: AbiToken, k: FieldKind) -> Option<CodecError> {
    match k {
        FieldKind::Address => if t is Address { None } else { Some(CodecError::UnexpectedTokenKind) },
        FieldKind::Word => if t is Uint { None } else { Some(CodecError::UnexpectedTokenKind) },
        FieldKind::Small => match t {
            AbiToken::Uint(u) => if u.spec_fits_u64() && u.limbs[0] <= u32::MAX {
                None
            } else {
                Some(CodecError::ValueOverflow)
            },
            _ => Some(CodecError::UnexpectedTokenKind),
        },
        FieldKind::Word64 => match t {
            AbiToken::Uint(u) => if u.spec_fits_u64() {
                None
            } else {
                Some(CodecError::ValueOverflow)
            },
            _ => Some(CodecError::UnexpectedTokenKind),
        },
        FieldKind::Flag => if t is Bool { None } else { Some(CodecError::UnexpectedTokenKind) },
        FieldKind::Record => if t is Tuple { None } else { Some(CodecError::UnexpectedTokenKind) },
        FieldKind::List => if t is Array { None } else { Some(CodecError::UnexpectedTokenKind) },
    }
}

/// The first error among positions `0..n`, each position's error given by `e`.
pub open spec fn first_error(n: nat, e: spec_fn(int) -> Option<CodecError>) -> Option<CodecError>
    decreases n,
{
    if n == 0 {
        None
    } else {
        match first_error((n - 1) as nat, e) {
            Some(x) => Some(x),
            None => e(n - 1),
        }
    }
}

/// The error, if any, of reading `fields` as a record with the given schema.
pub open spec fn record_error(fields: Seq<AbiToken>, schema: Seq<FieldKind>) -> Option<CodecError> {
    if fields.len() != schema.len() {
        Some(CodecError::UnexpectedArity(fields.len() as usize, schema.len() as usize))
    } else {
        first_error(fields.len(), |i: int| field_error(fields[i], schema[i]))
    }
}

/// The word a `Word` field holds.
pub open spec fn word_of(t: AbiToken) -> Word256 {
    t->Uint_0
}

/// The value a `Small` field stands for: the low byte of its number.
pub open spec fn small_of(t: AbiToken) -> u8 {
    (t->Uint_0.limbs[0] % 256) as u8
}

/// The value a `Word64` field stands for.
pub open spec fn u64_of(t: AbiToken) -> u64 {
    t->Uint_0.limbs[0]
}

/// Once an error is found among the first positions, it stays the first error.
pub proof fn lemma_first_error_stays(n: nat, m: nat, e: spec_fn(int) -> Option<CodecError>)
    requires
        n <= m,
        first_error(n, e) is Some,
    ensures
        first_error(m, e) == first_error(n, e),
    decreases m - n,
{
    if n < m {
        lemma_first_error_stays(n, (m - 1) as nat, e);
    }
}

/// With no error at any of the positions `0..n`, there is no first error.
pub proof fn lemma_no_error(n: nat, e: spec_fn(int) -> Option<CodecError>)
    requires
        forall|i: int| 0 <= i < n ==> (#[trigger] e(i)) is None,
    ensures
        first_error(n, e) is None,
    decreases n,
{
    if n > 0 {
        lemma_no_error((n - 1) as nat, e);
    }
}

/// A record with no error holds, at each position, a value of the schema's kind.
pub proof fn lemma_record_fields_ok(fields: Seq<AbiToken>, schema: Seq<FieldKind>)
    requires
        record_error(fields, schema) is None,
    ensures
        fields.len() == schema.len(),
        forall|i: int| 0 <= i < fields.len() ==> #[trigger] field_error(fields[i], schema[i]) is None,
{
    let e = |i: int| field_error(fields[i], schema[i]);
    assert forall|i: int| 0 <= i < fields.len() implies #[trigger] field_error(fields[i], schema[i]) is None by {
        if field_error(fields[i], schema[i]) is Some {
            lemma_error_at(i, e);
            lemma_first_error_stays((i + 1) as nat, fields.len(), e);
        }
    }
}

/// An error at position `i` makes the first error among `0..=i` some error.
pub proof fn lemma_error_at(i: int, e: spec_fn(int) -> Option<CodecError>)
    requires
        0 <= i,
        e(i) is Some,
    ensures
        first_error((i + 1) as nat, e) is Some,
{
}

/// The error, if any, of reading `t` as a field of kind `k`.
pub fn check_field(t: &AbiToken, k: FieldKind) -> (r: Option<CodecError>)
    ensures
        r == field_error(*t, k),
{
    match k {
        FieldKind::Address => match t {
            AbiToken::Address(_) => None,
            _ => Some(CodecError::UnexpectedTokenKind),
        },
        FieldKind::Word => match t {
            AbiToken::Uint(_) => None,
            _ => Some(CodecError::UnexpectedTokenKind),
        },
        FieldKind::Small => match t {
            AbiToken::Uint(u) => if u.fits_u64() && u.limbs[0] <= 0xffff_ffffu64 {
                None
            } else {
                Some(CodecError::ValueOverflow)
            },
            _ => Some(CodecError::UnexpectedTokenKind),
        },
        FieldKind::Word64 => match t {
            AbiToken::Uint(u) => if u.fits_u64() {
                None
            } else {
                Some(CodecError::ValueOverflow)
            },
            _ => Some(CodecError::UnexpectedTokenKind),
        },
        FieldKind::Flag => match t {
            AbiToken::Bool(_) => None,
            _ => Some(CodecError::UnexpectedTokenKind),
        },
        FieldKind::Record => match t {
            AbiToken::Tuple(_) => None,
            _ => Some(CodecError::UnexpectedTokenKind),
        },
        FieldKind::List => match t {
            AbiToken::Array(_) => None,
            _ => Some(CodecError::UnexpectedTokenKind),
        },
    }
}

/// The error, if any, of reading `fields` as a record with the given schema:
/// a wrong number of fields first, then the first field of a wrong kind.
pub fn check_record(fields: &[AbiToken], schema: &[FieldKind]) -> (r: Option<CodecError>)
    ensures
        r == record_error(fields@, schema@),
{
    if fields.len() != schema.len() {
        return Some(CodecError::UnexpectedArity(fields.len(), schema.len()));
    }
    let ghost e = |i: int| field_error(fields@[i], schema@[i]);
    let mut err: Option<CodecError> = None;
    let mut i: usize = 0;
    while i < fields.len()
        invariant
            fields@.len() == schema@.len(),
            i <= fields@.len(),
            e == (|i: int| field_error(fields@[i], schema@[i])),
            err == first_error(i as nat, e),
        decreases fields@.len() - i,
    {
        if err.is_none() {
            err = check_field(&fields[i], schema[i]);
        }
        i = i + 1;
    }
    err
}

/// The word held by a field already checked to be a `Word`.
pub fn word_at(t: &AbiToken) -> (r: Word256)
    requires
        field_error(*t, FieldKind::Word) is None,
    ensures
        r == word_of(*t),
{
    match t {
        AbiToken::Uint(u) => *u,
        _ => Word256 { limbs: [0, 0, 0, 0] },
    }
}

/// The value of a field already checked to be `Small`.
pub fn small_at(t: &AbiToken) -> (r: u8)
    requires
        field_error(*t, FieldKind::Small) is None,
    ensures
        r == small_of(*t),
{
    match t {
        AbiToken::Uint(u) => (u.limbs[0] % 256) as u8,
        _ => 0,
    }
}

/// The value of a field already checked to be `Word64`.
pub fn u64_at(t: &AbiToken) -> (r: u64)
    requires
        field_error(*t, FieldKind::Word64) is None,
    ensures
        r == u64_of(*t),
{
    match t {
        AbiToken::Uint(u) => u.limbs[0],
        _ => 0,
    }
}

/// The address held by a field already checked to be an `Address`.
pub fn address_at(t: &AbiToken) -> (r: [u8; 20])
    requires
        field_error(*t, FieldKind::Address) is None,
    ensures
        r == t->Address_0,
{
    match t {
        AbiToken::Address(a) => *a,
        _ => [0u8; 20],
    }
}

/// The boolean held by a field already checked to be a `Flag`.
pub fn flag_at(t: &AbiToken) -> (r: bool)
    requires
        field_error(*t, FieldKind::Flag) is None,
    ensures
        r == t->Bool_0,
{
    match t {
        AbiToken::Bool(b) => *b,
        _ => false,
    }
}

} // verus!
