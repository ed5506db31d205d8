//! Contract ABI values and the calls into the ABI and hex codecs.
//!
//! Tokens and parameter kinds are held in types of this library; the byte
//! encoding itself, the function selector and hex text are computed by the
//! `ethabi`, `ethereum-types` and `hex` crates behind the trusted items below.

use vstd::prelude::*;
use ethabi::{ParamType, Token};
use ethereum_types::{H160, U256};

verus! {

/// A 256-bit unsigned word as four 64-bit limbs, least significant first.
#[derive(Clone, Copy, Debug, PartialEq, Eq)]
pub struct Word256 {
    pub limbs: [u64; 4],
}

/// Two to the sixty-fourth.
pub const LIMB: u128 = 0x1_0000_0000_0000_0000;

impl Word256 {
    /// The number the word stands for.
    pub open spec fn value(self) -> nat {
        (self.limbs[0] + self.limbs[1] * 0x1_0000_0000_0000_0000int + self.limbs[2]
            * 0x1_0000_0000_0000_0000_0000_0000_0000_0000int + self.limbs[3]
            * 0x1_0000_0000_0000_0000_0000_0000_0000_0000_0000_0000_0000_0000int) as nat
    }

    /// The word holds a number below two to the sixty-fourth.
    pub open spec fn spec_fits_u64(&self) -> bool {
        self.limbs[1] == 0 && self.limbs[2] == 0 && self.limbs[3] == 0
    }

    /// The word that holds `v`.
    pub fn from_u64(v: u64) -> (r: Word256)
        ensures
            r.limbs@ == seq![v, 0u64, 0u64, 0u64],
            r.value() == v,
    {
        Word256 { limbs: [v, 0, 0, 0] }
    }

    /// Whether the number fits in 64 bits.
    #[verifier::when_used_as_spec(spec_fits_u64)]
    pub fn fits_u64(&self) -> (r: bool)
        ensures
            r == self.spec_fits_u64(),
    {
        self.limbs[1] == 0 && self.limbs[2] == 0 && self.limbs[3] == 0
    }

    /// The low 128 bits of the number.
    pub fn low_u128(&self) -> (r: u128)
        ensures
            r == self.limbs[0] + self.limbs[1] * LIMB,
            r as int == (self.value() as int) % 0x1_0000_0000_0000_0000_0000_0000_0000_0000int,
    {
        let lo = self.limbs[0] as u128;
        let hi = self.limbs[1] as u128;
        proof {
            assert(hi * LIMB + lo <= u128::MAX) by (nonlinear_arith)
                requires
                    hi < LIMB,
                    lo < LIMB,
            ;
            let l0 = self.limbs[0] as int;
            let l1 = self.limbs[1] as int;
            let l2 = self.limbs[2] as int;
            let l3 = self.limbs[3] as int;
            let b = 0x1_0000_0000_0000_0000_0000_0000_0000_0000int;
            assert(self.value() == (l0 + l1 * LIMB) + (l2 + l3 * LIMB) * b) by (nonlinear_arith)
                requires
                    self.value() == l0 + l1 * 0x1_0000_0000_0000_0000int + l2
                        * 0x1_0000_0000_0000_0000_0000_0000_0000_0000int + l3
                        * 0x1_0000_0000_0000_0000_0000_0000_0000_0000_0000_0000_0000_0000int,
                    LIMB == 0x1_0000_0000_0000_0000int,
                    b == 0x1_0000_0000_0000_0000_0000_0000_0000_0000int,
            ;
            assert(0 <= l0 + l1 * LIMB < b) by (nonlinear_arith)
                requires
                    0 <= l0 < LIMB,
                    0 <= l1 < LIMB,
                    LIMB == 0x1_0000_0000_0000_0000int,
                    b == 0x1_0000_0000_0000_0000_0000_0000_0000_0000int,
            ;
            assert(0 <= l2 + l3 * LIMB) by (nonlinear_arith)
                requires
                    0 <= l2,
                    0 <= l3,
                    LIMB > 0,
            ;
            vstd::arithmetic::div_mod::lemma_fundamental_div_mod_converse(
                self.value() as int,
                b,
                l2 + l3 * LIMB,
                l0 + l1 * LIMB,
            );
        }
        hi * LIMB + lo
    }
}

/// The shape of an ABI value, as far as this library reads or writes one.
#[derive(Debug, PartialEq, Eq)]
pub enum AbiKind {
    Address,
    Uint(usize),
    Bool,
    Array(Box<AbiKind>),
    Tuple(Vec<AbiKind>),
}

/// A decoded ABI value, variant for variant as the codec produces it.
#[derive(Debug, PartialEq, Eq)]
pub enum AbiToken {
    Address([u8; 20]),
    FixedBytes(Vec<u8>),
    Bytes(Vec<u8>),
    Int(Word256),
    Uint(Word256),
    Bool(bool),
    Text(String),
    FixedArray(Vec<AbiToken>),
    Array(Vec<AbiToken>),
    Tuple(Vec<AbiToken>),
}

// ---------------------------------------------------------------------------
// Hex text
// ---------------------------------------------------------------------------

/// Value of a hex digit of either case.
pub open spec fn hex_digit_value(c: char) -> Option<u8> {
    if '0' <= c && c <= '9' {
        Some((c as u32 - '0' as u32) as u8)
    } else if 'a' <= c && c <= 'f' {
        Some((c as u32 - 'a' as u32 + 10) as u8)
    } else if 'A' <= c && c <= 'F' {
        Some((c as u32 - 'A' as u32 + 10) as u8)
    } else {
        None
    }
}

/// Text made of an even number of hex digits.
pub open spec fn is_hex_text(s: Seq<char>) -> bool {
    s.len() % 2 == 0 && forall|i: int| 0 <= i < s.len() ==> (#[trigger] hex_digit_value(s[i])) is Some
}

/// The bytes that hex text spells, two digits each, high digit first.
pub open spec fn hex_bytes(s: Seq<char>) -> Seq<u8> {
    Seq::new(
        s.len() / 2,
        |i: int|
            (hex_digit_value(s[2 * i])->0 * 16 + hex_digit_value(s[2 * i + 1])->0) as u8,
    )
}

/// Lower-case hex digit of a number below sixteen.
pub open spec fn lower_hex_digit(n: int) -> char {
    if n < 10 {
        (('0' as u32) + n) as char
    } else {
        (('a' as u32) + n - 10) as char
    }
}

/// Bytes as lower-case hex text, two digits each, high digit first.
pub open spec fn lower_hex(b: Seq<u8>) -> Seq<char> {
    Seq::new(
        2 * b.len(),
        |i: int|
            if i % 2 == 0 {
                lower_hex_digit((b[i / 2] / 16) as int)
            } else {
                lower_hex_digit((b[i / 2] % 16) as int)
            },
    )
}

/// Relies on `hex::decode`: text of an even number of hex digits of either
/// case gives its bytes, and any other text is refused.
#[verifier::external_body]
pub(crate) fn hex_decode(s: &str) -> (r: Option<Vec<u8>>)
    ensures
        r is Some <==> is_hex_text(s@),
        r is Some ==> r->0@ == hex_bytes(s@),
{
    hex::decode(s).ok()
}

/// Relies on `hex::encode`: two lower-case digits for each byte.
#[verifier::external_body]
pub(crate) fn hex_encode(b: &[u8]) -> (r: String)
    ensures
        r@ == lower_hex(b@),
{
    hex::encode(b)
}

// ---------------------------------------------------------------------------
// Addresses
// ---------------------------------------------------------------------------

/// Characters that address text may hold between its digits.
pub open spec fn is_hex_space(c: char) -> bool {
    c == ' ' || c == '\r' || c == '\n' || c == '\t'
}

/// Text without its leading `0x`, where it has one.
pub open spec fn strip_hex_prefix(s: Seq<char>) -> Seq<char> {
    if s.len() >= 2 && s[0] == '0' && s[1] == 'x' {
        s.subrange(2, s.len() as int)
    } else {
        s
    }
}

/// The text after its leading `0x`, or the whole text where there is none.
pub fn without_hex_prefix(s: &str) -> (r: &str)
    ensures
        r@ == strip_hex_prefix(s@),
{
    let n = s.unicode_len();
    if n >= 2 && s.get_char(0) == '0' && s.get_char(1) == 'x' {
        s.substring_char(2, n)
    } else {
        s
    }
}

/// Address text without its optional `0x` prefix and without blanks.
pub open spec fn address_digits(s: Seq<char>) -> Seq<char> {
    strip_hex_prefix(s).filter(|c: char| !is_hex_space(c))
}

/// Text that names a 20-byte address: forty hex digits once the prefix and blanks are gone.
pub open spec fn is_address_text(s: Seq<char>) -> bool {
    address_digits(s).len() == 40 && is_hex_text(address_digits(s))
}

/// Relies on `FromStr` of `ethereum_types::Address`: an optional `0x`, then
/// forty hex digits, blanks between them skipped; anything else is refused.
#[verifier::external_body]
pub(crate) fn parse_address(s: &str) -> (r: Option<[u8; 20]>)
    ensures
        r is Some <==> is_address_text(s@),
        r is Some ==> r->0@ == hex_bytes(address_digits(s@)),
{
    s.parse::<ethereum_types::Address>().ok().map(|a| a.0)
}

// ---------------------------------------------------------------------------
// ABI encoding
// ---------------------------------------------------------------------------

/// What the ABI decoder makes of `data` read as a sequence of values of the given kinds.
pub uninterp spec fn abi_decoding(kinds: Seq<AbiKind>, data: Seq<u8>) -> Option<Seq<AbiToken>>;

/// The standard head/tail ABI encoding of a sequence of tokens.
pub uninterp spec fn abi_encoding(tokens: Seq<AbiToken>) -> Seq<u8>;

/// The four-byte selector of a function with the given name and parameter kinds.
pub uninterp spec fn function_selector(name: Seq<char>, kinds: Seq<AbiKind>) -> Seq<u8>;

#[verifier::external_type_specification]
#[verifier::external_body]
pub struct ExToken(Token);

#[verifier::external_type_specification]
#[verifier::external_body]
pub struct ExParamType(ParamType);

/// Moves a token of `ethabi` into the library's token type, variant for variant.
#[verifier::external_body]
fn token_from_ethabi(t: Token) -> AbiToken {
    match t {
        Token::Address(a) => AbiToken::Address(a.0),
        Token::FixedBytes(b) => AbiToken::FixedBytes(b),
        Token::Bytes(b) => AbiToken::Bytes(b),
        Token::Int(u) => AbiToken::Int(Word256 { limbs: u.0 }),
        Token::Uint(u) => AbiToken::Uint(Word256 { limbs: u.0 }),
        Token::Bool(b) => AbiToken::Bool(b),
        Token::String(s) => AbiToken::Text(s),
        Token::FixedArray(v) => AbiToken::FixedArray(tokens_from_ethabi(v)),
        Token::Array(v) => AbiToken::Array(tokens_from_ethabi(v)),
        Token::Tuple(v) => AbiToken::Tuple(tokens_from_ethabi(v)),
    }
}

/// Moves tokens of `ethabi` into the library's token type, one for one.
#[verifier::external_body]
fn tokens_from_ethabi(v: Vec<Token>) -> Vec<AbiToken> {
    v.into_iter().map(token_from_ethabi).collect()
}

/// Moves tokens of the library into the token type of `ethabi`, one for one.
#[verifier::external_body]
fn tokens_to_ethabi(v: &Vec<AbiToken>) -> Vec<Token> {
    v.iter().map(token_to_ethabi).collect()
}

/// Moves a token of the library into the token type of `ethabi`, variant for variant.
#[verifier::external_body]
fn token_to_ethabi(t: &AbiToken) -> Token {
    match t {
        AbiToken::Address(a) => Token::Address(H160(*a)),
        AbiToken::FixedBytes(b) => Token::FixedBytes(b.clone()),
        AbiToken::Bytes(b) => Token::Bytes(b.clone()),
        AbiToken::Int(u) => Token::Int(U256(u.limbs)),
        AbiToken::Uint(u) => Token::Uint(U256(u.limbs)),
        AbiToken::Bool(b) => Token::Bool(*b),
        AbiToken::Text(s) => Token::String(s.clone()),
        AbiToken::FixedArray(v) => Token::FixedArray(tokens_to_ethabi(v)),
        AbiToken::Array(v) => Token::Array(tokens_to_ethabi(v)),
        AbiToken::Tuple(v) => Token::Tuple(tokens_to_ethabi(v)),
    }
}

/// Moves a parameter kind of the library into the kind type of `ethabi`, variant for variant.
#[verifier::external_body]
fn kind_to_ethabi(k: &AbiKind) -> ParamType {
    match k {
        AbiKind::Address => ParamType::Address,
        AbiKind::Uint(bits) => ParamType::Uint(*bits),
        AbiKind::Bool => ParamType::Bool,
        AbiKind::Array(inner) => ParamType::Array(Box::new(kind_to_ethabi(inner))),
        AbiKind::Tuple(v) => ParamType::Tuple(v.iter().map(kind_to_ethabi).collect()),
    }
}

/// Relies on `ethabi::decode`: reads `data` as values of the given kinds, or
/// refuses it; the outcome depends on the kinds and the bytes alone.
#[verifier::external_body]
pub(crate) fn abi_decode(kinds: &Vec<AbiKind>, data: &[u8]) -> (r: Option<Vec<AbiToken>>)
    ensures
        r is Some <==> abi_decoding(kinds@, data@) is Some,
        r is Some ==> r->0@ == abi_decoding(kinds@, data@)->0,
{
    let types: Vec<ParamType> = kinds.iter().map(kind_to_ethabi).collect();
    ethabi::decode(&types, data).ok().map(tokens_from_ethabi)
}

/// Relies on `ethabi::encode`: the head/tail encoding of the tokens, which
/// depends on the tokens alone.
#[verifier::external_body]
pub(crate) fn abi_encode(tokens: &Vec<AbiToken>) -> (r: Vec<u8>)
    ensures
        r@ == abi_encoding(tokens@),
{
    ethabi::encode(&tokens_to_ethabi(tokens))
}

/// Relies on `ethabi::short_signature`: the first four bytes of the keccak
/// digest of the canonical signature, a function of the name and kinds alone.
#[verifier::external_body]
pub(crate) fn abi_selector(name: &str, kinds: &Vec<AbiKind>) -> (r: [u8; 4])
    ensures
        r@ == function_selector(name@, kinds@),
{
    let types: Vec<ParamType> = kinds.iter().map(kind_to_ethabi).collect();
    ethabi::short_signature(name, &types)
}

} // verus!
