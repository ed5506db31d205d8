//! The vault snapshot returned by the data reader contract, and the call that asks for it.

use vstd::prelude::*;
use crate::abi::{
    abi_decode, abi_decoding, abi_encode, abi_encoding, abi_selector, address_digits,
    function_selector, hex_bytes, hex_decode, hex_encode, is_address_text, is_hex_text,
    lower_hex, parse_address, strip_hex_prefix, without_hex_prefix, AbiKind, AbiToken, Word256,
};
use crate::records::{
    address_at, check_field, check_record, field_error, first_error, flag_at,
    lemma_first_error_stays, lemma_no_error, lemma_record_fields_ok, record_error, small_at, small_of, u64_at, u64_of, word_at, word_of,
    CodecError, FieldKind,
};

verus! {

/// Interest-rate-model parameters as the contract reports them, in basis points.
#[derive(Clone, Copy, Debug, PartialEq, Eq)]
pub struct IRMParamsRaw {
    pub kink1_bps: Word256,
    pub rate_at_kink1_bps: Word256,
    pub kink2_bps: Word256,
    pub rate_at_kink2_bps: Word256,
    pub rate_at_max_bps: Word256,
    pub reserve_factor_bps: Word256,
}

/// The per-venue part of a snapshot.
#[derive(Clone, Copy, Debug, PartialEq, Eq)]
pub struct ProtocolData {
    pub protocol_type: u8,
    pub pool: [u8; 20],
    pub our_balance: Word256,
    pub pool_total_supply: Word256,
    pub pool_total_borrow: Word256,
    pub utilization_wad: Word256,
    pub current_apy_wad: Word256,
    pub irm: IRMParamsRaw,
    pub meta_total_assets: Word256,
    pub meta_total_supply: Word256,
    pub meta_last_total_assets: Word256,
    pub meta_last_update: u64,
}

/// The guard flags of the vault.
#[derive(Clone, Copy, Debug, PartialEq, Eq)]
pub struct GuardState {
    pub blocked_mask: u8,
    pub emergency_mode: bool,
    pub emergency_all: bool,
}

/// The vault's on-chain state at one block.
#[derive(Clone, Debug, PartialEq, Eq)]
pub struct VaultSnapshot {
    pub asset: [u8; 20],
    pub total_assets: Word256,
    pub loose_cash: Word256,
    pub target_weights: Vec<Word256>,
    pub last_rebalance_time: u64,
    pub rebalance_cooldown: u64,
    pub snapshot_timestamp: u64,
    pub protocols: Vec<ProtocolData>,
    pub guard_state: GuardState,
}

// ---------------------------------------------------------------------------
// Layouts
// ---------------------------------------------------------------------------

/// The six basis-point words of the rate model.
pub open spec fn irm_schema() -> Seq<FieldKind> {
    seq![
        FieldKind::Word,
        FieldKind::Word,
        FieldKind::Word,
        FieldKind::Word,
        FieldKind::Word,
        FieldKind::Word,
    ]
}

/// Mask, emergency flag, emergency-all flag.
pub open spec fn guard_schema() -> Seq<FieldKind> {
    seq![FieldKind::Small, FieldKind::Flag, FieldKind::Flag]
}

/// The twelve fields of a protocol entry, the rate model nested eighth.
pub open spec fn protocol_schema() -> Seq<FieldKind> {
    seq![
        FieldKind::Small,
        FieldKind::Address,
        FieldKind::Word,
        FieldKind::Word,
        FieldKind::Word,
        FieldKind::Word,
        FieldKind::Word,
        FieldKind::Record,
        FieldKind::Word,
        FieldKind::Word,
        FieldKind::Word,
        FieldKind::Word64,
    ]
}

/// The nine fields of the snapshot.
pub open spec fn snapshot_schema() -> Seq<FieldKind> {
    seq![
        FieldKind::Address,
        FieldKind::Word,
        FieldKind::Word,
        FieldKind::List,
        FieldKind::Word64,
        FieldKind::Word64,
        FieldKind::Word64,
        FieldKind::List,
        FieldKind::Record,
    ]
}

fn irm_fields() -> (r: Vec<FieldKind>)
    ensures
        r@ == irm_schema(),
{
    let r = vec![
        FieldKind::Word,
        FieldKind::Word,
        FieldKind::Word,
        FieldKind::Word,
        FieldKind::Word,
        FieldKind::Word,
    ];
    proof {
        assert(r@ =~= irm_schema());
    }
    r
}

fn guard_fields() -> (r: Vec<FieldKind>)
    ensures
        r@ == guard_schema(),
{
    let r = vec![FieldKind::Small, FieldKind::Flag, FieldKind::Flag];
    proof {
        assert(r@ =~= guard_schema());
    }
    r
}

fn protocol_fields() -> (r: Vec<FieldKind>)
    ensures
        r@ == protocol_schema(),
{
    let r = vec![
        FieldKind::Small,
        FieldKind::Address,
        FieldKind::Word,
        FieldKind::Word,
        FieldKind::Word,
        FieldKind::Word,
        FieldKind::Word,
        FieldKind::Record,
        FieldKind::Word,
        FieldKind::Word,
        FieldKind::Word,
        FieldKind::Word64,
    ];
    proof {
        assert(r@ =~= protocol_schema());
    }
    r
}

fn snapshot_fields() -> (r: Vec<FieldKind>)
    ensures
        r@ == snapshot_schema(),
{
    let r = vec![
        FieldKind::Address,
        FieldKind::Word,
        FieldKind::Word,
        FieldKind::List,
        FieldKind::Word64,
        FieldKind::Word64,
        FieldKind::Word64,
        FieldKind::List,
        FieldKind::Record,
    ];
    proof {
        assert(r@ =~= snapshot_schema());
    }
    r
}

// ---------------------------------------------------------------------------
// What the tokens stand for
// ---------------------------------------------------------------------------

/// The rate model that checked IRM fields stand for.
pub open spec fn irm_of(f: Seq<AbiToken>) -> IRMParamsRaw {
    IRMParamsRaw {
        kink1_bps: word_of(f[0]),
        rate_at_kink1_bps: word_of(f[1]),
        kink2_bps: word_of(f[2]),
        rate_at_kink2_bps: word_of(f[3]),
        rate_at_max_bps: word_of(f[4]),
        reserve_factor_bps: word_of(f[5]),
    }
}

/// The guard state that checked guard fields stand for.
pub open spec fn guard_of(f: Seq<AbiToken>) -> GuardState {
    GuardState {
        blocked_mask: small_of(f[0]),
        emergency_mode: f[1]->Bool_0,
        emergency_all: f[2]->Bool_0,
    }
}

/// The error, if any, of reading a token as a protocol entry: the entry's own
/// fields first, then those of its nested rate model.
pub open spec fn protocol_error(t: AbiToken) -> Option<CodecError> {
    match t {
        AbiToken::Tuple(f) => match record_error(f@, protocol_schema()) {
            Some(e) => Some(e),
            None => record_error(f@[7]->Tuple_0@, irm_schema()),
        },
        _ => Some(CodecError::UnexpectedTokenKind),
    }
}

/// The protocol entry that a checked token stands for.
pub open spec fn protocol_of(t: AbiToken) -> ProtocolData {
    let f = t->Tuple_0@;
    ProtocolData {
        protocol_type: small_of(f[0]),
        pool: f[1]->Address_0,
        our_balance: word_of(f[2]),
        pool_total_supply: word_of(f[3]),
        pool_total_borrow: word_of(f[4]),
        utilization_wad: word_of(f[5]),
        current_apy_wad: word_of(f[6]),
        irm: irm_of(f[7]->Tuple_0@),
        meta_total_assets: word_of(f[8]),
        meta_total_supply: word_of(f[9]),
        meta_last_total_assets: word_of(f[10]),
        meta_last_update: u64_of(f[11]),
    }
}

/// The error, if any, of reading the snapshot's top-level tokens: the nine
/// fields first, then the target weights, the protocol entries and the
/// guard state, each in order.
pub open spec fn snapshot_error(t: Seq<AbiToken>) -> Option<CodecError> {
    match record_error(t, snapshot_schema()) {
        Some(e) => Some(e),
        None => {
            let weights = t[3]->Array_0@;
            let protocols = t[7]->Array_0@;
            match first_error(weights.len(), |i: int| field_error(weights[i], FieldKind::Word)) {
                Some(e) => Some(e),
                None => match first_error(protocols.len(), |i: int| protocol_error(protocols[i])) {
                    Some(e) => Some(e),
                    None => record_error(t[8]->Tuple_0@, guard_schema()),
                },
            }
        },
    }
}

/// `s` is the snapshot that the checked tokens `t` stand for.
pub open spec fn snapshot_of(s: VaultSnapshot, t: Seq<AbiToken>) -> bool {
    &&& s.asset == t[0]->Address_0
    &&& s.total_assets == word_of(t[1])
    &&& s.loose_cash == word_of(t[2])
    &&& s.target_weights@ == t[3]->Array_0@.map_values(|x: AbiToken| word_of(x))
    &&& s.last_rebalance_time == u64_of(t[4])
    &&& s.rebalance_cooldown == u64_of(t[5])
    &&& s.snapshot_timestamp == u64_of(t[6])
    &&& s.protocols@ == t[7]->Array_0@.map_values(|x: AbiToken| protocol_of(x))
    &&& s.guard_state == guard_of(t[8]->Tuple_0@)
}

/// What reading the tokens `t` as a snapshot yields: the snapshot they stand
/// for, or the first error.
pub open spec fn snapshot_outcome(t: Seq<AbiToken>, r: Result<VaultSnapshot, CodecError>) -> bool {
    match r {
        Ok(s) => snapshot_error(t) is None && snapshot_of(s, t),
        Err(e) => snapshot_error(t) == Some(e),
    }
}

// ---------------------------------------------------------------------------
// Reading tokens
// ---------------------------------------------------------------------------

/// Reads the six basis-point words of a rate model.
pub fn parse_irm_token(fields: &[AbiToken]) -> (r: Result<IRMParamsRaw, CodecError>)
    ensures
        match r {
            Ok(v) => record_error(fields@, irm_schema()) is None && v == irm_of(fields@),
            Err(e) => record_error(fields@, irm_schema()) == Some(e),
        },
{
    let schema = irm_fields();
    if let Some(e) = check_record(fields, schema.as_slice()) {
        return Err(e);
    }
    proof {
        lemma_record_fields_ok(fields@, irm_schema());
    }
    Ok(IRMParamsRaw {
        kink1_bps: word_at(&fields[0]),
        rate_at_kink1_bps: word_at(&fields[1]),
        kink2_bps: word_at(&fields[2]),
        rate_at_kink2_bps: word_at(&fields[3]),
        rate_at_max_bps: word_at(&fields[4]),
        reserve_factor_bps: word_at(&fields[5]),
    })
}

/// Reads the blocked mask and the two emergency flags.
pub fn parse_guard_state_token(fields: &[AbiToken]) -> (r: Result<GuardState, CodecError>)
    ensures
        match r {
            Ok(v) => record_error(fields@, guard_schema()) is None && v == guard_of(fields@),
            Err(e) => record_error(fields@, guard_schema()) == Some(e),
        },
{
    let schema = guard_fields();
    if let Some(e) = check_record(fields, schema.as_slice()) {
        return Err(e);
    }
    proof {
        lemma_record_fields_ok(fields@, guard_schema());
    }
    Ok(GuardState {
        blocked_mask: small_at(&fields[0]),
        emergency_mode: flag_at(&fields[1]),
        emergency_all: flag_at(&fields[2]),
    })
}

/// Reads one protocol entry, its nested rate model included.
pub fn parse_protocol_token(token: &AbiToken) -> (r: Result<ProtocolData, CodecError>)
    ensures
        match r {
            Ok(v) => protocol_error(*token) is None && v == protocol_of(*token),
            Err(e) => protocol_error(*token) == Some(e),
        },
{
    let fields = match token {
        AbiToken::Tuple(t) => t,
        _ => return Err(CodecError::UnexpectedTokenKind),
    };
    let schema = protocol_fields();
    if let Some(e) = check_record(fields.as_slice(), schema.as_slice()) {
        return Err(e);
    }
    proof {
        lemma_record_fields_ok(fields@, protocol_schema());
        assert(field_error(fields@[7], FieldKind::Record) is None);
    }
    let irm = match &fields[7] {
        AbiToken::Tuple(irm_fields) => match parse_irm_token(irm_fields.as_slice()) {
            Ok(v) => v,
            Err(e) => return Err(e),
        },
        _ => return Err(CodecError::UnexpectedTokenKind),
    };
    Ok(ProtocolData {
        protocol_type: small_at(&fields[0]),
        pool: address_at(&fields[1]),
        our_balance: word_at(&fields[2]),
        pool_total_supply: word_at(&fields[3]),
        pool_total_borrow: word_at(&fields[4]),
        utilization_wad: word_at(&fields[5]),
        current_apy_wad: word_at(&fields[6]),
        irm,
        meta_total_assets: word_at(&fields[8]),
        meta_total_supply: word_at(&fields[9]),
        meta_last_total_assets: word_at(&fields[10]),
        meta_last_update: u64_at(&fields[11]),
    })
}

/// Reads the snapshot from its nine top-level tokens.
pub fn parse_snapshot_tokens(tokens: &[AbiToken]) -> (r: Result<VaultSnapshot, CodecError>)
    ensures
        snapshot_outcome(tokens@, r),
{
    let schema = snapshot_fields();
    if let Some(e) = check_record(tokens, schema.as_slice()) {
        return Err(e);
    }
    proof {
        lemma_record_fields_ok(tokens@, snapshot_schema());
        assert(field_error(tokens@[3], FieldKind::List) is None);
        assert(field_error(tokens@[7], FieldKind::List) is None);
        assert(field_error(tokens@[8], FieldKind::Record) is None);
    }
    let weight_tokens = match &tokens[3] {
        AbiToken::Array(a) => a,
        _ => return Err(CodecError::UnexpectedTokenKind),
    };
    let ghost we = |i: int| field_error(weight_tokens@[i], FieldKind::Word);
    let mut target_weights: Vec<Word256> = Vec::new();
    let mut i: usize = 0;
    while i < weight_tokens.len()
        invariant
            tokens@.len() == 9,
            record_error(tokens@, snapshot_schema()) is None,
            tokens@[3] == AbiToken::Array(*weight_tokens),
            i <= weight_tokens@.len(),
            we == (|i: int| field_error(weight_tokens@[i], FieldKind::Word)),
            first_error(i as nat, we) is None,
            target_weights@ == weight_tokens@.subrange(0, i as int).map_values(
                |x: AbiToken| word_of(x),
            ),
        decreases weight_tokens@.len() - i,
    {
        if let Some(e) = check_field(&weight_tokens[i], FieldKind::Word) {
            proof {
                lemma_first_error_stays((i + 1) as nat, weight_tokens@.len(), we);
                let ws = tokens@[3]->Array_0@;
                assert(ws == weight_tokens@);
                assert((|k: int| field_error(ws[k], FieldKind::Word)) =~= we);
            }
            return Err(e);
        }
        target_weights.push(word_at(&weight_tokens[i]));
        proof {
            assert(weight_tokens@.subrange(0, i + 1).map_values(|x: AbiToken| word_of(x))
                =~= weight_tokens@.subrange(0, i as int).map_values(|x: AbiToken| word_of(x)).push(
                word_of(weight_tokens@[i as int]),
            ));
        }
        i = i + 1;
    }
    proof {
        assert(weight_tokens@.subrange(0, i as int) =~= weight_tokens@);
    }
    let protocol_tokens = match &tokens[7] {
        AbiToken::Array(a) => a,
        _ => return Err(CodecError::UnexpectedTokenKind),
    };
    let ghost pe = |i: int| protocol_error(protocol_tokens@[i]);
    let mut protocols: Vec<ProtocolData> = Vec::new();
    let mut j: usize = 0;
    while j < protocol_tokens.len()
        invariant
            tokens@.len() == 9,
            record_error(tokens@, snapshot_schema()) is None,
            tokens@[3] == AbiToken::Array(*weight_tokens),
            tokens@[7] == AbiToken::Array(*protocol_tokens),
            we == (|i: int| field_error(weight_tokens@[i], FieldKind::Word)),
            first_error(weight_tokens@.len(), we) is None,
            j <= protocol_tokens@.len(),
            pe == (|i: int| protocol_error(protocol_tokens@[i])),
            first_error(j as nat, pe) is None,
            protocols@ == protocol_tokens@.subrange(0, j as int).map_values(
                |x: AbiToken| protocol_of(x),
            ),
        decreases protocol_tokens@.len() - j,
    {
        match parse_protocol_token(&protocol_tokens[j]) {
            Ok(p) => {
                protocols.push(p);
            },
            Err(e) => {
                proof {
                    lemma_first_error_stays((j + 1) as nat, protocol_tokens@.len(), pe);
                    let ps = tokens@[7]->Array_0@;
                    let ws = tokens@[3]->Array_0@;
                    assert(ps == protocol_tokens@);
                    assert((|k: int| protocol_error(ps[k])) =~= pe);
                    assert((|k: int| field_error(ws[k], FieldKind::Word)) =~= we);
                }
                return Err(e);
            },
        }
        proof {
            assert(protocol_tokens@.subrange(0, j + 1).map_values(|x: AbiToken| protocol_of(x))
                =~= protocol_tokens@.subrange(0, j as int).map_values(
                |x: AbiToken| protocol_of(x),
            ).push(protocol_of(protocol_tokens@[j as int])));
        }
        j = j + 1;
    }
    proof {
        assert(protocol_tokens@.subrange(0, j as int) =~= protocol_tokens@);
    }
    let guard_state = match &tokens[8] {
        AbiToken::Tuple(g) => match parse_guard_state_token(g.as_slice()) {
            Ok(v) => v,
            Err(e) => return Err(e),
        },
        _ => return Err(CodecError::UnexpectedTokenKind),
    };
    Ok(VaultSnapshot {
        asset: address_at(&tokens[0]),
        total_assets: word_at(&tokens[1]),
        loose_cash: word_at(&tokens[2]),
        target_weights,
        last_rebalance_time: u64_at(&tokens[4]),
        rebalance_cooldown: u64_at(&tokens[5]),
        snapshot_timestamp: u64_at(&tokens[6]),
        protocols,
        guard_state,
    })
}

// ---------------------------------------------------------------------------
// Decoding the response
// ---------------------------------------------------------------------------

/// Kinds of the twelve fields of a protocol entry, the rate model nested eighth.
pub open spec fn is_protocol_kinds(k: Seq<AbiKind>) -> bool {
    &&& k.len() == 12
    &&& k[0] == AbiKind::Uint(8)
    &&& k[1] == AbiKind::Address
    &&& forall|i: int| 2 <= i < 7 ==> k[i] == AbiKind::Uint(256)
    &&& k[7] matches AbiKind::Tuple(irm) && irm@ == Seq::new(6, |i: int| AbiKind::Uint(256))
    &&& forall|i: int| 8 <= i < 11 ==> k[i] == AbiKind::Uint(256)
    &&& k[11] == AbiKind::Uint(64)
}

/// Kinds of the nine top-level values of the snapshot.
pub open spec fn is_snapshot_kinds(k: Seq<AbiKind>) -> bool {
    &&& k.len() == 9
    &&& k[0] == AbiKind::Address
    &&& k[1] == AbiKind::Uint(256)
    &&& k[2] == AbiKind::Uint(256)
    &&& k[3] == AbiKind::Array(Box::new(AbiKind::Uint(256)))
    &&& forall|i: int| 4 <= i < 7 ==> k[i] == AbiKind::Uint(48)
    &&& k[7] matches AbiKind::Array(p) && (*p matches AbiKind::Tuple(f) && is_protocol_kinds(f@))
    &&& k[8] matches AbiKind::Tuple(g) && g@ == seq![AbiKind::Uint(8), AbiKind::Bool, AbiKind::Bool]
}

fn snapshot_kinds() -> (r: Vec<AbiKind>)
    ensures
        is_snapshot_kinds(r@),
{
    let irm = vec![
        AbiKind::Uint(256),
        AbiKind::Uint(256),
        AbiKind::Uint(256),
        AbiKind::Uint(256),
        AbiKind::Uint(256),
        AbiKind::Uint(256),
    ];
    proof {
        assert(irm@ =~= Seq::new(6, |i: int| AbiKind::Uint(256)));
    }
    let protocol = vec![
        AbiKind::Uint(8),
        AbiKind::Address,
        AbiKind::Uint(256),
        AbiKind::Uint(256),
        AbiKind::Uint(256),
        AbiKind::Uint(256),
        AbiKind::Uint(256),
        AbiKind::Tuple(irm),
        AbiKind::Uint(256),
        AbiKind::Uint(256),
        AbiKind::Uint(256),
        AbiKind::Uint(64),
    ];
    let guard = vec![AbiKind::Uint(8), AbiKind::Bool, AbiKind::Bool];
    proof {
        assert(guard@ =~= seq![AbiKind::Uint(8), AbiKind::Bool, AbiKind::Bool]);
    }
    vec![
        AbiKind::Address,
        AbiKind::Uint(256),
        AbiKind::Uint(256),
        AbiKind::Array(Box::new(AbiKind::Uint(256))),
        AbiKind::Uint(48),
        AbiKind::Uint(48),
        AbiKind::Uint(48),
        AbiKind::Array(Box::new(AbiKind::Tuple(protocol))),
        AbiKind::Tuple(guard),
    ]
}

/// What decoding the response text `text` as a snapshot yields, given what
/// the ABI decoder makes of the bytes after the offset word with the kinds `kinds`.
pub open spec fn decode_outcome(
    text: Seq<char>,
    kinds: Seq<AbiKind>,
    r: Result<VaultSnapshot, CodecError>,
) -> bool {
    let digits = strip_hex_prefix(text);
    let bytes = hex_bytes(digits);
    if !is_hex_text(digits) {
        r == Err::<VaultSnapshot, CodecError>(CodecError::HexDecode)
    } else if bytes.len() < 32 {
        r == Err::<VaultSnapshot, CodecError>(CodecError::ResponseTooShort(bytes.len() as usize))
    } else {
        match abi_decoding(kinds, bytes.subrange(32, bytes.len() as int)) {
            None => r == Err::<VaultSnapshot, CodecError>(CodecError::AbiDecode),
            Some(tokens) => snapshot_outcome(tokens, r),
        }
    }
}

/// Decodes the hex result of `getSnapshot`: the bytes after the leading
/// 32-byte offset word are read as the nine snapshot values.
pub fn decode_vault_snapshot(hex_str: &str) -> (r: Result<VaultSnapshot, CodecError>)
    ensures
        exists|kinds: Seq<AbiKind>| is_snapshot_kinds(kinds) && decode_outcome(hex_str@, kinds, r),
{
    let kinds = snapshot_kinds();
    let digits = without_hex_prefix(hex_str);
    let r = match hex_decode(digits) {
        None => Err(CodecError::HexDecode),
        Some(all_bytes) => if all_bytes.len() < 32 {
            Err(CodecError::ResponseTooShort(all_bytes.len()))
        } else {
            let body = vstd::slice::slice_subrange(all_bytes.as_slice(), 32, all_bytes.len());
            match abi_decode(&kinds, body) {
                Some(tokens) => parse_snapshot_tokens(tokens.as_slice()),
                None => Err(CodecError::AbiDecode),
            }
        },
    };
    proof {
        assert(decode_outcome(hex_str@, kinds@, r));
    }
    r
}

// ---------------------------------------------------------------------------
// The call
// ---------------------------------------------------------------------------

/// Parameter kinds of `getSnapshot(address,uint8[],address[])`.
pub open spec fn get_snapshot_kinds() -> Seq<AbiKind> {
    seq![
        AbiKind::Address,
        AbiKind::Array(Box::new(AbiKind::Uint(8))),
        AbiKind::Array(Box::new(AbiKind::Address)),
    ]
}

/// `t` are the argument tokens of `getSnapshot` for the vault at `vault`,
/// the protocol tags `types` and the pools at `pools`.
pub open spec fn is_get_snapshot_args(
    t: Seq<AbiToken>,
    vault: Seq<char>,
    types: Seq<u8>,
    pools: Seq<String>,
) -> bool {
    &&& t.len() == 3
    &&& t[0] is Address && t[0]->Address_0@ == hex_bytes(address_digits(vault))
    &&& t[1] is Array && t[1]->Array_0@.len() == types.len() && forall|i: int|
        0 <= i < types.len() ==> (#[trigger] t[1]->Array_0@[i]) is Uint
            && t[1]->Array_0@[i]->Uint_0.limbs@ == seq![types[i] as u64, 0u64, 0u64, 0u64]
    &&& t[2] is Array && t[2]->Array_0@.len() == pools.len() && forall|i: int|
        0 <= i < pools.len() ==> (#[trigger] t[2]->Array_0@[i]) is Address
            && t[2]->Array_0@[i]->Address_0@ == hex_bytes(address_digits(pools[i]@))
}

/// Pool `i` is the first whose address text is not valid.
pub open spec fn is_first_bad_pool(pools: Seq<String>, i: int) -> bool {
    &&& 0 <= i < pools.len()
    &&& !is_address_text(pools[i]@)
    &&& forall|j: int| 0 <= j < i ==> is_address_text(#[trigger] pools[j]@)
}

/// Call data of `getSnapshot(vault, protocolTypes, pools)` as `0x`-prefixed
/// lower-case hex: the selector followed by the ABI encoding of the arguments.
pub fn encode_get_snapshot_call(
    vault: &str,
    protocol_types: &[u8],
    pools: &[String],
) -> (r: Result<String, CodecError>)
    ensures
        r is Ok <==> is_address_text(vault@) && forall|i: int|
            0 <= i < pools@.len() ==> is_address_text(#[trigger] pools@[i]@),
        !is_address_text(vault@) ==> r == Err::<String, CodecError>(CodecError::InvalidVaultAddress),
        forall|i: int|
            is_address_text(vault@) && is_first_bad_pool(pools@, i) ==> r == Err::<String, CodecError>(
                CodecError::InvalidPoolAddress(i as usize),
            ),
        r is Ok ==> exists|t: Seq<AbiToken>|
            is_get_snapshot_args(t, vault@, protocol_types@, pools@) && r->Ok_0@ == "0x"@ + lower_hex(
                function_selector("getSnapshot"@, get_snapshot_kinds()) + abi_encoding(t),
            ),
{
    let vault_addr = match parse_address(vault) {
        Some(a) => a,
        None => return Err(CodecError::InvalidVaultAddress),
    };
    let mut pool_tokens: Vec<AbiToken> = Vec::new();
    let mut i: usize = 0;
    while i < pools.len()
        invariant
            is_address_text(vault@),
            i <= pools@.len(),
            pool_tokens@.len() == i,
            forall|j: int| 0 <= j < i ==> is_address_text(#[trigger] pools@[j]@),
            forall|j: int|
                0 <= j < i ==> (#[trigger] pool_tokens@[j]) is Address && pool_tokens@[j]->Address_0@
                    == hex_bytes(address_digits(pools@[j]@)),
        decreases pools@.len() - i,
    {
        match parse_address(pools[i].as_str()) {
            Some(a) => pool_tokens.push(AbiToken::Address(a)),
            None => {
                proof {
                    assert(is_first_bad_pool(pools@, i as int));
                    assert forall|k: int| is_first_bad_pool(pools@, k) implies k == i by {
                        if k < i {
                            assert(is_address_text(pools@[k]@));
                        } else if k > i {
                            assert(is_address_text(pools@[i as int]@));
                        }
                    }
                }
                return Err(CodecError::InvalidPoolAddress(i));
            },
        }
        i = i + 1;
    }
    let mut type_tokens: Vec<AbiToken> = Vec::new();
    let mut j: usize = 0;
    while j < protocol_types.len()
        invariant
            j <= protocol_types@.len(),
            type_tokens@.len() == j,
            forall|k: int|
                0 <= k < j ==> (#[trigger] type_tokens@[k]) is Uint && type_tokens@[k]->Uint_0.limbs@
                    == seq![protocol_types@[k] as u64, 0u64, 0u64, 0u64],
        decreases protocol_types@.len() - j,
    {
        type_tokens.push(AbiToken::Uint(Word256::from_u64(protocol_types[j] as u64)));
        j = j + 1;
    }
    let args = vec![
        AbiToken::Address(vault_addr),
        AbiToken::Array(type_tokens),
        AbiToken::Array(pool_tokens),
    ];
    let kinds = vec![
        AbiKind::Address,
        AbiKind::Array(Box::new(AbiKind::Uint(8))),
        AbiKind::Array(Box::new(AbiKind::Address)),
    ];
    proof {
        assert(kinds@ =~= get_snapshot_kinds());
        assert(is_get_snapshot_args(args@, vault@, protocol_types@, pools@));
    }
    let selector = abi_selector("getSnapshot", &kinds);
    let mut encoded = abi_encode(&args);
    let mut data: Vec<u8> = Vec::new();
    data.push(selector[0]);
    data.push(selector[1]);
    data.push(selector[2]);
    data.push(selector[3]);
    let ghost enc = encoded@;
    data.append(&mut encoded);
    proof {
        assert(data@ =~= selector@ + enc);
    }
    let text = hex_encode(data.as_slice());
    let mut out = String::from_str("0x");
    out.append(text.as_str());
    Ok(out)
}

// ---------------------------------------------------------------------------
// Writing tokens
// ---------------------------------------------------------------------------

fn word_token(w: Word256) -> (r: AbiToken)
    ensures
        r == AbiToken::Uint(w),
        field_error(r, FieldKind::Word) is None,
        word_of(r) == w,
{
    AbiToken::Uint(w)
}

fn u64_token(v: u64) -> (r: AbiToken)
    ensures
        field_error(r, FieldKind::Word64) is None,
        u64_of(r) == v,
{
    AbiToken::Uint(Word256::from_u64(v))
}

fn small_token(v: u8) -> (r: AbiToken)
    ensures
        field_error(r, FieldKind::Small) is None,
        small_of(r) == v,
{
    AbiToken::Uint(Word256::from_u64(v as u64))
}

/// The tuple token of a protocol entry, its rate model nested eighth.
pub fn protocol_to_token(p: &ProtocolData) -> (r: AbiToken)
    ensures
        protocol_error(r) is None,
        protocol_of(r) == *p,
{
    let irm = vec![
        word_token(p.irm.kink1_bps),
        word_token(p.irm.rate_at_kink1_bps),
        word_token(p.irm.kink2_bps),
        word_token(p.irm.rate_at_kink2_bps),
        word_token(p.irm.rate_at_max_bps),
        word_token(p.irm.reserve_factor_bps),
    ];
    proof {
        let e = |i: int| field_error(irm@[i], irm_schema()[i]);
        assert forall|i: int| 0 <= i < 6 implies #[trigger] e(i) is None by {}
        lemma_no_error(6, e);
    }
    let fields = vec![
        small_token(p.protocol_type),
        AbiToken::Address(p.pool),
        word_token(p.our_balance),
        word_token(p.pool_total_supply),
        word_token(p.pool_total_borrow),
        word_token(p.utilization_wad),
        word_token(p.current_apy_wad),
        AbiToken::Tuple(irm),
        word_token(p.meta_total_assets),
        word_token(p.meta_total_supply),
        word_token(p.meta_last_total_assets),
        u64_token(p.meta_last_update),
    ];
    proof {
        let e = |i: int| field_error(fields@[i], protocol_schema()[i]);
        assert forall|i: int| 0 <= i < 12 implies #[trigger] e(i) is None by {}
        lemma_no_error(12, e);
    }
    AbiToken::Tuple(fields)
}

/// The nine top-level tokens that stand for `s`: what the response decoder reads back.
pub fn snapshot_to_tokens(s: &VaultSnapshot) -> (r: Vec<AbiToken>)
    ensures
        snapshot_error(r@) is None,
        snapshot_of(*s, r@),
{
    let mut weights: Vec<AbiToken> = Vec::new();
    let mut i: usize = 0;
    while i < s.target_weights.len()
        invariant
            i <= s.target_weights@.len(),
            weights@.len() == i,
            forall|k: int|
                0 <= k < i ==> #[trigger] weights@[k] == AbiToken::Uint(s.target_weights@[k]),
        decreases s.target_weights@.len() - i,
    {
        weights.push(word_token(s.target_weights[i]));
        i = i + 1;
    }
    let mut protocols: Vec<AbiToken> = Vec::new();
    let mut j: usize = 0;
    while j < s.protocols.len()
        invariant
            j <= s.protocols@.len(),
            protocols@.len() == j,
            forall|k: int|
                0 <= k < j ==> protocol_error(#[trigger] protocols@[k]) is None && protocol_of(
                    protocols@[k],
                ) == s.protocols@[k],
        decreases s.protocols@.len() - j,
    {
        protocols.push(protocol_to_token(&s.protocols[j]));
        j = j + 1;
    }
    let guard = vec![
        small_token(s.guard_state.blocked_mask),
        AbiToken::Bool(s.guard_state.emergency_mode),
        AbiToken::Bool(s.guard_state.emergency_all),
    ];
    let ghost ws = weights@;
    let ghost ps = protocols@;
    let r = vec![
        AbiToken::Address(s.asset),
        word_token(s.total_assets),
        word_token(s.loose_cash),
        AbiToken::Array(weights),
        u64_token(s.last_rebalance_time),
        u64_token(s.rebalance_cooldown),
        u64_token(s.snapshot_timestamp),
        AbiToken::Array(protocols),
        AbiToken::Tuple(guard),
    ];
    proof {
        let e = |k: int| field_error(r@[k], snapshot_schema()[k]);
        assert forall|k: int| 0 <= k < 9 implies #[trigger] e(k) is None by {}
        lemma_no_error(9, e);
        let we = |k: int| field_error(ws[k], FieldKind::Word);
        assert forall|k: int| 0 <= k < ws.len() implies #[trigger] we(k) is None by {}
        lemma_no_error(ws.len(), we);
        let pe = |k: int| protocol_error(ps[k]);
        assert forall|k: int| 0 <= k < ps.len() implies #[trigger] pe(k) is None by {}
        lemma_no_error(ps.len(), pe);
        let g = guard@;
        let ge = |k: int| field_error(g[k], guard_schema()[k]);
        assert forall|k: int| 0 <= k < 3 implies #[trigger] ge(k) is None by {}
        lemma_no_error(3, ge);
        assert(ws.map_values(|x: AbiToken| word_of(x)) =~= s.target_weights@);
        assert(ps.map_values(|x: AbiToken| protocol_of(x)) =~= s.protocols@);
    }
    r
}

/// Two snapshots with the same fields, the lists compared by their contents.
pub open spec fn same_snapshot(a: VaultSnapshot, b: VaultSnapshot) -> bool {
    &&& a.asset == b.asset
    &&& a.total_assets == b.total_assets
    &&& a.loose_cash == b.loose_cash
    &&& a.target_weights@ == b.target_weights@
    &&& a.last_rebalance_time == b.last_rebalance_time
    &&& a.rebalance_cooldown == b.rebalance_cooldown
    &&& a.snapshot_timestamp == b.snapshot_timestamp
    &&& a.protocols@ == b.protocols@
    &&& a.guard_state == b.guard_state
}

/// Encoding a snapshot as tokens and reading the tokens back gives the same
/// snapshot: `t` as `snapshot_to_tokens` promises it for `s`, and `r` as
/// `parse_snapshot_tokens` promises it for `t`.
pub proof fn lemma_snapshot_round_trip(
    s: VaultSnapshot,
    t: Seq<AbiToken>,
    r: Result<VaultSnapshot, CodecError>,
)
    requires
        snapshot_error(t) is None,
        snapshot_of(s, t),
        snapshot_outcome(t, r),
    ensures
        r is Ok,
        same_snapshot(r->Ok_0, s),
{
}

/// Reading the same tokens twice gives the same outcome: the same snapshot,
/// field for field, or the same error.
pub proof fn lemma_snapshot_reading_deterministic(
    t: Seq<AbiToken>,
    r1: Result<VaultSnapshot, CodecError>,
    r2: Result<VaultSnapshot, CodecError>,
)
    requires
        snapshot_outcome(t, r1),
        snapshot_outcome(t, r2),
    ensures
        r1 is Ok <==> r2 is Ok,
        r1 is Ok ==> same_snapshot(r1->Ok_0, r2->Ok_0),
        r1 is Err ==> r1 == r2,
{
}

} // verus!
