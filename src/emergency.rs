//! The emergency monitor: reading the guard manager and deciding whether to
//! activate emergency mode.
//!
//! The monitor asks three read-only questions in turn. `check_emergency_status`
//! takes the answer to the last question and says what to do next: ask the
//! following question, or stop with a decision or a failure.

use vstd::prelude::*;
use crate::abi::{
    abi_decode, abi_decoding, abi_selector, function_selector, hex_bytes, hex_decode, hex_encode,
    is_hex_text, lower_hex, strip_hex_prefix, without_hex_prefix, AbiKind, AbiToken,
};
use crate::records::{
    address_at, check_record, field_error, first_error, flag_at, lemma_first_error_stays,
    lemma_record_fields_ok, record_error, small_at, small_of, u64_at, u64_of, CodecError, FieldKind,
};
use crate::text::{append_decimal, decimal_digits};

verus! {

/// What the monitor is asked to check.
pub struct EmergencyInput {
    /// Address of the guard manager contract.
    pub guard_manager: String,
    /// Address of the vault, for context.
    pub vault: String,
    /// Chain the contracts live on.
    pub chain_id: u64,
    /// What to do; `check` unless given.
    pub action: String,
}

/// The action taken when the input names none.
pub fn default_action() -> (r: String)
    ensures
        r@ == "check"@,
{
    String::from_str("check")
}

/// The decision of the monitor.
pub struct EmergencyResult {
    /// Whether emergency mode should be activated.
    pub should_activate: bool,
    /// Aggregated guard status: 0 normal, 1 caution, 2 emergency.
    pub aggregated_status: u8,
    /// Whether the vault is already in emergency mode.
    pub is_emergency_mode: bool,
    /// Whether every enabled guard had fresh data.
    pub data_fresh: bool,
    /// Why the decision was taken.
    pub message: String,
}

/// One guard as `getGuardsStaleness` reports it.
#[derive(Clone, Copy, Debug, PartialEq, Eq)]
pub struct GuardStalenessInfo {
    pub guard: [u8; 20],
    pub enabled: bool,
    pub updated_at: u64,
    pub is_stale: bool,
}

/// A read-only question to the guard manager.
#[derive(Clone, Copy, Debug, PartialEq, Eq)]
pub enum GuardQuery {
    /// `isEmergencyMode() -> bool`
    EmergencyMode,
    /// `getGuardsStaleness() -> (address,bool,uint48,bool)[]`
    GuardsStaleness,
    /// `getAggregatedStatus() -> uint8`; reverts while a guard is stale.
    AggregatedStatus,
}

/// The answer to a question, or why it could not be had.
pub enum GuardAnswer {
    EmergencyMode(Result<bool, String>),
    GuardsStaleness(Result<Vec<GuardStalenessInfo>, String>),
    AggregatedStatus(Result<u8, String>),
}

/// What to do after an answer.
pub enum EmergencyStep {
    /// Ask this question next.
    Ask(GuardQuery),
    /// Stop: the decision is taken.
    Decide(EmergencyResult),
    /// Stop: the check failed, with this message.
    Fail(String),
}

// ---------------------------------------------------------------------------
// Call data and answers
// ---------------------------------------------------------------------------

/// Name of the contract function behind a question.
pub open spec fn query_function(q: GuardQuery) -> Seq<char> {
    match q {
        GuardQuery::EmergencyMode => "isEmergencyMode"@,
        GuardQuery::GuardsStaleness => "getGuardsStaleness"@,
        GuardQuery::AggregatedStatus => "getAggregatedStatus"@,
    }
}

/// Call data of a question as `0x`-prefixed hex: the function takes no
/// arguments, so the data is its selector alone.
pub fn guard_call_data(q: GuardQuery) -> (r: String)
    ensures
        r@ == "0x"@ + lower_hex(function_selector(query_function(q), Seq::empty())),
{
    let name = match q {
        GuardQuery::EmergencyMode => "isEmergencyMode",
        GuardQuery::GuardsStaleness => "getGuardsStaleness",
        GuardQuery::AggregatedStatus => "getAggregatedStatus",
    };
    let kinds: Vec<AbiKind> = Vec::new();
    let selector = abi_selector(name, &kinds);
    proof {
        assert(kinds@ =~= Seq::<AbiKind>::empty());
    }
    let text = hex_encode(&selector);
    let mut out = String::from_str("0x");
    out.append(text.as_str());
    out
}

/// The tokens in hex result text, read as values of the given kinds.
pub open spec fn result_tokens(text: Seq<char>, kinds: Seq<AbiKind>) -> Result<
    Seq<AbiToken>,
    CodecError,
> {
    let digits = strip_hex_prefix(text);
    if !is_hex_text(digits) {
        Err(CodecError::HexDecode)
    } else {
        match abi_decoding(kinds, hex_bytes(digits)) {
            None => Err(CodecError::AbiDecode),
            Some(t) => Ok(t),
        }
    }
}

fn decode_result(hex_str: &str, kinds: &Vec<AbiKind>) -> (r: Result<Vec<AbiToken>, CodecError>)
    ensures
        match r {
            Ok(t) => result_tokens(hex_str@, kinds@) == Ok::<Seq<AbiToken>, CodecError>(t@),
            Err(e) => result_tokens(hex_str@, kinds@) == Err::<Seq<AbiToken>, CodecError>(e),
        },
{
    let digits = without_hex_prefix(hex_str);
    match hex_decode(digits) {
        None => Err(CodecError::HexDecode),
        Some(bytes) => match abi_decode(kinds, bytes.as_slice()) {
            None => Err(CodecError::AbiDecode),
            Some(t) => Ok(t),
        },
    }
}

/// Reads the result of `isEmergencyMode`.
pub fn decode_emergency_mode(hex_str: &str) -> (r: Result<bool, CodecError>)
    ensures
        match result_tokens(hex_str@, seq![AbiKind::Bool]) {
            Err(e) => r == Err::<bool, CodecError>(e),
            Ok(t) => match record_error(t, seq![FieldKind::Flag]) {
                Some(e) => r == Err::<bool, CodecError>(e),
                None => r == Ok::<bool, CodecError>(t[0]->Bool_0),
            },
        },
{
    let kinds = vec![AbiKind::Bool];
    let schema = vec![FieldKind::Flag];
    proof {
        assert(kinds@ =~= seq![AbiKind::Bool]);
        assert(schema@ =~= seq![FieldKind::Flag]);
    }
    let tokens = match decode_result(hex_str, &kinds) {
        Ok(t) => t,
        Err(e) => return Err(e),
    };
    if let Some(e) = check_record(tokens.as_slice(), schema.as_slice()) {
        return Err(e);
    }
    proof {
        lemma_record_fields_ok(tokens@, schema@);
    }
    Ok(flag_at(&tokens[0]))
}

/// Reads the result of `getAggregatedStatus`: the low byte of a number below 2^32.
pub fn decode_aggregated_status(hex_str: &str) -> (r: Result<u8, CodecError>)
    ensures
        match result_tokens(hex_str@, seq![AbiKind::Uint(8)]) {
            Err(e) => r == Err::<u8, CodecError>(e),
            Ok(t) => match record_error(t, seq![FieldKind::Small]) {
                Some(e) => r == Err::<u8, CodecError>(e),
                None => r == Ok::<u8, CodecError>(small_of(t[0])),
            },
        },
{
    let kinds = vec![AbiKind::Uint(8)];
    let schema = vec![FieldKind::Small];
    proof {
        assert(kinds@ =~= seq![AbiKind::Uint(8)]);
        assert(schema@ =~= seq![FieldKind::Small]);
    }
    let tokens = match decode_result(hex_str, &kinds) {
        Ok(t) => t,
        Err(e) => return Err(e),
    };
    if let Some(e) = check_record(tokens.as_slice(), schema.as_slice()) {
        return Err(e);
    }
    proof {
        lemma_record_fields_ok(tokens@, schema@);
    }
    Ok(small_at(&tokens[0]))
}

/// Guard, enabled flag, update time, stale flag.
pub open spec fn staleness_schema() -> Seq<FieldKind> {
    seq![FieldKind::Address, FieldKind::Flag, FieldKind::Word64, FieldKind::Flag]
}

/// Kinds of the result of `getGuardsStaleness`: one array of four-field tuples.
pub open spec fn is_staleness_kinds(k: Seq<AbiKind>) -> bool {
    &&& k.len() == 1
    &&& k[0] matches AbiKind::Array(item) && (*item matches AbiKind::Tuple(f) && f@ == seq![
        AbiKind::Address,
        AbiKind::Bool,
        AbiKind::Uint(48),
        AbiKind::Bool,
    ])
}

/// The error, if any, of reading one item of the staleness list.
pub open spec fn staleness_error(t: AbiToken) -> Option<CodecError> {
    match t {
        AbiToken::Tuple(f) => record_error(f@, staleness_schema()),
        _ => Some(CodecError::UnexpectedTokenKind),
    }
}

/// The guard that a checked item stands for.
pub open spec fn staleness_of(t: AbiToken) -> GuardStalenessInfo {
    let f = t->Tuple_0@;
    GuardStalenessInfo {
        guard: f[0]->Address_0,
        enabled: f[1]->Bool_0,
        updated_at: u64_of(f[2]),
        is_stale: f[3]->Bool_0,
    }
}

/// What reading the tokens of a `getGuardsStaleness` result yields.
pub open spec fn staleness_outcome(
    t: Seq<AbiToken>,
    r: Result<Vec<GuardStalenessInfo>, CodecError>,
) -> bool {
    match record_error(t, seq![FieldKind::List]) {
        Some(e) => r == Err::<Vec<GuardStalenessInfo>, CodecError>(e),
        None => {
            let items = t[0]->Array_0@;
            match first_error(items.len(), |i: int| staleness_error(items[i])) {
                Some(e) => r == Err::<Vec<GuardStalenessInfo>, CodecError>(e),
                None => r is Ok && r->Ok_0@ == items.map_values(|x: AbiToken| staleness_of(x)),
            }
        },
    }
}

/// Reads the result of `getGuardsStaleness`.
pub fn decode_guards_staleness(hex_str: &str) -> (r: Result<Vec<GuardStalenessInfo>, CodecError>)
    ensures
        exists|kinds: Seq<AbiKind>|
            is_staleness_kinds(kinds) && match result_tokens(hex_str@, kinds) {
                Err(e) => r == Err::<Vec<GuardStalenessInfo>, CodecError>(e),
                Ok(t) => staleness_outcome(t, r),
            },
{
    let fields = vec![AbiKind::Address, AbiKind::Bool, AbiKind::Uint(48), AbiKind::Bool];
    proof {
        assert(fields@ =~= seq![AbiKind::Address, AbiKind::Bool, AbiKind::Uint(48), AbiKind::Bool]);
    }
    let kinds = vec![AbiKind::Array(Box::new(AbiKind::Tuple(fields)))];
    let r = match decode_result(hex_str, &kinds) {
        Err(e) => Err(e),
        Ok(tokens) => read_staleness_tokens(tokens.as_slice()),
    };
    proof {
        assert(is_staleness_kinds(kinds@));
    }
    r
}

fn read_staleness_tokens(tokens: &[AbiToken]) -> (r: Result<Vec<GuardStalenessInfo>, CodecError>)
    ensures
        staleness_outcome(tokens@, r),
{
    let top = vec![FieldKind::List];
    proof {
        assert(top@ =~= seq![FieldKind::List]);
    }
    if let Some(e) = check_record(tokens, top.as_slice()) {
        return Err(e);
    }
    proof {
        lemma_record_fields_ok(tokens@, top@);
        assert(field_error(tokens@[0], FieldKind::List) is None);
    }
    let items = match &tokens[0] {
        AbiToken::Array(a) => a,
        _ => return Err(CodecError::UnexpectedTokenKind),
    };
    let schema = vec![FieldKind::Address, FieldKind::Flag, FieldKind::Word64, FieldKind::Flag];
    proof {
        assert(schema@ =~= staleness_schema());
    }
    let ghost se = |i: int| staleness_error(items@[i]);
    let mut out: Vec<GuardStalenessInfo> = Vec::new();
    let mut i: usize = 0;
    while i < items.len()
        invariant
            tokens@.len() == 1,
            record_error(tokens@, seq![FieldKind::List]) is None,
            tokens@[0] == AbiToken::Array(*items),
            schema@ == staleness_schema(),
            i <= items@.len(),
            se == (|i: int| staleness_error(items@[i])),
            first_error(i as nat, se) is None,
            out@ == items@.subrange(0, i as int).map_values(|x: AbiToken| staleness_of(x)),
        decreases items@.len() - i,
    {
        let f = match &items[i] {
            AbiToken::Tuple(f) => f,
            _ => {
                proof {
                    lemma_first_error_stays((i + 1) as nat, items@.len(), se);
                    assert((|k: int| staleness_error(items@[k])) =~= se);
                }
                return Err(CodecError::UnexpectedTokenKind);
            },
        };
        if let Some(e) = check_record(f.as_slice(), schema.as_slice()) {
            proof {
                lemma_first_error_stays((i + 1) as nat, items@.len(), se);
                assert((|k: int| staleness_error(items@[k])) =~= se);
            }
            return Err(e);
        }
        proof {
            lemma_record_fields_ok(f@, schema@);
        }
        out.push(
            GuardStalenessInfo {
                guard: address_at(&f[0]),
                enabled: flag_at(&f[1]),
                updated_at: u64_at(&f[2]),
                is_stale: flag_at(&f[3]),
            },
        );
        proof {
            assert(items@.subrange(0, i + 1).map_values(|x: AbiToken| staleness_of(x))
                =~= items@.subrange(0, i as int).map_values(|x: AbiToken| staleness_of(x)).push(
                staleness_of(items@[i as int]),
            ));
        }
        i = i + 1;
    }
    proof {
        assert(items@.subrange(0, i as int) =~= items@);
        assert((|k: int| staleness_error(items@[k])) =~= se);
    }
    Ok(out)
}

// ---------------------------------------------------------------------------
// The decision
// ---------------------------------------------------------------------------

/// Number of enabled guards whose data is stale.
pub open spec fn stale_enabled_count(gs: Seq<GuardStalenessInfo>) -> nat
    decreases gs.len(),
{
    if gs.len() == 0 {
        0
    } else {
        stale_enabled_count(gs.drop_last()) + if gs.last().enabled && gs.last().is_stale {
            1nat
        } else {
            0nat
        }
    }
}

/// Number of enabled guards.
pub open spec fn enabled_count(gs: Seq<GuardStalenessInfo>) -> nat
    decreases gs.len(),
{
    if gs.len() == 0 {
        0
    } else {
        enabled_count(gs.drop_last()) + if gs.last().enabled {
            1nat
        } else {
            0nat
        }
    }
}

/// The result fields of a decision, its message aside.
pub open spec fn decision_is(
    r: EmergencyResult,
    should_activate: bool,
    aggregated_status: u8,
    is_emergency_mode: bool,
    data_fresh: bool,
    message: Seq<char>,
) -> bool {
    &&& r.should_activate == should_activate
    &&& r.aggregated_status == aggregated_status
    &&& r.is_emergency_mode == is_emergency_mode
    &&& r.data_fresh == data_fresh
    &&& r.message@ == message
}

/// What follows an answer:
/// - a failed first or second question fails the check;
/// - a vault already in emergency mode needs nothing;
/// - an enabled stale guard stops the check until the guards are updated;
/// - with fresh guards, the aggregated status decides: normal needs
///   nothing, anything above asks for activation; a failure to read it
///   needs nothing and is reported.
pub open spec fn emergency_step(a: GuardAnswer, s: EmergencyStep) -> bool {
    match a {
        GuardAnswer::EmergencyMode(Err(e)) => s is Fail && s->Fail_0@
            == "Failed to check emergency status: "@ + e@,
        GuardAnswer::EmergencyMode(Ok(true)) => s is Decide && decision_is(
            s->Decide_0,
            false,
            2,
            true,
            true,
            "Already in emergency mode"@,
        ),
        GuardAnswer::EmergencyMode(Ok(false)) => s == EmergencyStep::Ask(GuardQuery::GuardsStaleness),
        GuardAnswer::GuardsStaleness(Err(e)) => s is Fail && s->Fail_0@
            == "Failed to check emergency status: "@ + e@,
        GuardAnswer::GuardsStaleness(Ok(gs)) => if stale_enabled_count(gs@) > 0 {
            s is Decide && decision_is(
                s->Decide_0,
                false,
                0,
                false,
                false,
                decimal_digits(stale_enabled_count(gs@)) + "/"@ + decimal_digits(
                    enabled_count(gs@),
                ) + " guards are stale. Run guard-updates workflow first."@,
            )
        } else {
            s == EmergencyStep::Ask(GuardQuery::AggregatedStatus)
        },
        GuardAnswer::AggregatedStatus(Err(e)) => s is Decide && decision_is(
            s->Decide_0,
            false,
            0,
            false,
            true,
            "Failed to get guard status: "@ + e@,
        ),
        GuardAnswer::AggregatedStatus(Ok(status)) => if status == 0 {
            s is Decide && decision_is(
                s->Decide_0,
                false,
                0,
                false,
                true,
                "All guards normal, no action needed"@,
            )
        } else {
            s is Decide && decision_is(
                s->Decide_0,
                true,
                status,
                false,
                true,
                "Guard(s) triggered (status="@ + decimal_digits(status as nat)
                    + "), activating emergency mode"@,
            )
        },
    }
}

/// The first question of every check.
pub fn first_guard_query() -> (r: GuardQuery)
    ensures
        r == GuardQuery::EmergencyMode,
{
    GuardQuery::EmergencyMode
}

fn concat(a: String, b: &str) -> (r: String)
    ensures
        r@ == a@ + b@,
{
    let mut a = a;
    a.append(b);
    a
}

/// Decides what follows the answer to the last question.
pub fn check_emergency_status(answer: GuardAnswer) -> (r: EmergencyStep)
    ensures
        emergency_step(answer, r),
{
    match answer {
        GuardAnswer::EmergencyMode(Err(e)) => EmergencyStep::Fail(
            concat(String::from_str("Failed to check emergency status: "), e.as_str()),
        ),
        GuardAnswer::EmergencyMode(Ok(true)) => EmergencyStep::Decide(
            EmergencyResult {
                should_activate: false,
                aggregated_status: 2,
                is_emergency_mode: true,
                data_fresh: true,
                message: String::from_str("Already in emergency mode"),
            },
        ),
        GuardAnswer::EmergencyMode(Ok(false)) => EmergencyStep::Ask(GuardQuery::GuardsStaleness),
        GuardAnswer::GuardsStaleness(Err(e)) => EmergencyStep::Fail(
            concat(String::from_str("Failed to check emergency status: "), e.as_str()),
        ),
        GuardAnswer::GuardsStaleness(Ok(gs)) => {
            let mut stale: u64 = 0;
            let mut enabled: u64 = 0;
            let mut i: usize = 0;
            while i < gs.len()
                invariant
                    i <= gs@.len(),
                    stale as nat == stale_enabled_count(gs@.subrange(0, i as int)),
                    enabled as nat == enabled_count(gs@.subrange(0, i as int)),
                    stale <= i,
                    enabled <= i,
                    i <= usize::MAX,
                decreases gs@.len() - i,
            {
                proof {
                    assert(gs@.subrange(0, i + 1).drop_last() =~= gs@.subrange(0, i as int));
                }
                if gs[i].enabled {
                    enabled = enabled + 1;
                    if gs[i].is_stale {
                        stale = stale + 1;
                    }
                }
                i = i + 1;
            }
            proof {
                assert(gs@.subrange(0, i as int) =~= gs@);
            }
            if stale > 0 {
                let mut message = String::new();
                append_decimal(&mut message, stale);
                message.append("/");
                append_decimal(&mut message, enabled);
                message.append(" guards are stale. Run guard-updates workflow first.");
                EmergencyStep::Decide(
                    EmergencyResult {
                        should_activate: false,
                        aggregated_status: 0,
                        is_emergency_mode: false,
                        data_fresh: false,
                        message,
                    },
                )
            } else {
                EmergencyStep::Ask(GuardQuery::AggregatedStatus)
            }
        },
        GuardAnswer::AggregatedStatus(Err(e)) => EmergencyStep::Decide(
            EmergencyResult {
                should_activate: false,
                aggregated_status: 0,
                is_emergency_mode: false,
                data_fresh: true,
                message: concat(String::from_str("Failed to get guard status: "), e.as_str()),
            },
        ),
        GuardAnswer::AggregatedStatus(Ok(status)) => {
            if status == 0 {
                EmergencyStep::Decide(
                    EmergencyResult {
                        should_activate: false,
                        aggregated_status: 0,
                        is_emergency_mode: false,
                        data_fresh: true,
                        message: String::from_str("All guards normal, no action needed"),
                    },
                )
            } else {
                let mut message = String::from_str("Guard(s) triggered (status=");
                append_decimal(&mut message, status as u64);
                message.append("), activating emergency mode");
                EmergencyStep::Decide(
                    EmergencyResult {
                        should_activate: true,
                        aggregated_status: status,
                        is_emergency_mode: false,
                        data_fresh: true,
                        message,
                    },
                )
            }
        },
    }
}

} // verus!
