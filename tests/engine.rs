use ethabi::{ParamType, Token};
use ethereum_types::{H160, U256};
use rebalance_engine::{
    calc_dilution_time_delta, check_emergency_status, decode_aggregated_status,
    decode_emergency_mode, decode_guards_staleness, decode_vault_snapshot, default_action,
    default_step_pct, encode_get_snapshot_call, first_guard_query, generate_bounded_weight_grid,
    generate_weight_grid, guard_call_data, is_blocked, parse_guard_state_token, parse_irm_token,
    parse_protocol_token, parse_snapshot_tokens, pool_share_cap_pct, rpc_poll_step, select_mode,
    snapshot_to_tokens, word_hex_string, AbiToken, CodecError, EmergencyStep, GuardAnswer,
    GuardQuery, GuardStalenessInfo, GuardState, IRMParamsRaw, PollAction, ProtocolData, RpcConfig,
    RunMode, VaultSnapshot, Word256,
};

fn word(v: u64) -> Word256 {
    Word256::from_u64(v)
}

fn binomial(n: u64, k: u64) -> u64 {
    let mut r: u64 = 1;
    for i in 0..k {
        r = r * (n - i) / (i + 1);
    }
    r
}

// ---------------------------------------------------------------------------
// Dilution window
// ---------------------------------------------------------------------------

#[test]
fn dilution_delta_one_day() {
    let ts = 1_700_000_000u64;
    assert_eq!(calc_dilution_time_delta(ts - 86_400, ts), 86_400);
}

#[test]
fn dilution_delta_fallbacks() {
    assert_eq!(calc_dilution_time_delta(100, 0), 604_800);
    assert_eq!(calc_dilution_time_delta(0, 1_000_000), 604_800);
    assert_eq!(calc_dilution_time_delta(2_000, 2_000), 604_800);
    assert_eq!(calc_dilution_time_delta(3_000, 2_000), 604_800);
}

#[test]
fn dilution_delta_clamped() {
    assert_eq!(calc_dilution_time_delta(1_000_000 - 10, 1_000_000), 3_600);
    assert_eq!(calc_dilution_time_delta(1, 100_000_000), 2_592_000);
    assert_eq!(calc_dilution_time_delta(1_000_000, 1_003_600), 3_600);
    assert_eq!(calc_dilution_time_delta(1_000_000, 3_592_000), 2_592_000);
}

#[test]
fn dilution_delta_always_in_range_or_fallback() {
    let samples = [0u64, 1, 59, 3_599, 3_600, 3_601, 86_400, 2_591_999, 2_592_000, 2_592_001, u64::MAX / 2];
    for &a in samples.iter() {
        for &b in samples.iter() {
            let d = calc_dilution_time_delta(a, b);
            assert!(d == 604_800 || (3_600 <= d && d <= 2_592_000));
        }
    }
}

// ---------------------------------------------------------------------------
// Grid
// ---------------------------------------------------------------------------

#[test]
fn grid_single_protocol_has_one_candidate() {
    let g = generate_weight_grid(1, 1);
    assert_eq!(g, vec![vec![100usize]]);
}

#[test]
fn grid_two_protocols_ten_percent() {
    let g = generate_weight_grid(2, 10);
    assert_eq!(g.len(), 11);
    for (k, c) in g.iter().enumerate() {
        assert_eq!(c, &vec![k, 10 - k]);
    }
}

#[test]
fn grid_sums_are_exact() {
    let g = generate_weight_grid(3, 5);
    for c in g.iter() {
        assert_eq!(c.len(), 3);
        assert_eq!(c.iter().sum::<usize>(), 20);
    }
    let w: Vec<f64> = g[7].iter().map(|&k| k as f64 * (1.0 / 20.0)).collect();
    assert!((w.iter().sum::<f64>() - 1.0).abs() <= 5.0 * 1e-12);
}

#[test]
fn grid_cardinality_matches_binomial() {
    for n in 1..5usize {
        for &step in [10usize, 20, 25, 50].iter() {
            let s = (100 / step) as u64;
            let g = generate_weight_grid(n, step);
            assert_eq!(g.len() as u64, binomial(s + n as u64 - 1, n as u64 - 1));
        }
    }
}

#[test]
fn grid_order_is_depth_first() {
    let g = generate_weight_grid(3, 50);
    let expected: Vec<Vec<usize>> = vec![
        vec![0, 0, 2],
        vec![0, 1, 1],
        vec![0, 2, 0],
        vec![1, 0, 1],
        vec![1, 1, 0],
        vec![2, 0, 0],
    ];
    assert_eq!(g, expected);
}

#[test]
fn grid_is_deterministic() {
    assert_eq!(generate_weight_grid(4, 10), generate_weight_grid(4, 10));
    assert_eq!(
        generate_bounded_weight_grid(3, 10, &[40, 100, 70]),
        generate_bounded_weight_grid(3, 10, &[40, 100, 70])
    );
}

#[test]
fn bounded_grid_two_protocol_caps() {
    // Pool caps of 100% and 51% at a 10% step: the second axis holds at most 5 steps.
    let g = generate_bounded_weight_grid(2, 10, &[100, 51]);
    assert_eq!(g.len(), 6);
    for (k, c) in g.iter().enumerate() {
        assert_eq!(c, &vec![5 + k, 5 - k]);
    }
}

#[test]
fn bounded_grid_blocked_axis_capped_at_zero() {
    let g = generate_bounded_weight_grid(2, 10, &[0, 100]);
    assert_eq!(g, vec![vec![0usize, 10]]);
}

#[test]
fn bounded_grid_empty_when_caps_too_small() {
    let g = generate_bounded_weight_grid(2, 10, &[30, 30]);
    assert!(g.is_empty());
}

#[test]
fn bounded_grid_respects_caps() {
    let caps = [40usize, 100, 70];
    let g = generate_bounded_weight_grid(3, 10, &caps);
    assert!(!g.is_empty());
    for c in g.iter() {
        assert_eq!(c.iter().sum::<usize>(), 10);
        for i in 0..3 {
            assert!(c[i] <= caps[i] / 10);
        }
    }
}

// ---------------------------------------------------------------------------
// Policy
// ---------------------------------------------------------------------------

#[test]
fn blocked_mask_bits() {
    assert!(is_blocked(0b01, 0));
    assert!(!is_blocked(0b01, 1));
    assert!(is_blocked(0b1000_0000, 7));
    assert!(!is_blocked(0xff, 8));
    assert!(!is_blocked(0xff, 40));
}

#[test]
fn pool_share_cap_rounds_up_and_caps() {
    assert_eq!(pool_share_cap_pct(0, false), 0);
    assert_eq!(pool_share_cap_pct(0, true), 1);
    assert_eq!(pool_share_cap_pct(50, false), 50);
    assert_eq!(pool_share_cap_pct(50, true), 51);
    assert_eq!(pool_share_cap_pct(99, false), 99);
    assert_eq!(pool_share_cap_pct(99, true), 100);
    assert_eq!(pool_share_cap_pct(100, false), 100);
    assert_eq!(pool_share_cap_pct(250, true), 100);
    assert_eq!(pool_share_cap_pct(usize::MAX, true), 100);
}

#[test]
fn defaults() {
    assert_eq!(default_step_pct(), 1);
    assert_eq!(default_action(), "check");
}

// ---------------------------------------------------------------------------
// Hex words
// ---------------------------------------------------------------------------

#[test]
fn word_hex_zero() {
    let s = word_hex_string(0);
    assert_eq!(s, format!("0x{}", "0".repeat(64)));
}

#[test]
fn word_hex_values() {
    assert_eq!(word_hex_string(255), format!("0x{:064x}", 255u128));
    assert_eq!(word_hex_string(1_000_000), format!("0x{:064x}", 1_000_000u128));
    assert_eq!(word_hex_string(u128::MAX), format!("0x{}{}", "0".repeat(32), "f".repeat(32)));
}

#[test]
fn word_hex_width() {
    for v in [0u128, 1, 15, 16, 1 << 64, 1_000_000_000_000_000_000, u128::MAX].iter() {
        assert_eq!(word_hex_string(*v).len(), 66);
    }
}

#[test]
fn word_low_bits() {
    let w = Word256 { limbs: [5, 7, 9, 11] };
    assert_eq!(w.low_u128(), 5 + (7u128 << 64));
    assert!(!w.fits_u64());
    assert!(Word256::from_u64(42).fits_u64());
    assert_eq!(Word256::from_u64(42).low_u128(), 42);
}

// ---------------------------------------------------------------------------
// getSnapshot call
// ---------------------------------------------------------------------------

const VAULT: &str = "0x1111111111111111111111111111111111111111";
const POOL_A: &str = "0x2222222222222222222222222222222222222222";
const POOL_B: &str = "0x3333333333333333333333333333333333333333";

#[test]
fn get_snapshot_call_data() {
    let pools = vec![POOL_A.to_string(), POOL_B.to_string()];
    let data = encode_get_snapshot_call(VAULT, &[1, 4], &pools).unwrap();

    let vault: H160 = VAULT.parse().unwrap();
    let a: H160 = POOL_A.parse().unwrap();
    let b: H160 = POOL_B.parse().unwrap();
    let selector = ethabi::short_signature(
        "getSnapshot",
        &[
            ParamType::Address,
            ParamType::Array(Box::new(ParamType::Uint(8))),
            ParamType::Array(Box::new(ParamType::Address)),
        ],
    );
    let body = ethabi::encode(&[
        Token::Address(vault),
        Token::Array(vec![Token::Uint(U256::from(1u8)), Token::Uint(U256::from(4u8))]),
        Token::Array(vec![Token::Address(a), Token::Address(b)]),
    ]);
    let mut bytes = selector.to_vec();
    bytes.extend(body);
    assert_eq!(data, format!("0x{}", hex::encode(bytes)));
    assert!(data.starts_with("0x"));
    assert_eq!(&data[2..10], hex::encode(selector));
}

#[test]
fn get_snapshot_call_rejects_bad_vault() {
    let r = encode_get_snapshot_call("0x1234", &[], &[]);
    assert_eq!(r, Err(CodecError::InvalidVaultAddress));
}

#[test]
fn get_snapshot_call_rejects_bad_pool() {
    let pools = vec![POOL_A.to_string(), "not-an-address".to_string(), "0xzz".to_string()];
    let r = encode_get_snapshot_call(VAULT, &[1, 2, 3], &pools);
    assert_eq!(r, Err(CodecError::InvalidPoolAddress(1)));
}

#[test]
fn get_snapshot_call_accepts_unprefixed_address() {
    let r = encode_get_snapshot_call(&VAULT[2..], &[], &[]);
    assert!(r.is_ok());
}

// ---------------------------------------------------------------------------
// Snapshot decoding
// ---------------------------------------------------------------------------

fn u(v: u64) -> Token {
    Token::Uint(U256::from(v))
}

fn sample_protocol_tokens(kind: u64, pool: u8, balance: u64) -> Token {
    Token::Tuple(vec![
        u(kind),
        Token::Address(H160([pool; 20])),
        u(balance),
        u(10_000_000),
        u(5_000_000),
        u(500_000_000_000_000_000),
        u(40_000_000_000_000_000),
        Token::Tuple(vec![u(9_000), u(400), u(0), u(0), u(7_500), u(1_000)]),
        u(1_010_000),
        u(1_000_000),
        u(1_000_000),
        u(1_699_913_600),
    ])
}

fn sample_snapshot_tokens() -> Vec<Token> {
    vec![
        Token::Address(H160([0xaa; 20])),
        u(1_000_000),
        u(25_000),
        Token::Array(vec![u(600_000_000_000_000_000), u(400_000_000_000_000_000)]),
        u(1_699_000_000),
        u(3_600),
        u(1_700_000_000),
        Token::Array(vec![sample_protocol_tokens(1, 0x22, 0), sample_protocol_tokens(4, 0x33, 7)]),
        Token::Tuple(vec![u(1), Token::Bool(false), Token::Bool(true)]),
    ]
}

fn response_hex(fields: Vec<Token>) -> String {
    format!("0x{}", hex::encode(ethabi::encode(&[Token::Tuple(fields)])))
}

#[test]
fn decode_snapshot_response() {
    let s = decode_vault_snapshot(&response_hex(sample_snapshot_tokens())).unwrap();
    assert_eq!(s.asset, [0xaa; 20]);
    assert_eq!(s.total_assets, word(1_000_000));
    assert_eq!(s.loose_cash, word(25_000));
    assert_eq!(s.target_weights, vec![word(600_000_000_000_000_000), word(400_000_000_000_000_000)]);
    assert_eq!(s.last_rebalance_time, 1_699_000_000);
    assert_eq!(s.rebalance_cooldown, 3_600);
    assert_eq!(s.snapshot_timestamp, 1_700_000_000);
    assert_eq!(s.protocols.len(), 2);
    let p = &s.protocols[1];
    assert_eq!(p.protocol_type, 4);
    assert_eq!(p.pool, [0x33; 20]);
    assert_eq!(p.our_balance, word(7));
    assert_eq!(p.pool_total_supply, word(10_000_000));
    assert_eq!(p.irm.kink1_bps, word(9_000));
    assert_eq!(p.irm.reserve_factor_bps, word(1_000));
    assert_eq!(p.meta_total_assets, word(1_010_000));
    assert_eq!(p.meta_last_update, 1_699_913_600);
    assert_eq!(
        s.guard_state,
        GuardState { blocked_mask: 1, emergency_mode: false, emergency_all: true }
    );
}

#[test]
fn decode_snapshot_without_prefix() {
    let text = response_hex(sample_snapshot_tokens());
    let a = decode_vault_snapshot(&text).unwrap();
    let b = decode_vault_snapshot(&text[2..]).unwrap();
    assert_eq!(a, b);
}

fn sample_snapshot() -> VaultSnapshot {
    let irm = IRMParamsRaw {
        kink1_bps: word(9_300),
        rate_at_kink1_bps: word(1_000),
        kink2_bps: word(0),
        rate_at_kink2_bps: word(0),
        rate_at_max_bps: word(2_500),
        reserve_factor_bps: word(0),
    };
    let p = ProtocolData {
        protocol_type: 3,
        pool: [7; 20],
        our_balance: Word256 { limbs: [1, 2, 3, 4] },
        pool_total_supply: word(2_000_000),
        pool_total_borrow: word(1_000_000),
        utilization_wad: word(500_000_000_000_000_000),
        current_apy_wad: word(30_000_000_000_000_000),
        irm,
        meta_total_assets: word(0),
        meta_total_supply: word(0),
        meta_last_total_assets: word(0),
        meta_last_update: u64::MAX,
    };
    VaultSnapshot {
        asset: [9; 20],
        total_assets: word(1_000_000),
        loose_cash: word(0),
        target_weights: vec![word(1), Word256 { limbs: [0, 0, 0, u64::MAX] }],
        last_rebalance_time: 12,
        rebalance_cooldown: 34,
        snapshot_timestamp: 56,
        protocols: vec![p, ProtocolData { protocol_type: 255, ..p }],
        guard_state: GuardState { blocked_mask: 0b10, emergency_mode: true, emergency_all: false },
    }
}

#[test]
fn snapshot_token_round_trip() {
    let s = sample_snapshot();
    let tokens = snapshot_to_tokens(&s);
    assert_eq!(tokens.len(), 9);
    assert_eq!(parse_snapshot_tokens(&tokens), Ok(s));
}

fn to_ethabi(t: &AbiToken) -> Token {
    match t {
        AbiToken::Address(a) => Token::Address(H160(*a)),
        AbiToken::Uint(w) => Token::Uint(U256(w.limbs)),
        AbiToken::Int(w) => Token::Int(U256(w.limbs)),
        AbiToken::Bool(b) => Token::Bool(*b),
        AbiToken::Bytes(b) => Token::Bytes(b.clone()),
        AbiToken::FixedBytes(b) => Token::FixedBytes(b.clone()),
        AbiToken::Text(s) => Token::String(s.clone()),
        AbiToken::Array(v) => Token::Array(v.iter().map(to_ethabi).collect()),
        AbiToken::FixedArray(v) => Token::FixedArray(v.iter().map(to_ethabi).collect()),
        AbiToken::Tuple(v) => Token::Tuple(v.iter().map(to_ethabi).collect()),
    }
}

#[test]
fn snapshot_byte_round_trip() {
    let s = sample_snapshot();
    let fields: Vec<Token> = snapshot_to_tokens(&s).iter().map(to_ethabi).collect();
    assert_eq!(decode_vault_snapshot(&response_hex(fields)), Ok(s));
}

#[test]
fn decode_snapshot_bad_hex() {
    assert_eq!(decode_vault_snapshot("0xzz"), Err(CodecError::HexDecode));
    assert_eq!(decode_vault_snapshot("0xabc"), Err(CodecError::HexDecode));
}

#[test]
fn decode_snapshot_too_short() {
    assert_eq!(decode_vault_snapshot("0x00ff"), Err(CodecError::ResponseTooShort(2)));
    assert_eq!(decode_vault_snapshot("0x"), Err(CodecError::ResponseTooShort(0)));
}

#[test]
fn decode_snapshot_abi_refused() {
    let text = format!("0x{}", "00".repeat(40));
    assert_eq!(decode_vault_snapshot(&text), Err(CodecError::AbiDecode));
}

#[test]
fn parse_snapshot_arity() {
    let tokens = vec![AbiToken::Bool(true), AbiToken::Bool(false)];
    assert_eq!(parse_snapshot_tokens(&tokens), Err(CodecError::UnexpectedArity(2, 9)));
}

#[test]
fn parse_snapshot_wrong_kind() {
    let mut tokens = snapshot_to_tokens(&sample_snapshot());
    tokens[1] = AbiToken::Bool(true);
    assert_eq!(parse_snapshot_tokens(&tokens), Err(CodecError::UnexpectedTokenKind));
}

#[test]
fn parse_snapshot_timestamp_overflow() {
    let mut tokens = snapshot_to_tokens(&sample_snapshot());
    tokens[6] = AbiToken::Uint(Word256 { limbs: [0, 1, 0, 0] });
    assert_eq!(parse_snapshot_tokens(&tokens), Err(CodecError::ValueOverflow));
}

#[test]
fn parse_protocol_checks() {
    assert_eq!(parse_protocol_token(&AbiToken::Bool(true)), Err(CodecError::UnexpectedTokenKind));
    assert_eq!(
        parse_protocol_token(&AbiToken::Tuple(vec![AbiToken::Bool(true)])),
        Err(CodecError::UnexpectedArity(1, 12))
    );
    let s = sample_snapshot();
    let tokens = snapshot_to_tokens(&s);
    if let AbiToken::Array(ps) = &tokens[7] {
        assert_eq!(parse_protocol_token(&ps[0]), Ok(s.protocols[0]));
    } else {
        panic!("protocols are not an array");
    }
}

#[test]
fn parse_protocol_type_truncates_to_low_byte() {
    let mut tokens = snapshot_to_tokens(&sample_snapshot());
    if let AbiToken::Array(ps) = &mut tokens[7] {
        if let AbiToken::Tuple(f) = &mut ps[0] {
            f[0] = AbiToken::Uint(word(300));
        }
    }
    let s = parse_snapshot_tokens(&tokens).unwrap();
    assert_eq!(s.protocols[0].protocol_type, 44);
    if let AbiToken::Array(ps) = &mut tokens[7] {
        if let AbiToken::Tuple(f) = &mut ps[0] {
            f[0] = AbiToken::Uint(word(1 << 33));
        }
    }
    assert_eq!(parse_snapshot_tokens(&tokens), Err(CodecError::ValueOverflow));
}

#[test]
fn parse_irm_and_guard() {
    let f: Vec<AbiToken> = (1..7u64).map(|v| AbiToken::Uint(word(v))).collect();
    let irm = parse_irm_token(&f).unwrap();
    assert_eq!(irm.kink1_bps, word(1));
    assert_eq!(irm.reserve_factor_bps, word(6));
    assert_eq!(parse_irm_token(&f[..5]), Err(CodecError::UnexpectedArity(5, 6)));
    let g = vec![AbiToken::Uint(word(3)), AbiToken::Bool(true), AbiToken::Bool(false)];
    assert_eq!(
        parse_guard_state_token(&g),
        Ok(GuardState { blocked_mask: 3, emergency_mode: true, emergency_all: false })
    );
    let bad = vec![AbiToken::Uint(word(3)), AbiToken::Uint(word(1)), AbiToken::Bool(false)];
    assert_eq!(parse_guard_state_token(&bad), Err(CodecError::UnexpectedTokenKind));
}

// ---------------------------------------------------------------------------
// Emergency monitor
// ---------------------------------------------------------------------------

#[test]
fn guard_call_data_is_selector() {
    for (q, name) in [
        (GuardQuery::EmergencyMode, "isEmergencyMode"),
        (GuardQuery::GuardsStaleness, "getGuardsStaleness"),
        (GuardQuery::AggregatedStatus, "getAggregatedStatus"),
    ]
    .iter()
    {
        let expected = format!("0x{}", hex::encode(ethabi::short_signature(name, &[])));
        assert_eq!(guard_call_data(*q), expected);
        assert_eq!(guard_call_data(*q).len(), 10);
    }
}

#[test]
fn decode_emergency_answers() {
    let t = format!("0x{}", hex::encode(ethabi::encode(&[Token::Bool(true)])));
    assert_eq!(decode_emergency_mode(&t), Ok(true));
    let f = format!("0x{}", hex::encode(ethabi::encode(&[Token::Bool(false)])));
    assert_eq!(decode_emergency_mode(&f), Ok(false));
    assert_eq!(decode_emergency_mode("0xq1"), Err(CodecError::HexDecode));
    assert_eq!(decode_emergency_mode("0x"), Err(CodecError::AbiDecode));
    let s = format!("0x{}", hex::encode(ethabi::encode(&[u(2)])));
    assert_eq!(decode_aggregated_status(&s), Ok(2));
}

#[test]
fn decode_staleness_list() {
    let list = Token::Array(vec![
        Token::Tuple(vec![Token::Address(H160([1; 20])), Token::Bool(true), u(123), Token::Bool(false)]),
        Token::Tuple(vec![Token::Address(H160([2; 20])), Token::Bool(false), u(456), Token::Bool(true)]),
    ]);
    let text = format!("0x{}", hex::encode(ethabi::encode(&[list])));
    let gs = decode_guards_staleness(&text).unwrap();
    assert_eq!(
        gs,
        vec![
            GuardStalenessInfo { guard: [1; 20], enabled: true, updated_at: 123, is_stale: false },
            GuardStalenessInfo { guard: [2; 20], enabled: false, updated_at: 456, is_stale: true },
        ]
    );
}

fn guard(enabled: bool, is_stale: bool) -> GuardStalenessInfo {
    GuardStalenessInfo { guard: [0; 20], enabled, updated_at: 0, is_stale }
}

#[test]
fn emergency_walk_starts_with_mode() {
    assert_eq!(first_guard_query(), GuardQuery::EmergencyMode);
    match check_emergency_status(GuardAnswer::EmergencyMode(Ok(false))) {
        EmergencyStep::Ask(q) => assert_eq!(q, GuardQuery::GuardsStaleness),
        _ => panic!("expected the staleness question"),
    }
}

#[test]
fn emergency_already_active() {
    match check_emergency_status(GuardAnswer::EmergencyMode(Ok(true))) {
        EmergencyStep::Decide(r) => {
            assert!(!r.should_activate);
            assert_eq!(r.aggregated_status, 2);
            assert!(r.is_emergency_mode);
            assert!(r.data_fresh);
            assert_eq!(r.message, "Already in emergency mode");
        }
        _ => panic!("expected a decision"),
    }
}

#[test]
fn emergency_stale_guard() {
    let answer = GuardAnswer::GuardsStaleness(Ok(vec![guard(true, true)]));
    match check_emergency_status(answer) {
        EmergencyStep::Decide(r) => {
            assert!(!r.should_activate);
            assert!(!r.data_fresh);
            assert!(!r.is_emergency_mode);
            assert_eq!(r.aggregated_status, 0);
            assert_eq!(r.message, "1/1 guards are stale. Run guard-updates workflow first.");
        }
        _ => panic!("expected a decision"),
    }
}

#[test]
fn emergency_stale_counts_only_enabled() {
    let answer = GuardAnswer::GuardsStaleness(Ok(vec![
        guard(true, true),
        guard(false, true),
        guard(true, false),
        guard(true, true),
    ]));
    match check_emergency_status(answer) {
        EmergencyStep::Decide(r) => {
            assert_eq!(r.message, "2/3 guards are stale. Run guard-updates workflow first.");
        }
        _ => panic!("expected a decision"),
    }
    let fresh = GuardAnswer::GuardsStaleness(Ok(vec![guard(false, true), guard(true, false)]));
    match check_emergency_status(fresh) {
        EmergencyStep::Ask(q) => assert_eq!(q, GuardQuery::AggregatedStatus),
        _ => panic!("expected the status question"),
    }
}

#[test]
fn emergency_status_decides() {
    match check_emergency_status(GuardAnswer::AggregatedStatus(Ok(0))) {
        EmergencyStep::Decide(r) => {
            assert!(!r.should_activate);
            assert!(r.data_fresh);
            assert_eq!(r.message, "All guards normal, no action needed");
        }
        _ => panic!("expected a decision"),
    }
    match check_emergency_status(GuardAnswer::AggregatedStatus(Ok(2))) {
        EmergencyStep::Decide(r) => {
            assert!(r.should_activate);
            assert_eq!(r.aggregated_status, 2);
            assert_eq!(r.message, "Guard(s) triggered (status=2), activating emergency mode");
        }
        _ => panic!("expected a decision"),
    }
    match check_emergency_status(GuardAnswer::AggregatedStatus(Ok(137))) {
        EmergencyStep::Decide(r) => {
            assert_eq!(r.message, "Guard(s) triggered (status=137), activating emergency mode");
        }
        _ => panic!("expected a decision"),
    }
}

#[test]
fn emergency_status_failure_is_reported() {
    let answer = GuardAnswer::AggregatedStatus(Err("execution reverted".to_string()));
    match check_emergency_status(answer) {
        EmergencyStep::Decide(r) => {
            assert!(!r.should_activate);
            assert!(r.data_fresh);
            assert_eq!(r.message, "Failed to get guard status: execution reverted");
        }
        _ => panic!("expected a decision"),
    }
}

#[test]
fn emergency_early_failure_fails() {
    match check_emergency_status(GuardAnswer::EmergencyMode(Err("boom".to_string()))) {
        EmergencyStep::Fail(m) => assert_eq!(m, "Failed to check emergency status: boom"),
        _ => panic!("expected a failure"),
    }
    match check_emergency_status(GuardAnswer::GuardsStaleness(Err("RPC call timeout after 10s".to_string()))) {
        EmergencyStep::Fail(m) => {
            assert_eq!(m, "Failed to check emergency status: RPC call timeout after 10s")
        }
        _ => panic!("expected a failure"),
    }
}

// ---------------------------------------------------------------------------
// RPC channel
// ---------------------------------------------------------------------------

#[test]
fn rpc_paths_and_defaults() {
    let c = RpcConfig::new("/tmp/work".to_string(), None, None);
    assert_eq!(c.request_path(), "/tmp/work/wasm_rpc_request.json");
    assert_eq!(c.response_path(), "/tmp/work/wasm_rpc_response.json");
    let d = RpcConfig::new("w".to_string(), Some("req.json".to_string()), Some("resp.json".to_string()));
    assert_eq!(d.request_path(), "w/req.json");
    assert_eq!(d.response_path(), "w/resp.json");
}

#[test]
fn rpc_paths_join_like_paths() {
    let c = RpcConfig::new("w".to_string(), Some("/r".to_string()), Some("/abs/resp.json".to_string()));
    assert_eq!(c.request_path(), "/r");
    assert_eq!(c.response_path(), "/abs/resp.json");
    let e = RpcConfig::new(String::new(), None, None);
    assert_eq!(e.request_path(), "wasm_rpc_request.json");
    let t = RpcConfig::new("/tmp/work/".to_string(), None, None);
    assert_eq!(t.response_path(), "/tmp/work/wasm_rpc_response.json");
    for (dir, name) in [("w", "/r"), ("", "x.json"), ("/a/", "b"), ("/a", "b/c")].iter() {
        let cfg = RpcConfig::new(dir.to_string(), Some(name.to_string()), None);
        let joined = std::path::PathBuf::from(dir).join(name);
        assert_eq!(cfg.request_path(), joined.to_string_lossy());
    }
}

#[test]
fn rpc_poll_reads_when_present() {
    assert!(matches!(rpc_poll_step(0, true), PollAction::ReadResponse));
    assert!(matches!(rpc_poll_step(9_990, true), PollAction::ReadResponse));
    assert!(matches!(rpc_poll_step(0, false), PollAction::Wait(10)));
}

#[test]
fn rpc_poll_times_out_after_ten_seconds() {
    let mut elapsed = 0u64;
    let mut waits = 0u32;
    loop {
        match rpc_poll_step(elapsed, false) {
            PollAction::Wait(next) => {
                elapsed = next;
                waits += 1;
            }
            PollAction::TimedOut(msg) => {
                assert_eq!(msg, "RPC call timeout after 10s");
                break;
            }
            PollAction::ReadResponse => panic!("no response was there"),
        }
    }
    assert_eq!(waits, 1000);
    assert_eq!(elapsed, 10_000);
}

// ---------------------------------------------------------------------------
// Run mode
// ---------------------------------------------------------------------------

#[test]
fn run_mode_by_action() {
    assert_eq!(select_mode(Some("emergency-check".to_string()), false), RunMode::EmergencyCheck);
    assert_eq!(select_mode(Some("emergency".to_string()), true), RunMode::EmergencyCheck);
    assert_eq!(select_mode(Some("rebalance".to_string()), true), RunMode::RebalanceWithSnapshot);
    assert_eq!(select_mode(Some("rebalance".to_string()), false), RunMode::RebalanceFromInput);
    assert_eq!(select_mode(None, true), RunMode::RebalanceWithSnapshot);
    assert_eq!(select_mode(None, false), RunMode::RebalanceFromInput);
    assert_eq!(select_mode(Some("withdraw".to_string()), false), RunMode::UnknownAction);
}
