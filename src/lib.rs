//! Decision engine for a multi-protocol lending vault: the verified core.
//!
//! The library holds the integer and byte-level logic of the engine: the
//! weight-grid enumeration, the dilution-model time window, the ABI layout of
//! the vault snapshot and the walk over its tokens, the fixed-width hex
//! rendering of amounts, the host RPC polling decisions and the emergency
//! decision gate.

pub mod abi;
pub mod dilution;
pub mod dispatch;
pub mod emergency;
pub mod grid;
pub mod policy;
pub mod records;
pub mod rpc;
pub mod snapshot;
pub mod text;

pub use abi::{AbiKind, AbiToken, Word256};
pub use dilution::calc_dilution_time_delta;
pub use dispatch::{select_mode, RunMode};
pub use emergency::{
    check_emergency_status, decode_aggregated_status, decode_emergency_mode,
    decode_guards_staleness, default_action, first_guard_query, guard_call_data, EmergencyInput,
    EmergencyResult, EmergencyStep, GuardAnswer, GuardQuery, GuardStalenessInfo,
};
pub use grid::{generate_bounded_weight_grid, generate_weight_grid};
pub use policy::{default_step_pct, is_blocked, pool_share_cap_pct};
pub use records::{CodecError, FieldKind};
pub use rpc::{rpc_poll_step, PollAction, RpcConfig};
pub use snapshot::{
    decode_vault_snapshot, encode_get_snapshot_call, parse_guard_state_token, parse_irm_token,
    parse_protocol_token, parse_snapshot_tokens, snapshot_to_tokens, GuardState, IRMParamsRaw,
    ProtocolData, VaultSnapshot,
};
pub use text::word_hex_string;
