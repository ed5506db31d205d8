//! Choosing the mode of a run from its input.

use vstd::prelude::*;

verus! {

/// What a run does.
#[derive(Clone, Copy, Debug, PartialEq, Eq)]
pub enum RunMode {
    /// Inspect the guards and decide on emergency mode.
    EmergencyCheck,
    /// Fetch the snapshot through the host, then optimize.
    RebalanceWithSnapshot,
    /// Optimize the protocol data given in the input.
    RebalanceFromInput,
    /// The action is not one the engine knows.
    UnknownAction,
}

/// The mode for an input with the given `action` field (absent means
/// `rebalance`) and with or without a `vaultDataReader` field.
pub open spec fn run_mode(action: Option<Seq<char>>, has_vault_data_reader: bool) -> RunMode {
    match action {
        Some(a) => if a == "emergency-check"@ || a == "emergency"@ {
            RunMode::EmergencyCheck
        } else if a == "rebalance"@ {
            if has_vault_data_reader {
                RunMode::RebalanceWithSnapshot
            } else {
                RunMode::RebalanceFromInput
            }
        } else {
            RunMode::UnknownAction
        },
        None => if has_vault_data_reader {
            RunMode::RebalanceWithSnapshot
        } else {
            RunMode::RebalanceFromInput
        },
    }
}

/// Picks the mode of a run.
pub fn select_mode(action: Option<String>, has_vault_data_reader: bool) -> (r: RunMode)
    ensures
        r == run_mode(
            match action {
                Some(a) => Some(a@),
                None => None,
            },
            has_vault_data_reader,
        ),
{
    let rebalance = if has_vault_data_reader {
        RunMode::RebalanceWithSnapshot
    } else {
        RunMode::RebalanceFromInput
    };
    match action {
        None => rebalance,
        Some(a) => {
            if a == String::from_str("emergency-check") || a == String::from_str("emergency") {
                RunMode::EmergencyCheck
            } else if a == String::from_str("rebalance") {
                rebalance
            } else {
                RunMode::UnknownAction
            }
        },
    }
}

} // verus!
