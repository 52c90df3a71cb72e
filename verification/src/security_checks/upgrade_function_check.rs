//! Demands that the new code keeps a correctly-typed upgrade entry point,
//! so that the contract stays upgradeable after this upgrade.

use vstd::prelude::*;

use super::{SecurityCheck, SecurityCheckContext};
use crate::UpgradeArgs;
use crate::text::{contains_seq, contains_substring};

verus! {

/// The declaration marker of the upgrade function.
pub open spec fn upgrade_fn_marker() -> Seq<char> {
    "fn upgrade("@
}

/// The parameter marker of the expected 32-byte hash argument.
pub open spec fn wasm_hash_param_marker() -> Seq<char> {
    "new_wasm_hash: soroban_sdk::BytesN<32>"@
}

/// The failure reason when the upgrade entry point is missing or wrongly
/// typed.
pub open spec fn upgrade_fn_failure_message() -> Seq<char> {
    "❌ Contract does not expose a proper upgrade function. Further upgradeability won't be possible."@
}

/// Passes exactly when the fetched interface text declares the upgrade
/// function and its hash-typed parameter, in either order.
pub struct UpgradeFunctionCheck;

impl UpgradeFunctionCheck {
    pub fn new() -> (r: UpgradeFunctionCheck)
        ensures
            r == (UpgradeFunctionCheck {}),
    {
        UpgradeFunctionCheck
    }
}

impl SecurityCheck for UpgradeFunctionCheck {
    open spec fn check_passes(&self, args: UpgradeArgs, context: SecurityCheckContext) -> bool {
        match context.contract_interface {
            Some(interface) => contains_seq(interface@, upgrade_fn_marker()) && contains_seq(
                interface@,
                wasm_hash_param_marker(),
            ),
            None => false,
        }
    }

    open spec fn failure_message(&self, args: UpgradeArgs, context: SecurityCheckContext) -> Seq<
        char,
    > {
        match context.contract_interface {
            Some(_) => upgrade_fn_failure_message(),
            None => crate::security_checks::constructor_check::missing_interface_message(),
        }
    }

    open spec fn spec_name(&self) -> Seq<char> {
        "Upgrade Function Check"@
    }

    fn name(&self) -> (r: &str) {
        "Upgrade Function Check"
    }

    fn run(&self, args: &UpgradeArgs, context: &mut SecurityCheckContext) -> (r: Result<
        (),
        String,
    >) {
        match &context.contract_interface {
            Some(interface) => {
                if contains_substring(interface.as_str(), "fn upgrade(") && contains_substring(
                    interface.as_str(),
                    "new_wasm_hash: soroban_sdk::BytesN<32>",
                ) {
                    Ok(())
                } else {
                    Err(
                        String::from_str(
                            "❌ Contract does not expose a proper upgrade function. Further upgradeability won't be possible.",
                        ),
                    )
                }
            },
            None => Err(String::from_str("Contract interface information not available")),
        }
    }
}

} // verus!
