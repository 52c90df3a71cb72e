//! Refuses an upgrade while the contract still exposes a constructor entry
//! point: re-initialization after an upgrade is a known hazard.

use vstd::prelude::*;

use super::{SecurityCheck, SecurityCheckContext};
use crate::UpgradeArgs;
use crate::text::{contains_seq, contains_substring};

verus! {

/// The declaration marker a constructor leaves in the interface text.
pub open spec fn constructor_marker() -> Seq<char> {
    "fn __constructor("@
}

/// The failure reason when the context holds no interface description.
pub open spec fn missing_interface_message() -> Seq<char> {
    "Contract interface information not available"@
}

/// The failure reason when the interface declares a constructor.
pub open spec fn constructor_failure_message() -> Seq<char> {
    "❌ Contract has a __constructor function, which might cause issues during upgrade."@
}

/// Passes exactly when the fetched interface text carries no constructor
/// declaration.
pub struct ConstructorCheck;

impl ConstructorCheck {
    pub fn new() -> (r: ConstructorCheck)
        ensures
            r == (ConstructorCheck {}),
    {
        ConstructorCheck
    }
}

impl SecurityCheck for ConstructorCheck {
    open spec fn check_passes(&self, args: UpgradeArgs, context: SecurityCheckContext) -> bool {
        match context.contract_interface {
            Some(interface) => !contains_seq(interface@, constructor_marker()),
            None => false,
        }
    }

    open spec fn failure_message(&self, args: UpgradeArgs, context: SecurityCheckContext) -> Seq<
        char,
    > {
        match context.contract_interface {
            Some(_) => constructor_failure_message(),
            None => missing_interface_message(),
        }
    }

    open spec fn spec_name(&self) -> Seq<char> {
        "Constructor Check"@
    }

    fn name(&self) -> (r: &str) {
        "Constructor Check"
    }

    fn run(&self, args: &UpgradeArgs, context: &mut SecurityCheckContext) -> (r: Result<
        (),
        String,
    >) {
        match &context.contract_interface {
            Some(interface) => {
                if !contains_substring(interface.as_str(), "fn __constructor(") {
                    Ok(())
                } else {
                    Err(
                        String::from_str(
                            "❌ Contract has a __constructor function, which might cause issues during upgrade.",
                        ),
                    )
                }
            },
            None => Err(String::from_str("Contract interface information not available")),
        }
    }
}

} // verus!
