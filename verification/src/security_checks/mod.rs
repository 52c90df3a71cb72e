//! The safety checks that gate an upgrade, and the pipeline that runs them
//! in a fixed order, stopping at the first failure.

pub mod constructor_check;
pub mod upgrade_function_check;
pub mod version_check;

use vstd::prelude::*;

use crate::UpgradeArgs;

verus! {

/// Shared scratch state threaded through the pipeline: the fetched interface
/// description, populated once before the checks run.
pub struct SecurityCheckContext {
    pub contract_interface: Option<String>,
}

impl SecurityCheckContext {
    /// A fresh context with no interface description yet.
    pub fn new() -> (r: SecurityCheckContext)
        ensures
            r.contract_interface is None,
    {
        SecurityCheckContext { contract_interface: None }
    }
}

/// The uniform shape of one safety check: a pure verdict over the request
/// and the shared context, and an executable run that returns `Ok` exactly
/// when the verdict is positive and the check's own reason otherwise. A
/// check reads the context but leaves it as it found it.
pub trait SecurityCheck: Sized {
    /// The check's verdict.
    spec fn check_passes(&self, args: UpgradeArgs, context: SecurityCheckContext) -> bool;

    /// The reason the check gives when its verdict is negative.
    spec fn failure_message(&self, args: UpgradeArgs, context: SecurityCheckContext) -> Seq<char>;

    /// The check's display name.
    spec fn spec_name(&self) -> Seq<char>;

    fn name(&self) -> (r: &str)
        ensures
            r@ == self.spec_name(),
    ;

    fn run(&self, args: &UpgradeArgs, context: &mut SecurityCheckContext) -> (r: Result<
        (),
        String,
    >)
        ensures
            *final(context) == *old(context),
            match r {
                Ok(()) => self.check_passes(*args, *old(context)),
                Err(e) => !self.check_passes(*args, *old(context)) && e@ == self.failure_message(
                    *args,
                    *old(context),
                ),
            },
    ;
}

/// The closed set of checks a pipeline can register.
pub enum RegisteredCheck {
    Constructor(constructor_check::ConstructorCheck),
    UpgradeFunction(upgrade_function_check::UpgradeFunctionCheck),
}

impl SecurityCheck for RegisteredCheck {
    open spec fn check_passes(&self, args: UpgradeArgs, context: SecurityCheckContext) -> bool {
        match self {
            RegisteredCheck::Constructor(c) => c.check_passes(args, context),
            RegisteredCheck::UpgradeFunction(c) => c.check_passes(args, context),
        }
    }

    open spec fn failure_message(&self, args: UpgradeArgs, context: SecurityCheckContext) -> Seq<
        char,
    > {
        match self {
            RegisteredCheck::Constructor(c) => c.failure_message(args, context),
            RegisteredCheck::UpgradeFunction(c) => c.failure_message(args, context),
        }
    }

    open spec fn spec_name(&self) -> Seq<char> {
        match self {
            RegisteredCheck::Constructor(c) => c.spec_name(),
            RegisteredCheck::UpgradeFunction(c) => c.spec_name(),
        }
    }

    fn name(&self) -> (r: &str) {
        match self {
            RegisteredCheck::Constructor(c) => c.name(),
            RegisteredCheck::UpgradeFunction(c) => c.name(),
        }
    }

    fn run(&self, args: &UpgradeArgs, context: &mut SecurityCheckContext) -> (r: Result<
        (),
        String,
    >) {
        match self {
            RegisteredCheck::Constructor(c) => c.run(args, context),
            RegisteredCheck::UpgradeFunction(c) => c.run(args, context),
        }
    }
}

/// The checks the pipeline runs, in their fixed order: the constructor
/// check, then the upgrade-function check. The version-monotonicity check
/// exists beside them but is deliberately not part of this default set.
pub open spec fn registered_checks() -> Seq<RegisteredCheck> {
    seq![
        RegisteredCheck::Constructor(constructor_check::ConstructorCheck {}),
        RegisteredCheck::UpgradeFunction(upgrade_function_check::UpgradeFunctionCheck {}),
    ]
}

/// Builds the registered checks, in their fixed order.
pub fn get_security_checks() -> (r: Vec<RegisteredCheck>)
    ensures
        r@ == registered_checks(),
{
    let mut checks: Vec<RegisteredCheck> = Vec::new();
    checks.push(RegisteredCheck::Constructor(constructor_check::ConstructorCheck::new()));
    checks.push(
        RegisteredCheck::UpgradeFunction(upgrade_function_check::UpgradeFunctionCheck::new()),
    );
    proof {
        assert(checks@ =~= registered_checks());
    }
    checks
}

/// The verdict of running `checks` in order against one request and
/// context: the first failing check's reason, or success when every check
/// passes.
pub open spec fn pipeline_outcome(
    checks: Seq<RegisteredCheck>,
    args: UpgradeArgs,
    context: SecurityCheckContext,
) -> Result<(), Seq<char>>
    decreases checks.len(),
{
    if checks.len() == 0 {
        Ok(())
    } else if !checks[0].check_passes(args, context) {
        Err(checks[0].failure_message(args, context))
    } else {
        pipeline_outcome(checks.drop_first(), args, context)
    }
}

/// A failing first check decides the whole run: the pipeline returns that
/// check's own reason, whatever any later check would have said.
pub proof fn lemma_pipeline_short_circuit(
    checks: Seq<RegisteredCheck>,
    args: UpgradeArgs,
    context: SecurityCheckContext,
)
    requires
        checks.len() > 0,
        !checks[0].check_passes(args, context),
    ensures
        pipeline_outcome(checks, args, context) == Err::<(), Seq<char>>(
            checks[0].failure_message(args, context),
        ),
{
}

/// The pipeline succeeds exactly when every registered check passes.
pub proof fn lemma_pipeline_all_pass(
    checks: Seq<RegisteredCheck>,
    args: UpgradeArgs,
    context: SecurityCheckContext,
)
    ensures
        pipeline_outcome(checks, args, context) is Ok <==> forall|k: int|
            0 <= k < checks.len() ==> (#[trigger] checks[k]).check_passes(args, context),
    decreases checks.len(),
{
    if checks.len() > 0 && checks[0].check_passes(args, context) {
        lemma_pipeline_all_pass(checks.drop_first(), args, context);
        if pipeline_outcome(checks, args, context) is Ok {
            assert forall|k: int| 0 <= k < checks.len() implies (#[trigger] checks[k]).check_passes(
                args,
                context,
            ) by {
                if k > 0 {
                    assert(checks.drop_first()[k - 1] == checks[k]);
                }
            }
        } else {
            if forall|k: int| 0 <= k < checks.len() ==> (#[trigger] checks[k]).check_passes(
                args,
                context,
            ) {
                assert forall|k: int|
                    0 <= k < checks.drop_first().len() implies (#[trigger] checks.drop_first()[k]).check_passes(
                    args,
                    context,
                ) by {
                    assert(checks.drop_first()[k] == checks[k + 1]);
                }
            }
        }
    }
}

/// Runs every registered check in order against the populated context and
/// stops at the first failure, returning that check's reason untouched.
pub fn run_all_checks(args: &UpgradeArgs, context: &mut SecurityCheckContext) -> (r: Result<
    (),
    String,
>)
    ensures
        *final(context) == *old(context),
        match r {
            Ok(()) => pipeline_outcome(registered_checks(), *args, *old(context)) is Ok,
            Err(e) => pipeline_outcome(registered_checks(), *args, *old(context)) matches Err(m)
                && e@ == m,
        },
{
    let checks = get_security_checks();
    proof {
        assert(registered_checks().skip(0) =~= registered_checks());
    }
    let mut idx: usize = 0;
    while idx < checks.len()
        invariant
            idx <= checks.len(),
            checks@ == registered_checks(),
            *context == *old(context),
            pipeline_outcome(registered_checks(), *args, *old(context)) == pipeline_outcome(
                registered_checks().skip(idx as int),
                *args,
                *old(context),
            ),
        decreases checks.len() - idx,
    {
        proof {
            assert(registered_checks().skip(idx as int)[0] == registered_checks()[idx as int]);
        }
        match checks[idx].run(args, context) {
            Ok(()) => {},
            Err(e) => {
                return Err(e);
            },
        }
        proof {
            assert(registered_checks().skip(idx as int).drop_first() =~= registered_checks().skip(
                idx + 1,
            ));
        }
        idx += 1;
    }
    proof {
        assert(registered_checks().skip(checks@.len() as int) =~= Seq::<RegisteredCheck>::empty());
    }
    Ok(())
}

} // verus!
