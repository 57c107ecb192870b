use vstd::prelude::*;

use crate::text::{append_str, i64_text, owned, signed_decimal};

verus! {

/// What a hook decides about the step it guards.
#[derive(Debug, Clone, PartialEq, Eq)]
pub enum HookDecision {
    /// Go on with the step.
    Proceed,
    /// Stop the step, with the reason when one is given.
    Block { reason: Option<String> },
}

/// The decision of a hook command from its exit status and the decision
/// read from its output, if any: with status 0 the decision read, else
/// proceed; with status 2 the decision read, else a block; with any other
/// status a block that names the status.
pub fn hook_decision(exit_code: i32, parsed: Option<HookDecision>) -> (d: HookDecision)
    ensures
        exit_code == 0 ==> match parsed {
            Some(p) => d == p,
            None => d is Proceed,
        },
        exit_code == 2 ==> match parsed {
            Some(p) => d == p,
            None => (d matches HookDecision::Block { reason: Some(r) } && r@ == "hook exited with code 2"@),
        },
        exit_code != 0 && exit_code != 2 ==> (d matches HookDecision::Block { reason: Some(r) } && r@
            == "hook exited with code "@ + signed_decimal(exit_code as int)),
{
    if exit_code == 0 {
        match parsed {
            Some(p) => p,
            None => HookDecision::Proceed,
        }
    } else if exit_code == 2 {
        match parsed {
            Some(p) => p,
            None => HookDecision::Block { reason: Some(owned("hook exited with code 2")) },
        }
    } else {
        let mut r = owned("hook exited with code ");
        let n = i64_text(exit_code as i64);
        append_str(&mut r, n.as_str());
        HookDecision::Block { reason: Some(r) }
    }
}

/// The decision for a hook that has no command to run: a block.
pub fn no_command_decision() -> (d: HookDecision)
    ensures
        d matches HookDecision::Block { reason: Some(r) } && r@ == "no command specified"@,
{
    HookDecision::Block { reason: Some(owned("no command specified")) }
}

} // verus!
