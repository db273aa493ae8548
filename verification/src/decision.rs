//! The decision sum type and the total order used to merge two decisions.

use vstd::prelude::*;

verus! {

/// Classification of one tool invocation: run silently, ask the user
/// first, or refuse with a human-readable reason.
#[derive(Debug, Clone)]
pub enum ToolPermissionDecision {
    Allow,
    Deny(String),
    Confirm,
}

/// Specification-level decision: the reason of a denial is a character
/// sequence rather than an executable `String`.
#[verifier::ext_equal]
pub ghost enum DecisionSpec {
    Allow,
    Deny(Seq<char>),
    Confirm,
}

/// An executable decision agrees with a specification-level decision.
pub open spec fn decision_matches(r: ToolPermissionDecision, d: DecisionSpec) -> bool {
    match d {
        DecisionSpec::Allow => r is Allow,
        DecisionSpec::Confirm => r is Confirm,
        DecisionSpec::Deny(reason) => r matches ToolPermissionDecision::Deny(m) && m@ == reason,
    }
}

/// Two executable decisions carry the same variant and, for denials,
/// the same reason text.
pub open spec fn decision_equiv(a: ToolPermissionDecision, b: ToolPermissionDecision) -> bool {
    match (a, b) {
        (ToolPermissionDecision::Allow, ToolPermissionDecision::Allow) => true,
        (ToolPermissionDecision::Confirm, ToolPermissionDecision::Confirm) => true,
        (ToolPermissionDecision::Deny(x), ToolPermissionDecision::Deny(y)) => x@ == y@,
        _ => false,
    }
}

/// Restrictiveness rank: Deny beats Confirm beats Allow.
pub open spec fn decision_rank(d: ToolPermissionDecision) -> int {
    match d {
        ToolPermissionDecision::Allow => 0,
        ToolPermissionDecision::Confirm => 1,
        ToolPermissionDecision::Deny(_) => 2,
    }
}

/// The more restrictive of two decisions, at specification level.
/// When both deny, the first reason is kept.
pub open spec fn most_restrictive_spec(
    a: ToolPermissionDecision,
    b: ToolPermissionDecision,
) -> ToolPermissionDecision {
    if decision_rank(a) >= decision_rank(b) {
        a
    } else {
        b
    }
}

/// Merges two decisions into the more restrictive one
/// (Deny > Confirm > Allow); the first argument wins ties.
pub fn most_restrictive(
    a: ToolPermissionDecision,
    b: ToolPermissionDecision,
) -> (r: ToolPermissionDecision)
    ensures
        r == most_restrictive_spec(a, b),
{
    match (&a, &b) {
        (ToolPermissionDecision::Deny(_), _) => a,
        (_, ToolPermissionDecision::Deny(_)) => b,
        (ToolPermissionDecision::Confirm, _) | (_, ToolPermissionDecision::Confirm) => {
            ToolPermissionDecision::Confirm
        },
        _ => a,
    }
}

impl PartialEq for ToolPermissionDecision {
    fn eq(&self, other: &ToolPermissionDecision) -> (r: bool) {
        match (self, other) {
            (ToolPermissionDecision::Allow, ToolPermissionDecision::Allow) => true,
            (ToolPermissionDecision::Confirm, ToolPermissionDecision::Confirm) => true,
            (ToolPermissionDecision::Deny(x), ToolPermissionDecision::Deny(y)) => x.eq(y),
            _ => false,
        }
    }
}

impl Eq for ToolPermissionDecision {

}

impl vstd::std_specs::cmp::PartialEqSpecImpl for ToolPermissionDecision {
    open spec fn obeys_eq_spec() -> bool {
        true
    }

    open spec fn eq_spec(&self, other: &ToolPermissionDecision) -> bool {
        decision_equiv(*self, *other)
    }
}

} // verus!
