//! The privilege elevation policy: a pure decision procedure mapping the
//! process's privilege level and a link's privileged flag to one of
//! proceed, requires-elevation, or elevated-but-not-wanted.
//!
//! Privileged links must run under elevation, to allow ownership transfer to
//! a different user than the process's own; non-privileged links must not run
//! under elevation, to avoid accidentally creating root-owned artifacts for
//! links that never declared the need.

use vstd::prelude::*;

use crate::model::PolicyDecision;
use crate::model::PrivilegeLevel;

verus! {

/// The policy's transition table:
///
/// | running as             | privileged | result               |
/// |------------------------|------------|----------------------|
/// | root or setuid-elevated| false      | elevated-but-not-wanted |
/// | user                   | true       | requires-elevation   |
/// | any other combination  |            | proceed              |
pub open spec fn elevation_policy_spec(
    running_as: PrivilegeLevel,
    privileged: bool,
) -> PolicyDecision {
    if (running_as is Root || running_as is SetuidElevated) && !privileged {
        PolicyDecision::ElevatedButNotWanted
    } else if running_as is User && privileged {
        PolicyDecision::RequiresElevation
    } else {
        PolicyDecision::Proceed
    }
}

/// Decide whether a link may be applied under the current privilege level.
///
/// Evaluated once per link, never cached across links: a recipe may mix
/// privileged and non-privileged links in one run.
pub fn elevation_policy(running_as: PrivilegeLevel, privileged: bool) -> (d: PolicyDecision)
    ensures
        d == elevation_policy_spec(running_as, privileged),
{
    match running_as {
        PrivilegeLevel::Root | PrivilegeLevel::SetuidElevated => {
            if privileged {
                PolicyDecision::Proceed
            } else {
                PolicyDecision::ElevatedButNotWanted
            }
        },
        PrivilegeLevel::User => {
            if privileged {
                PolicyDecision::RequiresElevation
            } else {
                PolicyDecision::Proceed
            }
        },
    }
}

/// Privilege guard totality: for every pair of privilege level and privileged
/// flag the policy returns exactly one of the three decisions, and each
/// decision comes exactly on the rows of the transition table that name it.
pub proof fn lemma_policy_totality(running_as: PrivilegeLevel, privileged: bool)
    ensures
        ({
            let d = elevation_policy_spec(running_as, privileged);
            &&& d is Proceed || d is RequiresElevation || d is ElevatedButNotWanted
            &&& d is ElevatedButNotWanted <==> (running_as is Root || running_as is SetuidElevated)
                && !privileged
            &&& d is RequiresElevation <==> running_as is User && privileged
            &&& d is Proceed <==> (running_as is User && !privileged) || ((running_as is Root
                || running_as is SetuidElevated) && privileged)
        }),
{
}

} // verus!
