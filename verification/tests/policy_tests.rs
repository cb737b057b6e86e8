use keron::model::PolicyDecision;
use keron::model::PrivilegeLevel;
use keron::policy::elevation_policy;

#[test]
fn policy_user_unprivileged_proceeds() {
    assert!(matches!(
        elevation_policy(PrivilegeLevel::User, false),
        PolicyDecision::Proceed
    ));
}

#[test]
fn policy_user_privileged_requires_elevation() {
    assert!(matches!(
        elevation_policy(PrivilegeLevel::User, true),
        PolicyDecision::RequiresElevation
    ));
}

#[test]
fn policy_root_unprivileged_elevated_but_not_wanted() {
    assert!(matches!(
        elevation_policy(PrivilegeLevel::Root, false),
        PolicyDecision::ElevatedButNotWanted
    ));
}

#[test]
fn policy_root_privileged_proceeds() {
    assert!(matches!(
        elevation_policy(PrivilegeLevel::Root, true),
        PolicyDecision::Proceed
    ));
}

#[test]
fn policy_setuid_unprivileged_elevated_but_not_wanted() {
    assert!(matches!(
        elevation_policy(PrivilegeLevel::SetuidElevated, false),
        PolicyDecision::ElevatedButNotWanted
    ));
}

#[test]
fn policy_setuid_privileged_proceeds() {
    assert!(matches!(
        elevation_policy(PrivilegeLevel::SetuidElevated, true),
        PolicyDecision::Proceed
    ));
}
