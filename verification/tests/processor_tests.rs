use keron::model::Link;
use keron::model::PrivilegeLevel;
use keron::outcome::Outcome;
use keron::processor::LinkProcessor;
use keron::processor::MutationResult;
use keron::processor::PairPaths;

fn plain_link(to: &str) -> Link {
    Link { to: String::from(to), privileged: None }
}

#[test]
fn test_symlink() {
    let link_processor = LinkProcessor::new();

    let link = plain_link(".npmrc");
    let paths = link_processor.prepare("/tmp/fkbr-recipes", ".npmrc", &link);

    let (outcomes, request) = link_processor.link(
        true,
        PrivilegeLevel::User,
        "fkbr",
        ".npmrc",
        &link,
        &paths,
        true,
        false,
    );
    assert_eq!(outcomes.len(), 0);

    let request = request.expect("a clean approved pair asks for the symlink");
    assert_eq!(request.source_path, "/tmp/fkbr-recipes/.npmrc");
    assert_eq!(request.privileged, false);

    let outcome = link_processor.complete(
        "fkbr",
        ".npmrc",
        request.to_path.as_str(),
        MutationResult::Created,
    );
    if let Outcome::Failure { .. } = outcome {
        panic!("the outcome should be successful!");
    }
}

#[test]
fn dry_run_message_matches_apply_success_message() {
    let link_processor = LinkProcessor::new();
    let link = plain_link("/tmp/keron-duality-target");
    let paths = link_processor.prepare("/tmp/recipes", ".npmrc", &link);

    let (dry, dry_request) = link_processor.link(
        false,
        PrivilegeLevel::User,
        "shell",
        ".npmrc",
        &link,
        &paths,
        true,
        false,
    );
    assert!(dry_request.is_none());
    assert_eq!(dry.len(), 1);
    let (dry_id, dry_message) = match &dry[0] {
        Outcome::DryRun { block_id, message } => (block_id.clone(), message.clone()),
        _ => panic!("a non-approved run must yield a dry-run outcome"),
    };

    let applied = link_processor.complete(
        "shell",
        ".npmrc",
        paths.to_path.as_str(),
        MutationResult::Created,
    );
    let (applied_id, applied_message) = match &applied {
        Outcome::Success { block_id, message } => (block_id.clone(), message.clone()),
        _ => panic!("a created link must yield a success outcome"),
    };

    assert_eq!(dry_id, applied_id);
    assert_eq!(dry_message, applied_message);
}

#[test]
fn both_failing_preconditions_yield_two_outcomes() {
    let link_processor = LinkProcessor::new();
    let link = plain_link("/tmp/keron-existing-target");
    let paths = link_processor.prepare("/tmp/recipes", ".npmrc", &link);

    let (outcomes, request) = link_processor.link(
        true,
        PrivilegeLevel::User,
        "shell",
        ".npmrc",
        &link,
        &paths,
        false,
        true,
    );
    assert!(request.is_none());
    assert_eq!(outcomes.len(), 2);
    match &outcomes[0] {
        Outcome::Failure { block_id, message } => {
            assert_eq!(block_id, "shell/link/.npmrc");
            assert_eq!(message, "link .npmrc to /tmp/keron-existing-target");
        }
        _ => panic!("the missing source must fail an approved run"),
    }
    match &outcomes[1] {
        Outcome::Failure { block_id, message } => {
            assert_eq!(block_id, "shell/link/.npmrc");
            assert_eq!(message, "source '.npmrc' already exists");
        }
        _ => panic!("the target collision must fail an approved run"),
    }
}

#[test]
fn both_failing_preconditions_stay_dry_without_approval() {
    let link_processor = LinkProcessor::new();
    let link = plain_link("/tmp/keron-existing-target");
    let paths = link_processor.prepare("/tmp/recipes", ".npmrc", &link);

    let (outcomes, request) = link_processor.link(
        false,
        PrivilegeLevel::User,
        "shell",
        ".npmrc",
        &link,
        &paths,
        false,
        true,
    );
    assert!(request.is_none());
    assert_eq!(outcomes.len(), 2);
    assert!(matches!(&outcomes[0], Outcome::DryRun { .. }));
    assert!(matches!(&outcomes[1], Outcome::DryRun { .. }));
}

#[test]
fn missing_source_alone_yields_one_outcome() {
    let link_processor = LinkProcessor::new();
    let link = plain_link("/tmp/keron-absent-target");
    let paths = link_processor.prepare("/tmp/recipes", ".npmrc", &link);

    let (outcomes, request) = link_processor.link(
        true,
        PrivilegeLevel::User,
        "shell",
        ".npmrc",
        &link,
        &paths,
        false,
        false,
    );
    assert!(request.is_none());
    assert_eq!(outcomes.len(), 1);
    assert!(matches!(&outcomes[0], Outcome::Failure { .. }));
}

#[test]
fn privileged_link_as_user_requires_elevation() {
    let link_processor = LinkProcessor::new();
    let link = Link { to: String::from("/etc/keron-target"), privileged: Some(true) };
    let paths = link_processor.prepare("/tmp/recipes", "hosts", &link);

    let (outcomes, request) = link_processor.link(
        true,
        PrivilegeLevel::User,
        "system",
        "hosts",
        &link,
        &paths,
        true,
        false,
    );
    assert!(request.is_none(), "a privilege mismatch must not reach the filesystem");
    assert_eq!(outcomes.len(), 1);
    match &outcomes[0] {
        Outcome::Failure { block_id, message } => {
            assert_eq!(block_id, "system/link/hosts");
            assert_eq!(message, "link requires elevation, rerun with sudo");
        }
        _ => panic!("a privileged link under a plain user must fail"),
    }
}

#[test]
fn unprivileged_link_as_root_is_refused() {
    let link_processor = LinkProcessor::new();
    let link = Link { to: String::from("/tmp/keron-target"), privileged: Some(false) };
    let paths = link_processor.prepare("/tmp/recipes", ".npmrc", &link);

    let (outcomes, request) = link_processor.link(
        true,
        PrivilegeLevel::Root,
        "shell",
        ".npmrc",
        &link,
        &paths,
        true,
        false,
    );
    assert!(request.is_none(), "unrequested elevation must not reach the filesystem");
    assert_eq!(outcomes.len(), 1);
    match &outcomes[0] {
        Outcome::Failure { block_id, message } => {
            assert_eq!(block_id, "shell/link/.npmrc");
            assert_eq!(message, "running elevated, but link does not require elevation");
        }
        _ => panic!("an unrequested elevation must fail"),
    }
}

#[test]
fn failed_mutation_reports_the_underlying_error() {
    let link_processor = LinkProcessor::new();
    let outcome = link_processor.complete(
        "shell",
        ".npmrc",
        "/tmp/keron-target",
        MutationResult::Failed { error: String::from("permission denied") },
    );
    match &outcome {
        Outcome::Failure { block_id, message } => {
            assert_eq!(block_id, "shell/link/.npmrc");
            assert_eq!(
                message,
                "link from '.npmrc' to '/tmp/keron-target' failed: permission denied"
            );
        }
        _ => panic!("a failed mutation must yield a failure outcome"),
    }
}

#[test]
fn prepare_resolves_both_paths() {
    let link_processor = LinkProcessor::new();
    let link = plain_link("/opt/target");
    let paths: PairPaths = link_processor.prepare("/tmp/recipes", "conf", &link);
    assert_eq!(paths.source_path, "/tmp/recipes/conf");
    assert_eq!(paths.to_path, "/opt/target");
}
