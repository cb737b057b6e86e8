use keron::model::Link;
use keron::processor::LinkProcessor;
use keron::text::block_id;
use keron::text::collision_message;
use keron::text::elevated_not_wanted_message;
use keron::text::intent_message;
use keron::text::join_path;
use keron::text::mutation_failed_message;
use keron::text::parse_u32_or_zero;
use keron::text::real_ident;
use keron::text::requires_elevation_message;
use keron::text::success_message;

#[test]
fn block_id_is_stable_and_recipe_scoped() {
    assert_eq!(block_id("shell", ".npmrc"), "shell/link/.npmrc");
    assert_eq!(block_id("shell", ".npmrc"), block_id("shell", ".npmrc"));
}

#[test]
fn messages_have_the_expected_shape() {
    assert_eq!(intent_message(".npmrc", "~/.npmrc"), "link .npmrc to ~/.npmrc");
    assert_eq!(collision_message(".npmrc"), "source '.npmrc' already exists");
    assert_eq!(
        success_message(".npmrc", "/home/u/.npmrc"),
        "successfully linked '.npmrc' to '/home/u/.npmrc'"
    );
    assert_eq!(
        requires_elevation_message(),
        "link requires elevation, rerun with sudo"
    );
    assert_eq!(
        elevated_not_wanted_message(),
        "running elevated, but link does not require elevation"
    );
    assert_eq!(
        mutation_failed_message(".npmrc", "/h/.npmrc", "permission denied"),
        "link from '.npmrc' to '/h/.npmrc' failed: permission denied"
    );
}

#[test]
fn join_path_inserts_exactly_one_separator() {
    assert_eq!(join_path("/root/recipes", ".npmrc"), "/root/recipes/.npmrc");
    assert_eq!(join_path("/root/recipes/", ".npmrc"), "/root/recipes/.npmrc");
    assert_eq!(join_path("", ".npmrc"), ".npmrc");
    assert_eq!(join_path("/root/recipes", "/abs/path"), "/abs/path");
}

#[test]
fn target_resolution_leaves_plain_paths_alone() {
    let processor = LinkProcessor::new();
    let link = Link { to: String::from("/etc/hosts"), privileged: None };
    assert_eq!(processor.prepare("/tmp/r", "hosts", &link).to_path, "/etc/hosts");
}

#[test]
fn target_resolution_rewrites_the_home_marker() {
    let processor = LinkProcessor::new();
    let link = Link { to: String::from("~/.npmrc"), privileged: None };
    let expanded = processor.prepare("/tmp/r", ".npmrc", &link).to_path;
    assert!(!expanded.starts_with('~'));
    assert!(expanded.ends_with("/.npmrc"));
}

#[test]
fn parse_u32_accepts_plain_decimals() {
    assert_eq!(parse_u32_or_zero("0"), 0);
    assert_eq!(parse_u32_or_zero("1000"), 1000);
    assert_eq!(parse_u32_or_zero("+12"), 12);
    assert_eq!(parse_u32_or_zero("4294967295"), u32::MAX);
}

#[test]
fn parse_u32_falls_back_to_zero() {
    assert_eq!(parse_u32_or_zero(""), 0);
    assert_eq!(parse_u32_or_zero("+"), 0);
    assert_eq!(parse_u32_or_zero("12a"), 0);
    assert_eq!(parse_u32_or_zero("-5"), 0);
    assert_eq!(parse_u32_or_zero("4294967296"), 0);
    assert_eq!(parse_u32_or_zero("99999999999999999999"), 0);
}

#[test]
fn real_ident_defaults_to_the_super_user() {
    assert_eq!(real_ident(&None), 0);
    assert_eq!(real_ident(&Some(String::from("1000"))), 1000);
    assert_eq!(real_ident(&Some(String::from("not a number"))), 0);
}
