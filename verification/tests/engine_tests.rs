use keron::engine::Action;
use keron::engine::Engine;
use keron::engine::Event;
use keron::engine::Session;
use keron::model::Link;
use keron::model::LinkEntry;
use keron::model::PrivilegeLevel;
use keron::model::Recipe;
use keron::model::RecipeEntry;
use keron::outcome::Outcome;
use keron::outcome::Outcomes;

fn recipe_with_link(name: &str, source: &str, to: &str, privileged: Option<bool>) -> RecipeEntry {
    RecipeEntry {
        name: String::from(name),
        recipe: Recipe {
            link: Some(vec![LinkEntry {
                source: String::from(source),
                link: Link { to: String::from(to), privileged },
            }]),
            packages: None,
        },
    }
}

fn outcome_parts(outcome: &Outcome) -> (&'static str, String, String) {
    match outcome {
        Outcome::DryRun { block_id, message } => ("dry-run", block_id.clone(), message.clone()),
        Outcome::Success { block_id, message } => ("success", block_id.clone(), message.clone()),
        Outcome::Failure { block_id, message } => ("failure", block_id.clone(), message.clone()),
    }
}

/// Drive a session with a fixed picture of the filesystem: sources exist,
/// targets do not, and every requested mutation succeeds. Fails the test if
/// a non-approved session ever asks for a mutation.
fn drive_clean(mut session: Session, approve: bool) -> Outcomes {
    loop {
        match session.next_action() {
            Action::Probe { .. } => {
                session.step(Event::Probed { source_exists: true, target_exists: false });
            }
            Action::Create { .. } => {
                assert!(approve, "a dry run must never ask for a mutation");
                session.step(Event::Created);
            }
            Action::Done => return session.into_outcomes(),
        }
    }
}

#[test]
fn approved_clean_link_succeeds() {
    let engine = Engine::new();
    let recipes = vec![recipe_with_link("shell", ".npmrc", "~/.npmrc", None)];
    let session = engine.start(
        true,
        PrivilegeLevel::User,
        recipes,
        String::from("/tmp/keron-recipes"),
    );
    let outcomes = drive_clean(session, true);

    assert_eq!(outcomes.entries.len(), 1);
    assert_eq!(outcomes.entries[0].name, "shell");
    assert_eq!(outcomes.entries[0].outcomes.len(), 1);
    let (kind, block_id, _) = outcome_parts(&outcomes.entries[0].outcomes[0]);
    assert_eq!(kind, "success");
    assert_eq!(block_id, "shell/link/.npmrc");
}

#[test]
fn unapproved_clean_link_stays_dry() {
    let engine = Engine::new();
    let recipes = vec![recipe_with_link("shell", ".npmrc", "~/.npmrc", None)];
    let session = engine.start(
        false,
        PrivilegeLevel::User,
        recipes,
        String::from("/tmp/keron-recipes"),
    );
    let outcomes = drive_clean(session, false);

    assert_eq!(outcomes.entries.len(), 1);
    assert_eq!(outcomes.entries[0].name, "shell");
    assert_eq!(outcomes.entries[0].outcomes.len(), 1);
    let (kind, block_id, _) = outcome_parts(&outcomes.entries[0].outcomes[0]);
    assert_eq!(kind, "dry-run");
    assert_eq!(block_id, "shell/link/.npmrc");
}

#[test]
fn privileged_link_as_user_fails_without_mutation() {
    let engine = Engine::new();
    let recipes = vec![recipe_with_link("system", "hosts", "/etc/keron-hosts", Some(true))];
    let mut session = engine.start(
        true,
        PrivilegeLevel::User,
        recipes,
        String::from("/tmp/keron-recipes"),
    );
    match session.next_action() {
        Action::Probe { .. } => {
            session.step(Event::Probed { source_exists: true, target_exists: false });
        }
        _ => panic!("the first action must be the probe"),
    }
    assert!(matches!(session.next_action(), Action::Done));
    let outcomes = session.into_outcomes();
    assert_eq!(outcomes.entries.len(), 1);
    let (kind, _, message) = outcome_parts(&outcomes.entries[0].outcomes[0]);
    assert_eq!(kind, "failure");
    assert_eq!(message, "link requires elevation, rerun with sudo");
}

#[test]
fn unprivileged_link_as_root_fails_without_mutation() {
    let engine = Engine::new();
    let recipes = vec![recipe_with_link("shell", ".npmrc", "/tmp/keron-npmrc", Some(false))];
    let mut session = engine.start(
        true,
        PrivilegeLevel::Root,
        recipes,
        String::from("/tmp/keron-recipes"),
    );
    match session.next_action() {
        Action::Probe { .. } => {
            session.step(Event::Probed { source_exists: true, target_exists: false });
        }
        _ => panic!("the first action must be the probe"),
    }
    assert!(matches!(session.next_action(), Action::Done));
    let outcomes = session.into_outcomes();
    assert_eq!(outcomes.entries.len(), 1);
    let (kind, _, message) = outcome_parts(&outcomes.entries[0].outcomes[0]);
    assert_eq!(kind, "failure");
    assert_eq!(message, "running elevated, but link does not require elevation");
}

#[test]
fn dry_run_twice_yields_identical_outcomes() {
    let engine = Engine::new();
    let build = || {
        vec![
            recipe_with_link("editor", "init.vim", "/tmp/keron-init.vim", None),
            recipe_with_link("shell", ".npmrc", "~/.npmrc", Some(true)),
        ]
    };
    let first = drive_clean(
        engine.start(false, PrivilegeLevel::User, build(), String::from("/tmp/r")),
        false,
    );
    let second = drive_clean(
        engine.start(false, PrivilegeLevel::User, build(), String::from("/tmp/r")),
        false,
    );

    assert_eq!(first.entries.len(), second.entries.len());
    for (a, b) in first.entries.iter().zip(second.entries.iter()) {
        assert_eq!(a.name, b.name);
        assert_eq!(a.outcomes.len(), b.outcomes.len());
        for (x, y) in a.outcomes.iter().zip(b.outcomes.iter()) {
            assert_eq!(outcome_parts(x), outcome_parts(y));
        }
    }
}

#[test]
fn outcomes_keep_recipe_name_order() {
    let engine = Engine::new();
    let build = || {
        vec![
            recipe_with_link("alpha", "a.conf", "/tmp/keron-a.conf", None),
            RecipeEntry {
                name: String::from("beta"),
                recipe: Recipe { link: None, packages: None },
            },
            recipe_with_link("gamma", "c.conf", "/tmp/keron-c.conf", None),
        ]
    };
    for _ in 0..2 {
        let outcomes = drive_clean(
            engine.start(false, PrivilegeLevel::User, build(), String::from("/tmp/r")),
            false,
        );
        let names: Vec<&str> = outcomes.entries.iter().map(|e| e.name.as_str()).collect();
        assert_eq!(names, vec!["alpha", "gamma"]);
    }
}

#[test]
fn recipes_without_links_produce_no_outcomes() {
    let engine = Engine::new();
    let recipes = vec![
        RecipeEntry {
            name: String::from("empty"),
            recipe: Recipe { link: Some(vec![]), packages: None },
        },
        RecipeEntry {
            name: String::from("none"),
            recipe: Recipe { link: None, packages: None },
        },
    ];
    let session = engine.start(true, PrivilegeLevel::User, recipes, String::from("/tmp/r"));
    let outcomes = drive_clean(session, true);
    assert_eq!(outcomes.entries.len(), 0);
}

#[test]
fn failed_creation_is_reported_and_processing_continues() {
    let engine = Engine::new();
    let recipes = vec![
        recipe_with_link("alpha", "a.conf", "/tmp/keron-a.conf", None),
        recipe_with_link("beta", "b.conf", "/tmp/keron-b.conf", None),
    ];
    let mut session = engine.start(
        true,
        PrivilegeLevel::User,
        recipes,
        String::from("/tmp/r"),
    );
    let mut first = true;
    let outcomes = loop {
        match session.next_action() {
            Action::Probe { .. } => {
                session.step(Event::Probed { source_exists: true, target_exists: false });
            }
            Action::Create { .. } => {
                if first {
                    first = false;
                    session.step(Event::CreateFailed {
                        error: String::from("permission denied"),
                    });
                } else {
                    session.step(Event::Created);
                }
            }
            Action::Done => break session.into_outcomes(),
        }
    };
    assert_eq!(outcomes.entries.len(), 2);
    let (kind_a, _, message_a) = outcome_parts(&outcomes.entries[0].outcomes[0]);
    assert_eq!(kind_a, "failure");
    assert_eq!(
        message_a,
        "link from 'a.conf' to '/tmp/keron-a.conf' failed: permission denied"
    );
    let (kind_b, _, _) = outcome_parts(&outcomes.entries[1].outcomes[0]);
    assert_eq!(kind_b, "success");
}

#[test]
fn a_recipe_mixing_outcomes_groups_them_in_declaration_order() {
    let engine = Engine::new();
    let recipes = vec![RecipeEntry {
        name: String::from("mixed"),
        recipe: Recipe {
            link: Some(vec![
                LinkEntry {
                    source: String::from("missing.conf"),
                    link: Link { to: String::from("/tmp/keron-m1"), privileged: None },
                },
                LinkEntry {
                    source: String::from("ok.conf"),
                    link: Link { to: String::from("/tmp/keron-m2"), privileged: None },
                },
            ]),
            packages: None,
        },
    }];
    let mut session = engine.start(
        true,
        PrivilegeLevel::User,
        recipes,
        String::from("/tmp/r"),
    );
    let mut probes = 0;
    let outcomes = loop {
        match session.next_action() {
            Action::Probe { .. } => {
                probes += 1;
                if probes == 1 {
                    session.step(Event::Probed { source_exists: false, target_exists: false });
                } else {
                    session.step(Event::Probed { source_exists: true, target_exists: false });
                }
            }
            Action::Create { .. } => session.step(Event::Created),
            Action::Done => break session.into_outcomes(),
        }
    };
    assert_eq!(outcomes.entries.len(), 1);
    assert_eq!(outcomes.entries[0].name, "mixed");
    assert_eq!(outcomes.entries[0].outcomes.len(), 2);
    let (kind_first, id_first, _) = outcome_parts(&outcomes.entries[0].outcomes[0]);
    assert_eq!(kind_first, "failure");
    assert_eq!(id_first, "mixed/link/missing.conf");
    let (kind_second, id_second, _) = outcome_parts(&outcomes.entries[0].outcomes[1]);
    assert_eq!(kind_second, "success");
    assert_eq!(id_second, "mixed/link/ok.conf");
}
