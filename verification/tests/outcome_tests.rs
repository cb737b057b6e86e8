use keron::model::PackageManager;
use keron::model::Packages;
use keron::model::Recipe;
use keron::model::RecipeEntry;
use keron::outcome::decide;
use keron::outcome::Outcome;
use keron::outcome::Outcomes;
use keron::preflight::collect_package_managers;

#[test]
fn decide_keeps_approved_outcomes() {
    let approved = decide(
        true,
        Outcome::Failure { block_id: String::from("a/link/b"), message: String::from("m") },
    );
    assert!(matches!(approved, Outcome::Failure { .. }));
}

#[test]
fn decide_turns_unapproved_outcomes_into_dry_runs() {
    let dry = decide(
        false,
        Outcome::Success { block_id: String::from("a/link/b"), message: String::from("m") },
    );
    match dry {
        Outcome::DryRun { block_id, message } => {
            assert_eq!(block_id, "a/link/b");
            assert_eq!(message, "m");
        }
        _ => panic!("a non-approved outcome must become a dry-run outcome"),
    }
}

#[test]
fn outcomes_accumulate_by_append_for_one_name() {
    let mut outcomes = Outcomes::new();
    assert_eq!(outcomes.entries.len(), 0);

    outcomes.add(
        &String::from("shell"),
        vec![Outcome::DryRun { block_id: String::from("shell/link/a"), message: String::from("one") }],
    );
    outcomes.add(
        &String::from("shell"),
        vec![Outcome::DryRun { block_id: String::from("shell/link/b"), message: String::from("two") }],
    );

    assert_eq!(outcomes.entries.len(), 1);
    assert_eq!(outcomes.entries[0].name, "shell");
    assert_eq!(outcomes.entries[0].outcomes.len(), 2);
}

#[test]
fn outcomes_keep_distinct_names_apart() {
    let mut outcomes = Outcomes::new();
    outcomes.add(
        &String::from("editor"),
        vec![Outcome::Success { block_id: String::from("editor/link/v"), message: String::from("m") }],
    );
    outcomes.add(
        &String::from("shell"),
        vec![Outcome::Success { block_id: String::from("shell/link/n"), message: String::from("m") }],
    );
    assert_eq!(outcomes.entries.len(), 2);
    assert_eq!(outcomes.entries[0].name, "editor");
    assert_eq!(outcomes.entries[1].name, "shell");
}

fn packaged(name: &str, managers: Option<Vec<PackageManager>>) -> RecipeEntry {
    RecipeEntry {
        name: String::from(name),
        recipe: Recipe {
            link: None,
            packages: Some(vec![Packages {
                list: Some(vec![String::from("fzf")]),
                manager: managers,
            }]),
        },
    }
}

#[test]
fn collects_each_declared_manager_once() {
    let recipes = vec![
        packaged("a", Some(vec![PackageManager::Brew])),
        packaged("b", Some(vec![PackageManager::Brew, PackageManager::Yay])),
        packaged("c", None),
        RecipeEntry {
            name: String::from("d"),
            recipe: Recipe { link: None, packages: None },
        },
    ];
    let managers = collect_package_managers(&recipes);
    assert_eq!(managers.len(), 2);
    assert!(managers.contains(&PackageManager::Brew));
    assert!(managers.contains(&PackageManager::Yay));
}

#[test]
fn collects_nothing_without_declarations() {
    let recipes = vec![RecipeEntry {
        name: String::from("a"),
        recipe: Recipe { link: None, packages: None },
    }];
    let managers = collect_package_managers(&recipes);
    assert_eq!(managers.len(), 0);
}
