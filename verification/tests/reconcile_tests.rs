use rexer::config::Config;
use rexer::error::RexerError;
use rexer::git::{GitAction, Outcome};
use rexer::extension::{
    Extension, ExtensionType, ExtensionsConfig, GitHub, LockFile, LockedExtension, Source,
};
use rexer::reconcile::{
    installed_entries, recorded_dirs, Action, Event, Reconciler, Step,
};

fn config() -> Config {
    Config { command_prefix: None, redmine_root: "/srv/redmine".to_string() }
}

fn github(repo: &str, branch: Option<&str>, tag: Option<&str>, commit: Option<&str>) -> Source {
    Source::GitHub(GitHub {
        repo: repo.to_string(),
        branch: branch.map(|s| s.to_string()),
        tag: tag.map(|s| s.to_string()),
        commit: commit.map(|s| s.to_string()),
    })
}

fn ext(name: &str, source: Source) -> Extension {
    Extension { name: name.to_string(), source }
}

fn locked(name: &str, kind: ExtensionType, source: Source, commit: &str, at: &str) -> LockedExtension {
    LockedExtension {
        name: name.to_string(),
        extension_type: kind,
        source,
        commit_hash: Some(commit.to_string()),
        installed_at: at.to_string(),
    }
}

fn ok(output: &str) -> Event {
    Event::Succeeded { output: output.to_string() }
}

fn failed(text: &str) -> Event {
    Event::Failed { error: RexerError::GitError(text.to_string()) }
}

fn show(step: &Step) -> String {
    match step {
        Step::Uninstall { name, destination } => format!("uninstall {} {}", name, destination),
        Step::Fetch { name, destination, .. } => format!("fetch {} {}", name, destination),
        Step::Update { name, destination, .. } => format!("update {} {}", name, destination),
        Step::Setup { name, destination } => format!("setup {} {}", name, destination),
    }
}

fn plan(run: &Reconciler) -> Vec<String> {
    run.steps().iter().map(show).collect()
}

fn saved(run: &Reconciler) -> LockFile {
    match run.action() {
        Action::Save { lock_file } => lock_file,
        other => panic!("unexpected action {:?}", other),
    }
}

fn brief(lock: &LockFile) -> Vec<(String, Option<String>, String)> {
    lock.extensions
        .iter()
        .map(|l| (l.name.clone(), l.commit_hash.clone(), l.installed_at.clone()))
        .collect()
}

#[test]
fn a_fresh_install_fetches_sets_up_and_records() {
    let declared = ExtensionsConfig {
        plugins: vec![ext("a", github("org/a", None, Some("v1.0"), None))],
        themes: vec![],
    };
    let run = Reconciler::install(&config(), &declared, None);
    assert_eq!(
        plan(&run),
        vec!["fetch a /srv/redmine/plugins/a".to_string(), "setup a /srv/redmine/plugins/a".to_string()]
    );
    match run.action() {
        Action::Perform { step: Step::Fetch { name, extension_type, source, destination } } => {
            assert_eq!(name, "a");
            assert_eq!(extension_type, ExtensionType::Plugin);
            assert_eq!(source.full_url(), "https://github.com/org/a.git");
            assert_eq!(source.reference(), Some("v1.0".to_string()));
            assert_eq!(destination, "/srv/redmine/plugins/a");
        }
        other => panic!("unexpected action {:?}", other),
    }
    let run = run.advance_at(ok("commit-of-v1.0"), "2024-05-01T10:00:00+00:00");
    assert!(matches!(run.action(), Action::Perform { step: Step::Setup { .. } }));
    assert!(!run.is_finished());
    let run = run.advance_at(ok(""), "2024-05-01T10:00:05+00:00");
    assert!(run.is_finished());
    let record = saved(&run);
    assert_eq!(record.extensions.len(), 1);
    let entry = &record.extensions[0];
    assert_eq!(entry.name, "a");
    assert_eq!(entry.extension_type, ExtensionType::Plugin);
    assert_eq!(entry.commit_hash.as_deref(), Some("commit-of-v1.0"));
    assert_eq!(entry.installed_at, "2024-05-01T10:00:00+00:00");
    assert_eq!(entry.source.reference(), Some("v1.0".to_string()));
    assert_eq!(run.summary(true), Some("Installed 1 extensions".to_string()));
}

#[test]
fn a_changed_source_is_removed_then_fetched_anew() {
    let declared = ExtensionsConfig {
        plugins: vec![ext("a", github("org/a", None, Some("v2.0"), None))],
        themes: vec![],
    };
    let record = LockFile {
        extensions: vec![locked(
            "a",
            ExtensionType::Plugin,
            github("org/a", None, None, Some("c1")),
            "c1",
            "2023-01-01T00:00:00+00:00",
        )],
    };
    let run = Reconciler::install(&config(), &declared, Some(&record));
    assert_eq!(
        plan(&run),
        vec![
            "uninstall a /srv/redmine/plugins/a".to_string(),
            "fetch a /srv/redmine/plugins/a".to_string(),
            "setup a /srv/redmine/plugins/a".to_string(),
        ]
    );
    let run = run.advance_at(ok(""), "2024-05-01T10:00:00+00:00");
    let run = run.advance_at(ok("c2"), "2024-05-01T10:00:01+00:00");
    let run = run.advance_at(ok(""), "2024-05-01T10:00:02+00:00");
    let record = saved(&run);
    assert_eq!(
        brief(&record),
        vec![("a".to_string(), Some("c2".to_string()), "2024-05-01T10:00:01+00:00".to_string())]
    );
    assert_eq!(record.extensions[0].source.reference(), Some("v2.0".to_string()));
    assert_eq!(run.summary(false), Some("Installation updated successfully".to_string()));
}

#[test]
fn a_kind_that_changed_is_removed_where_it_was() {
    let declared = ExtensionsConfig {
        plugins: vec![],
        themes: vec![ext("a", github("org/a", None, Some("v2.0"), None))],
    };
    let record = LockFile {
        extensions: vec![locked("a", ExtensionType::Plugin, github("org/a", None, None, None), "c1", "t")],
    };
    let run = Reconciler::install(&config(), &declared, Some(&record));
    assert_eq!(
        plan(&run),
        vec!["uninstall a /srv/redmine/plugins/a".to_string(), "fetch a /srv/redmine/themes/a".to_string()]
    );
}

#[test]
fn added_then_changed_then_removed() {
    let declared = ExtensionsConfig {
        plugins: vec![
            ext("same", github("org/same", Some("main"), None, None)),
            ext("moved", github("org/moved", None, Some("v2.0"), None)),
        ],
        themes: vec![ext("new", github("org/new", None, None, None))],
    };
    let record = LockFile {
        extensions: vec![
            locked("gone", ExtensionType::Theme, github("org/gone", None, None, None), "c0", "kappa"),
            locked("moved", ExtensionType::Plugin, github("org/moved", None, None, Some("c1")), "c1", "gamma"),
            locked("same", ExtensionType::Plugin, github("org/same", Some("main"), None, None), "c2", "delta"),
        ],
    };
    let mut run = Reconciler::install(&config(), &declared, Some(&record));
    assert_eq!(
        plan(&run),
        vec![
            "fetch new /srv/redmine/themes/new".to_string(),
            "uninstall moved /srv/redmine/plugins/moved".to_string(),
            "fetch moved /srv/redmine/plugins/moved".to_string(),
            "setup moved /srv/redmine/plugins/moved".to_string(),
            "uninstall gone /srv/redmine/themes/gone".to_string(),
        ]
    );
    let outputs = ["n1", "", "m2", "", ""];
    for (i, output) in outputs.iter().enumerate() {
        assert_eq!(run.completed(), i);
        run = run.advance_at(ok(output), &format!("time-{}", i));
    }
    let record = saved(&run);
    assert_eq!(
        brief(&record),
        vec![
            ("same".to_string(), Some("c2".to_string()), "delta".to_string()),
            ("new".to_string(), Some("n1".to_string()), "time-0".to_string()),
            ("moved".to_string(), Some("m2".to_string()), "time-2".to_string()),
        ]
    );
}

#[test]
fn reconciling_again_asks_for_nothing() {
    let declared = ExtensionsConfig {
        plugins: vec![
            ext("same", github("org/same", Some("main"), None, None)),
            ext("moved", github("org/moved", None, Some("v2.0"), None)),
        ],
        themes: vec![ext("new", github("org/new", None, None, None))],
    };
    let record = LockFile {
        extensions: vec![
            locked("gone", ExtensionType::Theme, github("org/gone", None, None, None), "c0", "kappa"),
            locked("moved", ExtensionType::Plugin, github("org/moved", None, None, Some("c1")), "c1", "gamma"),
            locked("same", ExtensionType::Plugin, github("org/same", Some("main"), None, None), "c2", "delta"),
        ],
    };
    let mut run = Reconciler::install(&config(), &declared, Some(&record));
    while let Action::Perform { .. } = run.action() {
        run = run.advance_at(ok("c"), "now");
    }
    let first = saved(&run);
    let again = Reconciler::install(&config(), &declared, Some(&first));
    assert!(plan(&again).is_empty());
    assert!(again.is_finished());
    assert_eq!(brief(&saved(&again)), brief(&first));
    assert_eq!(again.summary(false), Some("Extensions are up to date".to_string()));
}

#[test]
fn a_failure_ends_the_run_and_nothing_is_saved() {
    let declared = ExtensionsConfig {
        plugins: vec![ext("a", github("org/a", None, None, None)), ext("b", github("org/b", None, None, None))],
        themes: vec![],
    };
    let run = Reconciler::install(&config(), &declared, None);
    let run = run.advance_at(ok("c-a"), "t");
    let run = run.advance_at(ok(""), "t");
    let run = run.advance_at(failed("network is down"), "t");
    assert!(run.is_finished());
    assert_eq!(run.completed(), 2);
    match run.action() {
        Action::Abort { error } => assert_eq!(error.message(), "Git operation failed: network is down"),
        other => panic!("unexpected action {:?}", other),
    }
    assert_eq!(run.summary(true), None);
    let run = run.advance_at(ok("late"), "t");
    assert!(matches!(run.action(), Action::Abort { .. }));
    assert_eq!(run.completed(), 2);
}

#[test]
fn a_failed_setup_ends_the_run() {
    let declared = ExtensionsConfig {
        plugins: vec![ext("a", github("org/a", None, None, None))],
        themes: vec![ext("t", github("org/t", None, None, None))],
    };
    let run = Reconciler::install(&config(), &declared, None);
    let run = run.advance_at(ok("c-a"), "t");
    let run = run.advance_at(
        Event::Failed { error: RexerError::HookFailed("Command failed: bundle install".to_string()) },
        "t",
    );
    match run.action() {
        Action::Abort { error } => {
            assert_eq!(error.message(), "Plugin setup failed: Command failed: bundle install")
        }
        other => panic!("unexpected action {:?}", other),
    }
}

#[test]
fn a_theme_needs_no_setup() {
    let declared = ExtensionsConfig {
        plugins: vec![],
        themes: vec![ext("t", github("org/t", None, None, None))],
    };
    let run = Reconciler::install(&config(), &declared, None);
    assert_eq!(plan(&run), vec!["fetch t /srv/redmine/themes/t".to_string()]);
    let run = run.advance_at(ok("c"), "now");
    assert_eq!(brief(&saved(&run)), vec![("t".to_string(), Some("c".to_string()), "now".to_string())]);
}

#[test]
fn an_empty_declaration_against_no_record_saves_an_empty_record() {
    let declared = ExtensionsConfig { plugins: vec![], themes: vec![] };
    let run = Reconciler::install(&config(), &declared, None);
    assert!(run.is_finished());
    assert!(saved(&run).extensions.is_empty());
    assert_eq!(run.summary(true), Some("Installed 0 extensions".to_string()));
}

#[test]
fn advance_notes_the_time_itself() {
    let declared = ExtensionsConfig {
        plugins: vec![],
        themes: vec![ext("t", github("org/t", None, None, None))],
    };
    let run = Reconciler::install(&config(), &declared, None).advance(ok("c"));
    let record = saved(&run);
    let at = &record.extensions[0].installed_at;
    assert!(at.len() >= 20);
    assert_eq!(&at[4..5], "-");
    assert_eq!(&at[10..11], "T");
    assert!(at.ends_with("+00:00"));
    assert_eq!(record.extensions[0].commit_hash.as_deref(), Some("c"));
}

#[test]
fn uninstall_removes_every_directory_and_deletes_the_record() {
    let record = LockFile {
        extensions: vec![
            locked("p", ExtensionType::Plugin, github("org/p", None, None, None), "1", "t"),
            locked("t", ExtensionType::Theme, github("org/t", None, None, None), "2", "t"),
        ],
    };
    let run = Reconciler::uninstall(&config(), &record);
    assert_eq!(
        plan(&run),
        vec!["uninstall p /srv/redmine/plugins/p".to_string(), "uninstall t /srv/redmine/themes/t".to_string()]
    );
    let run = run.advance_at(ok(""), "t").advance_at(ok(""), "t");
    assert!(matches!(run.action(), Action::DeleteLock));
    assert_eq!(run.summary(false), Some("Uninstalled all extensions".to_string()));
}

#[test]
fn reinstall_renews_the_entry_in_place() {
    let record = LockFile {
        extensions: vec![
            locked("p", ExtensionType::Plugin, github("org/p", None, None, None), "1", "gamma"),
            locked("q", ExtensionType::Plugin, github("org/q", None, None, None), "2", "delta"),
            locked("r", ExtensionType::Theme, github("org/r", None, None, None), "3", "omega"),
        ],
    };
    let run = Reconciler::reinstall(&config(), &record, &"q".to_string()).unwrap();
    assert_eq!(
        plan(&run),
        vec![
            "uninstall q /srv/redmine/plugins/q".to_string(),
            "fetch q /srv/redmine/plugins/q".to_string(),
            "setup q /srv/redmine/plugins/q".to_string(),
        ]
    );
    let run = run.advance_at(ok(""), "n0").advance_at(ok("22"), "n1").advance_at(ok(""), "n2");
    assert_eq!(
        brief(&saved(&run)),
        vec![
            ("p".to_string(), Some("1".to_string()), "gamma".to_string()),
            ("q".to_string(), Some("22".to_string()), "n1".to_string()),
            ("r".to_string(), Some("3".to_string()), "omega".to_string()),
        ]
    );
    assert_eq!(run.summary(false), Some("Reinstalled q".to_string()));
}

#[test]
fn reinstall_of_an_unknown_name_is_an_error() {
    let record = LockFile { extensions: vec![] };
    let error = Reconciler::reinstall(&config(), &record, &"nonexistent_plugin".to_string()).unwrap_err();
    assert!(matches!(error, RexerError::ExtensionNotFound(_)));
    assert_eq!(error.message(), "Extension not found: nonexistent_plugin");
}

#[test]
fn update_renews_only_what_has_moved() {
    let record = LockFile {
        extensions: vec![
            locked("p", ExtensionType::Plugin, github("org/p", None, None, None), "1", "gamma"),
            locked("q", ExtensionType::Theme, github("org/q", None, None, None), "2", "delta"),
        ],
    };
    let run = Reconciler::update(&config(), &record, &vec![]).unwrap();
    assert_eq!(
        plan(&run),
        vec![
            "update p /srv/redmine/plugins/p".to_string(),
            "setup p /srv/redmine/plugins/p".to_string(),
            "update q /srv/redmine/themes/q".to_string(),
        ]
    );
    let run = run.advance_at(ok("1"), "n0").advance_at(ok(""), "n1").advance_at(ok("22"), "n2");
    assert_eq!(
        brief(&saved(&run)),
        vec![
            ("p".to_string(), Some("1".to_string()), "gamma".to_string()),
            ("q".to_string(), Some("22".to_string()), "n2".to_string()),
        ]
    );
    assert_eq!(run.summary(false), Some("Updated 2 extension(s)".to_string()));
}

#[test]
fn update_without_movement_saves_nothing() {
    let record = LockFile {
        extensions: vec![locked("q", ExtensionType::Theme, github("org/q", None, None, None), "2", "delta")],
    };
    let run = Reconciler::update(&config(), &record, &vec![]).unwrap().advance_at(ok("2"), "n");
    assert!(matches!(run.action(), Action::Nothing));
    assert_eq!(run.summary(false), Some("All extensions are already up to date".to_string()));
}

#[test]
fn update_takes_only_the_named_extensions() {
    let record = LockFile {
        extensions: vec![
            locked("p", ExtensionType::Plugin, github("org/p", None, None, None), "1", "gamma"),
            locked("q", ExtensionType::Theme, github("org/q", None, None, None), "2", "delta"),
            locked("r", ExtensionType::Theme, github("org/r", None, None, None), "3", "omega"),
        ],
    };
    let run = Reconciler::update(&config(), &record, &vec!["r".to_string(), "q".to_string()]).unwrap();
    assert_eq!(
        plan(&run),
        vec!["update q /srv/redmine/themes/q".to_string(), "update r /srv/redmine/themes/r".to_string()]
    );
    let empty = LockFile { extensions: vec![] };
    let none = Reconciler::update(&config(), &empty, &vec![]).unwrap();
    assert!(plan(&none).is_empty());
    assert!(matches!(none.action(), Action::Nothing));
    assert_eq!(none.summary(false), Some("No extensions to update".to_string()));
}

#[test]
fn steps_announce_themselves() {
    let declared = ExtensionsConfig {
        plugins: vec![ext("test_plugin", github("octocat/Hello-World", Some("master"), None, None))],
        themes: vec![],
    };
    let run = Reconciler::install(&config(), &declared, None);
    let lines: Vec<String> = run.steps().iter().map(|s| s.announcement()).collect();
    assert_eq!(lines, vec!["Installing test_plugin...".to_string(), "Setting up test_plugin...".to_string()]);
    assert_eq!(run.steps()[0].name(), "test_plugin");
    let gone = Step::Uninstall { name: "x".to_string(), destination: "d".to_string() };
    assert_eq!(gone.announcement(), "Uninstalling x...");
}

#[test]
fn entries_without_directory_count_as_not_installed() {
    let record = LockFile {
        extensions: vec![
            locked("p", ExtensionType::Plugin, github("org/p", None, None, None), "1", "gamma"),
            locked("q", ExtensionType::Theme, github("org/q", None, None, None), "2", "delta"),
            locked("r", ExtensionType::Theme, github("org/r", None, None, None), "3", "omega"),
        ],
    };
    assert_eq!(
        recorded_dirs(&config(), &record),
        vec![
            "/srv/redmine/plugins/p".to_string(),
            "/srv/redmine/themes/q".to_string(),
            "/srv/redmine/themes/r".to_string(),
        ]
    );
    let left = installed_entries(&record, &vec![true, false, true]);
    let names: Vec<&str> = left.extensions.iter().map(|l| l.name.as_str()).collect();
    assert_eq!(names, vec!["p", "r"]);
    let unknown = installed_entries(&record, &vec![false]);
    let names: Vec<&str> = unknown.extensions.iter().map(|l| l.name.as_str()).collect();
    assert_eq!(names, vec!["q", "r"]);

    let declared = ExtensionsConfig {
        plugins: vec![ext("p", github("org/p", None, None, None))],
        themes: vec![ext("q", github("org/q", None, None, None)), ext("r", github("org/r", None, None, None))],
    };
    let run = Reconciler::install(&config(), &declared, Some(&left));
    assert_eq!(plan(&run), vec!["fetch q /srv/redmine/themes/q".to_string()]);
}

#[test]
fn a_step_begins_its_own_fetch() {
    let source = github("org/a", None, None, None);
    let fetch = Step::Fetch {
        name: "a".to_string(),
        extension_type: ExtensionType::Plugin,
        source: github("org/a", None, None, None),
        destination: "/srv/redmine/plugins/a".to_string(),
    };
    let manager = fetch.fetch().unwrap();
    assert_eq!(manager.destination(), "/srv/redmine/plugins/a");
    let gone = Outcome { success: false, output: String::new() };
    assert!(matches!(manager.advance(&gone).action(), GitAction::Run { .. }));
    let update = Step::Update {
        name: "a".to_string(),
        extension_type: ExtensionType::Plugin,
        source,
        destination: "/srv/redmine/plugins/a".to_string(),
    };
    assert!(matches!(update.fetch().unwrap().advance(&gone).action(), GitAction::Failed { .. }));
    assert!(Step::Setup { name: "a".to_string(), destination: "d".to_string() }.fetch().is_none());
    assert!(Step::Uninstall { name: "a".to_string(), destination: "d".to_string() }.fetch().is_none());
}

#[test]
fn the_failed_step_is_pointed_at() {
    let declared = ExtensionsConfig {
        plugins: vec![ext("a", github("org/a", None, None, None))],
        themes: vec![],
    };
    let run = Reconciler::install(&config(), &declared, None);
    assert!(run.failed_step().is_none());
    let run = run.advance_at(ok("c"), "t");
    assert!(run.failed_step().is_none());
    let run = run.advance_at(failed("bundle broke"), "t");
    match run.failed_step() {
        Some(Step::Setup { name, .. }) => assert_eq!(name, "a"),
        other => panic!("unexpected step {:?}", other),
    }
}

#[test]
fn update_of_a_name_that_is_not_recorded_is_an_error() {
    let record = LockFile {
        extensions: vec![
            locked("p", ExtensionType::Plugin, github("org/p", None, None, None), "1", "s1"),
            locked("q", ExtensionType::Theme, github("org/q", None, None, None), "2", "s2"),
        ],
    };
    let names = vec!["q".to_string(), "zz".to_string(), "p".to_string(), "yy".to_string()];
    let error = Reconciler::update(&config(), &record, &names).unwrap_err();
    assert!(matches!(error, RexerError::ExtensionNotFound(_)));
    assert_eq!(error.message(), "Extension not found: zz");
    let error = rexer::commands::update(&config(), Some(&record), &vec!["zz".to_string()]).unwrap_err();
    assert_eq!(error.message(), "Extension not found: zz");
    let empty = LockFile { extensions: vec![] };
    let error = Reconciler::update(&config(), &empty, &vec!["p".to_string()]).unwrap_err();
    assert_eq!(error.message(), "Extension not found: p");
    assert!(Reconciler::update(&config(), &record, &vec!["q".to_string(), "q".to_string()]).is_ok());
}

#[test]
fn an_install_looks_at_the_directories() {
    let record = LockFile {
        extensions: vec![
            locked("p", ExtensionType::Plugin, github("org/p", None, None, None), "1", "s1"),
            locked("q", ExtensionType::Theme, github("org/q", None, None, None), "2", "s2"),
            locked("r", ExtensionType::Theme, github("org/r", None, None, None), "3", "s3"),
        ],
    };
    let declared = ExtensionsConfig {
        plugins: vec![ext("p", github("org/p", None, None, None))],
        themes: vec![ext("q", github("org/q", None, None, None))],
    };
    let all_there = Reconciler::install_observed(&config(), &declared, Some(&record), &vec![true, true, true]);
    assert_eq!(plan(&all_there), vec!["uninstall r /srv/redmine/themes/r".to_string()]);
    let some_gone = rexer::commands::install_observed(
        &config(),
        &declared,
        Some(&record),
        &vec![false, true, false],
    );
    assert_eq!(
        plan(&some_gone),
        vec!["fetch p /srv/redmine/plugins/p".to_string(), "setup p /srv/redmine/plugins/p".to_string()]
    );
    let mut run = some_gone;
    while let Action::Perform { .. } = run.action() {
        run = run.advance_at(ok("new"), "now");
    }
    assert_eq!(
        brief(&saved(&run)),
        vec![
            ("q".to_string(), Some("2".to_string()), "s2".to_string()),
            ("p".to_string(), Some("new".to_string()), "now".to_string()),
        ]
    );
    let fresh = Reconciler::install_observed(&config(), &declared, None, &vec![]);
    assert_eq!(plan(&fresh).len(), 3);
}
