use rexer::cli::{version_line, Cli, Commands, ABOUT, NAME};
use rexer::commands::{edit, init, install, reinstall, uninstall, update};
use rexer::config::{Config, EXTENSIONS_FILE, LOCK_FILE};
use rexer::error::RexerError;
use rexer::extension::{Extension, ExtensionsConfig, Git, GitHub, LockFile, Source};
use rexer::git::{GitAction, GitManager, Outcome};
use rexer::reconcile::{Action, Event, Reconciler, Step};
use rexer::report::state;
use rexer::store::StoreStep;

fn config() -> Config {
    Config { command_prefix: None, redmine_root: "/tmp/redmine".to_string() }
}

fn hello_world_plugin() -> ExtensionsConfig {
    ExtensionsConfig {
        plugins: vec![Extension {
            name: "test_plugin".to_string(),
            source: Source::GitHub(GitHub {
                repo: "octocat/Hello-World".to_string(),
                branch: Some("master".to_string()),
                tag: None,
                commit: None,
            }),
        }],
        themes: vec![],
    }
}

fn hello_world_theme() -> ExtensionsConfig {
    ExtensionsConfig {
        plugins: vec![],
        themes: vec![Extension {
            name: "test_theme".to_string(),
            source: Source::Git(Git {
                url: "https://github.com/octocat/Hello-World.git".to_string(),
                branch: Some("master".to_string()),
                tag: None,
                commit: None,
            }),
        }],
    }
}

/// Performs every step of a run as if all went well, and tells what was printed.
fn perform(mut run: Reconciler, fresh: bool) -> (Vec<String>, Reconciler) {
    let mut printed = Vec::new();
    loop {
        match run.action() {
            Action::Perform { step } => {
                printed.push(step.announcement());
                let output = match step {
                    Step::Fetch { .. } | Step::Update { .. } => "7fd1a60b01f91b314f59955a4e4d4e80d8edf11d",
                    _ => "",
                };
                run = run.advance(Event::Succeeded { output: output.to_string() });
            }
            _ => break,
        }
    }
    if let Some(line) = run.summary(fresh) {
        printed.push(line);
    }
    (printed, run)
}

fn installed() -> LockFile {
    let (_, run) = perform(install(&config(), &hello_world_plugin(), None), true);
    match run.action() {
        Action::Save { lock_file } => lock_file,
        other => panic!("unexpected action {:?}", other),
    }
}

#[test]
fn test_version_command() {
    assert_eq!(NAME, "rex");
    assert!(version_line("0.1.0").starts_with("rex "));
    assert_eq!(version_line("0.1.0"), "rex 0.1.0");
}

#[test]
fn test_help_command() {
    assert!(ABOUT.contains("Redmine Extension"));
}

#[test]
fn test_init_command() {
    let (step, message) = init(&config(), false);
    assert!(message.contains("Created"));
    let (path, content) = match step {
        Some(StoreStep::Write { path, content }) => (path, content),
        other => panic!("unexpected step {:?}", other),
    };
    assert!(path.ends_with(".extensions.yml"));
    assert_eq!(EXTENSIONS_FILE, ".extensions.yml");
    assert!(content.contains("plugins:"));
    assert!(content.contains("themes:"));
    assert!(content.contains("github:"));
    assert!(content.contains("git:"));
    assert!(content.contains("branch:"));
    assert!(content.contains("tag:"));
}

#[test]
fn test_init_already_exists() {
    let (first, _) = init(&config(), false);
    assert!(first.is_some());
    let (second, message) = init(&config(), true);
    assert!(second.is_none());
    assert!(message.contains("already exists"));
}

#[test]
fn test_state_command_no_lock() {
    let lines = state("0.1.0", None).unwrap();
    assert!(lines.iter().any(|l| l.contains("No lock file found")));
}

#[test]
fn test_install_command_no_config() {
    let error = config().load_extensions_config(false).unwrap_err();
    assert!(format!("{:?}", error).contains("ConfigNotFound"));
}

#[test]
fn test_install_with_valid_config() {
    let (printed, run) = perform(install(&config(), &hello_world_plugin(), None), true);
    assert!(printed.iter().any(|l| l.contains("Installing test_plugin")));
    assert!(printed.iter().any(|l| l.contains("Installed 1 extensions")));

    let lock_file = match run.action() {
        Action::Save { lock_file } => lock_file,
        other => panic!("unexpected action {:?}", other),
    };
    assert_eq!(lock_file.extensions.len(), 1);
    assert_eq!(LOCK_FILE, ".extensions.lock");
    assert_eq!(config().lock_file_path(), "/tmp/redmine/.extensions.lock");

    match &run.steps()[0] {
        Step::Fetch { destination, .. } => assert_eq!(destination, "/tmp/redmine/plugins/test_plugin"),
        other => panic!("unexpected step {:?}", other),
    }
}

#[test]
fn test_install_with_git_source() {
    let (printed, run) = perform(install(&config(), &hello_world_theme(), None), true);
    assert!(printed.iter().any(|l| l.contains("Installing test_theme")));
    assert!(printed.iter().any(|l| l.contains("Installed 1 extensions")));

    match &run.steps()[0] {
        Step::Fetch { destination, source, .. } => {
            assert_eq!(destination, "/tmp/redmine/themes/test_theme");
            let fetch = GitManager::clone_or_update(source, destination)
                .advance(&Outcome { success: false, output: String::new() });
            match fetch.action() {
                GitAction::Run { step, .. } => assert_eq!(
                    step.args(),
                    vec![
                        "clone".to_string(),
                        "https://github.com/octocat/Hello-World.git".to_string(),
                        "/tmp/redmine/themes/test_theme".to_string(),
                    ]
                ),
                other => panic!("unexpected action {:?}", other),
            }
        }
        other => panic!("unexpected step {:?}", other),
    }
}

#[test]
fn test_state_with_installed_extensions() {
    let lock_file = installed();
    let lines = state("0.1.0", Some(&lock_file)).unwrap();
    assert!(lines.iter().any(|l| l.contains("Rexer: 0.1.0")));
    assert!(lines.iter().any(|l| l.contains("Plugins:")));
    assert!(lines.iter().any(|l| l.contains("test_plugin")));
}

#[test]
fn test_uninstall_no_lock_file() {
    let error = uninstall(&config(), None).unwrap_err();
    assert!(format!("{:?}", error).contains("No lock file found"));
}

#[test]
fn test_uninstall_with_installed_extensions() {
    let lock_file = installed();
    let run = uninstall(&config(), Some(&lock_file)).unwrap();
    match &run.steps()[0] {
        Step::Uninstall { destination, .. } => assert_eq!(destination, "/tmp/redmine/plugins/test_plugin"),
        other => panic!("unexpected step {:?}", other),
    }
    let (printed, run) = perform(run, false);
    assert!(printed.iter().any(|l| l.contains("Uninstalling test_plugin")));
    assert!(printed.iter().any(|l| l.contains("Uninstalled all extensions")));
    assert!(matches!(run.action(), Action::DeleteLock));
    let removal = config().delete_lock_file(true);
    match &removal[0] {
        StoreStep::Remove { path } => assert!(path.ends_with(".extensions.lock")),
        other => panic!("unexpected step {:?}", other),
    }
}

#[test]
fn test_update_no_lock_file() {
    let error = update(&config(), None, &vec![]).unwrap_err();
    assert!(format!("{:?}", error).contains("No lock file found"));
}

#[test]
fn test_update_specific_extension() {
    let lock_file = installed();
    let run = update(&config(), Some(&lock_file), &vec!["test_plugin".to_string()]).unwrap();
    let (printed, _) = perform(run, false);
    assert!(printed.iter().any(|l| l.contains("Updating test_plugin")));
}

#[test]
fn test_reinstall_no_lock_file() {
    let error = reinstall(&config(), None, &"test_plugin".to_string()).unwrap_err();
    assert!(format!("{:?}", error).contains("No lock file found"));
}

#[test]
fn test_reinstall_nonexistent_extension() {
    let lock_file = LockFile { extensions: vec![] };
    let error = reinstall(&config(), Some(&lock_file), &"nonexistent_plugin".to_string()).unwrap_err();
    assert!(format!("{:?}", error).contains("ExtensionNotFound"));
    assert!(matches!(error, RexerError::ExtensionNotFound(_)));
}

#[test]
fn test_default_command_no_config() {
    let cli = Cli { command: None, verbose: false, quiet: false };
    let (command, _) = cli.execute();
    assert!(matches!(command, Commands::Install));
    let error = config().load_extensions_config(false).unwrap_err();
    assert!(format!("{:?}", error).contains("ConfigNotFound"));
}

#[test]
fn test_edit_command() {
    let line = edit(&config(), Some("true"));
    assert_eq!(line.program, "true");
    assert_eq!(line.args, vec!["/tmp/redmine/.extensions.yml".to_string()]);
    assert_eq!(line.working_dir, None);
}

#[test]
fn test_verbose_mode() {
    let cli = Cli { command: Some(Commands::State), verbose: true, quiet: false };
    assert_eq!(cli.log_level(), "debug");
    let (command, level) = cli.execute();
    assert!(matches!(command, Commands::State));
    assert_eq!(level, "debug");
    let both = Cli { command: None, verbose: true, quiet: true };
    assert_eq!(both.log_level(), "debug");
}

#[test]
fn test_quiet_mode() {
    let cli = Cli { command: Some(Commands::State), verbose: false, quiet: true };
    assert_eq!(cli.log_level(), "error");
    let (command, level) = cli.execute();
    assert!(matches!(command, Commands::State));
    assert_eq!(level, "error");
    let plain = Cli { command: None, verbose: false, quiet: false };
    assert_eq!(plain.log_level(), "info");
}

#[test]
fn commands_keep_what_they_are_given() {
    let cli = Cli {
        command: Some(Commands::Update { extensions: vec!["a".to_string()] }),
        verbose: false,
        quiet: false,
    };
    match cli.execute().0 {
        Commands::Update { extensions } => assert_eq!(extensions, vec!["a".to_string()]),
        other => panic!("unexpected command {:?}", other),
    }
    let cli = Cli {
        command: Some(Commands::Reinstall { extension: "b".to_string() }),
        verbose: false,
        quiet: false,
    };
    match cli.execute().0 {
        Commands::Reinstall { extension } => assert_eq!(extension, "b"),
        other => panic!("unexpected command {:?}", other),
    }
}
