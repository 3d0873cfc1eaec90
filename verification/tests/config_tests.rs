use rexer::command::{
    command_failed, gemfile_path, migrations_dir, run_command, run_plugin_setup, split_words,
    CommandLine,
};
use rexer::commands::{edit, init, install, reinstall, uninstall, update};
use rexer::config::{join_path, Config, EXTENSIONS_FILE, LOCK_FILE, LOCK_FILE_TEMP};
use rexer::error::{ErrorKind, RexerError};
use rexer::extension::{ExtensionType, ExtensionsConfig, LockFile};
use rexer::reconcile::Action;
use rexer::store::{no_lock_file, serialization_failed, StoreStep, INITIAL_CONFIG};
use rexer::text::{strip_prefix, to_decimal};

fn config() -> Config {
    Config { command_prefix: None, redmine_root: "/srv/redmine".to_string() }
}

fn prefixed(prefix: &str) -> Config {
    Config { command_prefix: Some(prefix.to_string()), redmine_root: "/srv/redmine".to_string() }
}

fn words(v: &[&str]) -> Vec<String> {
    v.iter().map(|s| s.to_string()).collect()
}

fn line(c: &CommandLine) -> (String, Vec<String>, Option<String>) {
    (c.program.clone(), c.args.clone(), c.working_dir.clone())
}

#[test]
fn names_of_the_files() {
    assert_eq!(EXTENSIONS_FILE, ".extensions.yml");
    assert_eq!(LOCK_FILE, ".extensions.lock");
    assert_eq!(LOCK_FILE_TEMP, ".extensions.lock.tmp");
}

#[test]
fn paths_below_the_root() {
    let c = config();
    assert_eq!(c.extensions_file_path(), "/srv/redmine/.extensions.yml");
    assert_eq!(c.lock_file_path(), "/srv/redmine/.extensions.lock");
    assert_eq!(c.lock_file_temp_path(), "/srv/redmine/.extensions.lock.tmp");
    assert_eq!(c.plugins_dir(), "/srv/redmine/plugins");
    assert_eq!(c.themes_dir(), "/srv/redmine/themes");
    assert_eq!(c.extension_dir(ExtensionType::Plugin, "a"), "/srv/redmine/plugins/a");
    assert_eq!(c.extension_dir(ExtensionType::Theme, "b"), "/srv/redmine/themes/b");
}

#[test]
fn join_path_adds_a_slash_only_where_one_is_missing() {
    assert_eq!(join_path("/a", "b"), "/a/b");
    assert_eq!(join_path("/a/", "b"), "/a/b");
    assert_eq!(join_path("/", "b"), "/b");
    assert_eq!(join_path("", "b"), "b");
    assert_eq!(join_path("a", ""), "a/");
}

#[test]
fn new_keeps_what_it_is_given() {
    let c = Config::new("/r".to_string(), Some("docker exec app".to_string()));
    assert_eq!(c.redmine_root, "/r");
    assert_eq!(c.command_prefix.as_deref(), Some("docker exec app"));
}

#[test]
fn the_declaration_must_exist_to_be_loaded() {
    let c = config();
    assert_eq!(c.load_extensions_config(true).unwrap(), "/srv/redmine/.extensions.yml");
    let error = c.load_extensions_config(false).unwrap_err();
    assert_eq!(error.kind(), ErrorKind::ConfigNotFound);
    assert_eq!(error.detail(), "/srv/redmine/.extensions.yml");
    assert_eq!(error.message(), "Configuration file not found: /srv/redmine/.extensions.yml");
}

#[test]
fn a_missing_record_is_no_record() {
    let c = config();
    assert_eq!(c.load_lock_file(false), None);
    assert_eq!(c.load_lock_file(true), Some("/srv/redmine/.extensions.lock".to_string()));
}

#[test]
fn a_record_is_saved_by_write_and_move() {
    let steps = config().save_lock_file("{\"extensions\":[]}".to_string());
    assert_eq!(steps.len(), 2);
    match &steps[0] {
        StoreStep::WriteTemp { path, content } => {
            assert_eq!(path, "/srv/redmine/.extensions.lock.tmp");
            assert_eq!(content, "{\"extensions\":[]}");
        }
        other => panic!("unexpected step {:?}", other),
    }
    match &steps[1] {
        StoreStep::Rename { from, to } => {
            assert_eq!(from, "/srv/redmine/.extensions.lock.tmp");
            assert_eq!(to, "/srv/redmine/.extensions.lock");
        }
        other => panic!("unexpected step {:?}", other),
    }
    assert_eq!(
        steps[0].failure("disk full").message(),
        "Lock file error: Failed to write temporary lock file: disk full"
    );
    assert_eq!(
        steps[1].failure("permission denied").message(),
        "Lock file error: Failed to finalize lock file: permission denied"
    );
}

#[test]
fn a_record_is_deleted_only_if_it_exists() {
    let c = config();
    assert!(c.delete_lock_file(false).is_empty());
    let steps = c.delete_lock_file(true);
    assert_eq!(steps.len(), 1);
    match &steps[0] {
        StoreStep::Remove { path } => assert_eq!(path, "/srv/redmine/.extensions.lock"),
        other => panic!("unexpected step {:?}", other),
    }
    assert_eq!(steps[0].failure("busy").message(), "IO error: busy");
}

#[test]
fn a_declaration_is_saved_in_place() {
    match config().save_extensions_config("plugins: []\n".to_string()) {
        StoreStep::Write { path, content } => {
            assert_eq!(path, "/srv/redmine/.extensions.yml");
            assert_eq!(content, "plugins: []\n");
        }
        other => panic!("unexpected step {:?}", other),
    }
}

#[test]
fn errors_of_the_store() {
    assert_eq!(no_lock_file().message(), "Lock file error: No lock file found");
    assert_eq!(
        serialization_failed("key must be a string").message(),
        "Lock file error: JSON serialization failed: key must be a string"
    );
}

#[test]
fn every_kind_of_error_has_its_words() {
    let s = || "x".to_string();
    assert_eq!(RexerError::ConfigNotFound(s()).message(), "Configuration file not found: x");
    assert_eq!(RexerError::InvalidConfig(s()).message(), "Invalid configuration: x");
    assert_eq!(RexerError::GitError(s()).message(), "Git operation failed: x");
    assert_eq!(RexerError::ReferenceNotFound(s()).message(), "Reference not found: x");
    assert_eq!(RexerError::HookFailed(s()).message(), "Plugin setup failed: x");
    assert_eq!(RexerError::ExtensionNotFound(s()).message(), "Extension not found: x");
    assert_eq!(RexerError::LockFileError(s()).message(), "Lock file error: x");
    assert_eq!(RexerError::IoError(s()).message(), "IO error: x");
    assert_eq!(RexerError::JsonError(s()).message(), "JSON error: x");
    assert_eq!(RexerError::YamlError(s()).message(), "YAML error: x");
    assert_eq!(RexerError::AnyhowError(s()).message(), "Anyhow error: x");
    assert_eq!(RexerError::YamlError(s()).kind(), ErrorKind::YamlError);
    assert_eq!(RexerError::GitError(s()).clone().detail(), "x");
}

#[test]
fn words_are_split_at_white_space() {
    assert_eq!(split_words("docker exec -it app"), words(&["docker", "exec", "-it", "app"]));
    assert_eq!(split_words("  a \t b\n"), words(&["a", "b"]));
    assert_eq!(split_words("one"), words(&["one"]));
    assert_eq!(split_words("a\u{a0}b\u{3000}c"), words(&["a", "b", "c"]));
    assert!(split_words("").is_empty());
    assert!(split_words(" \t\n ").is_empty());
}

#[test]
fn a_command_without_prefix_runs_as_it_is() {
    let c = run_command("bundle", &words(&["install"]), Some("/srv/redmine/plugins/a"), &config());
    assert_eq!(
        line(&c),
        ("bundle".to_string(), words(&["install"]), Some("/srv/redmine/plugins/a".to_string()))
    );
    let blank = run_command("git", &words(&["pull"]), None, &prefixed("   "));
    assert_eq!(line(&blank), ("git".to_string(), words(&["pull"]), None));
}

#[test]
fn a_prefix_goes_in_front_of_the_command() {
    let c = run_command("bundle", &words(&["exec", "rake"]), None, &prefixed("docker compose exec web"));
    assert_eq!(
        line(&c),
        ("docker".to_string(), words(&["compose", "exec", "web", "bundle", "exec", "rake"]), None)
    );
    let one = run_command("git", &words(&["fetch", "origin"]), Some("/d"), &prefixed("sudo"));
    assert_eq!(line(&one), ("sudo".to_string(), words(&["git", "fetch", "origin"]), Some("/d".to_string())));
}

#[test]
fn a_plugin_is_set_up_by_what_it_has() {
    let c = config();
    assert_eq!(gemfile_path("/srv/redmine/plugins/a"), "/srv/redmine/plugins/a/Gemfile");
    assert_eq!(migrations_dir("/srv/redmine/plugins/a"), "/srv/redmine/plugins/a/db/migrate");
    assert!(run_plugin_setup("/srv/redmine/plugins/a", "a", false, false, &c).is_empty());
    let both = run_plugin_setup("/srv/redmine/plugins/a", "a", true, true, &c);
    let lines: Vec<_> = both.iter().map(line).collect();
    assert_eq!(
        lines,
        vec![
            ("bundle".to_string(), words(&["install"]), Some("/srv/redmine/plugins/a".to_string())),
            (
                "bundle".to_string(),
                words(&["exec", "rake", "redmine:plugins:migrate", "NAME=a"]),
                Some("/srv/redmine".to_string())
            ),
        ]
    );
    let migrate = run_plugin_setup("/srv/redmine/plugins/a", "a", false, true, &prefixed("docker exec app"));
    assert_eq!(migrate.len(), 1);
    assert_eq!(migrate[0].program, "docker");
    assert_eq!(
        migrate[0].args,
        words(&["exec", "app", "bundle", "exec", "rake", "redmine:plugins:migrate", "NAME=a"])
    );
    assert_eq!(
        command_failed(&both[1]).message(),
        "Plugin setup failed: Command failed: bundle exec rake redmine:plugins:migrate NAME=a"
    );
}

#[test]
fn numbers_in_decimal() {
    assert_eq!(to_decimal(0), "0");
    assert_eq!(to_decimal(7), "7");
    assert_eq!(to_decimal(10), "10");
    assert_eq!(to_decimal(42), "42");
    assert_eq!(to_decimal(1234567890), "1234567890");
    assert_eq!(to_decimal(usize::MAX), usize::MAX.to_string());
}

#[test]
fn a_prefix_is_stripped_only_where_it_is_one() {
    assert_eq!(strip_prefix("origin/main", "origin/"), Some("main".to_string()));
    assert_eq!(strip_prefix("origin/", "origin/"), Some("".to_string()));
    assert_eq!(strip_prefix("orig", "origin/"), None);
    assert_eq!(strip_prefix("xorigin/main", "origin/"), None);
    assert_eq!(strip_prefix("abc", ""), Some("abc".to_string()));
    assert_eq!(strip_prefix("éa", "é"), Some("a".to_string()));
}

#[test]
fn commands_that_need_a_record_say_so() {
    let c = config();
    assert_eq!(uninstall(&c, None).unwrap_err().message(), "Lock file error: No lock file found");
    assert_eq!(update(&c, None, &vec![]).unwrap_err().message(), "Lock file error: No lock file found");
    assert_eq!(
        reinstall(&c, None, &"test_plugin".to_string()).unwrap_err().message(),
        "Lock file error: No lock file found"
    );
    let empty = LockFile { extensions: vec![] };
    assert!(matches!(uninstall(&c, Some(&empty)).unwrap().action(), Action::DeleteLock));
    assert!(matches!(update(&c, Some(&empty), &vec![]).unwrap().action(), Action::Nothing));
    let declared = ExtensionsConfig { plugins: vec![], themes: vec![] };
    assert!(matches!(install(&c, &declared, Some(&empty)).action(), Action::Save { .. }));
}

#[test]
fn init_writes_once() {
    let c = config();
    let (step, message) = init(&c, false);
    assert_eq!(message, "Created /srv/redmine/.extensions.yml");
    match step {
        Some(StoreStep::Write { path, content }) => {
            assert_eq!(path, "/srv/redmine/.extensions.yml");
            assert_eq!(content, INITIAL_CONFIG);
        }
        other => panic!("unexpected step {:?}", other),
    }
    let (step, message) = init(&c, true);
    assert!(step.is_none());
    assert_eq!(message, "/srv/redmine/.extensions.yml already exists");
}

#[test]
fn the_editor_opens_the_declaration() {
    let c = config();
    assert_eq!(
        line(&edit(&c, None)),
        ("vim".to_string(), words(&["/srv/redmine/.extensions.yml"]), None)
    );
    assert_eq!(
        line(&edit(&c, Some("nano"))),
        ("nano".to_string(), words(&["/srv/redmine/.extensions.yml"]), None)
    );
}

#[test]
fn white_space_is_what_the_standard_library_says() {
    let listed = |c: char| {
        let u = c as u32;
        (0x0009..=0x000D).contains(&u)
            || u == 0x0020
            || u == 0x0085
            || u == 0x00A0
            || u == 0x1680
            || (0x2000..=0x200A).contains(&u)
            || u == 0x2028
            || u == 0x2029
            || u == 0x202F
            || u == 0x205F
            || u == 0x3000
    };
    let mut text = String::new();
    for u in 0..=0x10FFFFu32 {
        if let Some(c) = char::from_u32(u) {
            assert_eq!(c.is_whitespace(), listed(c), "code point {:x}", u);
            if listed(c) {
                text.push('x');
                text.push(c);
            }
        }
    }
    assert_eq!(split_words(&text).len(), 25);
    assert!(split_words(&text).iter().all(|w| w == "x"));
    assert_eq!(split_words("a\u{200b}b\u{feff}c"), words(&["a\u{200b}b\u{feff}c"]));
}
