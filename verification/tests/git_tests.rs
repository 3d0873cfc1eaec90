use rexer::error::RexerError;
use rexer::extension::{Extension, Git, GitHub, Source};
use rexer::git::{parse_default_branch, GitAction, GitManager, GitStep, Outcome, Strategy};

fn github(repo: &str, reference: Option<&str>) -> Source {
    Source::GitHub(GitHub {
        repo: repo.to_string(),
        branch: None,
        tag: reference.map(|s| s.to_string()),
        commit: None,
    })
}

fn ok(output: &str) -> Outcome {
    Outcome { success: true, output: output.to_string() }
}

fn fail(output: &str) -> Outcome {
    Outcome { success: false, output: output.to_string() }
}

fn words(v: &[&str]) -> Vec<String> {
    v.iter().map(|s| s.to_string()).collect()
}

/// A repository as the tests pretend it: what it knows, and what is checked out.
struct Repo {
    exists: bool,
    native_works: bool,
    local: Vec<String>,
    remote: Vec<String>,
    tags: Vec<String>,
    commits: Vec<String>,
    remote_head: Option<String>,
    remote_default: Option<String>,
    pull_works: bool,
    head: String,
    log: Vec<String>,
}

impl Repo {
    fn new() -> Repo {
        Repo {
            exists: false,
            native_works: true,
            local: vec!["master".to_string()],
            remote: vec!["master".to_string()],
            tags: vec![],
            commits: vec![],
            remote_head: Some("refs/remotes/origin/master".to_string()),
            remote_default: None,
            pull_works: true,
            head: "tip-of-master".to_string(),
            log: vec![],
        }
    }

    fn perform(&mut self, strategy: Strategy, step: &GitStep) -> Outcome {
        let tag = match strategy {
            Strategy::Native => "native",
            Strategy::Subprocess => "git",
        };
        self.log.push(format!("{} {}", tag, step.args().join(" ")));
        if strategy == Strategy::Native && !self.native_works {
            return fail("native strategy is broken");
        }
        match step {
            GitStep::Clone { .. } => {
                if self.exists {
                    return fail("destination exists");
                }
                self.exists = true;
                ok("")
            }
            GitStep::FetchOrigin => ok(""),
            GitStep::CheckoutBranch { name } => {
                if self.local.contains(name) {
                    self.head = format!("branch-{}", name);
                    ok("")
                } else {
                    fail("no such branch")
                }
            }
            GitStep::TrackRemoteBranch { name } => {
                if self.remote.contains(name) && !self.local.contains(name) {
                    self.local.push(name.clone());
                    self.head = format!("remote-{}", name);
                    ok("")
                } else {
                    fail("no such remote branch")
                }
            }
            GitStep::CheckoutTag { name } => {
                if self.tags.contains(name) {
                    self.head = format!("tag-{}", name);
                    ok("")
                } else {
                    fail("no such tag")
                }
            }
            GitStep::CheckoutCommit { id } => {
                if self.commits.contains(id) {
                    self.head = format!("commit-{}", id);
                    ok("")
                } else {
                    fail("no such commit")
                }
            }
            GitStep::ReadRemoteHead => match &self.remote_head {
                Some(head) => ok(head),
                None => fail("no remote head"),
            },
            GitStep::SetRemoteHead => match &self.remote_default {
                Some(head) => {
                    self.remote_head = Some(head.clone());
                    ok("")
                }
                None => fail("cannot ask origin"),
            },
            GitStep::Pull => {
                if self.pull_works {
                    ok("")
                } else {
                    fail("cannot fast-forward")
                }
            }
            GitStep::ReadHead => ok(&self.head.clone()),
        }
    }
}

fn drive(mut manager: GitManager, repo: &mut Repo) -> Result<String, RexerError> {
    for _ in 0..100 {
        match manager.action() {
            GitAction::Probe { .. } => {
                let outcome = if repo.exists { ok("") } else { fail("") };
                manager = manager.advance(&outcome);
            }
            GitAction::Run { strategy, step } => {
                let outcome = repo.perform(strategy, &step);
                manager = manager.advance(&outcome);
            }
            GitAction::Done { commit } => return Ok(commit),
            GitAction::Failed { error } => return Err(error),
        }
    }
    panic!("the fetch did not end");
}

#[test]
fn args_of_every_step() {
    assert_eq!(
        GitStep::Clone { url: "u".to_string(), destination: "d".to_string() }.args(),
        words(&["clone", "u", "d"])
    );
    assert_eq!(GitStep::FetchOrigin.args(), words(&["fetch", "origin"]));
    assert_eq!(
        GitStep::CheckoutBranch { name: "main".to_string() }.args(),
        words(&["switch", "--no-guess", "main"])
    );
    assert_eq!(
        GitStep::TrackRemoteBranch { name: "dev".to_string() }.args(),
        words(&["checkout", "-b", "dev", "origin/dev"])
    );
    assert_eq!(
        GitStep::CheckoutTag { name: "v1.0".to_string() }.args(),
        words(&["checkout", "refs/tags/v1.0"])
    );
    assert_eq!(
        GitStep::CheckoutCommit { id: "abc".to_string() }.args(),
        words(&["checkout", "--detach", "abc"])
    );
    assert_eq!(
        GitStep::ReadRemoteHead.args(),
        words(&["symbolic-ref", "refs/remotes/origin/HEAD"])
    );
    assert_eq!(GitStep::SetRemoteHead.args(), words(&["remote", "set-head", "origin", "--auto"]));
    assert_eq!(GitStep::Pull.args(), words(&["pull"]));
    assert_eq!(GitStep::ReadHead.args(), words(&["rev-parse", "HEAD"]));
}

#[test]
fn only_the_clone_runs_outside_the_working_copy() {
    assert!(!GitStep::Clone { url: "u".to_string(), destination: "d".to_string() }.runs_in_destination());
    assert!(GitStep::FetchOrigin.runs_in_destination());
    assert!(GitStep::ReadHead.runs_in_destination());
    assert!(GitStep::CheckoutTag { name: "t".to_string() }.runs_in_destination());
}

#[test]
fn default_branch_is_read_from_the_remote_head() {
    assert_eq!(parse_default_branch("refs/remotes/origin/master"), Some("master".to_string()));
    assert_eq!(parse_default_branch("origin/develop"), Some("develop".to_string()));
    assert_eq!(parse_default_branch("something else"), None);
    assert_eq!(parse_default_branch(""), None);
    assert_eq!(parse_default_branch("refs/remotes/origin/"), Some("".to_string()));
    assert_eq!(parse_default_branch("refs/remotes/origin/feature/x"), Some("feature/x".to_string()));
}

#[test]
fn a_fetch_begins_by_probing_the_destination() {
    let manager = GitManager::clone_or_update(&github("org/a", None), "/r/plugins/a");
    match manager.action() {
        GitAction::Probe { destination } => assert_eq!(destination, "/r/plugins/a"),
        other => panic!("unexpected action {:?}", other),
    }
    assert!(!manager.is_finished());
}

#[test]
fn a_missing_destination_is_cloned() {
    let manager = GitManager::clone_or_update(&github("org/a", None), "/r/plugins/a");
    let manager = manager.advance(&fail(""));
    match manager.action() {
        GitAction::Run { strategy, step } => {
            assert_eq!(strategy, Strategy::Native);
            assert_eq!(step.args(), words(&["clone", "https://github.com/org/a.git", "/r/plugins/a"]));
        }
        other => panic!("unexpected action {:?}", other),
    }
}

#[test]
fn an_existing_destination_is_updated() {
    let manager = GitManager::clone_or_update(&github("org/a", None), "/r/plugins/a");
    let manager = manager.advance(&ok(""));
    match manager.action() {
        GitAction::Run { strategy, step } => {
            assert_eq!(strategy, Strategy::Native);
            assert_eq!(step.args(), words(&["fetch", "origin"]));
        }
        other => panic!("unexpected action {:?}", other),
    }
}

#[test]
fn a_clone_without_reference_accepts_the_cloned_tip() {
    let mut repo = Repo::new();
    let manager = GitManager::clone_or_update(&github("org/a", None), "/r/plugins/a");
    assert_eq!(drive(manager, &mut repo).unwrap(), "tip-of-master");
    assert_eq!(
        repo.log,
        vec![
            "native clone https://github.com/org/a.git /r/plugins/a".to_string(),
            "native rev-parse HEAD".to_string(),
        ]
    );
}

#[test]
fn an_update_without_reference_goes_to_the_default_branch() {
    let mut repo = Repo::new();
    repo.exists = true;
    let manager = GitManager::clone_or_update(&github("org/a", None), "/r/plugins/a");
    assert_eq!(drive(manager, &mut repo).unwrap(), "branch-master");
    assert_eq!(
        repo.log,
        vec![
            "native fetch origin".to_string(),
            "native symbolic-ref refs/remotes/origin/HEAD".to_string(),
            "native switch --no-guess master".to_string(),
            "native pull".to_string(),
            "native rev-parse HEAD".to_string(),
        ]
    );
}

#[test]
fn an_unknown_default_branch_is_asked_for() {
    let mut repo = Repo::new();
    repo.exists = true;
    repo.remote_head = None;
    repo.remote_default = Some("refs/remotes/origin/trunk".to_string());
    repo.local = vec!["trunk".to_string()];
    let manager = GitManager::clone_or_update(&github("org/a", None), "/r/plugins/a");
    assert_eq!(drive(manager, &mut repo).unwrap(), "branch-trunk");
    assert_eq!(
        repo.log,
        vec![
            "native fetch origin".to_string(),
            "native symbolic-ref refs/remotes/origin/HEAD".to_string(),
            "native remote set-head origin --auto".to_string(),
            "native symbolic-ref refs/remotes/origin/HEAD".to_string(),
            "native switch --no-guess trunk".to_string(),
            "native pull".to_string(),
            "native rev-parse HEAD".to_string(),
        ]
    );
}

#[test]
fn a_default_branch_that_cannot_be_told_is_not_guessed() {
    let mut repo = Repo::new();
    repo.exists = true;
    repo.remote_head = None;
    repo.local = vec!["main".to_string()];
    let manager = GitManager::clone_or_update(&github("org/a", None), "/r/plugins/a");
    let error = drive(manager, &mut repo).unwrap_err();
    assert_eq!(error.message(), "Git operation failed: no remote head");
    assert!(!repo.log.iter().any(|l| l.contains("switch")));
    assert_eq!(repo.log.iter().filter(|l| l.starts_with("git ")).count(), 4);
}

#[test]
fn a_remote_head_that_names_no_branch_is_a_failure() {
    let manager = GitManager::clone_or_update(&github("org/a", None), "/r/plugins/a");
    let manager = manager.advance(&ok("")).advance(&ok("")).advance(&ok("HEAD"));
    assert!(matches!(manager.action(), GitAction::Probe { .. }));
    let manager = manager.advance(&ok("")).advance(&ok("")).advance(&ok("HEAD"));
    match manager.action() {
        GitAction::Failed { error } => assert_eq!(
            error.message(),
            "Git operation failed: Cannot tell the default branch of origin from: HEAD"
        ),
        other => panic!("unexpected action {:?}", other),
    }
}

#[test]
fn a_default_branch_that_is_not_local_is_created_from_origin() {
    let mut repo = Repo::new();
    repo.exists = true;
    repo.local = vec![];
    let manager = GitManager::clone_or_update(&github("org/a", None), "/r/plugins/a");
    assert_eq!(drive(manager, &mut repo).unwrap(), "remote-master");
}

#[test]
fn a_name_that_is_branch_and_tag_resolves_to_the_branch() {
    let mut repo = Repo::new();
    repo.local.push("v1.0".to_string());
    repo.tags.push("v1.0".to_string());
    let manager = GitManager::clone_or_update(&github("org/a", Some("v1.0")), "/r/plugins/a");
    assert_eq!(drive(manager, &mut repo).unwrap(), "branch-v1.0");
    assert!(!repo.log.iter().any(|l| l.contains("refs/tags")));
}

#[test]
fn a_remote_branch_comes_before_a_tag() {
    let mut repo = Repo::new();
    repo.remote.push("v1.0".to_string());
    repo.tags.push("v1.0".to_string());
    let manager = GitManager::clone_or_update(&github("org/a", Some("v1.0")), "/r/plugins/a");
    assert_eq!(drive(manager, &mut repo).unwrap(), "remote-v1.0");
}

#[test]
fn a_tag_comes_before_a_commit() {
    let mut repo = Repo::new();
    repo.tags.push("abc".to_string());
    repo.commits.push("abc".to_string());
    let manager = GitManager::clone_or_update(&github("org/a", Some("abc")), "/r/plugins/a");
    assert_eq!(drive(manager, &mut repo).unwrap(), "tag-abc");
    assert_eq!(
        repo.log,
        vec![
            "native clone https://github.com/org/a.git /r/plugins/a".to_string(),
            "native switch --no-guess abc".to_string(),
            "native checkout -b abc origin/abc".to_string(),
            "native checkout refs/tags/abc".to_string(),
            "native rev-parse HEAD".to_string(),
        ]
    );
}

#[test]
fn a_commit_is_the_last_interpretation() {
    let mut repo = Repo::new();
    repo.commits.push("abc".to_string());
    let manager = GitManager::clone_or_update(&github("org/a", Some("abc")), "/r/plugins/a");
    assert_eq!(drive(manager, &mut repo).unwrap(), "commit-abc");
}

#[test]
fn an_unknown_reference_is_not_found() {
    let mut repo = Repo::new();
    let manager = GitManager::clone_or_update(&github("org/a", Some("nope")), "/r/plugins/a");
    let error = drive(manager, &mut repo).unwrap_err();
    assert!(matches!(error, RexerError::ReferenceNotFound(_)));
    assert_eq!(error.message(), "Reference not found: nope");
    assert!(repo.log.iter().any(|l| l.starts_with("git ")));
    assert!(!repo.log.iter().any(|l| l.contains("symbolic-ref")));
}

#[test]
fn a_native_failure_starts_again_with_the_executable() {
    let mut repo = Repo::new();
    repo.native_works = false;
    let manager = GitManager::clone_or_update(&github("org/a", None), "/r/plugins/a");
    assert_eq!(drive(manager, &mut repo).unwrap(), "tip-of-master");
    assert_eq!(
        repo.log,
        vec![
            "native clone https://github.com/org/a.git /r/plugins/a".to_string(),
            "git clone https://github.com/org/a.git /r/plugins/a".to_string(),
            "git rev-parse HEAD".to_string(),
        ]
    );
}

#[test]
fn a_failure_of_the_executable_is_final() {
    let manager = GitManager::clone_or_update(&github("org/a", None), "/r/plugins/a");
    let manager = manager.advance(&fail(""));
    let manager = manager.advance(&fail("native clone broke"));
    assert!(matches!(manager.action(), GitAction::Probe { .. }));
    let manager = manager.advance(&fail(""));
    match manager.action() {
        GitAction::Run { strategy, .. } => assert_eq!(strategy, Strategy::Subprocess),
        other => panic!("unexpected action {:?}", other),
    }
    let manager = manager.advance(&fail("fatal: repository not found"));
    assert!(manager.is_finished());
    match manager.action() {
        GitAction::Failed { error } => {
            assert_eq!(error.message(), "Git operation failed: fatal: repository not found")
        }
        other => panic!("unexpected action {:?}", other),
    }
    let manager = manager.advance(&ok("ignored"));
    assert!(matches!(manager.action(), GitAction::Failed { .. }));
}

#[test]
fn a_failed_pull_starts_again_and_then_fails() {
    let manager = GitManager::clone_or_update(&github("org/a", None), "/r/plugins/a");
    let manager = manager.advance(&ok(""));
    let manager = manager.advance(&ok(""));
    let manager = manager.advance(&ok("refs/remotes/origin/master"));
    let manager = manager.advance(&ok(""));
    let manager = manager.advance(&fail("cannot pull"));
    assert!(matches!(manager.action(), GitAction::Probe { .. }));
    let manager = manager.advance(&ok(""));
    match manager.action() {
        GitAction::Run { strategy, step } => {
            assert_eq!(strategy, Strategy::Subprocess);
            assert_eq!(step.args(), words(&["fetch", "origin"]));
        }
        other => panic!("unexpected action {:?}", other),
    }
    let manager = manager.advance(&ok(""));
    let manager = manager.advance(&ok("refs/remotes/origin/master"));
    let manager = manager.advance(&ok(""));
    let manager = manager.advance(&fail("cannot pull either"));
    assert!(manager.is_finished());
    match manager.action() {
        GitAction::Failed { error } => {
            assert_eq!(error.message(), "Git operation failed: cannot pull either")
        }
        other => panic!("unexpected action {:?}", other),
    }
}

#[test]
fn a_pull_that_fails_natively_is_made_by_the_executable() {
    let mut repo = Repo::new();
    repo.exists = true;
    repo.native_works = false;
    let manager = GitManager::clone_or_update(&github("org/a", None), "/r/plugins/a");
    assert_eq!(drive(manager, &mut repo).unwrap(), "branch-master");
    assert!(repo.log.contains(&"git pull".to_string()));
}

#[test]
fn an_update_on_a_stale_branch_does_not_end_well() {
    let mut repo = Repo::new();
    repo.exists = true;
    repo.pull_works = false;
    let manager = GitManager::clone_or_update(&github("org/a", None), "/r/plugins/a");
    let error = drive(manager, &mut repo).unwrap_err();
    assert_eq!(error.message(), "Git operation failed: cannot fast-forward");
    assert!(!repo.log.iter().any(|l| l.contains("rev-parse")));
}

#[test]
fn a_successful_pull_leads_to_reading_the_commit() {
    let manager = GitManager::clone_or_update(&github("org/a", None), "/r/plugins/a");
    let manager = manager.advance(&ok(""));
    let manager = manager.advance(&ok(""));
    let manager = manager.advance(&ok("refs/remotes/origin/master"));
    let manager = manager.advance(&ok(""));
    let manager = manager.advance(&ok(""));
    match manager.action() {
        GitAction::Run { step, .. } => assert_eq!(step.args(), words(&["rev-parse", "HEAD"])),
        other => panic!("unexpected action {:?}", other),
    }
    let manager = manager.advance(&ok("0123456789abcdef"));
    match manager.action() {
        GitAction::Done { commit } => assert_eq!(commit, "0123456789abcdef"),
        other => panic!("unexpected action {:?}", other),
    }
    assert!(manager.is_finished());
}

#[test]
fn the_commit_is_what_was_read_not_what_was_asked_for() {
    let mut repo = Repo::new();
    repo.tags.push("v1.0".to_string());
    let manager = GitManager::clone_or_update(&github("org/a", Some("v1.0")), "/r/plugins/a");
    let commit = drive(manager, &mut repo).unwrap();
    assert_eq!(commit, "tag-v1.0");
    assert_ne!(commit, "v1.0");
}

#[test]
fn an_update_of_a_missing_working_copy_fails() {
    let manager = GitManager::update_existing(&github("org/a", None), "/r/plugins/a");
    let manager = manager.advance(&fail(""));
    match manager.action() {
        GitAction::Failed { error } => {
            assert!(matches!(error, RexerError::ExtensionNotFound(_)));
            assert_eq!(
                error.message(),
                "Extension not found: Extension directory not found: /r/plugins/a"
            );
        }
        other => panic!("unexpected action {:?}", other),
    }
}

#[test]
fn an_update_of_an_existing_working_copy_fetches() {
    let mut repo = Repo::new();
    repo.exists = true;
    let manager = GitManager::update_existing(&github("org/a", None), "/r/plugins/a");
    assert_eq!(drive(manager, &mut repo).unwrap(), "branch-master");
}

#[test]
fn the_latest_commit_is_found_by_a_clone_with_the_executable() {
    let mut repo = Repo::new();
    repo.tags.push("v1.0".to_string());
    let manager = GitManager::get_latest_commit_hash(&github("org/a", Some("v1.0")), "/tmp/scratch");
    match manager.action() {
        GitAction::Run { strategy, step } => {
            assert_eq!(strategy, Strategy::Subprocess);
            assert_eq!(step.args(), words(&["clone", "https://github.com/org/a.git", "/tmp/scratch"]));
        }
        other => panic!("unexpected action {:?}", other),
    }
    assert_eq!(drive(manager, &mut repo).unwrap(), "tag-v1.0");
}

#[test]
fn an_extension_loads_its_own_source() {
    let extension = Extension {
        name: "t".to_string(),
        source: Source::Git(Git {
            url: "https://example.com/t.git".to_string(),
            branch: Some("main".to_string()),
            tag: None,
            commit: None,
        }),
    };
    let manager = extension.load("/r/themes/t").advance(&fail(""));
    match manager.action() {
        GitAction::Run { step, .. } => {
            assert_eq!(step.args(), words(&["clone", "https://example.com/t.git", "/r/themes/t"]))
        }
        other => panic!("unexpected action {:?}", other),
    }
    let manager = manager.advance(&ok(""));
    match manager.action() {
        GitAction::Run { step, .. } => assert_eq!(step.args(), words(&["switch", "--no-guess", "main"])),
        other => panic!("unexpected action {:?}", other),
    }
}

#[test]
fn outcomes_of_the_executable() {
    let ended_well = GitStep::ended_well("0123abcd".to_string());
    assert!(ended_well.success);
    assert_eq!(ended_well.output, "0123abcd");

    let clone = GitStep::Clone { url: "u".to_string(), destination: "d".to_string() };
    assert!(!clone.captures_output());
    let ended_badly = clone.ended_badly("fatal: not found", "ignored");
    assert!(!ended_badly.success);
    assert_eq!(ended_badly.output, "Git command failed: git clone u d\nError: fatal: not found");

    assert!(GitStep::ReadHead.captures_output());
    assert!(GitStep::ReadRemoteHead.captures_output());
    let unread = GitStep::ReadHead.ended_badly("fatal: bad revision", "HEAD");
    assert_eq!(
        unread.output,
        "Git command failed: git rev-parse HEAD\nError: fatal: bad revision\nOutput: HEAD"
    );

    let not_started = GitStep::launch_failed("No such file or directory");
    assert!(!not_started.success);
    assert_eq!(not_started.output, "Failed to execute git command: No such file or directory");
}
