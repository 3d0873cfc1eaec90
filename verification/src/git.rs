//! Fetching a source into a working copy: which git operation comes next,
//! given how the last one ended.
//!
//! The library decides; its caller performs each operation and reports the
//! outcome. Every operation is first tried with the native strategy. When the
//! fetch fails there, it starts again from the beginning with the subprocess
//! strategy, and only a failure there is final.

use crate::command::{join_spaced, spaced};
use crate::error::{ErrorKind, RexerError, RexerErrorView};
use crate::extension::{clone_opt, Extension, Source, SourceView};
use crate::text::{strip_prefix, without_prefix};
use vstd::prelude::*;
use vstd::string::StringExecFns;

verus! {

/// How a git operation is carried out.
#[derive(Debug, Clone, Copy, PartialEq, Eq, Structural)]
pub enum Strategy {
    /// In this process, by a git library.
    Native,
    /// By running the `git` executable.
    Subprocess,
}

/// The interpretations of a reference, in the order in which they are tried.
#[derive(Debug, Clone, Copy, PartialEq, Eq, Structural)]
pub enum Attempt {
    /// A local branch of that name.
    LocalBranch,
    /// The branch of that name on `origin`, as a new local branch that tracks it.
    RemoteBranch,
    /// A tag of that name.
    Tag,
    /// The commit with that identifier.
    Commit,
}

/// One git operation on the working copy.
#[derive(Debug)]
pub enum GitStep {
    /// Clone the repository at `url` into `destination`.
    Clone { url: String, destination: String },
    /// Fetch what is new on `origin`.
    FetchOrigin,
    /// Switch to the local branch `name`.
    CheckoutBranch { name: String },
    /// Create the local branch `name` from `origin/name`, tracking it, and
    /// switch to it.
    TrackRemoteBranch { name: String },
    /// Check out the tag `name`.
    CheckoutTag { name: String },
    /// Check out the commit `id`, detached.
    CheckoutCommit { id: String },
    /// Read which branch `origin` has as its default.
    ReadRemoteHead,
    /// Ask `origin` for its default branch and note it.
    SetRemoteHead,
    /// Bring the current branch up to what `origin` has.
    Pull,
    /// Read the identifier of the commit that is checked out.
    ReadHead,
}

/// What a [`GitStep`] holds.
pub enum GitStepView {
    Clone { url: Seq<char>, destination: Seq<char> },
    FetchOrigin,
    CheckoutBranch { name: Seq<char> },
    TrackRemoteBranch { name: Seq<char> },
    CheckoutTag { name: Seq<char> },
    CheckoutCommit { id: Seq<char> },
    ReadRemoteHead,
    SetRemoteHead,
    Pull,
    ReadHead,
}

impl View for GitStep {
    type V = GitStepView;

    open spec fn view(&self) -> GitStepView {
        match self {
            GitStep::Clone { url, destination } => GitStepView::Clone {
                url: url@,
                destination: destination@,
            },
            GitStep::FetchOrigin => GitStepView::FetchOrigin,
            GitStep::CheckoutBranch { name } => GitStepView::CheckoutBranch { name: name@ },
            GitStep::TrackRemoteBranch { name } => GitStepView::TrackRemoteBranch { name: name@ },
            GitStep::CheckoutTag { name } => GitStepView::CheckoutTag { name: name@ },
            GitStep::CheckoutCommit { id } => GitStepView::CheckoutCommit { id: id@ },
            GitStep::ReadRemoteHead => GitStepView::ReadRemoteHead,
            GitStep::SetRemoteHead => GitStepView::SetRemoteHead,
            GitStep::Pull => GitStepView::Pull,
            GitStep::ReadHead => GitStepView::ReadHead,
        }
    }
}

/// The arguments that the `git` executable takes for a step.
pub open spec fn git_args(step: GitStepView) -> Seq<Seq<char>> {
    match step {
        GitStepView::Clone { url, destination } => seq!["clone"@, url, destination],
        GitStepView::FetchOrigin => seq!["fetch"@, "origin"@],
        GitStepView::CheckoutBranch { name } => seq!["switch"@, "--no-guess"@, name],
        GitStepView::TrackRemoteBranch { name } => seq![
            "checkout"@,
            "-b"@,
            name,
            "origin/"@ + name,
        ],
        GitStepView::CheckoutTag { name } => seq!["checkout"@, "refs/tags/"@ + name],
        GitStepView::CheckoutCommit { id } => seq!["checkout"@, "--detach"@, id],
        GitStepView::ReadRemoteHead => seq!["symbolic-ref"@, "refs/remotes/origin/HEAD"@],
        GitStepView::SetRemoteHead => seq!["remote"@, "set-head"@, "origin"@, "--auto"@],
        GitStepView::Pull => seq!["pull"@],
        GitStepView::ReadHead => seq!["rev-parse"@, "HEAD"@],
    }
}

impl GitStep {
    /// The arguments that the `git` executable takes for this step.
    pub fn args(&self) -> (r: Vec<String>)
        ensures
            r.deep_view() == git_args(self@),
    {
        let mut out: Vec<String> = Vec::new();
        match self {
            GitStep::Clone { url, destination } => {
                out.push(String::from_str("clone"));
                out.push(url.clone());
                out.push(destination.clone());
            },
            GitStep::FetchOrigin => {
                out.push(String::from_str("fetch"));
                out.push(String::from_str("origin"));
            },
            GitStep::CheckoutBranch { name } => {
                out.push(String::from_str("switch"));
                out.push(String::from_str("--no-guess"));
                out.push(name.clone());
            },
            GitStep::TrackRemoteBranch { name } => {
                out.push(String::from_str("checkout"));
                out.push(String::from_str("-b"));
                out.push(name.clone());
                out.push(String::from_str("origin/").concat(name.as_str()));
            },
            GitStep::CheckoutTag { name } => {
                out.push(String::from_str("checkout"));
                out.push(String::from_str("refs/tags/").concat(name.as_str()));
            },
            GitStep::CheckoutCommit { id } => {
                out.push(String::from_str("checkout"));
                out.push(String::from_str("--detach"));
                out.push(id.clone());
            },
            GitStep::ReadRemoteHead => {
                out.push(String::from_str("symbolic-ref"));
                out.push(String::from_str("refs/remotes/origin/HEAD"));
            },
            GitStep::SetRemoteHead => {
                out.push(String::from_str("remote"));
                out.push(String::from_str("set-head"));
                out.push(String::from_str("origin"));
                out.push(String::from_str("--auto"));
            },
            GitStep::Pull => {
                out.push(String::from_str("pull"));
            },
            GitStep::ReadHead => {
                out.push(String::from_str("rev-parse"));
                out.push(String::from_str("HEAD"));
            },
        }
        assert(out.deep_view() =~= git_args(self@));
        out
    }

    /// Whether the step runs inside the working copy: every step but the
    /// clone, which creates it.
    pub fn runs_in_destination(&self) -> (r: bool)
        ensures
            r == !(self@ is Clone),
    {
        match self {
            GitStep::Clone { .. } => false,
            _ => true,
        }
    }
}

/// Whether the step is run for what it prints: the reading of the remote
/// head and of the commit that is checked out.
pub open spec fn reads_output(step: GitStepView) -> bool {
    step is ReadRemoteHead || step is ReadHead
}

/// What is said of a step that the `git` executable ended badly: the command
/// line, what it wrote as error, and for a step that is run for what it
/// prints also that.
pub open spec fn failure_text(step: GitStepView, errors: Seq<char>, printed: Seq<char>) -> Seq<
    char,
> {
    "Git command failed: git"@ + spaced(git_args(step)) + "\nError: "@ + errors + (if reads_output(
        step,
    ) {
        "\nOutput: "@ + printed
    } else {
        Seq::empty()
    })
}

impl GitStep {
    /// Whether the step is run for what it prints.
    pub fn captures_output(&self) -> (r: bool)
        ensures
            r == reads_output(self@),
    {
        match self {
            GitStep::ReadRemoteHead => true,
            GitStep::ReadHead => true,
            _ => false,
        }
    }

    /// The outcome of this step when the `git` executable ended badly, from
    /// what it wrote as error and what it printed.
    pub fn ended_badly(&self, errors: &str, printed: &str) -> (r: Outcome)
        ensures
            !r.success,
            r.output@ == failure_text(self@, errors@, printed@),
    {
        let args = self.args();
        let text = join_spaced(String::from_str("Git command failed: git"), &args).concat(
            "\nError: ",
        ).concat(errors);
        if self.captures_output() {
            Outcome { success: false, output: text.concat("\nOutput: ").concat(printed) }
        } else {
            assert(text@ + Seq::<char>::empty() =~= text@);
            Outcome { success: false, output: text }
        }
    }

    /// The outcome of a step when the `git` executable ended well, from what
    /// it printed.
    pub fn ended_well(printed: String) -> (r: Outcome)
        ensures
            r.success,
            r.output == printed,
    {
        Outcome { success: true, output: printed }
    }

    /// The outcome of a step when the `git` executable could not be started,
    /// from what the system said of it.
    pub fn launch_failed(message: &str) -> (r: Outcome)
        ensures
            !r.success,
            r.output@ == "Failed to execute git command: "@ + message@,
    {
        Outcome {
            success: false,
            output: String::from_str("Failed to execute git command: ").concat(message),
        }
    }
}

/// How an operation ended: whether it succeeded, and what it printed, without
/// the white space around it (for a failure, what it complained of).
#[derive(Debug)]
pub struct Outcome {
    pub success: bool,
    pub output: String,
}

/// What an [`Outcome`] holds.
pub struct OutcomeView {
    pub success: bool,
    pub output: Seq<char>,
}

impl View for Outcome {
    type V = OutcomeView;

    open spec fn view(&self) -> OutcomeView {
        OutcomeView { success: self.success, output: self.output@ }
    }
}

/// What the caller is to do next.
#[derive(Debug)]
pub enum GitAction {
    /// Find out whether `destination` exists, and report success if it does.
    Probe { destination: String },
    /// Perform the step with the strategy, and report how it ended.
    Run { strategy: Strategy, step: GitStep },
    /// Nothing: the working copy is at `commit`.
    Done { commit: String },
    /// Nothing: the fetch has failed.
    Failed { error: RexerError },
}

/// What a [`GitAction`] holds.
pub enum GitActionView {
    Probe { destination: Seq<char> },
    Run { strategy: Strategy, step: GitStepView },
    Done { commit: Seq<char> },
    Failed { error: RexerErrorView },
}

impl View for GitAction {
    type V = GitActionView;

    open spec fn view(&self) -> GitActionView {
        match self {
            GitAction::Probe { destination } => GitActionView::Probe { destination: destination@ },
            GitAction::Run { strategy, step } => GitActionView::Run {
                strategy: *strategy,
                step: step@,
            },
            GitAction::Done { commit } => GitActionView::Done { commit: commit@ },
            GitAction::Failed { error } => GitActionView::Failed { error: error@ },
        }
    }
}

/// Where a fetch stands: the operation whose outcome is awaited, or how the
/// fetch ended.
#[derive(Debug)]
enum Phase {
    Probing,
    Cloning,
    Fetching,
    Resolving { attempt: Attempt, reference: String },
    RemoteHead,
    RemoteHeadReset,
    RemoteHeadAgain,
    DefaultBranch { branch: String },
    DefaultBranchTracking { branch: String },
    Pulling,
    ReadingHead,
    Done { commit: String },
    Failed { error: RexerError },
}

/// Where a fetch stands.
pub enum PhaseView {
    /// Asked whether the destination exists.
    Probing,
    /// Cloning the repository.
    Cloning,
    /// Fetching from `origin`.
    Fetching,
    /// Trying one interpretation of the reference.
    Resolving { attempt: Attempt, reference: Seq<char> },
    /// Reading the default branch of `origin`.
    RemoteHead,
    /// Asking `origin` for its default branch, after the reading failed; how
    /// the asking ends is told by the second reading.
    RemoteHeadReset,
    /// Reading the default branch of `origin` a second time.
    RemoteHeadAgain,
    /// Switching to the default branch.
    DefaultBranch { branch: Seq<char> },
    /// Creating the default branch from `origin`.
    DefaultBranchTracking { branch: Seq<char> },
    /// Bringing the default branch up to date.
    Pulling,
    /// Reading the commit that is checked out.
    ReadingHead,
    /// The fetch is done.
    Done { commit: Seq<char> },
    /// The fetch has failed.
    Failed { error: RexerErrorView },
}

impl View for Phase {
    type V = PhaseView;

    closed spec fn view(&self) -> PhaseView {
        match self {
            Phase::Probing => PhaseView::Probing,
            Phase::Cloning => PhaseView::Cloning,
            Phase::Fetching => PhaseView::Fetching,
            Phase::Resolving { attempt, reference } => PhaseView::Resolving {
                attempt: *attempt,
                reference: reference@,
            },
            Phase::RemoteHead => PhaseView::RemoteHead,
            Phase::RemoteHeadReset => PhaseView::RemoteHeadReset,
            Phase::RemoteHeadAgain => PhaseView::RemoteHeadAgain,
            Phase::DefaultBranch { branch } => PhaseView::DefaultBranch { branch: branch@ },
            Phase::DefaultBranchTracking { branch } => PhaseView::DefaultBranchTracking {
                branch: branch@,
            },
            Phase::Pulling => PhaseView::Pulling,
            Phase::ReadingHead => PhaseView::ReadingHead,
            Phase::Done { commit } => PhaseView::Done { commit: commit@ },
            Phase::Failed { error } => PhaseView::Failed { error: error@ },
        }
    }
}

/// A fetch in progress: what is fetched, where to, how, and where it stands.
#[derive(Debug)]
pub struct GitManager {
    url: String,
    destination: String,
    reference: Option<String>,
    must_exist: bool,
    strategy: Strategy,
    phase: Phase,
}

/// What a [`GitManager`] holds.
pub struct GitManagerView {
    /// The URL that the repository is cloned from.
    pub url: Seq<char>,
    /// The directory of the working copy.
    pub destination: Seq<char>,
    /// The reference to check out; none means the default branch.
    pub reference: Option<Seq<char>>,
    /// Whether a missing destination is an error rather than a reason to clone.
    pub must_exist: bool,
    /// The strategy in use.
    pub strategy: Strategy,
    /// Where the fetch stands.
    pub phase: PhaseView,
}

impl View for GitManager {
    type V = GitManagerView;

    closed spec fn view(&self) -> GitManagerView {
        GitManagerView {
            url: self.url@,
            destination: self.destination@,
            reference: self.reference.deep_view(),
            must_exist: self.must_exist,
            strategy: self.strategy,
            phase: self.phase@,
        }
    }
}

/// The name of the default branch, from what reading the remote head
/// printed: what follows `refs/remotes/origin/` or `origin/`; none where it
/// starts with neither, so that no branch is guessed.
pub open spec fn default_branch_name(head: Seq<char>) -> Option<Seq<char>> {
    match without_prefix(head, "refs/remotes/origin/"@) {
        Some(rest) => Some(rest),
        None => without_prefix(head, "origin/"@),
    }
}

/// The error of a remote head that names no branch of `origin`.
pub open spec fn no_default_branch(head: Seq<char>) -> RexerErrorView {
    RexerErrorView {
        kind: ErrorKind::GitError,
        detail: "Cannot tell the default branch of origin from: "@ + head,
    }
}

/// The step that tries one interpretation of a reference.
pub open spec fn attempt_step(attempt: Attempt, reference: Seq<char>) -> GitStepView {
    match attempt {
        Attempt::LocalBranch => GitStepView::CheckoutBranch { name: reference },
        Attempt::RemoteBranch => GitStepView::TrackRemoteBranch { name: reference },
        Attempt::Tag => GitStepView::CheckoutTag { name: reference },
        Attempt::Commit => GitStepView::CheckoutCommit { id: reference },
    }
}

/// The words that a missing working copy is reported with.
pub open spec fn missing_directory(destination: Seq<char>) -> RexerErrorView {
    RexerErrorView {
        kind: ErrorKind::ExtensionNotFound,
        detail: "Extension directory not found: "@ + destination,
    }
}

impl GitManagerView {
    /// The same fetch in another phase.
    pub open spec fn at(self, phase: PhaseView) -> GitManagerView {
        GitManagerView { phase, ..self }
    }

    /// What the caller is to do in this state.
    pub open spec fn action(self) -> GitActionView {
        match self.phase {
            PhaseView::Probing => GitActionView::Probe { destination: self.destination },
            PhaseView::Cloning => self.run(
                GitStepView::Clone { url: self.url, destination: self.destination },
            ),
            PhaseView::Fetching => self.run(GitStepView::FetchOrigin),
            PhaseView::Resolving { attempt, reference } => self.run(
                attempt_step(attempt, reference),
            ),
            PhaseView::RemoteHead => self.run(GitStepView::ReadRemoteHead),
            PhaseView::RemoteHeadReset => self.run(GitStepView::SetRemoteHead),
            PhaseView::RemoteHeadAgain => self.run(GitStepView::ReadRemoteHead),
            PhaseView::DefaultBranch { branch } => self.run(
                GitStepView::CheckoutBranch { name: branch },
            ),
            PhaseView::DefaultBranchTracking { branch } => self.run(
                GitStepView::TrackRemoteBranch { name: branch },
            ),
            PhaseView::Pulling => self.run(GitStepView::Pull),
            PhaseView::ReadingHead => self.run(GitStepView::ReadHead),
            PhaseView::Done { commit } => GitActionView::Done { commit },
            PhaseView::Failed { error } => GitActionView::Failed { error },
        }
    }

    /// The step, to be run with the strategy in use.
    pub open spec fn run(self, step: GitStepView) -> GitActionView {
        GitActionView::Run { strategy: self.strategy, step }
    }

    /// The fetch has failed with the strategy in use: with the native one it
    /// starts again with the subprocess strategy, with that one it has failed
    /// for good.
    pub open spec fn give_up(self, error: RexerErrorView) -> GitManagerView {
        match self.strategy {
            Strategy::Native => GitManagerView {
                strategy: Strategy::Subprocess,
                phase: PhaseView::Probing,
                ..self
            },
            Strategy::Subprocess => self.at(PhaseView::Failed { error }),
        }
    }

    /// The phase in which the reference is checked out: its first
    /// interpretation, or the default branch where none is asked for. A
    /// fresh clone is on its default branch already.
    pub open spec fn checkout(self, cloned: bool) -> GitManagerView {
        match self.reference {
            Some(reference) => self.at(
                PhaseView::Resolving { attempt: Attempt::LocalBranch, reference },
            ),
            None => if cloned {
                self.at(PhaseView::ReadingHead)
            } else {
                self.at(PhaseView::RemoteHead)
            },
        }
    }

    /// The state once the remote head was read as `head`: the switch to the
    /// branch that it names, and failure where it names none.
    pub open spec fn default_branch(self, head: Seq<char>) -> GitManagerView {
        match default_branch_name(head) {
            Some(branch) => self.at(PhaseView::DefaultBranch { branch }),
            None => self.give_up(no_default_branch(head)),
        }
    }

    /// The state after the outcome of the awaited operation: a success
    /// moves on, and a failure ends the attempt with the strategy in use,
    /// but where it is an answer: a reference that is not what was tried, a
    /// remote head that is not noted yet, a default branch that is not yet
    /// local. Then the next way is tried, and the last of them fails too.
    pub open spec fn after(self, outcome: OutcomeView) -> GitManagerView {
        let failure = RexerErrorView { kind: ErrorKind::GitError, detail: outcome.output };
        match self.phase {
            PhaseView::Probing => if outcome.success {
                self.at(PhaseView::Fetching)
            } else if self.must_exist {
                self.at(PhaseView::Failed { error: missing_directory(self.destination) })
            } else {
                self.at(PhaseView::Cloning)
            },
            PhaseView::Cloning => if outcome.success {
                self.checkout(true)
            } else {
                self.give_up(failure)
            },
            PhaseView::Fetching => if outcome.success {
                self.checkout(false)
            } else {
                self.give_up(failure)
            },
            PhaseView::Resolving { attempt, reference } => if outcome.success {
                self.at(PhaseView::ReadingHead)
            } else {
                match attempt {
                    Attempt::LocalBranch => self.at(
                        PhaseView::Resolving { attempt: Attempt::RemoteBranch, reference },
                    ),
                    Attempt::RemoteBranch => self.at(
                        PhaseView::Resolving { attempt: Attempt::Tag, reference },
                    ),
                    Attempt::Tag => self.at(
                        PhaseView::Resolving { attempt: Attempt::Commit, reference },
                    ),
                    Attempt::Commit => self.give_up(
                        RexerErrorView { kind: ErrorKind::ReferenceNotFound, detail: reference },
                    ),
                }
            },
            PhaseView::RemoteHead => if outcome.success {
                self.default_branch(outcome.output)
            } else {
                self.at(PhaseView::RemoteHeadReset)
            },
            PhaseView::RemoteHeadReset => self.at(PhaseView::RemoteHeadAgain),
            PhaseView::RemoteHeadAgain => if outcome.success {
                self.default_branch(outcome.output)
            } else {
                self.give_up(failure)
            },
            PhaseView::DefaultBranch { branch } => if outcome.success {
                self.at(PhaseView::Pulling)
            } else {
                self.at(PhaseView::DefaultBranchTracking { branch })
            },
            PhaseView::DefaultBranchTracking { branch } => if outcome.success {
                self.at(PhaseView::Pulling)
            } else {
                self.give_up(failure)
            },
            PhaseView::Pulling => if outcome.success {
                self.at(PhaseView::ReadingHead)
            } else {
                self.give_up(failure)
            },
            PhaseView::ReadingHead => if outcome.success {
                self.at(PhaseView::Done { commit: outcome.output })
            } else {
                self.give_up(failure)
            },
            PhaseView::Done { .. } => self,
            PhaseView::Failed { .. } => self,
        }
    }

    /// The state in which a fetch of `source` into `destination` begins.
    pub open spec fn start(
        source: SourceView,
        destination: Seq<char>,
        must_exist: bool,
    ) -> GitManagerView {
        GitManagerView {
            url: source.full_url(),
            destination,
            reference: source.reference(),
            must_exist,
            strategy: Strategy::Native,
            phase: PhaseView::Probing,
        }
    }
}

/// The name of the default branch, from what reading the remote head
/// printed, if it names one.
pub fn parse_default_branch(head: &str) -> (r: Option<String>)
    ensures
        r.deep_view() == default_branch_name(head@),
{
    match strip_prefix(head, "refs/remotes/origin/") {
        Some(rest) => Some(rest),
        None => strip_prefix(head, "origin/"),
    }
}

impl GitManager {
    /// Begins the fetch of `source` into `destination`: an update of the
    /// working copy if the destination exists, a clone if it does not.
    pub fn clone_or_update(source: &Source, destination: &str) -> (r: GitManager)
        ensures
            r@ == GitManagerView::start(source@, destination@, false),
    {
        GitManager {
            url: source.full_url(),
            destination: String::from_str(destination),
            reference: source.reference(),
            must_exist: false,
            strategy: Strategy::Native,
            phase: Phase::Probing,
        }
    }

    /// Begins the update of the working copy of `source` in `destination`,
    /// which fails if the destination does not exist.
    pub fn update_existing(source: &Source, destination: &str) -> (r: GitManager)
        ensures
            r@ == GitManagerView::start(source@, destination@, true),
    {
        GitManager {
            url: source.full_url(),
            destination: String::from_str(destination),
            reference: source.reference(),
            must_exist: true,
            strategy: Strategy::Native,
            phase: Phase::Probing,
        }
    }

    /// Begins finding the commit that `source` stands for at this moment, by
    /// a clone into the fresh directory `scratch` with the `git` executable.
    pub fn get_latest_commit_hash(source: &Source, scratch: &str) -> (r: GitManager)
        ensures
            r@ == (GitManagerView {
                strategy: Strategy::Subprocess,
                phase: PhaseView::Cloning,
                ..GitManagerView::start(source@, scratch@, false)
            }),
    {
        GitManager {
            url: source.full_url(),
            destination: String::from_str(scratch),
            reference: source.reference(),
            must_exist: false,
            strategy: Strategy::Subprocess,
            phase: Phase::Cloning,
        }
    }

    fn at(self, phase: Phase) -> (r: GitManager)
        ensures
            r@ == self@.at(phase@),
    {
        GitManager {
            url: self.url,
            destination: self.destination,
            reference: self.reference,
            must_exist: self.must_exist,
            strategy: self.strategy,
            phase,
        }
    }

    fn run(&self, step: GitStep) -> (r: GitAction)
        ensures
            r@ == self@.run(step@),
    {
        GitAction::Run { strategy: self.strategy, step }
    }

    fn give_up(self, error: RexerError) -> (r: GitManager)
        ensures
            r@ == self@.give_up(error@),
    {
        match self.strategy {
            Strategy::Native => GitManager {
                url: self.url,
                destination: self.destination,
                reference: self.reference,
                must_exist: self.must_exist,
                strategy: Strategy::Subprocess,
                phase: Phase::Probing,
            },
            Strategy::Subprocess => self.at(Phase::Failed { error }),
        }
    }

    /// Enters the clone of the repository.
    fn clone_repository(self) -> (r: GitManager)
        ensures
            r@ == self@.at(PhaseView::Cloning),
    {
        self.at(Phase::Cloning)
    }

    /// Enters the update of the working copy, which begins with a fetch.
    fn update_repository(self) -> (r: GitManager)
        ensures
            r@ == self@.at(PhaseView::Fetching),
    {
        self.at(Phase::Fetching)
    }

    /// Enters the reading of the commit that is checked out.
    fn get_current_commit_hash(self) -> (r: GitManager)
        ensures
            r@ == self@.at(PhaseView::ReadingHead),
    {
        self.at(Phase::ReadingHead)
    }

    /// Enters the checkout: of the reference, or of the default branch.
    fn checkout(self, cloned: bool) -> (r: GitManager)
        ensures
            r@ == self@.checkout(cloned),
    {
        match clone_opt(&self.reference) {
            Some(reference) => self.at(
                Phase::Resolving { attempt: Attempt::LocalBranch, reference },
            ),
            None => if cloned {
                self.get_current_commit_hash()
            } else {
                self.at(Phase::RemoteHead)
            },
        }
    }

    /// Goes on after one interpretation of the reference was tried: to the
    /// reading of the commit if it was found, else to the next one, and
    /// after the last to failure.
    fn checkout_reference(self, attempt: Attempt, reference: String, success: bool) -> (r:
        GitManager)
        requires
            self@.phase == (PhaseView::Resolving { attempt, reference: reference@ }),
        ensures
            forall|o: OutcomeView| o.success == success ==> r@ == #[trigger] self@.after(o),
    {
        if success {
            self.get_current_commit_hash()
        } else {
            match attempt {
                Attempt::LocalBranch => self.at(
                    Phase::Resolving { attempt: Attempt::RemoteBranch, reference },
                ),
                Attempt::RemoteBranch => self.at(
                    Phase::Resolving { attempt: Attempt::Tag, reference },
                ),
                Attempt::Tag => self.at(Phase::Resolving { attempt: Attempt::Commit, reference }),
                Attempt::Commit => self.give_up(RexerError::ReferenceNotFound(reference)),
            }
        }
    }

    /// Goes on after the default branch of `origin` was read: to the switch
    /// to the branch that was read; where the first reading failed, to
    /// asking `origin`; and to failure where the second failed or what was
    /// read names no branch.
    fn checkout_default_branch(self, again: bool, outcome: &Outcome) -> (r: GitManager)
        requires
            self@.phase == (if again {
                PhaseView::RemoteHeadAgain
            } else {
                PhaseView::RemoteHead
            }),
        ensures
            r@ == self@.after(outcome@),
    {
        if outcome.success {
            match parse_default_branch(outcome.output.as_str()) {
                Some(branch) => self.at(Phase::DefaultBranch { branch }),
                None => {
                    let detail = String::from_str(
                        "Cannot tell the default branch of origin from: ",
                    ).concat(outcome.output.as_str());
                    self.give_up(RexerError::GitError(detail))
                },
            }
        } else if again {
            self.give_up(RexerError::GitError(outcome.output.clone()))
        } else {
            self.at(Phase::RemoteHeadReset)
        }
    }

    /// What the caller is to do next.
    pub fn action(&self) -> (r: GitAction)
        ensures
            r@ == self@.action(),
    {
        match &self.phase {
            Phase::Probing => GitAction::Probe { destination: self.destination.clone() },
            Phase::Cloning => self.run(
                GitStep::Clone { url: self.url.clone(), destination: self.destination.clone() },
            ),
            Phase::Fetching => self.run(GitStep::FetchOrigin),
            Phase::Resolving { attempt, reference } => {
                let step = match attempt {
                    Attempt::LocalBranch => GitStep::CheckoutBranch { name: reference.clone() },
                    Attempt::RemoteBranch => GitStep::TrackRemoteBranch {
                        name: reference.clone(),
                    },
                    Attempt::Tag => GitStep::CheckoutTag { name: reference.clone() },
                    Attempt::Commit => GitStep::CheckoutCommit { id: reference.clone() },
                };
                self.run(step)
            },
            Phase::RemoteHead => self.run(GitStep::ReadRemoteHead),
            Phase::RemoteHeadReset => self.run(GitStep::SetRemoteHead),
            Phase::RemoteHeadAgain => self.run(GitStep::ReadRemoteHead),
            Phase::DefaultBranch { branch } => self.run(
                GitStep::CheckoutBranch { name: branch.clone() },
            ),
            Phase::DefaultBranchTracking { branch } => self.run(
                GitStep::TrackRemoteBranch { name: branch.clone() },
            ),
            Phase::Pulling => self.run(GitStep::Pull),
            Phase::ReadingHead => self.run(GitStep::ReadHead),
            Phase::Done { commit } => GitAction::Done { commit: commit.clone() },
            Phase::Failed { error } => GitAction::Failed { error: error.clone() },
        }
    }

    /// The directory of the working copy.
    pub fn destination(&self) -> (r: &String)
        ensures
            r@ == self@.destination,
    {
        &self.destination
    }

    /// Whether the fetch has ended, well or badly.
    pub fn is_finished(&self) -> (r: bool)
        ensures
            r == (self@.phase is Done || self@.phase is Failed),
    {
        match &self.phase {
            Phase::Done { .. } => true,
            Phase::Failed { .. } => true,
            _ => false,
        }
    }

    /// Takes the outcome of the operation that [`GitManager::action`] asked
    /// for, and moves on.
    pub fn advance(self, outcome: &Outcome) -> (r: GitManager)
        ensures
            r@ == self@.after(outcome@),
    {
        let failure = RexerError::GitError(outcome.output.clone());
        let phase = match &self.phase {
            Phase::Probing => Phase::Probing,
            Phase::Cloning => Phase::Cloning,
            Phase::Fetching => Phase::Fetching,
            Phase::Resolving { attempt, reference } => Phase::Resolving {
                attempt: *attempt,
                reference: reference.clone(),
            },
            Phase::RemoteHead => Phase::RemoteHead,
            Phase::RemoteHeadReset => Phase::RemoteHeadReset,
            Phase::RemoteHeadAgain => Phase::RemoteHeadAgain,
            Phase::DefaultBranch { branch } => Phase::DefaultBranch { branch: branch.clone() },
            Phase::DefaultBranchTracking { branch } => Phase::DefaultBranchTracking {
                branch: branch.clone(),
            },
            Phase::Pulling => Phase::Pulling,
            Phase::ReadingHead => Phase::ReadingHead,
            Phase::Done { commit } => Phase::Done { commit: commit.clone() },
            Phase::Failed { error } => Phase::Failed { error: error.clone() },
        };
        assert(phase@ == self@.phase);
        match phase {
            Phase::Probing => if outcome.success {
                self.update_repository()
            } else if self.must_exist {
                let detail = String::from_str("Extension directory not found: ").concat(
                    self.destination.as_str(),
                );
                self.at(Phase::Failed { error: RexerError::ExtensionNotFound(detail) })
            } else {
                self.clone_repository()
            },
            Phase::Cloning => if outcome.success {
                self.checkout(true)
            } else {
                self.give_up(failure)
            },
            Phase::Fetching => if outcome.success {
                self.checkout(false)
            } else {
                self.give_up(failure)
            },
            Phase::Resolving { attempt, reference } => self.checkout_reference(
                attempt,
                reference,
                outcome.success,
            ),
            Phase::RemoteHead => self.checkout_default_branch(false, outcome),
            Phase::RemoteHeadReset => self.at(Phase::RemoteHeadAgain),
            Phase::RemoteHeadAgain => self.checkout_default_branch(true, outcome),
            Phase::DefaultBranch { branch } => if outcome.success {
                self.at(Phase::Pulling)
            } else {
                self.at(Phase::DefaultBranchTracking { branch })
            },
            Phase::DefaultBranchTracking { branch } => if outcome.success {
                self.at(Phase::Pulling)
            } else {
                self.give_up(failure)
            },
            Phase::Pulling => if outcome.success {
                self.get_current_commit_hash()
            } else {
                self.give_up(failure)
            },
            Phase::ReadingHead => if outcome.success {
                self.at(Phase::Done { commit: outcome.output.clone() })
            } else {
                self.give_up(failure)
            },
            Phase::Done { .. } => self,
            Phase::Failed { .. } => self,
        }
    }
}

impl Extension {
    /// Begins the fetch of the extension's source into `destination`.
    pub fn load(&self, destination: &str) -> (r: GitManager)
        ensures
            r@ == GitManagerView::start(self@.source, destination@, false),
    {
        GitManager::clone_or_update(&self.source, destination)
    }
}

/// Under which interpretations a repository knows one name.
pub struct Names {
    pub local_branch: bool,
    pub remote_branch: bool,
    pub tag: bool,
    pub commit: bool,
}

impl Names {
    /// Whether the repository knows the name under this interpretation.
    pub open spec fn has(self, attempt: Attempt) -> bool {
        match attempt {
            Attempt::LocalBranch => self.local_branch,
            Attempt::RemoteBranch => self.remote_branch,
            Attempt::Tag => self.tag,
            Attempt::Commit => self.commit,
        }
    }

    /// The interpretation that the name is to be resolved to: a local
    /// branch before a branch of `origin`, that before a tag, and a tag
    /// before a commit.
    pub open spec fn first(self) -> Option<Attempt> {
        if self.local_branch {
            Some(Attempt::LocalBranch)
        } else if self.remote_branch {
            Some(Attempt::RemoteBranch)
        } else if self.tag {
            Some(Attempt::Tag)
        } else if self.commit {
            Some(Attempt::Commit)
        } else {
            None
        }
    }
}

/// How many interpretations of the reference are still to be tried.
pub open spec fn attempts_left(s: GitManagerView) -> nat {
    match s.phase {
        PhaseView::Resolving { attempt: Attempt::LocalBranch, .. } => 4,
        PhaseView::Resolving { attempt: Attempt::RemoteBranch, .. } => 3,
        PhaseView::Resolving { attempt: Attempt::Tag, .. } => 2,
        PhaseView::Resolving { attempt: Attempt::Commit, .. } => 1,
        _ => 0,
    }
}

/// Where the resolution of a reference ends, and with which interpretation,
/// when the checkout of each interpretation succeeds exactly if the
/// repository knows the name under it.
pub open spec fn resolve(s: GitManagerView, names: Names) -> (GitManagerView, Option<Attempt>)
    decreases attempts_left(s),
{
    match s.phase {
        PhaseView::Resolving { attempt, reference } => {
            let next = s.after(OutcomeView { success: names.has(attempt), output: Seq::empty() });
            if names.has(attempt) {
                (next, Some(attempt))
            } else {
                resolve(next, names)
            }
        },
        _ => (s, None),
    }
}

/// A reference is resolved in a fixed order.
///
/// From the first attempt on, the resolution ends with the first of local
/// branch, branch of `origin`, tag and commit that the repository knows the
/// name under, and goes on to read the commit that is checked out; a name
/// that is both a branch and a tag is therefore checked out as the branch.
/// Where the repository knows the name under none of them, the fetch gives
/// up with the reference reported as not found.
pub proof fn lemma_reference_order(s: GitManagerView, reference: Seq<char>, names: Names)
    requires
        s.phase == (PhaseView::Resolving { attempt: Attempt::LocalBranch, reference }),
    ensures
        resolve(s, names).1 == names.first(),
        names.first() is Some ==> resolve(s, names).0 == s.at(PhaseView::ReadingHead),
        names.first() is None ==> resolve(s, names).0 == s.give_up(
            RexerErrorView { kind: ErrorKind::ReferenceNotFound, detail: reference },
        ),
        names.local_branch && names.tag ==> resolve(s, names).1 == Some(Attempt::LocalBranch),
{
    reveal_with_fuel(resolve, 5);
}

/// The outcome of a checkout counts only as success or failure: what the
/// operation printed changes nothing.
pub proof fn lemma_resolving_ignores_output(s: GitManagerView, a: OutcomeView, b: OutcomeView)
    requires
        s.phase is Resolving,
        a.success == b.success,
    ensures
        s.after(a) == s.after(b),
{
}

/// Only the subprocess strategy fails for good.
///
/// A fetch that was not failed before an outcome and is failed after it was
/// running the subprocess strategy, or was to update a working copy that
/// does not exist. A failure with the native strategy starts the fetch
/// again, from the probe, with the subprocess strategy.
pub proof fn lemma_failure_is_of_last_resort(s: GitManagerView, outcome: OutcomeView)
    requires
        !(s.phase is Failed),
        s.after(outcome).phase is Failed,
    ensures
        s.strategy == Strategy::Subprocess || (s.phase is Probing && s.must_exist
            && !outcome.success),
{
}

/// The commit that a fetch ends with is what reading the checked-out commit
/// printed, whatever reference was asked for.
pub proof fn lemma_commit_is_read(s: GitManagerView, outcome: OutcomeView)
    requires
        !(s.phase is Done),
        s.after(outcome).phase is Done,
    ensures
        s.phase is ReadingHead,
        outcome.success,
        s.after(outcome).phase == (PhaseView::Done { commit: outcome.output }),
        s.action() == s.run(GitStepView::ReadHead),
{
}

/// A fetch that has ended stays as it is.
pub proof fn lemma_finished_stays(s: GitManagerView, outcome: OutcomeView)
    requires
        s.phase is Done || s.phase is Failed,
    ensures
        s.after(outcome) == s,
{
}

/// How many operations a fetch can still ask for, at most.
pub open spec fn operations_left(s: GitManagerView) -> nat {
    let of_phase: nat = match s.phase {
        PhaseView::Probing => 12,
        PhaseView::Cloning => 11,
        PhaseView::Fetching => 11,
        PhaseView::Resolving { attempt: Attempt::LocalBranch, .. } => 10,
        PhaseView::Resolving { attempt: Attempt::RemoteBranch, .. } => 9,
        PhaseView::Resolving { attempt: Attempt::Tag, .. } => 8,
        PhaseView::Resolving { attempt: Attempt::Commit, .. } => 7,
        PhaseView::RemoteHead => 10,
        PhaseView::RemoteHeadReset => 9,
        PhaseView::RemoteHeadAgain => 8,
        PhaseView::DefaultBranch { .. } => 7,
        PhaseView::DefaultBranchTracking { .. } => 6,
        PhaseView::Pulling => 5,
        PhaseView::ReadingHead => 4,
        PhaseView::Done { .. } => 0,
        PhaseView::Failed { .. } => 0,
    };
    let of_strategy: nat = match s.strategy {
        Strategy::Native => 13,
        Strategy::Subprocess => 0,
    };
    if s.phase is Done || s.phase is Failed {
        0
    } else {
        of_phase + of_strategy
    }
}

/// Every fetch ends.
///
/// Each outcome brings a fetch that has not ended closer to its end: the
/// number of operations that it can still ask for goes down, and it is at
/// most 25 at the start. The second strategy is tried once, never again.
pub proof fn lemma_fetch_ends(s: GitManagerView, outcome: OutcomeView)
    requires
        !(s.phase is Done || s.phase is Failed),
    ensures
        operations_left(s.after(outcome)) < operations_left(s),
        operations_left(s) <= 25,
{
}

/// A failure with the native strategy starts the whole fetch again with the
/// subprocess strategy, from the probe of the destination; no other change
/// of strategy happens, and what is fetched, and where to, never changes.
pub proof fn lemma_fallback_restarts(s: GitManagerView, outcome: OutcomeView)
    ensures
        s.after(outcome).url == s.url,
        s.after(outcome).destination == s.destination,
        s.after(outcome).reference == s.reference,
        s.after(outcome).must_exist == s.must_exist,
        s.after(outcome).strategy != s.strategy ==> s.strategy == Strategy::Native && s.after(
            outcome,
        ).strategy == Strategy::Subprocess && s.after(outcome).phase == PhaseView::Probing,
{
}

/// A failure that is no answer ends the attempt with the strategy in use.
///
/// When the clone, the fetch, the second reading of the remote head, the
/// creation of the default branch, the pull or the reading of the commit
/// fails, the fetch gives up with what the operation complained of: with
/// the native strategy it starts again with the subprocess strategy, with
/// that one it has failed. No later operation makes up for it.
pub proof fn lemma_failure_gives_up(s: GitManagerView, outcome: OutcomeView)
    requires
        !outcome.success,
        s.phase is Cloning || s.phase is Fetching || s.phase is RemoteHeadAgain
            || s.phase is DefaultBranchTracking || s.phase is Pulling || s.phase is ReadingHead,
    ensures
        s.after(outcome) == s.give_up(
            RexerErrorView { kind: ErrorKind::GitError, detail: outcome.output },
        ),
{
}

/// The commit is read only after what came before it has succeeded: the
/// clone, the checkout of the reference, or the pull. An update without a
/// reference therefore ends well only on a default branch that was brought
/// up to date.
pub proof fn lemma_head_is_read_after_success(s: GitManagerView, outcome: OutcomeView)
    requires
        !(s.phase is ReadingHead),
        s.after(outcome).phase is ReadingHead,
    ensures
        outcome.success,
        s.phase is Cloning || s.phase is Resolving || s.phase is Pulling,
        s.phase is Cloning ==> s.reference is None,
{
}

/// No default branch is guessed: the branch that is switched to is the one
/// that a successful reading of the remote head has named.
pub proof fn lemma_default_branch_is_read(s: GitManagerView, outcome: OutcomeView)
    requires
        !(s.phase is DefaultBranch),
        s.after(outcome).phase is DefaultBranch,
    ensures
        outcome.success,
        s.phase is RemoteHead || s.phase is RemoteHeadAgain,
        default_branch_name(outcome.output) == Some(s.after(outcome).phase->DefaultBranch_branch),
{
}

} // verus!
