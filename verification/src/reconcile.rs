//! Making the installation match the declaration, one step at a time.
//!
//! A [`Reconciler`] holds the steps of one run and the record as it will be
//! once they are done. Its caller performs the step that
//! [`Reconciler::action`] names and reports how it ended. The first failure
//! ends the run, that of a plugin's setup like any other: a record is handed
//! out for saving only after every step has succeeded.

use crate::clock::timestamp;
use crate::config::{extension_path, Config};
use crate::diff::{
    calculate_diff, diff_of, find_locked, first_named, has_name, lemma_matching, Changed,
    InstallDiffView,
};
use crate::error::{ErrorKind, RexerError, RexerErrorView};
use crate::git::{GitManager, GitManagerView};
use crate::text::{decimal, to_decimal};
use crate::extension::{
    Declared, Extension, ExtensionType, ExtensionView, ExtensionsConfig, LockFile,
    LockedExtension, LockedExtensionView, Source, SourceView,
};
use vstd::prelude::*;
use vstd::string::StringExecFns;

verus! {

/// One piece of work on disk.
#[derive(Debug)]
pub enum Step {
    /// Delete the directory `destination` with all that is in it, if it
    /// exists.
    Uninstall { name: String, destination: String },
    /// Fetch `source` into `destination`, whose parent directories are
    /// created first: a clone if the directory does not exist, an update of
    /// the working copy if it does. Report the commit that is checked out.
    Fetch { name: String, extension_type: ExtensionType, source: Source, destination: String },
    /// Update the working copy of `source` in `destination`, which must
    /// exist, and report the commit that is checked out.
    Update { name: String, extension_type: ExtensionType, source: Source, destination: String },
    /// Run the setup of the plugin in `destination`.
    Setup { name: String, destination: String },
}

/// What a [`Step`] holds.
pub enum StepView {
    Uninstall { name: Seq<char>, destination: Seq<char> },
    Fetch {
        name: Seq<char>,
        extension_type: ExtensionType,
        source: SourceView,
        destination: Seq<char>,
    },
    Update {
        name: Seq<char>,
        extension_type: ExtensionType,
        source: SourceView,
        destination: Seq<char>,
    },
    Setup { name: Seq<char>, destination: Seq<char> },
}

impl View for Step {
    type V = StepView;

    open spec fn view(&self) -> StepView {
        match self {
            Step::Uninstall { name, destination } => StepView::Uninstall {
                name: name@,
                destination: destination@,
            },
            Step::Fetch { name, extension_type, source, destination } => StepView::Fetch {
                name: name@,
                extension_type: *extension_type,
                source: source@,
                destination: destination@,
            },
            Step::Update { name, extension_type, source, destination } => StepView::Update {
                name: name@,
                extension_type: *extension_type,
                source: source@,
                destination: destination@,
            },
            Step::Setup { name, destination } => StepView::Setup {
                name: name@,
                destination: destination@,
            },
        }
    }
}

impl DeepView for Step {
    type V = StepView;

    open spec fn deep_view(&self) -> StepView {
        self@
    }
}

impl Clone for Step {
    fn clone(&self) -> (r: Self)
        ensures
            r == *self,
    {
        match self {
            Step::Uninstall { name, destination } => Step::Uninstall {
                name: name.clone(),
                destination: destination.clone(),
            },
            Step::Fetch { name, extension_type, source, destination } => Step::Fetch {
                name: name.clone(),
                extension_type: *extension_type,
                source: source.clone(),
                destination: destination.clone(),
            },
            Step::Update { name, extension_type, source, destination } => Step::Update {
                name: name.clone(),
                extension_type: *extension_type,
                source: source.clone(),
                destination: destination.clone(),
            },
            Step::Setup { name, destination } => Step::Setup {
                name: name.clone(),
                destination: destination.clone(),
            },
        }
    }
}

/// What a run is for, which decides how a fetched commit enters the record
/// and how the run ends.
#[derive(Debug, Clone, Copy, PartialEq, Eq, Structural)]
pub enum Goal {
    /// Install what is declared: every fetch adds an entry, and the record
    /// is saved.
    Install,
    /// Install one extension anew: the fetch renews its entry, and the
    /// record is saved.
    Reinstall,
    /// Bring installed extensions up to date: a fetch renews the entry only
    /// if the commit has moved, and the record is saved only if one has.
    Update,
    /// Remove every installed extension: the record is deleted.
    Uninstall,
}

/// How a step ended.
#[derive(Debug)]
pub enum Event {
    /// The step succeeded; for a fetch or an update, `output` is the commit
    /// that is checked out.
    Succeeded { output: String },
    /// The step failed.
    Failed { error: RexerError },
}

/// What an [`Event`] holds.
pub enum EventView {
    Succeeded { output: Seq<char> },
    Failed { error: RexerErrorView },
}

impl View for Event {
    type V = EventView;

    open spec fn view(&self) -> EventView {
        match self {
            Event::Succeeded { output } => EventView::Succeeded { output: output@ },
            Event::Failed { error } => EventView::Failed { error: error@ },
        }
    }
}

/// What the caller is to do next.
#[derive(Debug)]
pub enum Action {
    /// Perform the step and report how it ended.
    Perform { step: Step },
    /// Save the record: the run has succeeded.
    Save { lock_file: LockFile },
    /// Delete the record: everything is uninstalled.
    DeleteLock,
    /// Nothing: the run has succeeded and the record stands as it is.
    Nothing,
    /// Nothing: the run has failed, and the record stands as it was.
    Abort { error: RexerError },
}

/// What an [`Action`] holds.
pub enum ActionView {
    Perform { step: StepView },
    Save { lock_file: Seq<LockedExtensionView> },
    DeleteLock,
    Nothing,
    Abort { error: RexerErrorView },
}

impl View for Action {
    type V = ActionView;

    open spec fn view(&self) -> ActionView {
        match self {
            Action::Perform { step } => ActionView::Perform { step: step@ },
            Action::Save { lock_file } => ActionView::Save { lock_file: lock_file@ },
            Action::DeleteLock => ActionView::DeleteLock,
            Action::Nothing => ActionView::Nothing,
            Action::Abort { error } => ActionView::Abort { error: error@ },
        }
    }
}

/// The entry that records a fetched extension.
pub open spec fn locked_entry(
    name: Seq<char>,
    extension_type: ExtensionType,
    source: SourceView,
    commit: Seq<char>,
    now: Seq<char>,
) -> LockedExtensionView {
    LockedExtensionView {
        name,
        extension_type,
        source,
        commit_hash: Some(commit),
        installed_at: now,
    }
}

/// The record with the first entry of this name renewed: it is at `commit`
/// since `now`. A record without such an entry stays as it is.
pub open spec fn refreshed(
    record: Seq<LockedExtensionView>,
    name: Seq<char>,
    commit: Seq<char>,
    now: Seq<char>,
) -> Seq<LockedExtensionView> {
    if has_name(record, name) {
        let i = first_named(record, name);
        record.update(
            i,
            LockedExtensionView { commit_hash: Some(commit), installed_at: now, ..record[i] },
        )
    } else {
        record
    }
}

/// The record has an entry of this name that is at another commit, or at
/// none.
pub open spec fn has_moved(
    record: Seq<LockedExtensionView>,
    name: Seq<char>,
    commit: Seq<char>,
) -> bool {
    has_name(record, name) && record[first_named(record, name)].commit_hash != Some(commit)
}

/// The steps that install one extension: the fetch, and for a plugin its
/// setup.
pub open spec fn install_steps(root: Seq<char>, x: Declared) -> Seq<StepView> {
    let destination = extension_path(root, x.1, x.0.name);
    let fetch = StepView::Fetch {
        name: x.0.name,
        extension_type: x.1,
        source: x.0.source,
        destination,
    };
    match x.1 {
        ExtensionType::Plugin => seq![fetch, StepView::Setup { name: x.0.name, destination }],
        ExtensionType::Theme => seq![fetch],
    }
}

/// The step that removes the directory of a recorded extension.
pub open spec fn removal(root: Seq<char>, l: LockedExtensionView) -> StepView {
    StepView::Uninstall {
        name: l.name,
        destination: extension_path(root, l.extension_type, l.name),
    }
}

/// The steps that install the extensions in `xs`, one after the other.
pub open spec fn installs(root: Seq<char>, xs: Seq<Declared>) -> Seq<StepView>
    decreases xs.len(),
{
    if xs.len() == 0 {
        Seq::empty()
    } else {
        installs(root, xs.drop_last()) + install_steps(root, xs.last())
    }
}

/// The steps that replace the extensions in `cs`, one after the other: for
/// each, the removal of the recorded directory, then the installation.
pub open spec fn replacements(root: Seq<char>, cs: Seq<Changed>) -> Seq<StepView>
    decreases cs.len(),
{
    if cs.len() == 0 {
        Seq::empty()
    } else {
        let c = cs.last();
        replacements(root, cs.drop_last()) + seq![removal(root, c.2)] + install_steps(
            root,
            (c.0, c.1),
        )
    }
}

/// The steps that remove the directories of the entries in `ls`.
pub open spec fn removals(root: Seq<char>, ls: Seq<LockedExtensionView>) -> Seq<StepView> {
    ls.map_values(|l: LockedExtensionView| removal(root, l))
}

/// The steps that bring one installed extension up to date: the update of
/// its working copy, and for a plugin its setup.
pub open spec fn update_steps(root: Seq<char>, l: LockedExtensionView) -> Seq<StepView> {
    let destination = extension_path(root, l.extension_type, l.name);
    let update = StepView::Update {
        name: l.name,
        extension_type: l.extension_type,
        source: l.source,
        destination,
    };
    match l.extension_type {
        ExtensionType::Plugin => seq![update, StepView::Setup { name: l.name, destination }],
        ExtensionType::Theme => seq![update],
    }
}

/// The steps that bring the entries in `ls` up to date, one after the other.
pub open spec fn updates(root: Seq<char>, ls: Seq<LockedExtensionView>) -> Seq<StepView>
    decreases ls.len(),
{
    if ls.len() == 0 {
        Seq::empty()
    } else {
        updates(root, ls.drop_last()) + update_steps(root, ls.last())
    }
}

/// The steps that a difference asks for: the added extensions are
/// installed, then those with a changed source replaced, then the removed
/// ones uninstalled.
pub open spec fn install_plan(root: Seq<char>, diff: InstallDiffView) -> Seq<StepView> {
    installs(root, diff.added) + replacements(root, diff.source_changed) + removals(
        root,
        diff.removed,
    )
}

/// The entries with one of the names; all of them where no name is given.
pub open spec fn selected(ls: Seq<LockedExtensionView>, names: Seq<Seq<char>>) -> Seq<
    LockedExtensionView,
> {
    if names.len() == 0 {
        ls
    } else {
        ls.filter(|l: LockedExtensionView| names.contains(l.name))
    }
}

/// Every one of the names has an entry in the record.
pub open spec fn all_recorded(o: Seq<LockedExtensionView>, names: Seq<Seq<char>>) -> bool {
    forall|i: int| 0 <= i < names.len() ==> has_name(o, #[trigger] names[i])
}

/// The name at `i` is the first of the names without an entry in the record.
pub open spec fn first_unrecorded(
    o: Seq<LockedExtensionView>,
    names: Seq<Seq<char>>,
    i: int,
) -> bool {
    &&& 0 <= i < names.len()
    &&& !has_name(o, names[i])
    &&& forall|j: int| 0 <= j < i ==> has_name(o, #[trigger] names[j])
}

/// A run: its steps, how many of them are done, and the record as it stands.
#[derive(Debug)]
pub struct Reconciler {
    goal: Goal,
    steps: Vec<Step>,
    cursor: usize,
    record: LockFile,
    changed: bool,
    failed: Option<RexerError>,
}

/// What a [`Reconciler`] holds.
pub struct ReconcilerView {
    /// What the run is for.
    pub goal: Goal,
    /// The steps of the run, in the order in which they are performed.
    pub steps: Seq<StepView>,
    /// How many steps have succeeded.
    pub cursor: nat,
    /// The record as it will be saved.
    pub record: Seq<LockedExtensionView>,
    /// Whether an update has moved a commit.
    pub changed: bool,
    /// The failure that ended the run, if one did.
    pub failed: Option<RexerErrorView>,
}

impl View for Reconciler {
    type V = ReconcilerView;

    closed spec fn view(&self) -> ReconcilerView {
        ReconcilerView {
            goal: self.goal,
            steps: self.steps.deep_view(),
            cursor: self.cursor as nat,
            record: self.record@,
            changed: self.changed,
            failed: self.failed.deep_view(),
        }
    }
}

impl ReconcilerView {
    /// The run that makes the installation below `root` match the declared
    /// extensions `d`, given the record `o`.
    pub open spec fn for_install(
        root: Seq<char>,
        d: Seq<Declared>,
        o: Seq<LockedExtensionView>,
    ) -> ReconcilerView {
        let diff = diff_of(d, o);
        ReconcilerView {
            goal: Goal::Install,
            steps: install_plan(root, diff),
            cursor: 0,
            record: diff.unchanged,
            changed: false,
            failed: None,
        }
    }

    /// The run that removes every extension in the record `o`.
    pub open spec fn for_uninstall(root: Seq<char>, o: Seq<LockedExtensionView>) -> ReconcilerView {
        ReconcilerView {
            goal: Goal::Uninstall,
            steps: removals(root, o),
            cursor: 0,
            record: o,
            changed: false,
            failed: None,
        }
    }

    /// The run that installs the recorded extension `l` anew.
    pub open spec fn for_reinstall(
        root: Seq<char>,
        o: Seq<LockedExtensionView>,
        l: LockedExtensionView,
    ) -> ReconcilerView {
        ReconcilerView {
            goal: Goal::Reinstall,
            steps: seq![removal(root, l)] + install_steps(
                root,
                (ExtensionView { name: l.name, source: l.source }, l.extension_type),
            ),
            cursor: 0,
            record: o,
            changed: false,
            failed: None,
        }
    }

    /// The run that brings the entries of `o` with one of the names up to
    /// date; all of them where no name is given.
    pub open spec fn for_update(
        root: Seq<char>,
        o: Seq<LockedExtensionView>,
        names: Seq<Seq<char>>,
    ) -> ReconcilerView {
        ReconcilerView {
            goal: Goal::Update,
            steps: updates(root, selected(o, names)),
            cursor: 0,
            record: o,
            changed: false,
            failed: None,
        }
    }

    /// Whether the run has ended: it has failed, or no step is left.
    pub open spec fn is_finished(self) -> bool {
        self.failed is Some || self.cursor >= self.steps.len()
    }

    /// What the caller is to do in this state.
    pub open spec fn action(self) -> ActionView {
        match self.failed {
            Some(error) => ActionView::Abort { error },
            None => if self.cursor < self.steps.len() {
                ActionView::Perform { step: self.steps[self.cursor as int] }
            } else {
                match self.goal {
                    Goal::Install => ActionView::Save { lock_file: self.record },
                    Goal::Reinstall => ActionView::Save { lock_file: self.record },
                    Goal::Update => if self.changed {
                        ActionView::Save { lock_file: self.record }
                    } else {
                        ActionView::Nothing
                    },
                    Goal::Uninstall => ActionView::DeleteLock,
                }
            },
        }
    }

    /// The state once the extension of a step is at `commit`, at the time
    /// `now`: the record takes it up as the goal of the run says.
    pub open spec fn fetched(
        self,
        name: Seq<char>,
        extension_type: ExtensionType,
        source: SourceView,
        commit: Seq<char>,
        now: Seq<char>,
    ) -> ReconcilerView {
        match self.goal {
            Goal::Install => ReconcilerView {
                record: self.record.push(locked_entry(name, extension_type, source, commit, now)),
                ..self
            },
            Goal::Reinstall => ReconcilerView {
                record: refreshed(self.record, name, commit, now),
                ..self
            },
            Goal::Update => if has_moved(self.record, name, commit) {
                ReconcilerView {
                    record: refreshed(self.record, name, commit, now),
                    changed: true,
                    ..self
                }
            } else {
                self
            },
            Goal::Uninstall => self,
        }
    }

    /// The state after the awaited step has ended with `event` at the time
    /// `now`. A run that has ended stays as it is; a failure ends the run;
    /// a success moves on to the next step, and that of a fetch or an update
    /// enters the record.
    pub open spec fn after(self, event: EventView, now: Seq<char>) -> ReconcilerView {
        if self.is_finished() {
            self
        } else {
            match event {
                EventView::Failed { error } => ReconcilerView { failed: Some(error), ..self },
                EventView::Succeeded { output } => {
                    let next = ReconcilerView { cursor: self.cursor + 1, ..self };
                    match self.steps[self.cursor as int] {
                        StepView::Fetch { name, extension_type, source, .. } => next.fetched(
                            name,
                            extension_type,
                            source,
                            output,
                            now,
                        ),
                        StepView::Update { name, extension_type, source, .. } => next.fetched(
                            name,
                            extension_type,
                            source,
                            output,
                            now,
                        ),
                        _ => next,
                    }
                },
            }
        }
    }
}

/// Appends the steps that install one extension.
fn push_install_steps(
    steps: &mut Vec<Step>,
    config: &Config,
    name: &String,
    source: &Source,
    ext_type: ExtensionType,
)
    ensures
        final(steps).deep_view() == old(steps).deep_view() + install_steps(
            config.redmine_root@,
            (ExtensionView { name: name@, source: source@ }, ext_type),
        ),
{
    let destination = config.extension_dir(ext_type, name.as_str());
    let ghost before = steps.deep_view();
    let setup = match ext_type {
        ExtensionType::Plugin => Some(
            Step::Setup { name: name.clone(), destination: destination.clone() },
        ),
        ExtensionType::Theme => None,
    };
    steps.push(
        Step::Fetch {
            name: name.clone(),
            extension_type: ext_type,
            source: source.clone(),
            destination,
        },
    );
    match setup {
        Some(step) => {
            steps.push(step);
        },
        None => {},
    }
    assert(steps.deep_view() =~= before + install_steps(
        config.redmine_root@,
        (ExtensionView { name: name@, source: source@ }, ext_type),
    ));
}

/// Appends the step that removes the directory of a recorded extension.
fn push_removal(steps: &mut Vec<Step>, config: &Config, locked: &LockedExtension)
    ensures
        final(steps).deep_view() == old(steps).deep_view().push(
            removal(config.redmine_root@, locked@),
        ),
{
    let destination = config.extension_dir(locked.extension_type, locked.name.as_str());
    let ghost before = steps.deep_view();
    steps.push(Step::Uninstall { name: locked.name.clone(), destination });
    assert(steps.deep_view() =~= before.push(removal(config.redmine_root@, locked@)));
}

/// Appends the steps that bring one installed extension up to date.
fn push_update_steps(steps: &mut Vec<Step>, config: &Config, locked: &LockedExtension)
    ensures
        final(steps).deep_view() == old(steps).deep_view() + update_steps(
            config.redmine_root@,
            locked@,
        ),
{
    let destination = config.extension_dir(locked.extension_type, locked.name.as_str());
    let ghost before = steps.deep_view();
    let setup = match locked.extension_type {
        ExtensionType::Plugin => Some(
            Step::Setup { name: locked.name.clone(), destination: destination.clone() },
        ),
        ExtensionType::Theme => None,
    };
    steps.push(
        Step::Update {
            name: locked.name.clone(),
            extension_type: locked.extension_type,
            source: locked.source.clone(),
            destination,
        },
    );
    match setup {
        Some(step) => {
            steps.push(step);
        },
        None => {},
    }
    assert(steps.deep_view() =~= before + update_steps(config.redmine_root@, locked@));
}

/// Whether one of the names is this one.
fn is_listed(names: &Vec<String>, name: &String) -> (r: bool)
    ensures
        r == names.deep_view().contains(name@),
{
    let mut i: usize = 0;
    while i < names.len()
        invariant
            i <= names.len(),
            forall|j: int| 0 <= j < i ==> names.deep_view()[j] != name@,
        decreases names.len() - i,
    {
        if names[i] == *name {
            assert(names.deep_view()[i as int] == name@);
            return true;
        }
        assert(names.deep_view()[i as int] != name@);
        i = i + 1;
    }
    false
}

/// The record with the first entry of this name renewed.
fn refresh(record: LockFile, name: &String, commit: String, now: &str) -> (r: LockFile)
    ensures
        r@ == refreshed(record@, name@, commit@, now@),
{
    match find_locked(&record, name) {
        Some(i) => {
            proof {
                lemma_matching(record@, name@, i as int);
            }
            let old_entry = &record.extensions[i];
            let entry = LockedExtension {
                name: old_entry.name.clone(),
                extension_type: old_entry.extension_type,
                source: old_entry.source.clone(),
                commit_hash: Some(commit),
                installed_at: String::from_str(now),
            };
            let ghost before = record@;
            let mut record = record;
            record.extensions.set(i, entry);
            assert(record@ =~= before.update(i as int, entry@));
            record
        },
        None => record,
    }
}

/// A copy of a record.
pub fn copy_of(lock_file: &LockFile) -> (r: LockFile)
    ensures
        r@ == lock_file@,
{
    let mut out: Vec<LockedExtension> = Vec::new();
    let mut i: usize = 0;
    while i < lock_file.extensions.len()
        invariant
            i <= lock_file.extensions.len(),
            out.deep_view() == lock_file@.take(i as int),
        decreases lock_file.extensions.len() - i,
    {
        let ghost before = out.deep_view();
        let locked = &lock_file.extensions[i];
        out.push(locked.clone());
        assert(out.deep_view() =~= before.push(locked@));
        assert(out.deep_view() =~= lock_file@.take(i as int + 1));
        i = i + 1;
    }
    assert(lock_file@.take(i as int) =~= lock_file@);
    LockFile { extensions: out }
}

impl Reconciler {
    /// Begins the run that makes the installation match the declaration.
    /// Without a record every declared extension is installed.
    pub fn install(
        config: &Config,
        extensions_config: &ExtensionsConfig,
        lock_file: Option<&LockFile>,
    ) -> (r: Reconciler)
        ensures
            r@ == ReconcilerView::for_install(
                config.redmine_root@,
                extensions_config.all(),
                match lock_file {
                    Some(l) => l@,
                    None => Seq::empty(),
                },
            ),
    {
        let empty = LockFile { extensions: Vec::new() };
        assert(empty@ =~= Seq::empty());
        let lock = match lock_file {
            Some(l) => l,
            None => &empty,
        };
        let diff = calculate_diff(extensions_config, lock);
        let ghost root = config.redmine_root@;
        let mut steps: Vec<Step> = Vec::new();
        let mut i: usize = 0;
        assert(diff@.added.take(0) =~= Seq::empty());
        while i < diff.added.len()
            invariant
                i <= diff.added.len(),
                root == config.redmine_root@,
                steps.deep_view() == installs(root, diff@.added.take(i as int)),
            decreases diff.added.len() - i,
        {
            let extension = diff.added[i].0;
            let ext_type = diff.added[i].1;
            proof {
                let next = diff@.added.take(i as int + 1);
                assert(next.drop_last() =~= diff@.added.take(i as int));
                assert(next.last() == (extension@, ext_type));
                assert(extension@ == (ExtensionView {
                    name: extension.name@,
                    source: extension.source@,
                }));
            }
            push_install_steps(&mut steps, config, &extension.name, &extension.source, ext_type);
            i = i + 1;
        }
        assert(diff@.added.take(i as int) =~= diff@.added);
        let ghost first = steps.deep_view();
        let mut j: usize = 0;
        assert(diff@.source_changed.take(0) =~= Seq::empty());
        while j < diff.source_changed.len()
            invariant
                j <= diff.source_changed.len(),
                root == config.redmine_root@,
                steps.deep_view() == first + replacements(
                    root,
                    diff@.source_changed.take(j as int),
                ),
            decreases diff.source_changed.len() - j,
        {
            let extension = diff.source_changed[j].0;
            let ext_type = diff.source_changed[j].1;
            let locked = diff.source_changed[j].2;
            proof {
                let next = diff@.source_changed.take(j as int + 1);
                assert(next.drop_last() =~= diff@.source_changed.take(j as int));
                assert(next.last() == (extension@, ext_type, locked@));
                assert(extension@ == (ExtensionView {
                    name: extension.name@,
                    source: extension.source@,
                }));
            }
            push_removal(&mut steps, config, locked);
            push_install_steps(&mut steps, config, &extension.name, &extension.source, ext_type);
            assert(steps.deep_view() =~= first + replacements(
                root,
                diff@.source_changed.take(j as int + 1),
            ));
            j = j + 1;
        }
        assert(diff@.source_changed.take(j as int) =~= diff@.source_changed);
        let ghost second = steps.deep_view();
        let mut k: usize = 0;
        while k < diff.removed.len()
            invariant
                k <= diff.removed.len(),
                root == config.redmine_root@,
                steps.deep_view() == second + removals(root, diff@.removed.take(k as int)),
            decreases diff.removed.len() - k,
        {
            push_removal(&mut steps, config, diff.removed[k]);
            assert(steps.deep_view() =~= second + removals(
                root,
                diff@.removed.take(k as int + 1),
            ));
            k = k + 1;
        }
        assert(diff@.removed.take(k as int) =~= diff@.removed);
        let mut kept: Vec<LockedExtension> = Vec::new();
        let mut m: usize = 0;
        while m < diff.unchanged.len()
            invariant
                m <= diff.unchanged.len(),
                kept.deep_view() == diff@.unchanged.take(m as int),
            decreases diff.unchanged.len() - m,
        {
            let ghost before = kept.deep_view();
            let locked: &LockedExtension = diff.unchanged[m];
            let copy = LockedExtension::clone(locked);
            kept.push(copy);
            assert(kept.deep_view() =~= before.push(locked@));
            assert(kept.deep_view() =~= diff@.unchanged.take(m as int + 1));
            m = m + 1;
        }
        assert(diff@.unchanged.take(m as int) =~= diff@.unchanged);
        Reconciler {
            goal: Goal::Install,
            steps,
            cursor: 0,
            record: LockFile { extensions: kept },
            changed: false,
            failed: None,
        }
    }

    /// Begins the run that makes the installation match the declaration,
    /// given of each entry of the record, by its place, whether its directory
    /// exists: an entry whose directory is gone counts as not installed, so
    /// that its extension is fetched again if it is still declared.
    pub fn install_observed(
        config: &Config,
        extensions_config: &ExtensionsConfig,
        lock_file: Option<&LockFile>,
        present: &Vec<bool>,
    ) -> (r: Reconciler)
        ensures
            r@ == ReconcilerView::for_install(
                config.redmine_root@,
                extensions_config.all(),
                match lock_file {
                    Some(l) => present_entries(l@, present@),
                    None => Seq::empty(),
                },
            ),
    {
        match lock_file {
            Some(lock) => {
                let observed = installed_entries(lock, present);
                Reconciler::install(config, extensions_config, Some(&observed))
            },
            None => Reconciler::install(config, extensions_config, None),
        }
    }

    /// Begins the run that removes every installed extension.
    pub fn uninstall(config: &Config, lock_file: &LockFile) -> (r: Reconciler)
        ensures
            r@ == ReconcilerView::for_uninstall(config.redmine_root@, lock_file@),
    {
        let ghost root = config.redmine_root@;
        let mut steps: Vec<Step> = Vec::new();
        let mut record: Vec<LockedExtension> = Vec::new();
        let mut i: usize = 0;
        while i < lock_file.extensions.len()
            invariant
                i <= lock_file.extensions.len(),
                root == config.redmine_root@,
                steps.deep_view() == removals(root, lock_file@.take(i as int)),
                record.deep_view() == lock_file@.take(i as int),
            decreases lock_file.extensions.len() - i,
        {
            let ghost before = record.deep_view();
            let locked = &lock_file.extensions[i];
            push_removal(&mut steps, config, locked);
            record.push(locked.clone());
            assert(record.deep_view() =~= before.push(locked@));
            assert(record.deep_view() =~= lock_file@.take(i as int + 1));
            assert(steps.deep_view() =~= removals(root, lock_file@.take(i as int + 1)));
            i = i + 1;
        }
        assert(lock_file@.take(i as int) =~= lock_file@);
        Reconciler {
            goal: Goal::Uninstall,
            steps,
            cursor: 0,
            record: LockFile { extensions: record },
            changed: false,
            failed: None,
        }
    }

    /// Begins the run that installs the extension of this name anew: its
    /// directory is removed, then it is fetched as the record names it.
    /// Fails where the record has no entry of that name.
    pub fn reinstall(config: &Config, lock_file: &LockFile, extension_name: &String) -> (r:
        std::result::Result<Reconciler, RexerError>)
        ensures
            match r {
                Ok(run) => has_name(lock_file@, extension_name@) && run@
                    == ReconcilerView::for_reinstall(
                    config.redmine_root@,
                    lock_file@,
                    lock_file@[first_named(lock_file@, extension_name@)],
                ),
                Err(error) => !has_name(lock_file@, extension_name@) && error@ == (RexerErrorView {
                    kind: ErrorKind::ExtensionNotFound,
                    detail: extension_name@,
                }),
            },
    {
        match find_locked(lock_file, extension_name) {
            Some(i) => {
                proof {
                    lemma_matching(lock_file@, extension_name@, i as int);
                }
                let locked = &lock_file.extensions[i];
                let mut steps: Vec<Step> = Vec::new();
                assert(steps.deep_view() =~= Seq::empty());
                push_removal(&mut steps, config, locked);
                push_install_steps(
                    &mut steps,
                    config,
                    &locked.name,
                    &locked.source,
                    locked.extension_type,
                );
                assert(steps.deep_view() =~= seq![removal(config.redmine_root@, locked@)]
                    + install_steps(
                    config.redmine_root@,
                    (
                        ExtensionView { name: locked@.name, source: locked@.source },
                        locked@.extension_type,
                    ),
                ));
                Ok(
                    Reconciler {
                        goal: Goal::Reinstall,
                        steps,
                        cursor: 0,
                        record: copy_of(lock_file),
                        changed: false,
                        failed: None,
                    },
                )
            },
            None => Err(RexerError::ExtensionNotFound(extension_name.clone())),
        }
    }

    /// Begins the run that brings the installed extensions with one of the
    /// names up to date; all of them where no name is given. Fails where a
    /// name is given that the record has no entry of, with the first such
    /// name, before anything is done.
    pub fn update(config: &Config, lock_file: &LockFile, extension_names: &Vec<String>) -> (r:
        std::result::Result<Reconciler, RexerError>)
        ensures
            match r {
                Ok(run) => all_recorded(lock_file@, extension_names.deep_view()) && run@
                    == ReconcilerView::for_update(
                    config.redmine_root@,
                    lock_file@,
                    extension_names.deep_view(),
                ),
                Err(error) => exists|i: int| #[trigger]
                    first_unrecorded(lock_file@, extension_names.deep_view(), i) && error@ == (
                    RexerErrorView {
                        kind: ErrorKind::ExtensionNotFound,
                        detail: extension_names.deep_view()[i],
                    }),
            },
    {
        let mut k: usize = 0;
        while k < extension_names.len()
            invariant
                k <= extension_names.len(),
                forall|j: int|
                    0 <= j < k ==> has_name(lock_file@, #[trigger] extension_names.deep_view()[j]),
            decreases extension_names.len() - k,
        {
            match find_locked(lock_file, &extension_names[k]) {
                Some(at) => {
                    proof {
                        lemma_matching(lock_file@, extension_names[k as int]@, at as int);
                    }
                },
                None => {
                    assert(first_unrecorded(lock_file@, extension_names.deep_view(), k as int));
                    return Err(RexerError::ExtensionNotFound(extension_names[k].clone()));
                },
            }
            k = k + 1;
        }
        Ok(Reconciler::update_selected(config, lock_file, extension_names))
    }

    /// Begins the run that brings the entries with one of the names up to
    /// date; all of them where no name is given.
    fn update_selected(config: &Config, lock_file: &LockFile, extension_names: &Vec<String>) -> (r:
        Reconciler)
        ensures
            r@ == ReconcilerView::for_update(
                config.redmine_root@,
                lock_file@,
                extension_names.deep_view(),
            ),
    {
        let ghost root = config.redmine_root@;
        let ghost names = extension_names.deep_view();
        let ghost listed = |l: LockedExtensionView| names.contains(l.name);
        let all = extension_names.len() == 0;
        let mut steps: Vec<Step> = Vec::new();
        let mut i: usize = 0;
        proof {
            assert(lock_file@.take(0) =~= Seq::empty());
            assert(lock_file@.take(0).filter(listed) =~= Seq::empty()) by {
                reveal(Seq::filter);
            }
        }
        while i < lock_file.extensions.len()
            invariant
                i <= lock_file.extensions.len(),
                root == config.redmine_root@,
                names == extension_names.deep_view(),
                listed == |l: LockedExtensionView| names.contains(l.name),
                all == (names.len() == 0),
                steps.deep_view() == updates(
                    root,
                    if all {
                        lock_file@.take(i as int)
                    } else {
                        lock_file@.take(i as int).filter(listed)
                    },
                ),
            decreases lock_file.extensions.len() - i,
        {
            let locked = &lock_file.extensions[i];
            proof {
                let next = lock_file@.take(i as int + 1);
                assert(next =~= lock_file@.take(i as int).push(locked@));
                assert(next.drop_last() =~= lock_file@.take(i as int));
                lock_file@.take(i as int).lemma_filter_push(locked@, listed);
                let chosen = lock_file@.take(i as int).filter(listed);
                assert(chosen.push(locked@).drop_last() =~= chosen);
            }
            if all || is_listed(extension_names, &locked.name) {
                push_update_steps(&mut steps, config, locked);
            }
            i = i + 1;
        }
        assert(lock_file@.take(i as int) =~= lock_file@);
        Reconciler {
            goal: Goal::Update,
            steps,
            cursor: 0,
            record: copy_of(lock_file),
            changed: false,
            failed: None,
        }
    }

    /// What the caller is to do next.
    pub fn action(&self) -> (r: Action)
        ensures
            r@ == self@.action(),
    {
        match &self.failed {
            Some(error) => Action::Abort { error: error.clone() },
            None => if self.cursor < self.steps.len() {
                Action::Perform { step: self.steps[self.cursor].clone() }
            } else {
                match self.goal {
                    Goal::Install => Action::Save { lock_file: copy_of(&self.record) },
                    Goal::Reinstall => Action::Save { lock_file: copy_of(&self.record) },
                    Goal::Update => if self.changed {
                        Action::Save { lock_file: copy_of(&self.record) }
                    } else {
                        Action::Nothing
                    },
                    Goal::Uninstall => Action::DeleteLock,
                }
            },
        }
    }

    /// Takes up the commit that the extension of a step is at.
    fn fetched(
        self,
        name: String,
        extension_type: ExtensionType,
        source: Source,
        commit: String,
        now: &str,
    ) -> (r: Reconciler)
        ensures
            r@ == self@.fetched(name@, extension_type, source@, commit@, now@),
    {
        match self.goal {
            Goal::Install => {
                let ghost before = self.record@;
                let mut record = self.record;
                let entry = LockedExtension {
                    name,
                    extension_type,
                    source,
                    commit_hash: Some(commit),
                    installed_at: String::from_str(now),
                };
                record.extensions.push(entry);
                assert(record@ =~= before.push(entry@));
                Reconciler {
                    goal: self.goal,
                    steps: self.steps,
                    cursor: self.cursor,
                    record,
                    changed: self.changed,
                    failed: self.failed,
                }
            },
            Goal::Reinstall => Reconciler {
                goal: self.goal,
                steps: self.steps,
                cursor: self.cursor,
                record: refresh(self.record, &name, commit, now),
                changed: self.changed,
                failed: self.failed,
            },
            Goal::Update => {
                let moved = match find_locked(&self.record, &name) {
                    Some(i) => {
                        proof {
                            lemma_matching(self.record@, name@, i as int);
                        }
                        match &self.record.extensions[i].commit_hash {
                            Some(current) => *current != commit,
                            None => true,
                        }
                    },
                    None => false,
                };
                if moved {
                    Reconciler {
                        goal: self.goal,
                        steps: self.steps,
                        cursor: self.cursor,
                        record: refresh(self.record, &name, commit, now),
                        changed: true,
                        failed: self.failed,
                    }
                } else {
                    self
                }
            },
            Goal::Uninstall => self,
        }
    }

    /// Takes how the step that [`Reconciler::action`] asked for has ended,
    /// at the time `now`, and moves on.
    pub fn advance_at(self, event: Event, now: &str) -> (r: Reconciler)
        ensures
            r@ == self@.after(event@, now@),
    {
        if self.failed.is_some() || self.cursor >= self.steps.len() {
            return self;
        }
        match event {
            Event::Failed { error } => Reconciler {
                goal: self.goal,
                steps: self.steps,
                cursor: self.cursor,
                record: self.record,
                changed: self.changed,
                failed: Some(error),
            },
            Event::Succeeded { output } => {
                let target = match &self.steps[self.cursor] {
                    Step::Fetch { name, extension_type, source, .. } => Some(
                        (name.clone(), *extension_type, source.clone()),
                    ),
                    Step::Update { name, extension_type, source, .. } => Some(
                        (name.clone(), *extension_type, source.clone()),
                    ),
                    _ => None,
                };
                let next = Reconciler {
                    goal: self.goal,
                    steps: self.steps,
                    cursor: self.cursor + 1,
                    record: self.record,
                    changed: self.changed,
                    failed: self.failed,
                };
                match target {
                    Some((name, extension_type, source)) => next.fetched(
                        name,
                        extension_type,
                        source,
                        output,
                        now,
                    ),
                    None => next,
                }
            },
        }
    }

    /// Takes how the step that [`Reconciler::action`] asked for has ended,
    /// now, and moves on.
    pub fn advance(self, event: Event) -> (r: Reconciler)
        ensures
            exists|now: Seq<char>| r@ == self@.after(event@, now),
    {
        let now = timestamp();
        self.advance_at(event, now.as_str())
    }

    /// The steps of the run, in the order in which they are performed.
    pub fn steps(&self) -> (r: &Vec<Step>)
        ensures
            r.deep_view() == self@.steps,
    {
        &self.steps
    }

    /// How many steps have succeeded.
    pub fn completed(&self) -> (r: usize)
        ensures
            r == self@.cursor,
    {
        self.cursor
    }

    /// The step that failed, once the run has failed: it tells which
    /// extension the failure is about, and at what it happened.
    pub fn failed_step(&self) -> (r: Option<&Step>)
        ensures
            match r {
                Some(step) => self@.failed is Some && self@.cursor < self@.steps.len() && step@
                    == self@.steps[self@.cursor as int],
                None => self@.failed is None || self@.cursor >= self@.steps.len(),
            },
    {
        if self.failed.is_some() && self.cursor < self.steps.len() {
            Some(&self.steps[self.cursor])
        } else {
            None
        }
    }

    /// Whether the run has ended: it has failed, or no step is left.
    pub fn is_finished(&self) -> (r: bool)
        ensures
            r == self@.is_finished(),
    {
        self.failed.is_some() || self.cursor >= self.steps.len()
    }
}

/// The entries of the record but those whose directory is known to be
/// gone: `present` tells of each entry, by its place, whether its directory
/// exists.
pub open spec fn present_entries(o: Seq<LockedExtensionView>, present: Seq<bool>) -> Seq<
    LockedExtensionView,
>
    decreases o.len(),
{
    if o.len() == 0 {
        Seq::empty()
    } else {
        let rest = present_entries(o.drop_last(), present);
        let last = o.len() - 1;
        if last < present.len() && !present[last] {
            rest
        } else {
            rest.push(o.last())
        }
    }
}

/// The directory of each entry of the record, in the order of the record.
pub fn recorded_dirs(config: &Config, lock_file: &LockFile) -> (r: Vec<String>)
    ensures
        r.deep_view() == lock_file@.map_values(
            |l: LockedExtensionView| extension_path(config.redmine_root@, l.extension_type, l.name),
        ),
{
    let ghost root = config.redmine_root@;
    let ghost dir = |l: LockedExtensionView| extension_path(root, l.extension_type, l.name);
    let mut out: Vec<String> = Vec::new();
    let mut i: usize = 0;
    while i < lock_file.extensions.len()
        invariant
            i <= lock_file.extensions.len(),
            root == config.redmine_root@,
            dir == |l: LockedExtensionView| extension_path(root, l.extension_type, l.name),
            out.deep_view() == lock_file@.take(i as int).map_values(dir),
        decreases lock_file.extensions.len() - i,
    {
        let ghost before = out.deep_view();
        let locked = &lock_file.extensions[i];
        out.push(config.extension_dir(locked.extension_type, locked.name.as_str()));
        assert(out.deep_view() =~= before.push(dir(locked@)));
        assert(out.deep_view() =~= lock_file@.take(i as int + 1).map_values(dir));
        i = i + 1;
    }
    assert(lock_file@.take(i as int) =~= lock_file@);
    out
}

/// The record without the entries whose directory is gone, so that
/// reconciling installs them again: an extension that the record lists and
/// the disk lacks counts as not installed.
pub fn installed_entries(lock_file: &LockFile, present: &Vec<bool>) -> (r: LockFile)
    ensures
        r@ == present_entries(lock_file@, present@),
{
    let mut out: Vec<LockedExtension> = Vec::new();
    let mut i: usize = 0;
    assert(lock_file@.take(0) =~= Seq::empty());
    while i < lock_file.extensions.len()
        invariant
            i <= lock_file.extensions.len(),
            out.deep_view() == present_entries(lock_file@.take(i as int), present@),
        decreases lock_file.extensions.len() - i,
    {
        let ghost before = out.deep_view();
        let locked = &lock_file.extensions[i];
        proof {
            let next = lock_file@.take(i as int + 1);
            assert(next.drop_last() =~= lock_file@.take(i as int));
            assert(next.last() == locked@);
        }
        if !(i < present.len() && !present[i]) {
            out.push(locked.clone());
            assert(out.deep_view() =~= before.push(locked@));
        }
        i = i + 1;
    }
    assert(lock_file@.take(i as int) =~= lock_file@);
    LockFile { extensions: out }
}

impl StepView {
    /// The name of the extension that the step works on.
    pub open spec fn name(self) -> Seq<char> {
        match self {
            StepView::Uninstall { name, .. } => name,
            StepView::Fetch { name, .. } => name,
            StepView::Update { name, .. } => name,
            StepView::Setup { name, .. } => name,
        }
    }

    /// The line that tells of the step before it is performed: what is
    /// done, and to which extension.
    pub open spec fn announcement(self) -> Seq<char> {
        (match self {
            StepView::Uninstall { .. } => "Uninstalling "@,
            StepView::Fetch { .. } => "Installing "@,
            StepView::Update { .. } => "Updating "@,
            StepView::Setup { .. } => "Setting up "@,
        }) + self.name() + "..."@
    }
}

impl Step {
    /// The name of the extension that the step works on.
    pub fn name(&self) -> (r: &String)
        ensures
            r@ == self@.name(),
    {
        match self {
            Step::Uninstall { name, .. } => name,
            Step::Fetch { name, .. } => name,
            Step::Update { name, .. } => name,
            Step::Setup { name, .. } => name,
        }
    }

    /// The fetch that the step asks for: for a fetch that of its source
    /// into its destination, for an update the same but of a working copy
    /// that must exist; for any other step none.
    pub fn fetch(&self) -> (r: Option<GitManager>)
        ensures
            match self@ {
                StepView::Fetch { source, destination, .. } => r matches Some(m) && m@
                    == GitManagerView::start(source, destination, false),
                StepView::Update { source, destination, .. } => r matches Some(m) && m@
                    == GitManagerView::start(source, destination, true),
                _ => r is None,
            },
    {
        match self {
            Step::Fetch { source, destination, .. } => Some(
                GitManager::clone_or_update(source, destination.as_str()),
            ),
            Step::Update { source, destination, .. } => Some(
                GitManager::update_existing(source, destination.as_str()),
            ),
            _ => None,
        }
    }

    /// The line that tells of the step before it is performed.
    pub fn announcement(&self) -> (r: String)
        ensures
            r@ == self@.announcement(),
    {
        let verb = match self {
            Step::Uninstall { .. } => "Uninstalling ",
            Step::Fetch { .. } => "Installing ",
            Step::Update { .. } => "Updating ",
            Step::Setup { .. } => "Setting up ",
        };
        String::from_str(verb).concat(self.name().as_str()).concat("...")
    }
}

/// How many of the steps are updates.
pub open spec fn count_updates(steps: Seq<StepView>) -> nat
    decreases steps.len(),
{
    if steps.len() == 0 {
        0
    } else {
        count_updates(steps.drop_last()) + (if steps.last() is Update {
            1nat
        } else {
            0nat
        })
    }
}

impl ReconcilerView {
    /// The line that tells how a run has ended that did not fail. `fresh`
    /// says that the run began without a record.
    pub open spec fn summary(self, fresh: bool) -> Seq<char> {
        match self.goal {
            Goal::Install => if fresh {
                "Installed "@ + decimal(self.record.len()) + " extensions"@
            } else if self.steps.len() == 0 {
                "Extensions are up to date"@
            } else {
                "Installation updated successfully"@
            },
            Goal::Reinstall => "Reinstalled "@ + (if self.steps.len() > 0 {
                self.steps[0].name()
            } else {
                Seq::empty()
            }),
            Goal::Update => if self.steps.len() == 0 {
                "No extensions to update"@
            } else if self.changed {
                "Updated "@ + decimal(count_updates(self.steps)) + " extension(s)"@
            } else {
                "All extensions are already up to date"@
            },
            Goal::Uninstall => "Uninstalled all extensions"@,
        }
    }
}

impl Reconciler {
    /// How many of the steps are updates.
    fn updates_planned(&self) -> (r: usize)
        ensures
            r == count_updates(self@.steps),
    {
        let mut n: usize = 0;
        let mut i: usize = 0;
        assert(self@.steps.take(0) =~= Seq::empty());
        while i < self.steps.len()
            invariant
                i <= self.steps.len(),
                n <= i,
                n == count_updates(self@.steps.take(i as int)),
            decreases self.steps.len() - i,
        {
            proof {
                let next = self@.steps.take(i as int + 1);
                assert(next.drop_last() =~= self@.steps.take(i as int));
                assert(next.last() == self.steps[i as int]@);
            }
            match &self.steps[i] {
                Step::Update { .. } => {
                    n = n + 1;
                },
                _ => {},
            }
            i = i + 1;
        }
        assert(self@.steps.take(i as int) =~= self@.steps);
        n
    }

    /// The line that tells how the run has ended, once it has ended without
    /// a failure; nothing before that. `fresh` says that the run began
    /// without a record.
    pub fn summary(&self, fresh: bool) -> (r: Option<String>)
        ensures
            match r {
                Some(text) => self@.is_finished() && self@.failed is None && text@
                    == self@.summary(fresh),
                None => !self@.is_finished() || self@.failed is Some,
            },
    {
        if self.failed.is_some() || self.cursor < self.steps.len() {
            return None;
        }
        let text = match self.goal {
            Goal::Install => if fresh {
                String::from_str("Installed ").concat(
                    to_decimal(self.record.extensions.len()).as_str(),
                ).concat(" extensions")
            } else if self.steps.len() == 0 {
                String::from_str("Extensions are up to date")
            } else {
                String::from_str("Installation updated successfully")
            },
            Goal::Reinstall => if self.steps.len() > 0 {
                String::from_str("Reinstalled ").concat(self.steps[0].name().as_str())
            } else {
                let r = String::from_str("Reinstalled ");
                assert(r@ + Seq::<char>::empty() =~= r@);
                r
            },
            Goal::Update => if self.steps.len() == 0 {
                String::from_str("No extensions to update")
            } else if self.changed {
                String::from_str("Updated ").concat(
                    to_decimal(self.updates_planned()).as_str(),
                ).concat(" extension(s)")
            } else {
                String::from_str("All extensions are already up to date")
            },
            Goal::Uninstall => String::from_str("Uninstalled all extensions"),
        };
        Some(text)
    }
}

} // verus!
