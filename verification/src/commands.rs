//! The commands of the tool: what each is to do, given what is on disk.

use crate::command::{CommandLine, CommandLineView};
use crate::config::{joined, Config, EXTENSIONS_FILE};
use crate::diff::{first_named, has_name};
use crate::error::{ErrorKind, RexerError, RexerErrorView};
use crate::extension::{ExtensionsConfig, LockFile};
use crate::reconcile::{
    all_recorded, first_unrecorded, present_entries, Reconciler, ReconcilerView,
};
use crate::store::{no_lock_file, StoreStep, StoreStepView, INITIAL_CONFIG};
use vstd::prelude::*;
use vstd::string::StringExecFns;

verus! {

/// The editor that is started where none is named.
pub const DEFAULT_EDITOR: &'static str = "vim";

/// What `init` does: it writes the first declaration file and says so, or
/// says that there is one already and writes nothing.
pub fn init(config: &Config, exists: bool) -> (r: (Option<StoreStep>, String))
    ensures
        exists ==> r.0 is None && r.1@ == joined(config.redmine_root@, EXTENSIONS_FILE@)
            + " already exists"@,
        !exists ==> r.0.deep_view() == Some(
            StoreStepView::Write {
                path: joined(config.redmine_root@, EXTENSIONS_FILE@),
                content: INITIAL_CONFIG@,
            },
        ) && r.1@ == "Created "@ + joined(config.redmine_root@, EXTENSIONS_FILE@),
{
    let path = config.extensions_file_path();
    if exists {
        (None, path.concat(" already exists"))
    } else {
        (Some(config.create_initial_config()), String::from_str("Created ").concat(path.as_str()))
    }
}

/// Begins the run that makes the installation match the declaration.
/// Without a record every declared extension is installed.
pub fn install(
    config: &Config,
    extensions_config: &ExtensionsConfig,
    lock_file: Option<&LockFile>,
) -> (r: Reconciler)
    ensures
        r@ == ReconcilerView::for_install(
            config.redmine_root@,
            extensions_config.all(),
            match lock_file {
                Some(l) => l@,
                None => Seq::empty(),
            },
        ),
{
    Reconciler::install(config, extensions_config, lock_file)
}

/// Begins the run that makes the installation match the declaration, given
/// of each entry of the record, by its place, whether its directory exists.
/// An entry whose directory is gone counts as not installed: its extension
/// is fetched again if it is still declared.
pub fn install_observed(
    config: &Config,
    extensions_config: &ExtensionsConfig,
    lock_file: Option<&LockFile>,
    present: &Vec<bool>,
) -> (r: Reconciler)
    ensures
        r@ == ReconcilerView::for_install(
            config.redmine_root@,
            extensions_config.all(),
            match lock_file {
                Some(l) => present_entries(l@, present@),
                None => Seq::empty(),
            },
        ),
{
    Reconciler::install_observed(config, extensions_config, lock_file, present)
}

/// The error of a command that needs a record and finds none.
pub open spec fn lock_missing() -> RexerErrorView {
    RexerErrorView { kind: ErrorKind::LockFileError, detail: "No lock file found"@ }
}

/// Begins the run that removes every installed extension, which needs a
/// record.
pub fn uninstall(config: &Config, lock_file: Option<&LockFile>) -> (r: std::result::Result<
    Reconciler,
    RexerError,
>)
    ensures
        match (lock_file, r) {
            (Some(lock), Ok(run)) => run@ == ReconcilerView::for_uninstall(
                config.redmine_root@,
                lock@,
            ),
            (None, Err(error)) => error@ == lock_missing(),
            _ => false,
        },
{
    match lock_file {
        Some(lock) => Ok(Reconciler::uninstall(config, lock)),
        None => Err(no_lock_file()),
    }
}

/// Begins the run that brings the installed extensions with one of the names
/// up to date, all of them where no name is given. It needs a record, and
/// fails with the first name that the record has no entry of.
pub fn update(config: &Config, lock_file: Option<&LockFile>, extension_names: &Vec<String>) -> (r:
    std::result::Result<Reconciler, RexerError>)
    ensures
        match (lock_file, r) {
            (Some(lock), Ok(run)) => all_recorded(lock@, extension_names.deep_view()) && run@
                == ReconcilerView::for_update(
                config.redmine_root@,
                lock@,
                extension_names.deep_view(),
            ),
            (Some(lock), Err(error)) => exists|i: int| #[trigger]
                first_unrecorded(lock@, extension_names.deep_view(), i) && error@ == (
                RexerErrorView {
                    kind: ErrorKind::ExtensionNotFound,
                    detail: extension_names.deep_view()[i],
                }),
            (None, Err(error)) => error@ == lock_missing(),
            _ => false,
        },
{
    match lock_file {
        Some(lock) => Reconciler::update(config, lock, extension_names),
        None => Err(no_lock_file()),
    }
}

/// Begins the run that installs the extension of this name anew; it needs a
/// record with an entry of that name.
pub fn reinstall(config: &Config, lock_file: Option<&LockFile>, extension_name: &String) -> (r:
    std::result::Result<Reconciler, RexerError>)
    ensures
        match lock_file {
            None => r matches Err(error) && error@ == lock_missing(),
            Some(lock) => match r {
                Ok(run) => has_name(lock@, extension_name@) && run@
                    == ReconcilerView::for_reinstall(
                    config.redmine_root@,
                    lock@,
                    lock@[first_named(lock@, extension_name@)],
                ),
                Err(error) => !has_name(lock@, extension_name@) && error@ == (RexerErrorView {
                    kind: ErrorKind::ExtensionNotFound,
                    detail: extension_name@,
                }),
            },
        },
{
    match lock_file {
        Some(lock) => Reconciler::reinstall(config, lock, extension_name),
        None => Err(no_lock_file()),
    }
}

/// The command line that opens the declaration file in an editor: the one
/// that is named, or `vim`.
pub fn edit(config: &Config, editor: Option<&str>) -> (r: CommandLine)
    ensures
        r@ == (CommandLineView {
            program: match editor {
                Some(e) => e@,
                None => DEFAULT_EDITOR@,
            },
            args: seq![joined(config.redmine_root@, EXTENSIONS_FILE@)],
            working_dir: None,
        }),
{
    let program = match editor {
        Some(e) => String::from_str(e),
        None => String::from_str(DEFAULT_EDITOR),
    };
    let mut args: Vec<String> = Vec::new();
    args.push(config.extensions_file_path());
    assert(args.deep_view() =~= seq![joined(config.redmine_root@, EXTENSIONS_FILE@)]);
    CommandLine { program, args, working_dir: None }
}

} // verus!
