//! Keeping the record on disk: which files are written, moved and removed,
//! and in what order.
//!
//! A new record never overwrites the old one in place. It is written to a
//! file of its own beside the record, and that file then takes the record's
//! place in one move, so that a reader finds the old record or the new one
//! and never a part of either.

use crate::config::{joined, Config, EXTENSIONS_FILE, LOCK_FILE, LOCK_FILE_TEMP};
use crate::error::{ErrorKind, RexerError, RexerErrorView};
use vstd::prelude::*;
use vstd::string::StringExecFns;

verus! {

/// One operation on the files of the declaration and of the record.
#[derive(Debug)]
pub enum StoreStep {
    /// Write `content` to the file `path`, which stands in for the record
    /// until it is moved.
    WriteTemp { path: String, content: String },
    /// Move the file `from` to `to`, replacing what is there.
    Rename { from: String, to: String },
    /// Write `content` to the file `path`.
    Write { path: String, content: String },
    /// Remove the file `path`.
    Remove { path: String },
}

/// What a [`StoreStep`] holds.
pub enum StoreStepView {
    WriteTemp { path: Seq<char>, content: Seq<char> },
    Rename { from: Seq<char>, to: Seq<char> },
    Write { path: Seq<char>, content: Seq<char> },
    Remove { path: Seq<char> },
}

impl View for StoreStep {
    type V = StoreStepView;

    open spec fn view(&self) -> StoreStepView {
        match self {
            StoreStep::WriteTemp { path, content } => StoreStepView::WriteTemp {
                path: path@,
                content: content@,
            },
            StoreStep::Rename { from, to } => StoreStepView::Rename { from: from@, to: to@ },
            StoreStep::Write { path, content } => StoreStepView::Write {
                path: path@,
                content: content@,
            },
            StoreStep::Remove { path } => StoreStepView::Remove { path: path@ },
        }
    }
}

impl DeepView for StoreStep {
    type V = StoreStepView;

    open spec fn deep_view(&self) -> StoreStepView {
        self@
    }
}

/// The files that an operation writes to, replaces or removes.
pub open spec fn touches(step: StoreStepView, path: Seq<char>) -> bool {
    match step {
        StoreStepView::WriteTemp { path: p, .. } => p == path,
        StoreStepView::Rename { from, to } => from == path || to == path,
        StoreStepView::Write { path: p, .. } => p == path,
        StoreStepView::Remove { path: p } => p == path,
    }
}

/// The operations that save a record below `root`: its text is written to
/// the stand-in file, which is then moved over the record.
pub open spec fn save_steps(root: Seq<char>, content: Seq<char>) -> Seq<StoreStepView> {
    seq![
        StoreStepView::WriteTemp { path: joined(root, LOCK_FILE_TEMP@), content },
        StoreStepView::Rename { from: joined(root, LOCK_FILE_TEMP@), to: joined(root, LOCK_FILE@) },
    ]
}

/// The error that reports the failure of an operation, from what the system
/// said of it.
pub open spec fn failure_of(step: StoreStepView, message: Seq<char>) -> RexerErrorView {
    match step {
        StoreStepView::WriteTemp { .. } => RexerErrorView {
            kind: ErrorKind::LockFileError,
            detail: "Failed to write temporary lock file: "@ + message,
        },
        StoreStepView::Rename { .. } => RexerErrorView {
            kind: ErrorKind::LockFileError,
            detail: "Failed to finalize lock file: "@ + message,
        },
        StoreStepView::Write { .. } => RexerErrorView { kind: ErrorKind::IoError, detail: message },
        StoreStepView::Remove { .. } => RexerErrorView {
            kind: ErrorKind::IoError,
            detail: message,
        },
    }
}

impl StoreStep {
    /// The error that reports the failure of this operation, from what the
    /// system said of it.
    pub fn failure(&self, message: &str) -> (r: RexerError)
        ensures
            r@ == failure_of(self@, message@),
    {
        match self {
            StoreStep::WriteTemp { .. } => RexerError::LockFileError(
                String::from_str("Failed to write temporary lock file: ").concat(message),
            ),
            StoreStep::Rename { .. } => RexerError::LockFileError(
                String::from_str("Failed to finalize lock file: ").concat(message),
            ),
            StoreStep::Write { .. } => RexerError::IoError(String::from_str(message)),
            StoreStep::Remove { .. } => RexerError::IoError(String::from_str(message)),
        }
    }
}

/// The error that reports a record that could not be turned into text.
pub fn serialization_failed(message: &str) -> (r: RexerError)
    ensures
        r@ == (RexerErrorView {
            kind: ErrorKind::LockFileError,
            detail: "JSON serialization failed: "@ + message@,
        }),
{
    RexerError::LockFileError(String::from_str("JSON serialization failed: ").concat(message))
}

/// The error that reports that there is no record.
pub fn no_lock_file() -> (r: RexerError)
    ensures
        r@ == (RexerErrorView { kind: ErrorKind::LockFileError, detail: "No lock file found"@ }),
{
    RexerError::LockFileError(String::from_str("No lock file found"))
}

/// What a new declaration file holds: an example of each kind of source,
/// commented out.
pub const INITIAL_CONFIG: &'static str =
    "# Redmine Extensions Configuration\n# Define plugins and themes to be managed by rexer\n\nplugins:\n  # Example plugin from GitHub\n  # - name: redmine_issues_panel\n  #   github:\n  #     repo: \"redmica/redmine_issues_panel\"\n  #     tag: \"v1.0.2\"\n\nthemes:\n  # Example theme from Git repository  \n  # - name: my_theme\n  #   git:\n  #     url: \"https://github.com/user/my_theme.git\"\n  #     branch: \"main\"\n";

impl Config {
    /// The configuration for the Redmine installation at `redmine_root`,
    /// with the words to put in front of every command.
    pub fn new(redmine_root: String, command_prefix: Option<String>) -> (r: Config)
        ensures
            r.redmine_root == redmine_root,
            r.command_prefix == command_prefix,
    {
        Config { command_prefix, redmine_root }
    }

    /// The file to read the declaration from, given whether it exists; a
    /// missing file is an error that names it.
    pub fn load_extensions_config(&self, exists: bool) -> (r: std::result::Result<
        String,
        RexerError,
    >)
        ensures
            match r {
                Ok(path) => exists && path@ == joined(self.redmine_root@, EXTENSIONS_FILE@),
                Err(error) => !exists && error@ == (RexerErrorView {
                    kind: ErrorKind::ConfigNotFound,
                    detail: joined(self.redmine_root@, EXTENSIONS_FILE@),
                }),
            },
    {
        let path = self.extensions_file_path();
        if exists {
            Ok(path)
        } else {
            Err(RexerError::ConfigNotFound(path))
        }
    }

    /// The operation that saves a declaration, given its text.
    pub fn save_extensions_config(&self, content: String) -> (r: StoreStep)
        ensures
            r@ == (StoreStepView::Write {
                path: joined(self.redmine_root@, EXTENSIONS_FILE@),
                content: content@,
            }),
    {
        StoreStep::Write { path: self.extensions_file_path(), content }
    }

    /// The file to read the record from, given whether it exists; without
    /// the file there is no record, which is not the same as an empty one.
    pub fn load_lock_file(&self, exists: bool) -> (r: Option<String>)
        ensures
            match r {
                Some(path) => exists && path@ == joined(self.redmine_root@, LOCK_FILE@),
                None => !exists,
            },
    {
        if exists {
            Some(self.lock_file_path())
        } else {
            None
        }
    }

    /// The operations that save a record, given its text: the text is
    /// written to the stand-in file, which is then moved over the record.
    pub fn save_lock_file(&self, content: String) -> (r: Vec<StoreStep>)
        ensures
            r.deep_view() == save_steps(self.redmine_root@, content@),
    {
        let mut steps: Vec<StoreStep> = Vec::new();
        let temp = self.lock_file_temp_path();
        steps.push(StoreStep::WriteTemp { path: temp.clone(), content });
        steps.push(StoreStep::Rename { from: temp, to: self.lock_file_path() });
        assert(steps.deep_view() =~= save_steps(self.redmine_root@, content@));
        steps
    }

    /// The operations that delete the record, given whether it exists:
    /// its removal, or nothing where there is none.
    pub fn delete_lock_file(&self, exists: bool) -> (r: Vec<StoreStep>)
        ensures
            r.deep_view() == (if exists {
                seq![StoreStepView::Remove { path: joined(self.redmine_root@, LOCK_FILE@) }]
            } else {
                Seq::empty()
            }),
    {
        let mut steps: Vec<StoreStep> = Vec::new();
        if exists {
            steps.push(StoreStep::Remove { path: self.lock_file_path() });
            assert(steps.deep_view() =~= seq![
                StoreStepView::Remove { path: joined(self.redmine_root@, LOCK_FILE@) },
            ]);
        } else {
            assert(steps.deep_view() =~= Seq::empty());
        }
        steps
    }

    /// The operation that creates the first declaration file.
    pub fn create_initial_config(&self) -> (r: StoreStep)
        ensures
            r@ == (StoreStepView::Write {
                path: joined(self.redmine_root@, EXTENSIONS_FILE@),
                content: INITIAL_CONFIG@,
            }),
    {
        StoreStep::Write {
            path: self.extensions_file_path(),
            content: String::from_str(INITIAL_CONFIG),
        }
    }
}

/// The record and its stand-in are different files.
pub proof fn lemma_stand_in_is_another_file(root: Seq<char>)
    ensures
        joined(root, LOCK_FILE_TEMP@) != joined(root, LOCK_FILE@),
{
    reveal_strlit(".extensions.lock.tmp");
    reveal_strlit(".extensions.lock");
    let a = joined(root, LOCK_FILE_TEMP@);
    let b = joined(root, LOCK_FILE@);
    assert(a.len() == b.len() + 4);
}

/// Saving replaces the record in one move.
///
/// Of the operations that save a record, only the last touches the record
/// itself, and it is a move of a file that the first operation has written
/// in full. Whatever happens before that move leaves the record as it was.
pub proof fn lemma_save_replaces_in_one_move(root: Seq<char>, content: Seq<char>)
    ensures
        save_steps(root, content).len() == 2,
        !touches(save_steps(root, content)[0], joined(root, LOCK_FILE@)),
        save_steps(root, content)[0] == (StoreStepView::WriteTemp {
            path: joined(root, LOCK_FILE_TEMP@),
            content,
        }),
        save_steps(root, content)[1] == (StoreStepView::Rename {
            from: joined(root, LOCK_FILE_TEMP@),
            to: joined(root, LOCK_FILE@),
        }),
{
    lemma_stand_in_is_another_file(root);
}

} // verus!
