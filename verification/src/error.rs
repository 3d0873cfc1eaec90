//! The errors that the library reports.

use vstd::prelude::*;
use vstd::string::StringExecFns;

verus! {

/// What went wrong; each variant holds the detail as text.
#[derive(Debug)]
pub enum RexerError {
    /// The file that declares the extensions is missing.
    ConfigNotFound(String),
    /// The declaration is malformed.
    InvalidConfig(String),
    /// A git operation failed with every strategy.
    GitError(String),
    /// A reference is neither a branch, a tag nor a commit of the repository.
    ReferenceNotFound(String),
    /// The setup of an installed plugin failed.
    HookFailed(String),
    /// No installed extension has this name.
    ExtensionNotFound(String),
    /// The record could not be read or written.
    LockFileError(String),
    /// Reading or writing a file failed.
    IoError(String),
    /// The record is not valid JSON.
    JsonError(String),
    /// The declaration is not valid YAML.
    YamlError(String),
    /// Any other failure of the surroundings.
    AnyhowError(String),
}

/// The kinds of error, without their detail.
#[derive(Debug, Clone, Copy, PartialEq, Eq, Structural)]
pub enum ErrorKind {
    ConfigNotFound,
    InvalidConfig,
    GitError,
    ReferenceNotFound,
    HookFailed,
    ExtensionNotFound,
    LockFileError,
    IoError,
    JsonError,
    YamlError,
    AnyhowError,
}

/// An error as its kind and its detail.
pub struct RexerErrorView {
    pub kind: ErrorKind,
    pub detail: Seq<char>,
}

impl View for RexerError {
    type V = RexerErrorView;

    open spec fn view(&self) -> RexerErrorView {
        match self {
            RexerError::ConfigNotFound(s) => RexerErrorView {
                kind: ErrorKind::ConfigNotFound,
                detail: s@,
            },
            RexerError::InvalidConfig(s) => RexerErrorView {
                kind: ErrorKind::InvalidConfig,
                detail: s@,
            },
            RexerError::GitError(s) => RexerErrorView { kind: ErrorKind::GitError, detail: s@ },
            RexerError::ReferenceNotFound(s) => RexerErrorView {
                kind: ErrorKind::ReferenceNotFound,
                detail: s@,
            },
            RexerError::HookFailed(s) => RexerErrorView { kind: ErrorKind::HookFailed, detail: s@ },
            RexerError::ExtensionNotFound(s) => RexerErrorView {
                kind: ErrorKind::ExtensionNotFound,
                detail: s@,
            },
            RexerError::LockFileError(s) => RexerErrorView {
                kind: ErrorKind::LockFileError,
                detail: s@,
            },
            RexerError::IoError(s) => RexerErrorView { kind: ErrorKind::IoError, detail: s@ },
            RexerError::JsonError(s) => RexerErrorView { kind: ErrorKind::JsonError, detail: s@ },
            RexerError::YamlError(s) => RexerErrorView { kind: ErrorKind::YamlError, detail: s@ },
            RexerError::AnyhowError(s) => RexerErrorView {
                kind: ErrorKind::AnyhowError,
                detail: s@,
            },
        }
    }
}

impl DeepView for RexerError {
    type V = RexerErrorView;

    open spec fn deep_view(&self) -> RexerErrorView {
        self@
    }
}

/// The words that introduce the detail of an error of this kind.
pub open spec fn prefix_of(kind: ErrorKind) -> Seq<char> {
    match kind {
        ErrorKind::ConfigNotFound => "Configuration file not found: "@,
        ErrorKind::InvalidConfig => "Invalid configuration: "@,
        ErrorKind::GitError => "Git operation failed: "@,
        ErrorKind::ReferenceNotFound => "Reference not found: "@,
        ErrorKind::HookFailed => "Plugin setup failed: "@,
        ErrorKind::ExtensionNotFound => "Extension not found: "@,
        ErrorKind::LockFileError => "Lock file error: "@,
        ErrorKind::IoError => "IO error: "@,
        ErrorKind::JsonError => "JSON error: "@,
        ErrorKind::YamlError => "YAML error: "@,
        ErrorKind::AnyhowError => "Anyhow error: "@,
    }
}

impl RexerError {
    /// The kind of the error.
    pub fn kind(&self) -> (r: ErrorKind)
        ensures
            r == self@.kind,
    {
        match self {
            RexerError::ConfigNotFound(_) => ErrorKind::ConfigNotFound,
            RexerError::InvalidConfig(_) => ErrorKind::InvalidConfig,
            RexerError::GitError(_) => ErrorKind::GitError,
            RexerError::ReferenceNotFound(_) => ErrorKind::ReferenceNotFound,
            RexerError::HookFailed(_) => ErrorKind::HookFailed,
            RexerError::ExtensionNotFound(_) => ErrorKind::ExtensionNotFound,
            RexerError::LockFileError(_) => ErrorKind::LockFileError,
            RexerError::IoError(_) => ErrorKind::IoError,
            RexerError::JsonError(_) => ErrorKind::JsonError,
            RexerError::YamlError(_) => ErrorKind::YamlError,
            RexerError::AnyhowError(_) => ErrorKind::AnyhowError,
        }
    }

    /// The detail of the error.
    pub fn detail(&self) -> (r: &String)
        ensures
            r@ == self@.detail,
    {
        match self {
            RexerError::ConfigNotFound(s) => s,
            RexerError::InvalidConfig(s) => s,
            RexerError::GitError(s) => s,
            RexerError::ReferenceNotFound(s) => s,
            RexerError::HookFailed(s) => s,
            RexerError::ExtensionNotFound(s) => s,
            RexerError::LockFileError(s) => s,
            RexerError::IoError(s) => s,
            RexerError::JsonError(s) => s,
            RexerError::YamlError(s) => s,
            RexerError::AnyhowError(s) => s,
        }
    }

    /// The error in words: what kind it is, then its detail.
    pub fn message(&self) -> (r: String)
        ensures
            r@ == prefix_of(self@.kind) + self@.detail,
    {
        let prefix = match self {
            RexerError::ConfigNotFound(_) => "Configuration file not found: ",
            RexerError::InvalidConfig(_) => "Invalid configuration: ",
            RexerError::GitError(_) => "Git operation failed: ",
            RexerError::ReferenceNotFound(_) => "Reference not found: ",
            RexerError::HookFailed(_) => "Plugin setup failed: ",
            RexerError::ExtensionNotFound(_) => "Extension not found: ",
            RexerError::LockFileError(_) => "Lock file error: ",
            RexerError::IoError(_) => "IO error: ",
            RexerError::JsonError(_) => "JSON error: ",
            RexerError::YamlError(_) => "YAML error: ",
            RexerError::AnyhowError(_) => "Anyhow error: ",
        };
        String::from_str(prefix).concat(self.detail().as_str())
    }
}

impl Clone for RexerError {
    fn clone(&self) -> (r: Self)
        ensures
            r == *self,
    {
        match self {
            RexerError::ConfigNotFound(s) => RexerError::ConfigNotFound(s.clone()),
            RexerError::InvalidConfig(s) => RexerError::InvalidConfig(s.clone()),
            RexerError::GitError(s) => RexerError::GitError(s.clone()),
            RexerError::ReferenceNotFound(s) => RexerError::ReferenceNotFound(s.clone()),
            RexerError::HookFailed(s) => RexerError::HookFailed(s.clone()),
            RexerError::ExtensionNotFound(s) => RexerError::ExtensionNotFound(s.clone()),
            RexerError::LockFileError(s) => RexerError::LockFileError(s.clone()),
            RexerError::IoError(s) => RexerError::IoError(s.clone()),
            RexerError::JsonError(s) => RexerError::JsonError(s.clone()),
            RexerError::YamlError(s) => RexerError::YamlError(s.clone()),
            RexerError::AnyhowError(s) => RexerError::AnyhowError(s.clone()),
        }
    }
}

/// What the library's functions return.
pub type Result<T> = std::result::Result<T, RexerError>;

} // verus!
