//! Where things are on disk: the files of the declaration and of the record,
//! and the directory of each extension.

use crate::extension::ExtensionType;
use vstd::prelude::*;
use vstd::string::{StrSliceExecFns, StringExecFns};

verus! {

/// The name of the file that declares the extensions.
pub const EXTENSIONS_FILE: &'static str = ".extensions.yml";

/// The name of the file that records what is installed.
pub const LOCK_FILE: &'static str = ".extensions.lock";

/// The name of the file that a new record is written to before it replaces
/// the old one.
pub const LOCK_FILE_TEMP: &'static str = ".extensions.lock.tmp";

/// The root of the Redmine installation, and the words to put in front of
/// every command that is run.
pub struct Config {
    pub command_prefix: Option<String>,
    pub redmine_root: String,
}

/// A path with one more component: the two joined by a slash, which is left
/// out where the path is empty or ends in one.
pub open spec fn joined(base: Seq<char>, component: Seq<char>) -> Seq<char> {
    if base.len() == 0 || base.last() == '/' {
        base + component
    } else {
        base + seq!['/'] + component
    }
}

/// The directory below the root that holds the extensions of a kind.
pub open spec fn kind_dir(kind: ExtensionType) -> Seq<char> {
    match kind {
        ExtensionType::Plugin => "plugins"@,
        ExtensionType::Theme => "themes"@,
    }
}

/// The directory of the extension of this kind and name below `root`.
pub open spec fn extension_path(root: Seq<char>, kind: ExtensionType, name: Seq<char>) -> Seq<
    char,
> {
    joined(joined(root, kind_dir(kind)), name)
}

/// A path with one more component.
pub fn join_path(base: &str, component: &str) -> (r: String)
    ensures
        r@ == joined(base@, component@),
{
    let n: usize = base.unicode_len();
    if n == 0 || base.get_char(n - 1) == '/' {
        String::from_str(base).concat(component)
    } else {
        proof {
            reveal_strlit("/");
            assert("/"@ =~= seq!['/']);
        }
        String::from_str(base).concat("/").concat(component)
    }
}

impl Config {
    /// The file that declares the extensions.
    pub fn extensions_file_path(&self) -> (r: String)
        ensures
            r@ == joined(self.redmine_root@, EXTENSIONS_FILE@),
    {
        join_path(self.redmine_root.as_str(), EXTENSIONS_FILE)
    }

    /// The file that records what is installed.
    pub fn lock_file_path(&self) -> (r: String)
        ensures
            r@ == joined(self.redmine_root@, LOCK_FILE@),
    {
        join_path(self.redmine_root.as_str(), LOCK_FILE)
    }

    /// The file that a new record is written to before it replaces the old
    /// one: beside the record, under another name.
    pub fn lock_file_temp_path(&self) -> (r: String)
        ensures
            r@ == joined(self.redmine_root@, LOCK_FILE_TEMP@),
    {
        join_path(self.redmine_root.as_str(), LOCK_FILE_TEMP)
    }

    /// The directory that holds the plugins.
    pub fn plugins_dir(&self) -> (r: String)
        ensures
            r@ == joined(self.redmine_root@, kind_dir(ExtensionType::Plugin)),
    {
        join_path(self.redmine_root.as_str(), "plugins")
    }

    /// The directory that holds the themes.
    pub fn themes_dir(&self) -> (r: String)
        ensures
            r@ == joined(self.redmine_root@, kind_dir(ExtensionType::Theme)),
    {
        join_path(self.redmine_root.as_str(), "themes")
    }

    /// The directory of the extension of this kind and name.
    pub fn extension_dir(&self, kind: ExtensionType, name: &str) -> (r: String)
        ensures
            r@ == extension_path(self.redmine_root@, kind, name@),
    {
        let parent = match kind {
            ExtensionType::Plugin => self.plugins_dir(),
            ExtensionType::Theme => self.themes_dir(),
        };
        join_path(parent.as_str(), name)
    }
}

} // verus!
