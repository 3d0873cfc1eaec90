//! The command line of the tool: its commands, and what its switches mean.

use vstd::prelude::*;
use vstd::string::StringExecFns;

verus! {

/// The name of the tool.
pub const NAME: &'static str = "rex";

/// What the tool is, in one line.
pub const ABOUT: &'static str = "Redmine Extension (Plugin and Theme) manager";

/// What the tool can be asked to do.
#[derive(Debug)]
pub enum Commands {
    /// Create the file that declares the extensions.
    Init,
    /// Install the declared extensions.
    Install,
    /// Uninstall every installed extension.
    Uninstall,
    /// Install one extension anew.
    Reinstall { extension: String },
    /// Bring extensions up to date: the named ones, or all.
    Update { extensions: Vec<String> },
    /// Show what is installed.
    State,
    /// Edit the file that declares the extensions.
    Edit,
    /// Show the version of the tool.
    Version,
}

/// What was given on the command line.
#[derive(Debug)]
pub struct Cli {
    pub command: Option<Commands>,
    pub verbose: bool,
    pub quiet: bool,
}

/// How much is logged: everything for `verbose`, only errors for `quiet`,
/// and `verbose` wins over `quiet`.
pub open spec fn level_of(verbose: bool, quiet: bool) -> Seq<char> {
    if verbose {
        "debug"@
    } else if quiet {
        "error"@
    } else {
        "info"@
    }
}

impl Cli {
    /// How much is logged.
    pub fn log_level(&self) -> (r: &'static str)
        ensures
            r@ == level_of(self.verbose, self.quiet),
    {
        if self.verbose {
            "debug"
        } else if self.quiet {
            "error"
        } else {
            "info"
        }
    }

    /// What is to be done, and how much is to be logged: the command that
    /// was given, or the installation where none was.
    pub fn execute(self) -> (r: (Commands, &'static str))
        ensures
            r.0 == (match self.command {
                Some(command) => command,
                None => Commands::Install,
            }),
            r.1@ == level_of(self.verbose, self.quiet),
    {
        let level = self.log_level();
        let command = match self.command {
            Some(command) => command,
            None => Commands::Install,
        };
        (command, level)
    }
}

/// The line that shows the version of the tool.
pub fn version_line(version: &str) -> (r: String)
    ensures
        r@ == "rex "@ + version@,
{
    String::from_str("rex ").concat(version)
}

} // verus!
