//! The command lines that the surroundings run: every one with the
//! configured prefix in front, and those that set up an installed plugin.

use crate::config::{join_path, joined, Config};
use crate::error::{ErrorKind, RexerError, RexerErrorView};
use vstd::prelude::*;
use vstd::string::{StrSliceExecFns, StringExecFns};

verus! {

/// Whether a character is white space: it has the Unicode property
/// `White_Space`, which these code points have and no other.
pub open spec fn is_whitespace(c: char) -> bool {
    let u = c as u32;
    ||| 0x0009 <= u <= 0x000D
    ||| u == 0x0020
    ||| u == 0x0085
    ||| u == 0x00A0
    ||| u == 0x1680
    ||| 0x2000 <= u <= 0x200A
    ||| u == 0x2028
    ||| u == 0x2029
    ||| u == 0x202F
    ||| u == 0x205F
    ||| u == 0x3000
}

/// Whether a character is white space: the answer of `char::is_whitespace`
/// of the standard library, which tells whether the character has the
/// Unicode property `White_Space`.
#[verifier::external_body]
fn char_is_whitespace(c: char) -> (r: bool)
    ensures
        r == is_whitespace(c),
{
    c.is_whitespace()
}

/// The word `current`, if it is one: a word has at least one character.
pub open spec fn word(current: Seq<char>) -> Seq<Seq<char>> {
    if current.len() > 0 {
        seq![current]
    } else {
        Seq::empty()
    }
}

/// The words of `s` from the place `i` on, when `current` holds the
/// characters of the word that `i` is in.
pub open spec fn words_from(s: Seq<char>, i: int, current: Seq<char>) -> Seq<Seq<char>>
    decreases s.len() - i,
{
    if i < 0 || i >= s.len() {
        word(current)
    } else if is_whitespace(s[i]) {
        word(current) + words_from(s, i + 1, Seq::empty())
    } else {
        words_from(s, i + 1, current.push(s[i]))
    }
}

/// The words of a text: the longest runs of characters that are not white
/// space, in their order.
pub open spec fn words(s: Seq<char>) -> Seq<Seq<char>> {
    words_from(s, 0, Seq::empty())
}

/// The words of a text.
pub fn split_words(s: &str) -> (r: Vec<String>)
    ensures
        r.deep_view() == words(s@),
{
    let n: usize = s.unicode_len();
    let mut out: Vec<String> = Vec::new();
    let mut start: usize = 0;
    let mut i: usize = 0;
    assert(s@.subrange(0, 0) =~= Seq::empty());
    assert(out.deep_view() + words(s@) =~= words(s@));
    while i < n
        invariant
            start <= i <= n,
            n == s@.len(),
            out.deep_view() + words_from(s@, i as int, s@.subrange(start as int, i as int))
                == words(s@),
        decreases n - i,
    {
        let ghost current = s@.subrange(start as int, i as int);
        let ghost before = out.deep_view();
        let c = s.get_char(i);
        if char_is_whitespace(c) {
            if start < i {
                let found = s.substring_char(start, i);
                out.push(String::from_str(found));
                assert(out.deep_view() =~= before + word(current));
            } else {
                assert(before + word(current) =~= before);
            }
            start = i + 1;
            assert(s@.subrange(start as int, i as int + 1) =~= Seq::empty());
            assert(before + (word(current) + words_from(s@, i as int + 1, Seq::empty()))
                =~= before + word(current) + words_from(s@, i as int + 1, Seq::empty()));
        } else {
            assert(current.push(s@[i as int]) =~= s@.subrange(start as int, i as int + 1));
        }
        i = i + 1;
    }
    let ghost current = s@.subrange(start as int, n as int);
    let ghost before = out.deep_view();
    if start < n {
        let found = s.substring_char(start, n);
        out.push(String::from_str(found));
        assert(out.deep_view() =~= before + word(current));
    } else {
        assert(before + word(current) =~= before);
    }
    out
}

/// A program to run, with its arguments and the directory to run it in.
#[derive(Debug)]
pub struct CommandLine {
    pub program: String,
    pub args: Vec<String>,
    pub working_dir: Option<String>,
}

/// What a [`CommandLine`] holds.
pub struct CommandLineView {
    pub program: Seq<char>,
    pub args: Seq<Seq<char>>,
    pub working_dir: Option<Seq<char>>,
}

impl View for CommandLine {
    type V = CommandLineView;

    open spec fn view(&self) -> CommandLineView {
        CommandLineView {
            program: self.program@,
            args: self.args.deep_view(),
            working_dir: self.working_dir.deep_view(),
        }
    }
}

impl DeepView for CommandLine {
    type V = CommandLineView;

    open spec fn deep_view(&self) -> CommandLineView {
        self@
    }
}

/// The command line that runs `command` with `args`: under a prefix with at
/// least one word, the first word of the prefix is the program, and its other
/// words come before the command and its arguments; else the command itself
/// is the program.
pub open spec fn prefixed(
    prefix: Option<Seq<char>>,
    command: Seq<char>,
    args: Seq<Seq<char>>,
    working_dir: Option<Seq<char>>,
) -> CommandLineView {
    let parts = match prefix {
        Some(p) => words(p),
        None => Seq::empty(),
    };
    if parts.len() > 0 {
        CommandLineView {
            program: parts[0],
            args: parts.skip(1) + seq![command] + args,
            working_dir,
        }
    } else {
        CommandLineView { program: command, args, working_dir }
    }
}

/// A copy of a list of strings.
fn copy_strings(v: &Vec<String>) -> (r: Vec<String>)
    ensures
        r.deep_view() == v.deep_view(),
{
    let mut out: Vec<String> = Vec::new();
    let mut i: usize = 0;
    while i < v.len()
        invariant
            i <= v.len(),
            out.deep_view() == v.deep_view().take(i as int),
        decreases v.len() - i,
    {
        let ghost before = out.deep_view();
        out.push(v[i].clone());
        assert(out.deep_view() =~= before.push(v.deep_view()[i as int]));
        assert(out.deep_view() =~= v.deep_view().take(i as int + 1));
        i = i + 1;
    }
    assert(v.deep_view().take(i as int) =~= v.deep_view());
    out
}

/// The command line that runs `command` with `args` in `working_dir`, with
/// the configured prefix in front.
pub fn run_command(
    command: &str,
    args: &Vec<String>,
    working_dir: Option<&str>,
    config: &Config,
) -> (r: CommandLine)
    ensures
        r@ == prefixed(
            config.command_prefix.deep_view(),
            command@,
            args.deep_view(),
            match working_dir {
                Some(dir) => Some(dir@),
                None => None,
            },
        ),
{
    let dir = match working_dir {
        Some(d) => Some(String::from_str(d)),
        None => None,
    };
    let parts = match &config.command_prefix {
        Some(prefix) => split_words(prefix.as_str()),
        None => Vec::new(),
    };
    if parts.len() > 0 {
        let mut all: Vec<String> = Vec::new();
        let mut i: usize = 1;
        assert(parts.deep_view().subrange(1, 1) =~= Seq::empty());
        while i < parts.len()
            invariant
                1 <= i <= parts.len(),
                all.deep_view() == parts.deep_view().subrange(1, i as int),
            decreases parts.len() - i,
        {
            let ghost before = all.deep_view();
            all.push(parts[i].clone());
            assert(all.deep_view() =~= before.push(parts.deep_view()[i as int]));
            assert(all.deep_view() =~= parts.deep_view().subrange(1, i as int + 1));
            i = i + 1;
        }
        assert(parts.deep_view().subrange(1, i as int) =~= parts.deep_view().skip(1));
        all.push(String::from_str(command));
        let ghost head = all.deep_view();
        assert(head =~= parts.deep_view().skip(1) + seq![command@]);
        let mut j: usize = 0;
        while j < args.len()
            invariant
                j <= args.len(),
                all.deep_view() == head + args.deep_view().take(j as int),
            decreases args.len() - j,
        {
            let ghost before = all.deep_view();
            all.push(args[j].clone());
            assert(all.deep_view() =~= before.push(args.deep_view()[j as int]));
            assert(all.deep_view() =~= head + args.deep_view().take(j as int + 1));
            j = j + 1;
        }
        assert(args.deep_view().take(j as int) =~= args.deep_view());
        CommandLine { program: parts[0].clone(), args: all, working_dir: dir }
    } else {
        CommandLine { program: String::from_str(command), args: copy_strings(args), working_dir: dir }
    }
}

/// The file whose presence tells that a plugin has dependencies to install.
pub open spec fn gemfile_of(plugin_dir: Seq<char>) -> Seq<char> {
    joined(plugin_dir, "Gemfile"@)
}

/// The directory whose entries are the migrations of a plugin.
pub open spec fn migrations_of(plugin_dir: Seq<char>) -> Seq<char> {
    joined(joined(plugin_dir, "db"@), "migrate"@)
}

/// The file whose presence tells that a plugin has dependencies to install.
pub fn gemfile_path(plugin_dir: &str) -> (r: String)
    ensures
        r@ == gemfile_of(plugin_dir@),
{
    join_path(plugin_dir, "Gemfile")
}

/// The directory whose entries are the migrations of a plugin.
pub fn migrations_dir(plugin_dir: &str) -> (r: String)
    ensures
        r@ == migrations_of(plugin_dir@),
{
    join_path(join_path(plugin_dir, "db").as_str(), "migrate")
}

/// The commands that set up a plugin: the installation of its dependencies
/// in its directory where it has a `Gemfile`, then its migrations from the
/// root of Redmine where it has any.
pub open spec fn setup_commands(
    prefix: Option<Seq<char>>,
    root: Seq<char>,
    plugin_dir: Seq<char>,
    plugin_name: Seq<char>,
    has_gemfile: bool,
    has_migrations: bool,
) -> Seq<CommandLineView> {
    (if has_gemfile {
        seq![prefixed(prefix, "bundle"@, seq!["install"@], Some(plugin_dir))]
    } else {
        Seq::empty()
    }) + (if has_migrations {
        seq![
            prefixed(
                prefix,
                "bundle"@,
                seq!["exec"@, "rake"@, "redmine:plugins:migrate"@, "NAME="@ + plugin_name],
                Some(root),
            ),
        ]
    } else {
        Seq::empty()
    })
}

/// The commands that set up the plugin `plugin_name` in `plugin_dir`, given
/// whether it has a `Gemfile` and whether it has migrations.
pub fn run_plugin_setup(
    plugin_dir: &str,
    plugin_name: &str,
    has_gemfile: bool,
    has_migrations: bool,
    config: &Config,
) -> (r: Vec<CommandLine>)
    ensures
        r.deep_view() == setup_commands(
            config.command_prefix.deep_view(),
            config.redmine_root@,
            plugin_dir@,
            plugin_name@,
            has_gemfile,
            has_migrations,
        ),
{
    let mut out: Vec<CommandLine> = Vec::new();
    if has_gemfile {
        let mut args: Vec<String> = Vec::new();
        args.push(String::from_str("install"));
        assert(args.deep_view() =~= seq!["install"@]);
        out.push(run_command("bundle", &args, Some(plugin_dir), config));
    }
    if has_migrations {
        let mut args: Vec<String> = Vec::new();
        args.push(String::from_str("exec"));
        args.push(String::from_str("rake"));
        args.push(String::from_str("redmine:plugins:migrate"));
        args.push(String::from_str("NAME=").concat(plugin_name));
        assert(args.deep_view() =~= seq![
            "exec"@,
            "rake"@,
            "redmine:plugins:migrate"@,
            "NAME="@ + plugin_name@,
        ]);
        out.push(run_command("bundle", &args, Some(config.redmine_root.as_str()), config));
    }
    assert(out.deep_view() =~= setup_commands(
        config.command_prefix.deep_view(),
        config.redmine_root@,
        plugin_dir@,
        plugin_name@,
        has_gemfile,
        has_migrations,
    ));
    out
}

/// A text made of the parts with one space before each.
pub open spec fn spaced(parts: Seq<Seq<char>>) -> Seq<char>
    decreases parts.len(),
{
    if parts.len() == 0 {
        Seq::empty()
    } else {
        spaced(parts.drop_last()) + " "@ + parts.last()
    }
}

/// The text `head` followed by the parts, with one space before each.
pub fn join_spaced(head: String, parts: &Vec<String>) -> (r: String)
    ensures
        r@ == head@ + spaced(parts.deep_view()),
{
    let ghost start = head@;
    let ghost all = parts.deep_view();
    let mut text = head;
    let mut i: usize = 0;
    assert(all.take(0) =~= Seq::empty());
    assert(start + spaced(Seq::empty()) =~= start);
    while i < parts.len()
        invariant
            i <= parts.len(),
            all == parts.deep_view(),
            text@ == start + spaced(all.take(i as int)),
        decreases parts.len() - i,
    {
        text = text.concat(" ").concat(parts[i].as_str());
        proof {
            let next = all.take(i as int + 1);
            assert(next.drop_last() =~= all.take(i as int));
            assert(next.last() == parts[i as int]@);
            assert(text@ =~= start + spaced(next));
        }
        i = i + 1;
    }
    assert(all.take(i as int) =~= all);
    text
}

/// The error that reports a command that ended badly: the program and its
/// arguments, after the words `Command failed:`.
pub fn command_failed(line: &CommandLine) -> (r: RexerError)
    ensures
        r@ == (RexerErrorView {
            kind: ErrorKind::HookFailed,
            detail: "Command failed: "@ + line@.program + spaced(line@.args),
        }),
{
    let head = String::from_str("Command failed: ").concat(line.program.as_str());
    RexerError::HookFailed(join_spaced(head, &line.args))
}

} // verus!
