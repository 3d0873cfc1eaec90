//! What is installed, in words.

use crate::extension::{
    ExtensionType, LockFile, LockedExtension, LockedExtensionView, Source, SourceView,
};
use vstd::prelude::*;
use vstd::string::{StringExecFns, StringSliceAdditionalSpecFns};
use vstd::utf8::{decode_utf8, encode_utf8, encode_utf8_decode_utf8, is_char_boundary};

verus! {

/// How many bytes of an installed commit are shown.
pub const SHORT_COMMIT: usize = 8;

/// The first eight bytes of the commit's UTF-8 form end at the end of a
/// character, so that they can be shown alone.
pub open spec fn can_abbreviate(commit: Seq<char>) -> bool {
    is_char_boundary(encode_utf8(commit), SHORT_COMMIT as int)
}

/// The characters that the first eight bytes of the commit encode.
pub open spec fn abbreviated(commit: Seq<char>) -> Seq<char> {
    decode_utf8(encode_utf8(commit).subrange(0, SHORT_COMMIT as int))
}

/// The reference of a source in words: a commit as ` at `, a tag as
/// ` at tag `, a branch as ` at branch `, each followed by its name; the
/// commit before the tag, the tag before the branch; nothing for none.
pub open spec fn reference_words(source: SourceView) -> Seq<char> {
    if source.commit() is Some {
        " at "@ + source.commit()->0
    } else if source.tag() is Some {
        " at tag "@ + source.tag()->0
    } else if source.branch() is Some {
        " at branch "@ + source.branch()->0
    } else {
        Seq::empty()
    }
}

/// The source in words: `git: ` and the URL, or `github: ` and the
/// repository, then the reference.
pub open spec fn source_words(source: SourceView) -> Seq<char> {
    (match source {
        SourceView::Git(g) => "git: "@ + g.url,
        SourceView::GitHub(g) => "github: "@ + g.repo,
    }) + reference_words(source)
}

/// The source in words, followed by the abbreviated commit that is
/// installed, if one is recorded.
pub open spec fn source_info(source: SourceView, commit_hash: Option<Seq<char>>) -> Seq<char> {
    match commit_hash {
        Some(commit) => source_words(source) + ", installed: "@ + abbreviated(commit),
        None => source_words(source),
    }
}

/// The source in words.
fn describe_source(source: &Source) -> (r: String)
    ensures
        r@ == source_words(source@),
{
    let (base, branch, tag, commit) = match source {
        Source::Git(g) => (
            String::from_str("git: ").concat(g.url.as_str()),
            &g.branch,
            &g.tag,
            &g.commit,
        ),
        Source::GitHub(g) => (
            String::from_str("github: ").concat(g.repo.as_str()),
            &g.branch,
            &g.tag,
            &g.commit,
        ),
    };
    assert(branch.deep_view() == source@.branch() && tag.deep_view() == source@.tag()
        && commit.deep_view() == source@.commit());
    match commit {
        Some(commit) => base.concat(" at ").concat(commit.as_str()),
        None => match tag {
            Some(tag) => base.concat(" at tag ").concat(tag.as_str()),
            None => match branch {
                Some(branch) => base.concat(" at branch ").concat(branch.as_str()),
                None => {
                    assert(base@ + Seq::<char>::empty() =~= base@);
                    base
                },
            },
        },
    }
}

/// Whether the first eight bytes of the commit can be shown alone.
pub fn is_abbreviable(commit: &str) -> (r: bool)
    ensures
        r == can_abbreviate(commit@),
{
    commit.is_char_boundary(SHORT_COMMIT)
}

/// The source in words, followed by the first eight bytes of the commit
/// that is installed, if one is recorded.
pub fn format_source_info(source: &Source, commit_hash: &Option<String>) -> (r: String)
    requires
        commit_hash matches Some(commit) ==> can_abbreviate(commit@),
    ensures
        r@ == source_info(source@, commit_hash.deep_view()),
{
    let base_info = describe_source(source);
    match commit_hash {
        Some(installed_commit) => {
            let (short, _) = installed_commit.as_str().split_at(SHORT_COMMIT);
            proof {
                encode_utf8_decode_utf8(short@);
            }
            base_info.concat(", installed: ").concat(short)
        },
        None => base_info,
    }
}

/// The source in words with the installed commit, where that commit can be
/// abbreviated; nothing where it cannot.
pub fn try_format_source_info(source: &Source, commit_hash: &Option<String>) -> (r: Option<
    String,
>)
    ensures
        match r {
            Some(text) => (commit_hash matches Some(commit) ==> can_abbreviate(commit@)) && text@
                == source_info(source@, commit_hash.deep_view()),
            None => commit_hash matches Some(commit) && !can_abbreviate(commit@),
        },
{
    let fits = match commit_hash {
        Some(commit) => is_abbreviable(commit.as_str()),
        None => true,
    };
    if fits {
        Some(format_source_info(source, commit_hash))
    } else {
        None
    }
}

/// The line that shows one installed extension.
pub open spec fn entry_line(l: LockedExtensionView) -> Seq<char> {
    " * "@ + l.name + " ("@ + source_info(l.source, l.commit_hash) + ")"@
}

/// The lines that show the entries of one kind under a title; none where
/// there is no such entry.
pub open spec fn section(
    title: Seq<char>,
    kind: ExtensionType,
    o: Seq<LockedExtensionView>,
) -> Seq<Seq<char>> {
    let shown = o.filter(|l: LockedExtensionView| l.extension_type == kind);
    if shown.len() == 0 {
        Seq::empty()
    } else {
        seq![title] + shown.map_values(|l: LockedExtensionView| entry_line(l))
    }
}

/// The lines that show the record: the version, the plugins, the themes,
/// and a remark where there is neither.
pub open spec fn state_lines(version: Seq<char>, o: Seq<LockedExtensionView>) -> Seq<Seq<char>> {
    let plugins = section("\nPlugins:"@, ExtensionType::Plugin, o);
    let themes = section("\nThemes:"@, ExtensionType::Theme, o);
    seq!["Rexer: "@ + version] + plugins + themes + (if plugins.len() == 0 && themes.len() == 0 {
        seq!["No extensions installed"@]
    } else {
        Seq::empty()
    })
}

/// Every recorded commit can be abbreviated.
pub open spec fn all_abbreviable(o: Seq<LockedExtensionView>) -> bool {
    forall|i: int|
        0 <= i < o.len() ==> ((#[trigger] o[i]).commit_hash matches Some(c) ==> can_abbreviate(c))
}

/// Whether every recorded commit can be abbreviated.
pub fn is_showable(lock_file: &LockFile) -> (r: bool)
    ensures
        r == all_abbreviable(lock_file@),
{
    let mut i: usize = 0;
    while i < lock_file.extensions.len()
        invariant
            i <= lock_file.extensions.len(),
            all_abbreviable(lock_file@.take(i as int)),
        decreases lock_file.extensions.len() - i,
    {
        let fits = match &lock_file.extensions[i].commit_hash {
            Some(commit) => is_abbreviable(commit.as_str()),
            None => true,
        };
        if !fits {
            assert(lock_file@[i as int].commit_hash is Some);
            return false;
        }
        assert forall|j: int| 0 <= j < i + 1 implies ((#[trigger] lock_file@.take(
            i as int + 1,
        )[j]).commit_hash matches Some(c) ==> can_abbreviate(c)) by {
            if j < i {
                assert(lock_file@.take(i as int)[j] == lock_file@[j]);
            }
        }
        i = i + 1;
    }
    assert(lock_file@.take(i as int) =~= lock_file@);
    true
}

/// Appends the lines that show the entries of one kind under a title.
fn push_section(lines: &mut Vec<String>, title: &str, kind: ExtensionType, lock_file: &LockFile)
    requires
        all_abbreviable(lock_file@),
    ensures
        final(lines).deep_view() == old(lines).deep_view() + section(title@, kind, lock_file@),
{
    let ghost before = lines.deep_view();
    let ghost o = lock_file@;
    let ghost of_kind = |l: LockedExtensionView| l.extension_type == kind;
    let ghost line = |l: LockedExtensionView| entry_line(l);
    let mut found: Vec<String> = Vec::new();
    let mut i: usize = 0;
    proof {
        assert(o.take(0).filter(of_kind) =~= Seq::empty()) by {
            reveal(Seq::filter);
        }
    }
    while i < lock_file.extensions.len()
        invariant
            i <= lock_file.extensions.len(),
            o == lock_file@,
            all_abbreviable(o),
            of_kind == |l: LockedExtensionView| l.extension_type == kind,
            line == |l: LockedExtensionView| entry_line(l),
            found.deep_view() == o.take(i as int).filter(of_kind).map_values(line),
        decreases lock_file.extensions.len() - i,
    {
        let locked = &lock_file.extensions[i];
        proof {
            assert(o[i as int] == locked@);
            assert(o.take(i as int + 1) =~= o.take(i as int).push(locked@));
            o.take(i as int).lemma_filter_push(locked@, of_kind);
        }
        if locked.extension_type == kind {
            let ghost shown = found.deep_view();
            let info = format_source_info(&locked.source, &locked.commit_hash);
            let text = String::from_str(" * ").concat(locked.name.as_str()).concat(" (").concat(
                info.as_str(),
            ).concat(")");
            found.push(text);
            assert(found.deep_view() =~= shown.push(entry_line(locked@)));
            assert(o.take(i as int + 1).filter(of_kind).map_values(line) =~= shown.push(
                entry_line(locked@),
            ));
        }
        i = i + 1;
    }
    assert(o.take(i as int) =~= o);
    if found.len() > 0 {
        lines.push(String::from_str(title));
        let ghost titled = lines.deep_view();
        assert(titled =~= before + seq![title@]);
        let mut j: usize = 0;
        while j < found.len()
            invariant
                j <= found.len(),
                lines.deep_view() == titled + found.deep_view().take(j as int),
            decreases found.len() - j,
        {
            let ghost so_far = lines.deep_view();
            lines.push(found[j].clone());
            assert(lines.deep_view() =~= so_far.push(found.deep_view()[j as int]));
            assert(lines.deep_view() =~= titled + found.deep_view().take(j as int + 1));
            j = j + 1;
        }
        assert(found.deep_view().take(j as int) =~= found.deep_view());
        assert(lines.deep_view() =~= before + section(title@, kind, o));
    } else {
        assert(lines.deep_view() =~= before + section(title@, kind, o));
    }
}

/// The lines that show the record.
pub fn state_report(version: &str, lock_file: &LockFile) -> (r: Vec<String>)
    requires
        all_abbreviable(lock_file@),
    ensures
        r.deep_view() == state_lines(version@, lock_file@),
{
    let mut lines: Vec<String> = Vec::new();
    lines.push(String::from_str("Rexer: ").concat(version));
    assert(lines.deep_view() =~= seq!["Rexer: "@ + version@]);
    push_section(&mut lines, "\nPlugins:", ExtensionType::Plugin, lock_file);
    push_section(&mut lines, "\nThemes:", ExtensionType::Theme, lock_file);
    if lines.len() == 1 {
        let ghost before = lines.deep_view();
        lines.push(String::from_str("No extensions installed"));
        assert(lines.deep_view() =~= before + seq!["No extensions installed"@]);
    } else {
        assert(lines.deep_view() + Seq::<Seq<char>>::empty() =~= lines.deep_view());
    }
    lines
}

/// The lines that show what is installed: those of the record where there
/// is one and every recorded commit can be abbreviated, a remark where there
/// is no record, and nothing where a commit cannot be abbreviated.
pub fn state(version: &str, lock_file: Option<&LockFile>) -> (r: Option<Vec<String>>)
    ensures
        match lock_file {
            None => r matches Some(lines) && lines.deep_view() == seq!["No lock file found"@],
            Some(lock) => match r {
                Some(lines) => all_abbreviable(lock@) && lines.deep_view() == state_lines(
                    version@,
                    lock@,
                ),
                None => !all_abbreviable(lock@),
            },
        },
{
    match lock_file {
        None => {
            let mut lines: Vec<String> = Vec::new();
            lines.push(String::from_str("No lock file found"));
            assert(lines.deep_view() =~= seq!["No lock file found"@]);
            Some(lines)
        },
        Some(lock) => if is_showable(lock) {
            Some(state_report(version, lock))
        } else {
            None
        },
    }
}

} // verus!
