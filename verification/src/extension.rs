//! The declared extensions, their sources, and the record of what is installed.

use vstd::prelude::*;
use vstd::string::StringExecFns;

verus! {

/// The two kinds of extension that Redmine knows.
#[derive(Debug, Clone, Copy, PartialEq, Eq, Structural)]
pub enum ExtensionType {
    Plugin,
    Theme,
}

impl View for ExtensionType {
    type V = ExtensionType;

    open spec fn view(&self) -> ExtensionType {
        *self
    }
}

impl DeepView for ExtensionType {
    type V = ExtensionType;

    open spec fn deep_view(&self) -> ExtensionType {
        *self
    }
}

/// A repository given by its URL, with at most one of branch, tag and commit set.
#[derive(Debug)]
pub struct Git {
    pub url: String,
    pub branch: Option<String>,
    pub tag: Option<String>,
    pub commit: Option<String>,
}

/// What a [`Git`] holds, as sequences of characters.
pub struct GitView {
    pub url: Seq<char>,
    pub branch: Option<Seq<char>>,
    pub tag: Option<Seq<char>>,
    pub commit: Option<Seq<char>>,
}

impl View for Git {
    type V = GitView;

    open spec fn view(&self) -> GitView {
        GitView {
            url: self.url@,
            branch: self.branch.deep_view(),
            tag: self.tag.deep_view(),
            commit: self.commit.deep_view(),
        }
    }
}

impl DeepView for Git {
    type V = GitView;

    open spec fn deep_view(&self) -> GitView {
        self@
    }
}

/// A repository on GitHub given as `owner/name`, with at most one of branch,
/// tag and commit set.
#[derive(Debug)]
pub struct GitHub {
    pub repo: String,
    pub branch: Option<String>,
    pub tag: Option<String>,
    pub commit: Option<String>,
}

/// What a [`GitHub`] holds, as sequences of characters.
pub struct GitHubView {
    pub repo: Seq<char>,
    pub branch: Option<Seq<char>>,
    pub tag: Option<Seq<char>>,
    pub commit: Option<Seq<char>>,
}

impl View for GitHub {
    type V = GitHubView;

    open spec fn view(&self) -> GitHubView {
        GitHubView {
            repo: self.repo@,
            branch: self.branch.deep_view(),
            tag: self.tag.deep_view(),
            commit: self.commit.deep_view(),
        }
    }
}

impl DeepView for GitHub {
    type V = GitHubView;

    open spec fn deep_view(&self) -> GitHubView {
        self@
    }
}

/// Where the code of an extension lives, and which revision of it is wanted.
#[derive(Debug)]
pub enum Source {
    Git(Git),
    GitHub(GitHub),
}

/// What a [`Source`] holds, as sequences of characters.
pub enum SourceView {
    Git(GitView),
    GitHub(GitHubView),
}

impl View for Source {
    type V = SourceView;

    open spec fn view(&self) -> SourceView {
        match self {
            Source::Git(g) => SourceView::Git(g@),
            Source::GitHub(g) => SourceView::GitHub(g@),
        }
    }
}

impl DeepView for Source {
    type V = SourceView;

    open spec fn deep_view(&self) -> SourceView {
        self@
    }
}

/// The first of three optional values that is set: `a`, else `b`, else `c`.
pub open spec fn first_set(
    a: Option<Seq<char>>,
    b: Option<Seq<char>>,
    c: Option<Seq<char>>,
) -> Option<Seq<char>> {
    if a is Some {
        a
    } else if b is Some {
        b
    } else {
        c
    }
}

/// How many of three optional values are set.
pub open spec fn count_set(
    a: Option<Seq<char>>,
    b: Option<Seq<char>>,
    c: Option<Seq<char>>,
) -> int {
    (if a is Some { 1int } else { 0int }) + (if b is Some { 1int } else { 0int }) + (if c is Some {
        1int
    } else {
        0int
    })
}

/// The address of a GitHub repository given as `owner/name`.
pub open spec fn github_url(repo: Seq<char>) -> Seq<char> {
    "https://github.com/"@ + repo + ".git"@
}

impl SourceView {
    /// The URL that the repository is cloned from.
    pub open spec fn full_url(self) -> Seq<char> {
        match self {
            SourceView::Git(g) => g.url,
            SourceView::GitHub(g) => github_url(g.repo),
        }
    }

    pub open spec fn branch(self) -> Option<Seq<char>> {
        match self {
            SourceView::Git(g) => g.branch,
            SourceView::GitHub(g) => g.branch,
        }
    }

    pub open spec fn tag(self) -> Option<Seq<char>> {
        match self {
            SourceView::Git(g) => g.tag,
            SourceView::GitHub(g) => g.tag,
        }
    }

    pub open spec fn commit(self) -> Option<Seq<char>> {
        match self {
            SourceView::Git(g) => g.commit,
            SourceView::GitHub(g) => g.commit,
        }
    }

    /// The reference to check out: the commit if one is pinned, else the tag,
    /// else the branch; none of them means the default branch.
    pub open spec fn reference(self) -> Option<Seq<char>> {
        first_set(self.commit(), self.tag(), self.branch())
    }

    /// At most one of branch, tag and commit is set.
    pub open spec fn is_valid(self) -> bool {
        count_set(self.branch(), self.tag(), self.commit()) <= 1
    }

    /// Two sources ask for the same checkout: the same URL, the same reference
    /// and the same pinned commit.
    pub open spec fn same_checkout(self, other: SourceView) -> bool {
        &&& self.full_url() == other.full_url()
        &&& self.reference() == other.reference()
        &&& self.commit() == other.commit()
    }
}

/// A copy of an optional string.
pub fn clone_opt(o: &Option<String>) -> (r: Option<String>)
    ensures
        r == *o,
{
    match o {
        Some(s) => Some(s.clone()),
        None => None,
    }
}

/// Whether two optional strings hold the same text, or are both unset.
pub fn opt_eq(a: &Option<String>, b: &Option<String>) -> (r: bool)
    ensures
        r == (a.deep_view() == b.deep_view()),
{
    match a {
        Some(x) => match b {
            Some(y) => {
                let same = *x == *y;
                assert(a.deep_view() == Some(x@) && b.deep_view() == Some(y@));
                same
            },
            None => false,
        },
        None => b.is_none(),
    }
}

impl Clone for Git {
    fn clone(&self) -> (r: Self)
        ensures
            r == *self,
    {
        Git {
            url: self.url.clone(),
            branch: clone_opt(&self.branch),
            tag: clone_opt(&self.tag),
            commit: clone_opt(&self.commit),
        }
    }
}

impl Clone for GitHub {
    fn clone(&self) -> (r: Self)
        ensures
            r == *self,
    {
        GitHub {
            repo: self.repo.clone(),
            branch: clone_opt(&self.branch),
            tag: clone_opt(&self.tag),
            commit: clone_opt(&self.commit),
        }
    }
}

impl Clone for Source {
    fn clone(&self) -> (r: Self)
        ensures
            r == *self,
    {
        match self {
            Source::Git(g) => Source::Git(g.clone()),
            Source::GitHub(g) => Source::GitHub(g.clone()),
        }
    }
}

impl GitHub {
    /// The URL of the repository: `https://github.com/`, the `owner/name`, `.git`.
    pub fn url(&self) -> (r: String)
        ensures
            r@ == github_url(self.repo@),
    {
        String::from_str("https://github.com/").concat(self.repo.as_str()).concat(".git")
    }
}

impl Source {
    /// The repository given by URL, if this is one.
    pub fn git(&self) -> (r: Option<&Git>)
        ensures
            match *self {
                Source::Git(g) => r == Some(&g),
                Source::GitHub(_) => r is None,
            },
    {
        match self {
            Source::Git(git) => Some(git),
            _ => None,
        }
    }

    /// The repository on GitHub, if this is one.
    pub fn github(&self) -> (r: Option<&GitHub>)
        ensures
            match *self {
                Source::GitHub(g) => r == Some(&g),
                Source::Git(_) => r is None,
            },
    {
        match self {
            Source::GitHub(github) => Some(github),
            _ => None,
        }
    }

    /// The URL that the repository is cloned from.
    pub fn full_url(&self) -> (r: String)
        ensures
            r@ == self@.full_url(),
    {
        match self {
            Source::Git(g) => g.url.clone(),
            Source::GitHub(g) => g.url(),
        }
    }

    fn branch(&self) -> (r: &Option<String>)
        ensures
            r.deep_view() == self@.branch(),
    {
        match self {
            Source::Git(g) => &g.branch,
            Source::GitHub(g) => &g.branch,
        }
    }

    fn tag(&self) -> (r: &Option<String>)
        ensures
            r.deep_view() == self@.tag(),
    {
        match self {
            Source::Git(g) => &g.tag,
            Source::GitHub(g) => &g.tag,
        }
    }

    fn commit(&self) -> (r: &Option<String>)
        ensures
            r.deep_view() == self@.commit(),
    {
        match self {
            Source::Git(g) => &g.commit,
            Source::GitHub(g) => &g.commit,
        }
    }

    /// The commit that the source is pinned to, if it is.
    pub fn pinned_commit(&self) -> (r: &Option<String>)
        ensures
            r.deep_view() == self@.commit(),
    {
        self.commit()
    }

    /// The reference to check out: the commit if one is pinned, else the tag,
    /// else the branch. `None` asks for the default branch.
    pub fn reference(&self) -> (r: Option<String>)
        ensures
            r.deep_view() == self@.reference(),
    {
        if self.commit().is_some() {
            clone_opt(self.commit())
        } else if self.tag().is_some() {
            clone_opt(self.tag())
        } else {
            clone_opt(self.branch())
        }
    }

    /// Whether at most one of branch, tag and commit is set.
    pub fn is_valid(&self) -> (r: bool)
        ensures
            r == self@.is_valid(),
    {
        let b: u8 = if self.branch().is_some() { 1 } else { 0 };
        let t: u8 = if self.tag().is_some() { 1 } else { 0 };
        let c: u8 = if self.commit().is_some() { 1 } else { 0 };
        b + t + c <= 1
    }
}

/// One declared extension: its name and where its code comes from.
#[derive(Debug)]
pub struct Extension {
    pub name: String,
    pub source: Source,
}

/// What an [`Extension`] holds.
pub struct ExtensionView {
    pub name: Seq<char>,
    pub source: SourceView,
}

impl View for Extension {
    type V = ExtensionView;

    open spec fn view(&self) -> ExtensionView {
        ExtensionView { name: self.name@, source: self.source@ }
    }
}

impl DeepView for Extension {
    type V = ExtensionView;

    open spec fn deep_view(&self) -> ExtensionView {
        self@
    }
}

impl Clone for Extension {
    fn clone(&self) -> (r: Self)
        ensures
            r == *self,
    {
        Extension { name: self.name.clone(), source: self.source.clone() }
    }
}

/// One installed extension as the record holds it.
#[derive(Debug)]
pub struct LockedExtension {
    pub name: String,
    pub extension_type: ExtensionType,
    pub source: Source,
    pub commit_hash: Option<String>,
    pub installed_at: String,
}

/// What a [`LockedExtension`] holds.
pub struct LockedExtensionView {
    pub name: Seq<char>,
    pub extension_type: ExtensionType,
    pub source: SourceView,
    pub commit_hash: Option<Seq<char>>,
    pub installed_at: Seq<char>,
}

impl View for LockedExtension {
    type V = LockedExtensionView;

    open spec fn view(&self) -> LockedExtensionView {
        LockedExtensionView {
            name: self.name@,
            extension_type: self.extension_type,
            source: self.source@,
            commit_hash: self.commit_hash.deep_view(),
            installed_at: self.installed_at@,
        }
    }
}

impl DeepView for LockedExtension {
    type V = LockedExtensionView;

    open spec fn deep_view(&self) -> LockedExtensionView {
        self@
    }
}

impl Clone for LockedExtension {
    fn clone(&self) -> (r: Self)
        ensures
            r == *self,
    {
        LockedExtension {
            name: self.name.clone(),
            extension_type: self.extension_type,
            source: self.source.clone(),
            commit_hash: clone_opt(&self.commit_hash),
            installed_at: self.installed_at.clone(),
        }
    }
}

/// The declared extensions: the plugins, then the themes.
#[derive(Debug)]
pub struct ExtensionsConfig {
    pub plugins: Vec<Extension>,
    pub themes: Vec<Extension>,
}

/// A declared extension together with its kind.
pub type Declared = (ExtensionView, ExtensionType);

/// Pairs every extension of `s` with the kind `t`.
pub open spec fn with_type(s: Seq<ExtensionView>, t: ExtensionType) -> Seq<Declared> {
    s.map_values(|e: ExtensionView| (e, t))
}

impl ExtensionsConfig {
    /// Every declared extension with its kind: the plugins in their order, then
    /// the themes in theirs.
    pub open spec fn all(&self) -> Seq<Declared> {
        with_type(self.plugins.deep_view(), ExtensionType::Plugin) + with_type(
            self.themes.deep_view(),
            ExtensionType::Theme,
        )
    }

    /// Every declared extension with its kind: the plugins in their order, then
    /// the themes in theirs.
    pub fn all_extensions(&self) -> (r: Vec<(&Extension, ExtensionType)>)
        ensures
            r.deep_view() == self.all(),
    {
        let mut out: Vec<(&Extension, ExtensionType)> = Vec::new();
        let mut i: usize = 0;
        while i < self.plugins.len()
            invariant
                i <= self.plugins.len(),
                out.deep_view() == with_type(
                    self.plugins.deep_view().take(i as int),
                    ExtensionType::Plugin,
                ),
            decreases self.plugins.len() - i,
        {
            let ghost before = out.deep_view();
            out.push((&self.plugins[i], ExtensionType::Plugin));
            i = i + 1;
            assert(out.deep_view() =~= before.push((self.plugins[i - 1]@, ExtensionType::Plugin)));
            assert(out.deep_view() =~= with_type(
                self.plugins.deep_view().take(i as int),
                ExtensionType::Plugin,
            ));
        }
        assert(self.plugins.deep_view().take(i as int) == self.plugins.deep_view());
        let mut j: usize = 0;
        while j < self.themes.len()
            invariant
                j <= self.themes.len(),
                out.deep_view() == with_type(self.plugins.deep_view(), ExtensionType::Plugin)
                    + with_type(self.themes.deep_view().take(j as int), ExtensionType::Theme),
            decreases self.themes.len() - j,
        {
            let ghost before = out.deep_view();
            out.push((&self.themes[j], ExtensionType::Theme));
            j = j + 1;
            assert(out.deep_view() =~= before.push((self.themes[j - 1]@, ExtensionType::Theme)));
            assert(out.deep_view() =~= with_type(
                self.plugins.deep_view(),
                ExtensionType::Plugin,
            ) + with_type(self.themes.deep_view().take(j as int), ExtensionType::Theme));
        }
        assert(self.themes.deep_view().take(j as int) == self.themes.deep_view());
        out
    }
}

/// The record of what is installed.
#[derive(Debug)]
pub struct LockFile {
    pub extensions: Vec<LockedExtension>,
}

impl View for LockFile {
    type V = Seq<LockedExtensionView>;

    open spec fn view(&self) -> Seq<LockedExtensionView> {
        self.extensions.deep_view()
    }
}

impl DeepView for LockFile {
    type V = Seq<LockedExtensionView>;

    open spec fn deep_view(&self) -> Seq<LockedExtensionView> {
        self@
    }
}

/// No two declared extensions have the same name.
pub open spec fn declared_once(d: Seq<Declared>) -> bool {
    forall|i: int, j: int|
        0 <= i < j < d.len() ==> (#[trigger] d[i]).0.name != (#[trigger] d[j]).0.name
}

/// No two entries of the record have the same name.
pub open spec fn recorded_once(o: Seq<LockedExtensionView>) -> bool {
    forall|i: int, j: int|
        0 <= i < j < o.len() ==> (#[trigger] o[i]).name != (#[trigger] o[j]).name
}

/// Every declared extension has a source with at most one of branch, tag
/// and commit.
pub open spec fn sources_valid(d: Seq<Declared>) -> bool {
    forall|i: int| 0 <= i < d.len() ==> (#[trigger] d[i]).0.source.is_valid()
}

/// The extension at `i` is the first whose source sets more than one of
/// branch, tag and commit.
pub open spec fn first_invalid_source(d: Seq<Declared>, i: int) -> bool {
    &&& 0 <= i < d.len()
    &&& !d[i].0.source.is_valid()
    &&& forall|j: int| 0 <= j < i ==> (#[trigger] d[j]).0.source.is_valid()
}

/// The extension at `i` has the name of one before it.
pub open spec fn repeats_name(d: Seq<Declared>, i: int) -> bool {
    exists|j: int| 0 <= j < i && (#[trigger] d[j]).0.name == d[i].0.name
}

/// The extension at `i` is the first that has the name of one before it.
pub open spec fn first_repeated_name(d: Seq<Declared>, i: int) -> bool {
    &&& 0 <= i < d.len()
    &&& repeats_name(d, i)
    &&& forall|k: int| 0 <= k < i ==> !repeats_name(d, k)
}

/// What is wrong with a declaration, in words: the first extension with
/// more than one reference if there is one, else the first repeated name.
pub open spec fn is_fault(d: Seq<Declared>, detail: Seq<char>) -> bool {
    ||| exists|i: int| #[trigger]
        first_invalid_source(d, i) && detail == d[i].0.name
            + ": more than one of branch, tag and commit is set"@
    ||| sources_valid(d) && exists|i: int| #[trigger]
        first_repeated_name(d, i) && detail == d[i].0.name + ": declared more than once"@
}

impl ExtensionsConfig {
    /// Checks the declaration: every source sets at most one of branch, tag
    /// and commit, and no name is declared twice, among plugins and themes
    /// together. The error names the first extension that breaks a rule.
    pub fn validate(&self) -> (r: std::result::Result<(), crate::error::RexerError>)
        ensures
            match r {
                Ok(_) => sources_valid(self.all()) && declared_once(self.all()),
                Err(error) => error@.kind == crate::error::ErrorKind::InvalidConfig && is_fault(
                    self.all(),
                    error@.detail,
                ),
            },
    {
        let all = self.all_extensions();
        let ghost d = self.all();
        let mut i: usize = 0;
        while i < all.len()
            invariant
                i <= all.len(),
                all.deep_view() == d,
                d == self.all(),
                forall|j: int| 0 <= j < i ==> (#[trigger] d[j]).0.source.is_valid(),
            decreases all.len() - i,
        {
            assert(d[i as int] == (all[i as int].0@, all[i as int].1));
            if !all[i].0.source.is_valid() {
                let detail = all[i].0.name.clone().concat(
                    ": more than one of branch, tag and commit is set",
                );
                assert(first_invalid_source(d, i as int));
                assert(detail@ == d[i as int].0.name
                    + ": more than one of branch, tag and commit is set"@);
                assert(is_fault(d, detail@));
                return Err(crate::error::RexerError::InvalidConfig(detail));
            }
            i = i + 1;
        }
        assert(sources_valid(d));
        let mut k: usize = 0;
        while k < all.len()
            invariant
                k <= all.len(),
                all.deep_view() == d,
                d == self.all(),
                sources_valid(d),
                forall|q: int| 0 <= q < k ==> !repeats_name(d, q),
            decreases all.len() - k,
        {
            let mut j: usize = 0;
            while j < k
                invariant
                    j <= k < all.len(),
                    all.deep_view() == d,
                    d == self.all(),
                    sources_valid(d),
                    forall|q: int| 0 <= q < k ==> !repeats_name(d, q),
                    forall|q: int| 0 <= q < j ==> (#[trigger] d[q]).0.name != d[k as int].0.name,
                decreases k - j,
            {
                assert(d[j as int] == (all[j as int].0@, all[j as int].1));
                assert(d[k as int] == (all[k as int].0@, all[k as int].1));
                if all[j].0.name == all[k].0.name {
                    let detail = all[k].0.name.clone().concat(": declared more than once");
                    assert(repeats_name(d, k as int));
                    assert(first_repeated_name(d, k as int));
                    assert(detail@ == d[k as int].0.name + ": declared more than once"@);
                    assert(is_fault(d, detail@));
                    return Err(crate::error::RexerError::InvalidConfig(detail));
                }
                j = j + 1;
            }
            assert(!repeats_name(d, k as int));
            k = k + 1;
        }
        assert(declared_once(d)) by {
            assert forall|a: int, b: int| 0 <= a < b < d.len() implies (#[trigger] d[a]).0.name != (
            #[trigger] d[b]).0.name by {
                assert(!repeats_name(d, b));
            }
        }
        Ok(())
    }
}

/// The words that a record with a repeated name is refused with.
pub open spec fn repeated_record() -> Seq<char> {
    "An extension is recorded more than once"@
}

impl LockFile {
    /// Checks the record: no two entries have the same name.
    pub fn validate(&self) -> (r: std::result::Result<(), crate::error::RexerError>)
        ensures
            match r {
                Ok(_) => recorded_once(self@),
                Err(error) => !recorded_once(self@) && error@ == (crate::error::RexerErrorView {
                    kind: crate::error::ErrorKind::LockFileError,
                    detail: repeated_record(),
                }),
            },
    {
        if self.is_valid() {
            Ok(())
        } else {
            Err(
                crate::error::RexerError::LockFileError(
                    String::from_str("An extension is recorded more than once"),
                ),
            )
        }
    }

    /// Whether no two entries of the record have the same name.
    pub fn is_valid(&self) -> (r: bool)
        ensures
            r == recorded_once(self@),
    {
        let mut k: usize = 0;
        while k < self.extensions.len()
            invariant
                k <= self.extensions.len(),
                forall|a: int, b: int|
                    0 <= a < b < k ==> (#[trigger] self@[a]).name != (#[trigger] self@[b]).name,
            decreases self.extensions.len() - k,
        {
            let mut j: usize = 0;
            while j < k
                invariant
                    j <= k < self.extensions.len(),
                    forall|q: int| 0 <= q < j ==> (#[trigger] self@[q]).name != self@[k as int].name,
                decreases k - j,
            {
                if self.extensions[j].name == self.extensions[k].name {
                    assert(self@[j as int].name == self@[k as int].name);
                    return false;
                }
                j = j + 1;
            }
            k = k + 1;
        }
        true
    }
}

} // verus!
