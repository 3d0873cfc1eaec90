//! The difference between the declared extensions and the record of what is
//! installed, by name.

use crate::extension::{
    opt_eq, Declared, Extension, ExtensionType, ExtensionView, ExtensionsConfig, LockFile,
    LockedExtension, LockedExtensionView, Source,
};
use vstd::prelude::*;

verus! {

/// A declared extension whose source differs from the recorded one, with the
/// recorded entry of that name.
pub type Changed = (ExtensionView, ExtensionType, LockedExtensionView);

/// The record holds an entry of this name.
pub open spec fn has_name(o: Seq<LockedExtensionView>, name: Seq<char>) -> bool {
    exists|i: int| 0 <= i < o.len() && (#[trigger] o[i]).name == name
}

/// `i` is the place of the first entry of this name in the record.
pub open spec fn is_first_named(o: Seq<LockedExtensionView>, name: Seq<char>, i: int) -> bool {
    &&& 0 <= i < o.len()
    &&& o[i].name == name
    &&& forall|j: int| 0 <= j < i ==> (#[trigger] o[j]).name != name
}

/// The place of the first entry of this name in the record.
pub open spec fn first_named(o: Seq<LockedExtensionView>, name: Seq<char>) -> int {
    choose|i: int| is_first_named(o, name, i)
}

/// The first entry of this name in the record.
pub open spec fn matching(o: Seq<LockedExtensionView>, name: Seq<char>) -> LockedExtensionView {
    o[first_named(o, name)]
}

/// An extension of this name is declared.
pub open spec fn declares(d: Seq<Declared>, name: Seq<char>) -> bool {
    exists|i: int| 0 <= i < d.len() && (#[trigger] d[i]).0.name == name
}

/// The declared extension is not in the record.
pub open spec fn is_added(o: Seq<LockedExtensionView>, x: Declared) -> bool {
    !has_name(o, x.0.name)
}

/// The declared extension is in the record with a source that asks for
/// another checkout.
pub open spec fn is_changed(o: Seq<LockedExtensionView>, x: Declared) -> bool {
    has_name(o, x.0.name) && !x.0.source.same_checkout(matching(o, x.0.name).source)
}

/// Some declared extension of this name has changed its source.
pub open spec fn changes_name(
    d: Seq<Declared>,
    o: Seq<LockedExtensionView>,
    name: Seq<char>,
) -> bool {
    exists|i: int| 0 <= i < d.len() && (#[trigger] d[i]).0.name == name && is_changed(o, d[i])
}

/// The recorded entry is no longer declared.
pub open spec fn is_removed(d: Seq<Declared>, l: LockedExtensionView) -> bool {
    !declares(d, l.name)
}

/// The recorded entry is still declared, with a source that asks for the
/// same checkout.
pub open spec fn is_kept(
    d: Seq<Declared>,
    o: Seq<LockedExtensionView>,
    l: LockedExtensionView,
) -> bool {
    declares(d, l.name) && !changes_name(d, o, l.name)
}

/// What has to happen to make the installation match the declaration.
pub struct InstallDiffView {
    pub added: Seq<Declared>,
    pub removed: Seq<LockedExtensionView>,
    pub source_changed: Seq<Changed>,
    pub unchanged: Seq<LockedExtensionView>,
}

/// The difference between the declared extensions `d` and the record `o`:
/// each part keeps the order of the sequence it is taken from.
pub open spec fn diff_of(d: Seq<Declared>, o: Seq<LockedExtensionView>) -> InstallDiffView {
    InstallDiffView {
        added: d.filter(|x: Declared| is_added(o, x)),
        removed: o.filter(|l: LockedExtensionView| is_removed(d, l)),
        source_changed: d.filter(|x: Declared| is_changed(o, x)).map_values(
            |x: Declared| (x.0, x.1, matching(o, x.0.name)),
        ),
        unchanged: o.filter(|l: LockedExtensionView| is_kept(d, o, l)),
    }
}

/// The difference between the declared extensions and the record, as
/// references into both.
#[derive(Debug)]
pub struct InstallDiff<'a> {
    pub added: Vec<(&'a Extension, ExtensionType)>,
    pub removed: Vec<&'a LockedExtension>,
    pub source_changed: Vec<(&'a Extension, ExtensionType, &'a LockedExtension)>,
    pub unchanged: Vec<&'a LockedExtension>,
}

impl<'a> View for InstallDiff<'a> {
    type V = InstallDiffView;

    open spec fn view(&self) -> InstallDiffView {
        InstallDiffView {
            added: self.added.deep_view(),
            removed: self.removed.deep_view(),
            source_changed: self.source_changed.deep_view(),
            unchanged: self.unchanged.deep_view(),
        }
    }
}

impl<'a> InstallDiff<'a> {
    /// Whether nothing has to be installed, updated or removed.
    pub fn is_empty(&self) -> (r: bool)
        ensures
            r == (self@.added.len() == 0 && self@.removed.len() == 0 && self@.source_changed.len()
                == 0),
    {
        self.added.len() == 0 && self.removed.len() == 0 && self.source_changed.len() == 0
    }
}

/// Whether two sources ask for the same checkout: the same URL to clone from,
/// the same reference, and the same pinned commit.
pub fn sources_equal(source1: &Source, source2: &Source) -> (r: bool)
    ensures
        r == source1@.same_checkout(source2@),
{
    let url1 = source1.full_url();
    let url2 = source2.full_url();
    let ref1 = source1.reference();
    let ref2 = source2.reference();
    let pin1 = source1.pinned_commit();
    let pin2 = source2.pinned_commit();
    url1 == url2 && opt_eq(&ref1, &ref2) && opt_eq(pin1, pin2)
}

/// The place of the first entry of this name in the record, if there is one.
pub fn find_locked(lock_file: &LockFile, name: &String) -> (r: Option<usize>)
    ensures
        match r {
            Some(i) => is_first_named(lock_file@, name@, i as int),
            None => !has_name(lock_file@, name@),
        },
{
    let mut i: usize = 0;
    while i < lock_file.extensions.len()
        invariant
            i <= lock_file.extensions.len(),
            forall|j: int| 0 <= j < i ==> (#[trigger] lock_file@[j]).name != name@,
        decreases lock_file.extensions.len() - i,
    {
        if lock_file.extensions[i].name == *name {
            assert(lock_file@[i as int].name == name@);
            return Some(i);
        }
        assert(lock_file@[i as int].name != name@);
        i = i + 1;
    }
    None
}

/// Whether an extension of this name is declared.
pub fn declares_name(all: &Vec<(&Extension, ExtensionType)>, name: &String) -> (r: bool)
    ensures
        r == declares(all.deep_view(), name@),
{
    let mut i: usize = 0;
    while i < all.len()
        invariant
            i <= all.len(),
            forall|j: int| 0 <= j < i ==> (#[trigger] all.deep_view()[j]).0.name != name@,
        decreases all.len() - i,
    {
        if all[i].0.name == *name {
            assert(all.deep_view()[i as int].0.name == name@);
            return true;
        }
        assert(all.deep_view()[i as int].0.name != name@);
        i = i + 1;
    }
    false
}

/// If `i` is the place of the first entry of this name, that entry is the
/// matching one.
pub proof fn lemma_matching(o: Seq<LockedExtensionView>, name: Seq<char>, i: int)
    requires
        is_first_named(o, name, i),
    ensures
        has_name(o, name),
        first_named(o, name) == i,
        matching(o, name) == o[i],
{
    let k = choose|k: int| is_first_named(o, name, k);
    assert(is_first_named(o, name, k));
    if k < i {
        assert(o[k].name != name);
    } else if i < k {
        assert(o[i].name != name);
    }
}

/// Whether the declared extension is in the record with a source that asks
/// for another checkout; with it, the recorded entry's place.
fn changed_entry(lock_file: &LockFile, extension: &Extension, ext_type: ExtensionType) -> (r:
    Option<usize>)
    ensures
        r is Some == is_changed(lock_file@, (extension@, ext_type)),
        r matches Some(i) ==> is_first_named(lock_file@, extension@.name, i as int),
{
    match find_locked(lock_file, &extension.name) {
        Some(i) => {
            proof {
                lemma_matching(lock_file@, extension@.name, i as int);
            }
            if !sources_equal(&extension.source, &lock_file.extensions[i].source) {
                Some(i)
            } else {
                None
            }
        },
        None => None,
    }
}

/// Whether some declared extension of this name has changed its source.
fn name_changed(
    all: &Vec<(&Extension, ExtensionType)>,
    lock_file: &LockFile,
    name: &String,
) -> (r: bool)
    ensures
        r == changes_name(all.deep_view(), lock_file@, name@),
{
    let mut i: usize = 0;
    while i < all.len()
        invariant
            i <= all.len(),
            forall|j: int|
                0 <= j < i ==> !((#[trigger] all.deep_view()[j]).0.name == name@ && is_changed(
                    lock_file@,
                    all.deep_view()[j],
                )),
        decreases all.len() - i,
    {
        assert(all.deep_view()[i as int] == (all[i as int].0@, all[i as int].1));
        if all[i].0.name == *name {
            if changed_entry(lock_file, all[i].0, all[i].1).is_some() {
                return true;
            }
        }
        i = i + 1;
    }
    false
}

/// The difference between the declared extensions and the record.
///
/// An extension is added when the record has no entry of its name, and has
/// changed its source when the first entry of its name asks for another
/// checkout. A recorded entry is removed when no extension of its name is
/// declared, and unchanged when one is and none of that name has changed.
pub fn calculate_diff<'a>(extensions_config: &'a ExtensionsConfig, lock_file: &'a LockFile) -> (r:
    InstallDiff<'a>)
    ensures
        r@ == diff_of(extensions_config.all(), lock_file@),
{
    let all = extensions_config.all_extensions();
    let ghost d = extensions_config.all();
    let ghost o = lock_file@;
    let ghost added_p = |x: Declared| is_added(o, x);
    let ghost changed_p = |x: Declared| is_changed(o, x);
    let ghost pair = |x: Declared| (x.0, x.1, matching(o, x.0.name));
    let mut added: Vec<(&'a Extension, ExtensionType)> = Vec::new();
    let mut source_changed: Vec<(&'a Extension, ExtensionType, &'a LockedExtension)> = Vec::new();
    let mut i: usize = 0;
    assert(d.take(0).filter(added_p) =~= Seq::empty()) by {
        reveal(Seq::filter);
    }
    assert(d.take(0).filter(changed_p).map_values(pair) =~= Seq::empty()) by {
        reveal(Seq::filter);
    }
    while i < all.len()
        invariant
            i <= all.len(),
            all.deep_view() == d,
            o == lock_file@,
            added_p == |x: Declared| is_added(o, x),
            changed_p == |x: Declared| is_changed(o, x),
            pair == |x: Declared| (x.0, x.1, matching(o, x.0.name)),
            added.deep_view() == d.take(i as int).filter(added_p),
            source_changed.deep_view() == d.take(i as int).filter(changed_p).map_values(pair),
        decreases all.len() - i,
    {
        let extension: &'a Extension = all[i].0;
        let ext_type = all[i].1;
        let ghost x: Declared = (extension@, ext_type);
        let ghost before_added = added.deep_view();
        let ghost before_changed = source_changed.deep_view();
        proof {
            assert(d[i as int] == x);
            assert(d.take(i as int + 1) =~= d.take(i as int).push(x));
            d.take(i as int).lemma_filter_push(x, added_p);
            d.take(i as int).lemma_filter_push(x, changed_p);
        }
        match find_locked(lock_file, &extension.name) {
            Some(k) => {
                proof {
                    lemma_matching(o, x.0.name, k as int);
                }
                let locked: &'a LockedExtension = &lock_file.extensions[k];
                if !sources_equal(&extension.source, &locked.source) {
                    source_changed.push((extension, ext_type, locked));
                    assert(source_changed.deep_view() =~= before_changed.push(pair(x)));
                    assert(d.take(i as int + 1).filter(changed_p).map_values(pair)
                        =~= before_changed.push(pair(x)));
                }
            },
            None => {
                added.push((extension, ext_type));
                assert(added.deep_view() =~= before_added.push(x));
            },
        }
        i = i + 1;
    }
    assert(d.take(i as int) =~= d);

    let ghost removed_p = |l: LockedExtensionView| is_removed(d, l);
    let ghost kept_p = |l: LockedExtensionView| is_kept(d, o, l);
    let mut removed: Vec<&'a LockedExtension> = Vec::new();
    let mut unchanged: Vec<&'a LockedExtension> = Vec::new();
    let mut j: usize = 0;
    assert(o.take(0).filter(removed_p) =~= Seq::empty()) by {
        reveal(Seq::filter);
    }
    assert(o.take(0).filter(kept_p) =~= Seq::empty()) by {
        reveal(Seq::filter);
    }
    while j < lock_file.extensions.len()
        invariant
            j <= lock_file.extensions.len(),
            all.deep_view() == d,
            o == lock_file@,
            removed_p == |l: LockedExtensionView| is_removed(d, l),
            kept_p == |l: LockedExtensionView| is_kept(d, o, l),
            removed.deep_view() == o.take(j as int).filter(removed_p),
            unchanged.deep_view() == o.take(j as int).filter(kept_p),
        decreases lock_file.extensions.len() - j,
    {
        let locked: &'a LockedExtension = &lock_file.extensions[j];
        let ghost l = locked@;
        let ghost before_removed = removed.deep_view();
        let ghost before_kept = unchanged.deep_view();
        proof {
            assert(o[j as int] == l);
            assert(o.take(j as int + 1) =~= o.take(j as int).push(l));
            o.take(j as int).lemma_filter_push(l, removed_p);
            o.take(j as int).lemma_filter_push(l, kept_p);
        }
        if !declares_name(&all, &locked.name) {
            removed.push(locked);
            assert(removed.deep_view() =~= before_removed.push(l));
        } else if !name_changed(&all, lock_file, &locked.name) {
            unchanged.push(locked);
            assert(unchanged.deep_view() =~= before_kept.push(l));
        }
        j = j + 1;
    }
    assert(o.take(j as int) =~= o);
    InstallDiff { added, removed, source_changed, unchanged }
}

/// The names of the declared extensions in `d`.
pub open spec fn declared_names(d: Seq<Declared>) -> Set<Seq<char>> {
    Set::new(|n: Seq<char>| declares(d, n))
}

/// The names of the recorded entries in `o`.
pub open spec fn locked_names(o: Seq<LockedExtensionView>) -> Set<Seq<char>> {
    Set::new(|n: Seq<char>| has_name(o, n))
}

/// The names of the extensions in `c` that have changed their source.
pub open spec fn changed_names(c: Seq<Changed>) -> Set<Seq<char>> {
    Set::new(|n: Seq<char>| exists|i: int| 0 <= i < c.len() && (#[trigger] c[i]).0.name == n)
}

/// An element is in the filtered sequence exactly when it is in the sequence
/// and meets the condition.
pub proof fn lemma_filter_member<A>(s: Seq<A>, p: spec_fn(A) -> bool, x: A)
    ensures
        s.filter(p).contains(x) <==> (s.contains(x) && p(x)),
{
    if s.filter(p).contains(x) {
        s.lemma_filter_contains_rev(p, x);
        let i = choose|i: int| 0 <= i < s.filter(p).len() && s.filter(p)[i] == x;
        s.lemma_filter_pred(p, i);
    }
    if s.contains(x) && p(x) {
        let i = choose|i: int| 0 <= i < s.len() && s[i] == x;
        s.lemma_filter_contains(p, i);
    }
}

/// The added extensions are named by the declared names that the record lacks.
pub proof fn lemma_added_names(d: Seq<Declared>, o: Seq<LockedExtensionView>, n: Seq<char>)
    ensures
        declares(diff_of(d, o).added, n) <==> (declares(d, n) && !has_name(o, n)),
{
    let p = |x: Declared| is_added(o, x);
    let f = d.filter(p);
    if declares(f, n) {
        let i = choose|i: int| 0 <= i < f.len() && (#[trigger] f[i]).0.name == n;
        assert(f.contains(f[i]));
        lemma_filter_member(d, p, f[i]);
        let k = choose|k: int| 0 <= k < d.len() && d[k] == f[i];
        assert(d[k].0.name == n);
    }
    if declares(d, n) && !has_name(o, n) {
        let k = choose|k: int| 0 <= k < d.len() && (#[trigger] d[k]).0.name == n;
        assert(d.contains(d[k]));
        lemma_filter_member(d, p, d[k]);
        let i = choose|i: int| 0 <= i < f.len() && f[i] == d[k];
        assert(f[i].0.name == n);
    }
}

/// The extensions that changed their source are named by the names of which
/// a declared extension differs from the recorded entry.
proof fn lemma_changed_names(d: Seq<Declared>, o: Seq<LockedExtensionView>, n: Seq<char>)
    ensures
        changed_names(diff_of(d, o).source_changed).contains(n) <==> changes_name(d, o, n),
{
    let p = |x: Declared| is_changed(o, x);
    let pair = |x: Declared| (x.0, x.1, matching(o, x.0.name));
    let f = d.filter(p);
    let c = f.map_values(pair);
    assert(c == diff_of(d, o).source_changed);
    if changed_names(c).contains(n) {
        let i = choose|i: int| 0 <= i < c.len() && (#[trigger] c[i]).0.name == n;
        assert(c[i] == pair(f[i]));
        assert(f.contains(f[i]));
        lemma_filter_member(d, p, f[i]);
        let k = choose|k: int| 0 <= k < d.len() && d[k] == f[i];
        assert(d[k].0.name == n && is_changed(o, d[k]));
    }
    if changes_name(d, o, n) {
        let k = choose|k: int|
            0 <= k < d.len() && (#[trigger] d[k]).0.name == n && is_changed(o, d[k]);
        assert(d.contains(d[k]));
        lemma_filter_member(d, p, d[k]);
        let i = choose|i: int| 0 <= i < f.len() && f[i] == d[k];
        assert(c[i] == pair(f[i]));
        assert(c[i].0.name == n);
    }
}

/// The entries of a filtered record are named by the names of the entries
/// that meet the condition.
proof fn lemma_locked_filter_names(
    o: Seq<LockedExtensionView>,
    p: spec_fn(LockedExtensionView) -> bool,
    n: Seq<char>,
)
    ensures
        has_name(o.filter(p), n) <==> exists|k: int|
            0 <= k < o.len() && (#[trigger] o[k]).name == n && p(o[k]),
{
    let f = o.filter(p);
    if has_name(f, n) {
        let i = choose|i: int| 0 <= i < f.len() && (#[trigger] f[i]).name == n;
        assert(f.contains(f[i]));
        lemma_filter_member(o, p, f[i]);
        let k = choose|k: int| 0 <= k < o.len() && o[k] == f[i];
        assert(o[k].name == n && p(o[k]));
    }
    if exists|k: int| 0 <= k < o.len() && (#[trigger] o[k]).name == n && p(o[k]) {
        let k = choose|k: int| 0 <= k < o.len() && (#[trigger] o[k]).name == n && p(o[k]);
        assert(o.contains(o[k]));
        lemma_filter_member(o, p, o[k]);
        let i = choose|i: int| 0 <= i < f.len() && f[i] == o[k];
        assert(f[i].name == n);
    }
}

/// The difference sorts every name into exactly one part.
///
/// The names of the added, the unchanged and the source-changed extensions
/// together are the declared names; those of the removed, the unchanged and
/// the source-changed together are the recorded names; and no name is in two
/// of the parts that make up either whole.
pub proof fn lemma_diff_partitions(d: Seq<Declared>, o: Seq<LockedExtensionView>)
    ensures
        ({
            let diff = diff_of(d, o);
            let added = declared_names(diff.added);
            let removed = locked_names(diff.removed);
            let unchanged = locked_names(diff.unchanged);
            let changed = changed_names(diff.source_changed);
            &&& added.union(unchanged).union(changed) == declared_names(d)
            &&& removed.union(unchanged).union(changed) == locked_names(o)
            &&& added.disjoint(unchanged)
            &&& added.disjoint(changed)
            &&& unchanged.disjoint(changed)
            &&& removed.disjoint(unchanged)
            &&& removed.disjoint(changed)
        }),
{
    let diff = diff_of(d, o);
    let added = declared_names(diff.added);
    let removed = locked_names(diff.removed);
    let unchanged = locked_names(diff.unchanged);
    let changed = changed_names(diff.source_changed);
    let removed_p = |l: LockedExtensionView| is_removed(d, l);
    let kept_p = |l: LockedExtensionView| is_kept(d, o, l);
    assert forall|n: Seq<char>|
        {
            &&& added.contains(n) <==> (declares(d, n) && !has_name(o, n))
            &&& changed.contains(n) <==> changes_name(d, o, n)
            &&& removed.contains(n) <==> (has_name(o, n) && !declares(d, n))
            &&& unchanged.contains(n) <==> (has_name(o, n) && declares(d, n) && !changes_name(
                d,
                o,
                n,
            ))
            &&& changes_name(d, o, n) ==> declares(d, n) && has_name(o, n)
        } by {
        lemma_added_names(d, o, n);
        lemma_changed_names(d, o, n);
        lemma_locked_filter_names(o, removed_p, n);
        lemma_locked_filter_names(o, kept_p, n);
        if has_name(o, n) {
            let k = choose|k: int| 0 <= k < o.len() && (#[trigger] o[k]).name == n;
            assert(removed_p(o[k]) == !declares(d, n));
            assert(kept_p(o[k]) == (declares(d, n) && !changes_name(d, o, n)));
        }
    }
    assert(added.union(unchanged).union(changed) =~= declared_names(d));
    assert(removed.union(unchanged).union(changed) =~= locked_names(o));
}

} // verus!
