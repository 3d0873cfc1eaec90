//! What a run that succeeds leaves behind: a record against which the same
//! declaration asks for nothing more.

use crate::diff::{
    changes_name, declares, diff_of, first_named, has_name, is_added, is_changed, is_first_named,
    is_kept, is_removed, lemma_added_names, lemma_filter_member, lemma_matching, matching, Changed,
    InstallDiffView,
};
use crate::extension::{
    declared_once, recorded_once, Declared, ExtensionType, ExtensionView, LockedExtensionView,
};
use crate::reconcile::{
    present_entries, has_moved, install_plan, install_steps, installs, locked_entry, refreshed, removal, removals,
    replacements, ActionView, EventView, Goal, ReconcilerView, StepView,
};
use vstd::prelude::*;

verus! {

/// The extensions that a difference asks to install: the added ones, then
/// those with a changed source.
pub open spec fn targets(diff: InstallDiffView) -> Seq<Declared> {
    diff.added + diff.source_changed.map_values(|c: Changed| (c.0, c.1))
}

/// The entry records the declared extension: its name, its kind and its
/// source.
pub open spec fn records(l: LockedExtensionView, x: Declared) -> bool {
    l.name == x.0.name && l.extension_type == x.1 && l.source == x.0.source
}

/// The record `r` is what a run that succeeds makes of the declaration `d`
/// and the record `o`: the unchanged entries as they were, then one entry
/// for each extension that was to be installed, in their order.
pub open spec fn is_reconciled(
    d: Seq<Declared>,
    o: Seq<LockedExtensionView>,
    r: Seq<LockedExtensionView>,
) -> bool {
    let diff = diff_of(d, o);
    let t = targets(diff);
    let u = diff.unchanged.len() as int;
    &&& r.len() == u + t.len()
    &&& forall|i: int| 0 <= i < u ==> #[trigger] r[i] == diff.unchanged[i]
    &&& forall|i: int| 0 <= i < t.len() ==> records(r[u + i], #[trigger] t[i])
}

/// A sequence of which no element meets the condition is filtered to nothing.
pub proof fn lemma_filter_none<A>(s: Seq<A>, p: spec_fn(A) -> bool)
    requires
        forall|i: int| 0 <= i < s.len() ==> !p(#[trigger] s[i]),
    ensures
        s.filter(p).len() == 0,
{
    let f = s.filter(p);
    if f.len() > 0 {
        assert(f.contains(f[0]));
        lemma_filter_member(s, p, f[0]);
        let i = choose|i: int| 0 <= i < s.len() && s[i] == f[0];
        assert(!p(s[i]));
    }
}

/// Every extension that is to be installed is declared, and is added or has
/// changed its source.
proof fn lemma_target_is_declared(d: Seq<Declared>, o: Seq<LockedExtensionView>, i: int)
    requires
        0 <= i < targets(diff_of(d, o)).len(),
    ensures
        exists|j: int|
            0 <= j < d.len() && #[trigger] d[j] == targets(diff_of(d, o))[i] && (is_added(o, d[j])
                || is_changed(o, d[j])),
{
    let diff = diff_of(d, o);
    let t = targets(diff);
    let added_p = |x: Declared| is_added(o, x);
    let changed_p = |x: Declared| is_changed(o, x);
    if i < diff.added.len() {
        let f = d.filter(added_p);
        assert(t[i] == f[i]);
        assert(f.contains(f[i]));
        lemma_filter_member(d, added_p, f[i]);
        let j = choose|j: int| 0 <= j < d.len() && d[j] == f[i];
        assert(d[j] == t[i] && is_added(o, d[j]));
    } else {
        let f = d.filter(changed_p);
        let k = i - diff.added.len();
        assert(diff.source_changed.len() == f.len());
        assert(t[i] == f[k]);
        assert(f.contains(f[k]));
        lemma_filter_member(d, changed_p, f[k]);
        let j = choose|j: int| 0 <= j < d.len() && d[j] == f[k];
        assert(d[j] == t[i] && is_changed(o, d[j]));
    }
}

/// Every declared extension that is added or has changed its source is to
/// be installed.
proof fn lemma_declared_is_target(d: Seq<Declared>, o: Seq<LockedExtensionView>, j: int)
    requires
        0 <= j < d.len(),
        is_added(o, d[j]) || is_changed(o, d[j]),
    ensures
        exists|i: int|
            0 <= i < targets(diff_of(d, o)).len() && #[trigger] targets(diff_of(d, o))[i] == d[j],
{
    let diff = diff_of(d, o);
    let t = targets(diff);
    let added_p = |x: Declared| is_added(o, x);
    let changed_p = |x: Declared| is_changed(o, x);
    assert(d.contains(d[j]));
    if is_added(o, d[j]) {
        let f = d.filter(added_p);
        lemma_filter_member(d, added_p, d[j]);
        let i = choose|i: int| 0 <= i < f.len() && f[i] == d[j];
        assert(t[i] == d[j]);
    } else {
        let f = d.filter(changed_p);
        lemma_filter_member(d, changed_p, d[j]);
        let k = choose|k: int| 0 <= k < f.len() && f[k] == d[j];
        assert(diff.source_changed.len() == f.len());
        assert(t[diff.added.len() + k] == d[j]);
    }
}

/// An entry of a record without repeated names is the entry that matches
/// its name.
proof fn lemma_matching_is_unique(o: Seq<LockedExtensionView>, k: int)
    requires
        recorded_once(o),
        0 <= k < o.len(),
    ensures
        has_name(o, o[k].name),
        first_named(o, o[k].name) == k,
        matching(o, o[k].name) == o[k],
{
    assert forall|j: int| 0 <= j < k implies (#[trigger] o[j]).name != o[k].name by {}
    assert(is_first_named(o, o[k].name, k));
    lemma_matching(o, o[k].name, k);
}

/// The entry that matches a name in the record is an entry of that name.
proof fn lemma_matching_is_named(o: Seq<LockedExtensionView>, name: Seq<char>)
    requires
        has_name(o, name),
    ensures
        is_first_named(o, name, first_named(o, name)),
{
    let k = choose|k: int| 0 <= k < o.len() && (#[trigger] o[k]).name == name;
    lemma_first_exists(o, name, k);
}

/// Below an entry of a name there is a first entry of that name.
proof fn lemma_first_exists(o: Seq<LockedExtensionView>, name: Seq<char>, k: int)
    requires
        0 <= k < o.len(),
        o[k].name == name,
    ensures
        exists|i: int| is_first_named(o, name, i),
    decreases k,
{
    if exists|j: int| 0 <= j < k && (#[trigger] o[j]).name == name {
        let j = choose|j: int| 0 <= j < k && (#[trigger] o[j]).name == name;
        lemma_first_exists(o, name, j);
    } else {
        assert(is_first_named(o, name, k));
    }
}

/// Every entry of a reconciled record has the name of a declared extension
/// whose source asks for the checkout that the entry records.
proof fn lemma_reconciled_entry(
    d: Seq<Declared>,
    o: Seq<LockedExtensionView>,
    r: Seq<LockedExtensionView>,
    k: int,
)
    requires
        declared_once(d),
        recorded_once(o),
        is_reconciled(d, o, r),
        0 <= k < r.len(),
    ensures
        exists|j: int|
            0 <= j < d.len() && (#[trigger] d[j]).0.name == r[k].name
                && d[j].0.source.same_checkout(r[k].source),
{
    let diff = diff_of(d, o);
    let t = targets(diff);
    let u = diff.unchanged.len() as int;
    if k < u {
        let kept_p = |l: LockedExtensionView| is_kept(d, o, l);
        let f = o.filter(kept_p);
        let l = r[k];
        assert(l == f[k]);
        assert(f.contains(f[k]));
        lemma_filter_member(o, kept_p, l);
        let m = choose|m: int| 0 <= m < o.len() && o[m] == l;
        lemma_matching_is_unique(o, m);
        let j = choose|j: int| 0 <= j < d.len() && (#[trigger] d[j]).0.name == l.name;
        assert(!is_changed(o, d[j]));
        assert(d[j].0.source.same_checkout(l.source));
    } else {
        let i = k - u;
        assert(records(r[u + i], t[i]));
        lemma_target_is_declared(d, o, i);
        let j = choose|j: int|
            0 <= j < d.len() && #[trigger] d[j] == t[i] && (is_added(o, d[j]) || is_changed(
                o,
                d[j],
            ));
        assert(d[j].0.name == r[k].name);
        assert(d[j].0.source.same_checkout(r[k].source));
    }
}

/// Every declared extension has an entry of its name in a reconciled record.
proof fn lemma_reconciled_has_declared(
    d: Seq<Declared>,
    o: Seq<LockedExtensionView>,
    r: Seq<LockedExtensionView>,
    j: int,
)
    requires
        declared_once(d),
        recorded_once(o),
        is_reconciled(d, o, r),
        0 <= j < d.len(),
    ensures
        has_name(r, d[j].0.name),
{
    let diff = diff_of(d, o);
    let t = targets(diff);
    let u = diff.unchanged.len() as int;
    let name = d[j].0.name;
    if is_added(o, d[j]) || is_changed(o, d[j]) {
        lemma_declared_is_target(d, o, j);
        let i = choose|i: int| 0 <= i < t.len() && #[trigger] t[i] == d[j];
        assert(records(r[u + i], t[i]));
        assert(r[u + i].name == name);
    } else {
        let kept_p = |l: LockedExtensionView| is_kept(d, o, l);
        let f = o.filter(kept_p);
        lemma_matching_is_named(o, name);
        let m = first_named(o, name);
        let l = o[m];
        assert(declares(d, l.name));
        assert(!changes_name(d, o, name)) by {
            if changes_name(d, o, name) {
                let q = choose|q: int|
                    0 <= q < d.len() && (#[trigger] d[q]).0.name == name && is_changed(o, d[q]);
                if q < j {
                    assert(d[q].0.name != d[j].0.name);
                } else if j < q {
                    assert(d[j].0.name != d[q].0.name);
                }
            }
        }
        assert(o.contains(l));
        lemma_filter_member(o, kept_p, l);
        let i = choose|i: int| 0 <= i < f.len() && f[i] == l;
        assert(r[i] == diff.unchanged[i]);
        assert(r[i].name == name);
    }
}

/// Reconciling is idempotent.
///
/// Against the record that a successful run has made of a declaration, the
/// same declaration asks for nothing: no extension is added, none removed,
/// and none has changed its source. This holds of a declaration and a record
/// in which no name occurs twice.
pub proof fn lemma_reconciled_is_stable(
    d: Seq<Declared>,
    o: Seq<LockedExtensionView>,
    r: Seq<LockedExtensionView>,
)
    requires
        declared_once(d),
        recorded_once(o),
        is_reconciled(d, o, r),
    ensures
        diff_of(d, r).added.len() == 0,
        diff_of(d, r).removed.len() == 0,
        diff_of(d, r).source_changed.len() == 0,
{
    let added_p = |x: Declared| is_added(r, x);
    let changed_p = |x: Declared| is_changed(r, x);
    let removed_p = |l: LockedExtensionView| is_removed(d, l);
    assert forall|j: int| 0 <= j < d.len() implies !added_p(#[trigger] d[j]) && !changed_p(
        d[j],
    ) by {
        lemma_reconciled_has_declared(d, o, r, j);
        let name = d[j].0.name;
        lemma_matching_is_named(r, name);
        let k = first_named(r, name);
        lemma_reconciled_entry(d, o, r, k);
        let q = choose|q: int|
            0 <= q < d.len() && (#[trigger] d[q]).0.name == r[k].name
                && d[q].0.source.same_checkout(r[k].source);
        if q < j {
            assert(d[q].0.name != d[j].0.name);
        } else if j < q {
            assert(d[j].0.name != d[q].0.name);
        }
    }
    assert forall|k: int| 0 <= k < r.len() implies !removed_p(#[trigger] r[k]) by {
        lemma_reconciled_entry(d, o, r, k);
    }
    lemma_filter_none(d, added_p);
    lemma_filter_none(d, changed_p);
    lemma_filter_none(r, removed_p);
}

/// How a step ended, and when.
pub type Reported = (EventView, Seq<char>);

/// The state of a run after its steps have ended as `events` say, one after
/// the other.
pub open spec fn run(s: ReconcilerView, events: Seq<Reported>) -> ReconcilerView
    decreases events.len(),
{
    if events.len() == 0 {
        s
    } else {
        run(s, events.drop_last()).after(events.last().0, events.last().1)
    }
}

/// The first `k` events are successes.
pub open spec fn all_succeeded(events: Seq<Reported>, k: int) -> bool {
    forall|i: int| 0 <= i < k ==> (#[trigger] events[i]).0 is Succeeded
}

/// A run that has not begun: no step is done, and nothing has failed.
pub open spec fn is_fresh(s: ReconcilerView) -> bool {
    s.cursor == 0 && s.failed is None
}

/// The smaller of two numbers.
pub open spec fn least(a: int, b: int) -> int {
    if a <= b {
        a
    } else {
        b
    }
}

/// The steps and the goal of a run never change, and a success counts one
/// step: after events of which those that met a step were all successes, as
/// many steps are done as events came, at most all of them; after a failure
/// among those, the run has failed.
pub proof fn lemma_run_progress(s: ReconcilerView, events: Seq<Reported>)
    requires
        is_fresh(s),
    ensures
        run(s, events).steps == s.steps,
        run(s, events).goal == s.goal,
        all_succeeded(events, least(events.len() as int, s.steps.len() as int)) ==> run(
            s,
            events,
        ).failed is None && run(s, events).cursor == least(
            events.len() as int,
            s.steps.len() as int,
        ),
        !all_succeeded(events, least(events.len() as int, s.steps.len() as int)) ==> run(
            s,
            events,
        ).failed is Some,
    decreases events.len(),
{
    let n = s.steps.len() as int;
    if events.len() > 0 {
        let before = events.drop_last();
        let m = before.len() as int;
        let prev = run(s, before);
        lemma_run_progress(s, before);
        let k = least(events.len() as int, n);
        let kp = least(m, n);
        assert forall|i: int| 0 <= i < m implies before[i] == events[i] by {}
        if all_succeeded(events, k) {
            assert(all_succeeded(before, kp)) by {
                assert forall|i: int| 0 <= i < kp implies (#[trigger] before[i]).0 is Succeeded by {
                    assert(events[i].0 is Succeeded);
                }
            }
            if m < n {
                assert(events[m].0 is Succeeded);
            }
        } else {
            let i = choose|i: int| 0 <= i < k && !((#[trigger] events[i]).0 is Succeeded);
            if i < kp {
                assert(!(before[i].0 is Succeeded));
                assert(!all_succeeded(before, kp));
            } else {
                assert(i == m && m < n);
                if !all_succeeded(before, kp) {
                } else {
                    assert(prev.cursor == m);
                }
            }
        }
    }
}

/// A record is saved only after every step has succeeded.
///
/// Whatever events a fresh run is given: if it then asks to save a record,
/// there were at least as many events as steps, and each of those that met a
/// step was a success. If one of them was a failure, the run asks to abort,
/// so the record on disk stays as it was.
pub proof fn lemma_all_or_nothing(s: ReconcilerView, events: Seq<Reported>)
    requires
        is_fresh(s),
    ensures
        run(s, events).action() is Save ==> events.len() >= s.steps.len() && all_succeeded(
            events,
            s.steps.len() as int,
        ),
        !all_succeeded(events, least(events.len() as int, s.steps.len() as int)) ==> run(
            s,
            events,
        ).action() is Abort,
{
    lemma_run_progress(s, events);
}

/// A run that has failed stays failed, whatever is reported to it.
pub proof fn lemma_failure_is_final(s: ReconcilerView, event: EventView, now: Seq<char>)
    requires
        s.failed is Some,
    ensures
        s.after(event, now) == s,
        s.action() == (ActionView::Abort { error: s.failed->0 }),
{
}

/// The entries that the steps add to the record of an installation, when
/// they end as `events` say.
pub open spec fn entries(steps: Seq<StepView>, events: Seq<Reported>) -> Seq<LockedExtensionView>
    decreases steps.len(),
{
    if steps.len() == 0 || events.len() != steps.len() {
        Seq::empty()
    } else {
        let rest = entries(steps.drop_last(), events.drop_last());
        match events.last().0 {
            EventView::Succeeded { output } => match steps.last() {
                StepView::Fetch { name, extension_type, source, .. } => rest.push(
                    locked_entry(name, extension_type, source, output, events.last().1),
                ),
                StepView::Update { name, extension_type, source, .. } => rest.push(
                    locked_entry(name, extension_type, source, output, events.last().1),
                ),
                _ => rest,
            },
            _ => rest,
        }
    }
}

/// The extensions that the steps fetch, in their order.
pub open spec fn fetch_targets(steps: Seq<StepView>) -> Seq<Declared>
    decreases steps.len(),
{
    if steps.len() == 0 {
        Seq::empty()
    } else {
        let rest = fetch_targets(steps.drop_last());
        match steps.last() {
            StepView::Fetch { name, extension_type, source, .. } => rest.push(
                (ExtensionView { name, source }, extension_type),
            ),
            StepView::Update { name, extension_type, source, .. } => rest.push(
                (ExtensionView { name, source }, extension_type),
            ),
            _ => rest,
        }
    }
}

/// While an installation succeeds, its record is the one it began with and
/// the entries of the steps done so far.
pub proof fn lemma_install_record(s: ReconcilerView, events: Seq<Reported>)
    requires
        is_fresh(s),
        s.goal == Goal::Install,
        events.len() <= s.steps.len(),
        all_succeeded(events, events.len() as int),
    ensures
        run(s, events).record == s.record + entries(s.steps.take(events.len() as int), events),
    decreases events.len(),
{
    let k = events.len() as int;
    if k == 0 {
        assert(s.record + entries(s.steps.take(0), events) =~= s.record);
    } else {
        let before = events.drop_last();
        assert forall|i: int| 0 <= i < k - 1 implies before[i] == events[i] by {}
        assert(all_succeeded(before, k - 1));
        lemma_install_record(s, before);
        lemma_run_progress(s, before);
        let prev = run(s, before);
        assert(prev.cursor == k - 1);
        assert(s.steps.take(k).drop_last() =~= s.steps.take(k - 1));
        assert(s.steps.take(k).last() == s.steps[k - 1]);
        assert(events[k - 1].0 is Succeeded);
        let rest = entries(s.steps.take(k - 1), before);
        match s.steps[k - 1] {
            StepView::Fetch { name, extension_type, source, .. } => {
                let e = locked_entry(
                    name,
                    extension_type,
                    source,
                    events.last().0->output,
                    events.last().1,
                );
                assert((s.record + rest).push(e) =~= s.record + rest.push(e));
            },
            StepView::Update { name, extension_type, source, .. } => {
                let e = locked_entry(
                    name,
                    extension_type,
                    source,
                    events.last().0->output,
                    events.last().1,
                );
                assert((s.record + rest).push(e) =~= s.record + rest.push(e));
            },
            _ => {},
        }
    }
}

/// When every step succeeds, each extension that the steps fetch gets its
/// entry, in the order of the steps.
pub proof fn lemma_entries_follow_targets(steps: Seq<StepView>, events: Seq<Reported>)
    requires
        events.len() == steps.len(),
        all_succeeded(events, events.len() as int),
    ensures
        entries(steps, events).len() == fetch_targets(steps).len(),
        forall|i: int|
            0 <= i < fetch_targets(steps).len() ==> records(
                entries(steps, events)[i],
                #[trigger] fetch_targets(steps)[i],
            ),
    decreases steps.len(),
{
    if steps.len() > 0 {
        let k = steps.len() as int;
        let before = events.drop_last();
        assert forall|i: int| 0 <= i < k - 1 implies before[i] == events[i] by {}
        assert(all_succeeded(before, k - 1));
        lemma_entries_follow_targets(steps.drop_last(), before);
        assert(events[k - 1].0 is Succeeded);
    }
}

/// What steps fetch one after the other is what the first fetch, then what
/// the second fetch.
pub proof fn lemma_fetch_targets_add(a: Seq<StepView>, b: Seq<StepView>)
    ensures
        fetch_targets(a + b) == fetch_targets(a) + fetch_targets(b),
    decreases b.len(),
{
    if b.len() == 0 {
        assert(a + b =~= a);
        assert(fetch_targets(a) + fetch_targets(b) =~= fetch_targets(a));
    } else {
        assert((a + b).drop_last() =~= a + b.drop_last());
        assert((a + b).last() == b.last());
        lemma_fetch_targets_add(a, b.drop_last());
        let rest = fetch_targets(b.drop_last());
        match b.last() {
            StepView::Fetch { name, extension_type, source, .. } => {
                let x = (ExtensionView { name, source }, extension_type);
                assert((fetch_targets(a) + rest).push(x) =~= fetch_targets(a) + rest.push(x));
            },
            StepView::Update { name, extension_type, source, .. } => {
                let x = (ExtensionView { name, source }, extension_type);
                assert((fetch_targets(a) + rest).push(x) =~= fetch_targets(a) + rest.push(x));
            },
            _ => {},
        }
    }
}

/// The steps that install one extension fetch that extension and nothing
/// else.
proof fn lemma_install_steps_target(root: Seq<char>, x: Declared)
    ensures
        fetch_targets(install_steps(root, x)) == seq![x],
{
    let steps = install_steps(root, x);
    reveal_with_fuel(fetch_targets, 3);
    match x.1 {
        ExtensionType::Plugin => {
            assert(steps.drop_last() =~= seq![steps[0]]);
            assert(steps.drop_last().drop_last() =~= Seq::<StepView>::empty());
            assert(fetch_targets(steps) =~= seq![x]);
        },
        ExtensionType::Theme => {
            assert(steps.drop_last() =~= Seq::<StepView>::empty());
            assert(fetch_targets(steps) =~= seq![x]);
        },
    }
}

/// The installation of extensions fetches them, in their order.
proof fn lemma_installs_targets(root: Seq<char>, xs: Seq<Declared>)
    ensures
        fetch_targets(installs(root, xs)) == xs,
    decreases xs.len(),
{
    if xs.len() == 0 {
        assert(fetch_targets(installs(root, xs)) =~= xs);
    } else {
        lemma_installs_targets(root, xs.drop_last());
        lemma_install_steps_target(root, xs.last());
        lemma_fetch_targets_add(installs(root, xs.drop_last()), install_steps(root, xs.last()));
        assert(xs.drop_last() + seq![xs.last()] =~= xs);
    }
}

/// The replacement of extensions fetches them as they are declared, in
/// their order.
proof fn lemma_replacements_targets(root: Seq<char>, cs: Seq<Changed>)
    ensures
        fetch_targets(replacements(root, cs)) == cs.map_values(|c: Changed| (c.0, c.1)),
    decreases cs.len(),
{
    let pair = |c: Changed| (c.0, c.1);
    if cs.len() == 0 {
        assert(fetch_targets(replacements(root, cs)) =~= cs.map_values(pair));
    } else {
        let c = cs.last();
        lemma_replacements_targets(root, cs.drop_last());
        lemma_install_steps_target(root, (c.0, c.1));
        let head = replacements(root, cs.drop_last());
        let gone = seq![removal(root, c.2)];
        lemma_fetch_targets_add(head + gone, install_steps(root, (c.0, c.1)));
        lemma_fetch_targets_add(head, gone);
        assert(fetch_targets(gone) =~= Seq::<Declared>::empty()) by {
            reveal_with_fuel(fetch_targets, 2);
            assert(gone.drop_last() =~= Seq::<StepView>::empty());
        }
        assert(cs.drop_last().map_values(pair) + seq![(c.0, c.1)] =~= cs.map_values(pair));
        assert(fetch_targets(head) + fetch_targets(gone) =~= fetch_targets(head));
    }
}

/// The removal of entries fetches nothing.
proof fn lemma_removals_targets(root: Seq<char>, ls: Seq<LockedExtensionView>)
    ensures
        fetch_targets(removals(root, ls)) == Seq::<Declared>::empty(),
    decreases ls.len(),
{
    if ls.len() == 0 {
        assert(removals(root, ls) =~= Seq::<StepView>::empty());
    } else {
        lemma_removals_targets(root, ls.drop_last());
        assert(removals(root, ls).drop_last() =~= removals(root, ls.drop_last()));
    }
}

/// The steps that a difference asks for fetch the added extensions, then
/// those with a changed source.
pub proof fn lemma_plan_targets(root: Seq<char>, diff: InstallDiffView)
    ensures
        fetch_targets(install_plan(root, diff)) == targets(diff),
{
    let a = installs(root, diff.added);
    let b = replacements(root, diff.source_changed);
    let c = removals(root, diff.removed);
    lemma_installs_targets(root, diff.added);
    lemma_replacements_targets(root, diff.source_changed);
    lemma_removals_targets(root, diff.removed);
    lemma_fetch_targets_add(a + b, c);
    lemma_fetch_targets_add(a, b);
    assert(fetch_targets(a) + fetch_targets(b) + fetch_targets(c) =~= targets(diff));
}

/// An installation of which every step succeeds ends with the reconciled
/// record, to be saved.
///
/// The run for the declaration `d` and the record `o` then asks to save a
/// record that holds the unchanged entries as they were, followed by one
/// entry for each added extension and each extension with a changed source,
/// with what each is declared as.
pub proof fn lemma_install_converges(
    root: Seq<char>,
    d: Seq<Declared>,
    o: Seq<LockedExtensionView>,
    events: Seq<Reported>,
)
    requires
        events.len() == ReconcilerView::for_install(root, d, o).steps.len(),
        all_succeeded(events, events.len() as int),
    ensures
        run(ReconcilerView::for_install(root, d, o), events).action() is Save,
        is_reconciled(
            d,
            o,
            run(ReconcilerView::for_install(root, d, o), events).action()->lock_file,
        ),
{
    let s = ReconcilerView::for_install(root, d, o);
    let diff = diff_of(d, o);
    let end = run(s, events);
    lemma_run_progress(s, events);
    lemma_install_record(s, events);
    assert(s.steps.take(events.len() as int) =~= s.steps);
    lemma_entries_follow_targets(s.steps, events);
    lemma_plan_targets(root, diff);
    let added = entries(s.steps, events);
    let t = targets(diff);
    let u = diff.unchanged.len() as int;
    assert(end.record == diff.unchanged + added);
    assert forall|i: int| 0 <= i < t.len() implies records(end.record[u + i], #[trigger] t[i]) by {
        assert(fetch_targets(s.steps)[i] == t[i]);
        assert(end.record[u + i] == added[i]);
    }
}

/// Reconciling twice changes nothing the second time.
///
/// After an installation of which every step succeeded, the same
/// declaration asks for nothing against the record that was saved: nothing
/// is added, removed or changed. This holds of a declaration and a record
/// in which no name occurs twice.
pub proof fn lemma_install_is_idempotent(
    root: Seq<char>,
    d: Seq<Declared>,
    o: Seq<LockedExtensionView>,
    events: Seq<Reported>,
)
    requires
        declared_once(d),
        recorded_once(o),
        events.len() == ReconcilerView::for_install(root, d, o).steps.len(),
        all_succeeded(events, events.len() as int),
    ensures
        ({
            let saved = run(ReconcilerView::for_install(root, d, o), events).action()->lock_file;
            let again = diff_of(d, saved);
            again.added.len() == 0 && again.removed.len() == 0 && again.source_changed.len() == 0
        }),
{
    lemma_install_converges(root, d, o, events);
    let saved = run(ReconcilerView::for_install(root, d, o), events).action()->lock_file;
    lemma_reconciled_is_stable(d, o, saved);
}

/// An extension with a changed source is removed before it is installed.
///
/// Among the steps that replace extensions, each extension has the removal
/// of its recorded directory directly in front of its fetch.
pub proof fn lemma_removal_precedes_fetch(root: Seq<char>, cs: Seq<Changed>, i: int)
    requires
        0 <= i < cs.len(),
    ensures
        exists|k: int|
            0 <= k && k + 1 < replacements(root, cs).len() && #[trigger] replacements(root, cs)[k]
                == removal(root, cs[i].2) && replacements(root, cs)[k + 1] == install_steps(
                root,
                (cs[i].0, cs[i].1),
            )[0],
    decreases cs.len(),
{
    let head = replacements(root, cs.drop_last());
    let c = cs.last();
    let all = replacements(root, cs);
    assert(all == head + seq![removal(root, c.2)] + install_steps(root, (c.0, c.1)));
    if i == cs.len() - 1 {
        let k = head.len() as int;
        assert(all[k] == removal(root, c.2));
        assert(all[k + 1] == install_steps(root, (c.0, c.1))[0]);
    } else {
        lemma_removal_precedes_fetch(root, cs.drop_last(), i);
        let k = choose|k: int|
            0 <= k && k + 1 < head.len() && #[trigger] head[k] == removal(
                root,
                cs.drop_last()[i].2,
            ) && head[k + 1] == install_steps(root, (cs.drop_last()[i].0, cs.drop_last()[i].1))[0];
        assert(all[k] == head[k]);
        assert(all[k + 1] == head[k + 1]);
    }
}

/// A failure aborts the run with that failure, and the record is untouched.
///
/// When the awaited step of a run that has not ended fails, the run asks to
/// abort with the error of that step, keeps the record as it stood and the
/// count of steps done, so that the failed step is the one it points at.
pub proof fn lemma_failure_aborts(s: ReconcilerView, error: crate::error::RexerErrorView, now: Seq<char>)
    requires
        !s.is_finished(),
    ensures
        s.after(EventView::Failed { error }, now).action() == (ActionView::Abort { error }),
        s.after(EventView::Failed { error }, now).record == s.record,
        s.after(EventView::Failed { error }, now).cursor == s.cursor,
{
}

/// Renewing an entry changes that entry alone, and of it only the commit and
/// the time: the record keeps its length and its order, every other entry
/// stays as it was, and the renewed one keeps its name, kind and source.
pub proof fn lemma_refreshed_touches_one_entry(
    record: Seq<LockedExtensionView>,
    name: Seq<char>,
    commit: Seq<char>,
    now: Seq<char>,
)
    requires
        has_name(record, name),
    ensures
        refreshed(record, name, commit, now).len() == record.len(),
        forall|i: int|
            0 <= i < record.len() && i != first_named(record, name) ==> #[trigger] refreshed(
                record,
                name,
                commit,
                now,
            )[i] == record[i],
        ({
            let i = first_named(record, name);
            let renewed = refreshed(record, name, commit, now)[i];
            &&& renewed.name == name
            &&& renewed.extension_type == record[i].extension_type
            &&& renewed.source == record[i].source
            &&& renewed.commit_hash == Some(commit)
            &&& renewed.installed_at == now
        }),
{
    lemma_matching_is_named(record, name);
}

/// A reinstallation that succeeds saves the record with the one entry
/// renewed.
///
/// When every step of the reinstallation of the recorded extension `l`
/// succeeds, the run asks to save the record in which the first entry of
/// that name is at the commit that the fetch reported, since the time of
/// that report, and nothing else has changed.
pub proof fn lemma_reinstall_renews(
    root: Seq<char>,
    o: Seq<LockedExtensionView>,
    l: LockedExtensionView,
    events: Seq<Reported>,
)
    requires
        events.len() == ReconcilerView::for_reinstall(root, o, l).steps.len(),
        all_succeeded(events, events.len() as int),
    ensures
        run(ReconcilerView::for_reinstall(root, o, l), events).action() == (ActionView::Save {
            lock_file: refreshed(o, l.name, events[1].0->output, events[1].1),
        }),
{
    let s = ReconcilerView::for_reinstall(root, o, l);
    reveal_with_fuel(run, 4);
    let e0 = events.take(0);
    let e1 = events.take(1);
    let e2 = events.take(2);
    assert(events[0].0 is Succeeded && events[1].0 is Succeeded);
    assert(e1.drop_last() =~= e0);
    assert(e2.drop_last() =~= e1);
    assert(e1.last() == events[0] && e2.last() == events[1]);
    assert(run(s, e0) == s);
    assert(run(s, e1) == s.after(events[0].0, events[0].1));
    assert(run(s, e2) == run(s, e1).after(events[1].0, events[1].1));
    assert(run(s, e2).record == refreshed(o, l.name, events[1].0->output, events[1].1));
    if events.len() == 2 {
        assert(events =~= e2);
    } else {
        assert(events.len() == 3);
        assert(events[2].0 is Succeeded);
        assert(events.drop_last() =~= e2);
        assert(run(s, events) == run(s, e2).after(events[2].0, events[2].1));
    }
}

/// In an update, a commit that has not moved changes nothing.
///
/// When the update of an extension reports the commit that the record
/// already holds for it, the record stays as it is, time included, and the
/// run does not take note of a change; when it reports another one, the
/// entry is renewed and the run will save the record.
pub proof fn lemma_update_keeps_what_has_not_moved(
    s: ReconcilerView,
    commit: Seq<char>,
    now: Seq<char>,
)
    requires
        s.goal == Goal::Update,
        !s.is_finished(),
        s.steps[s.cursor as int] is Update,
    ensures
        ({
            let name = s.steps[s.cursor as int].name();
            let next = s.after(EventView::Succeeded { output: commit }, now);
            &&& !has_moved(s.record, name, commit) ==> next.record == s.record && next.changed
                == s.changed
            &&& has_moved(s.record, name, commit) ==> next.record == refreshed(
                s.record,
                name,
                commit,
                now,
            ) && next.changed
        }),
{
}

/// Every run ends: once as many events have come as the run has steps, it
/// has ended, with a failure or with every step done.
pub proof fn lemma_run_ends(s: ReconcilerView, events: Seq<Reported>)
    requires
        is_fresh(s),
        events.len() >= s.steps.len(),
    ensures
        run(s, events).is_finished(),
{
    lemma_run_progress(s, events);
}

/// Filtering a record in which no name occurs twice leaves such a record.
pub proof fn lemma_filter_recorded_once(
    o: Seq<LockedExtensionView>,
    p: spec_fn(LockedExtensionView) -> bool,
)
    requires
        recorded_once(o),
    ensures
        recorded_once(o.filter(p)),
    decreases o.len(),
{
    reveal(Seq::filter);
    if o.len() > 0 {
        let head = o.drop_last();
        lemma_filter_recorded_once(head, p);
        let f = head.filter(p);
        if p(o.last()) {
            assert forall|i: int, j: int| 0 <= i < j < f.push(o.last()).len() implies (
            #[trigger] f.push(o.last())[i]).name != (#[trigger] f.push(o.last())[j]).name by {
                if j == f.len() {
                    assert(f.contains(f[i]));
                    lemma_filter_member(head, p, f[i]);
                    let k = choose|k: int| 0 <= k < head.len() && head[k] == f[i];
                    assert(o[k].name != o[o.len() - 1].name);
                }
            }
        }
    }
}

/// Filtering a declaration in which no name occurs twice leaves such a
/// declaration.
pub proof fn lemma_filter_declared_once(d: Seq<Declared>, p: spec_fn(Declared) -> bool)
    requires
        declared_once(d),
    ensures
        declared_once(d.filter(p)),
    decreases d.len(),
{
    reveal(Seq::filter);
    if d.len() > 0 {
        let head = d.drop_last();
        lemma_filter_declared_once(head, p);
        let f = head.filter(p);
        if p(d.last()) {
            assert forall|i: int, j: int| 0 <= i < j < f.push(d.last()).len() implies (
            #[trigger] f.push(d.last())[i]).0.name != (#[trigger] f.push(d.last())[j]).0.name by {
                if j == f.len() {
                    assert(f.contains(f[i]));
                    lemma_filter_member(head, p, f[i]);
                    let k = choose|k: int| 0 <= k < head.len() && head[k] == f[i];
                    assert(d[k].0.name != d[d.len() - 1].0.name);
                }
            }
        }
    }
}

/// Reconciling keeps the names of the record apart.
///
/// If no name is declared twice and none recorded twice, none occurs twice
/// in the record that a successful run makes of the two.
pub proof fn lemma_reconciled_is_recorded_once(
    d: Seq<Declared>,
    o: Seq<LockedExtensionView>,
    r: Seq<LockedExtensionView>,
)
    requires
        declared_once(d),
        recorded_once(o),
        is_reconciled(d, o, r),
    ensures
        recorded_once(r),
{
    let diff = diff_of(d, o);
    let t = targets(diff);
    let u = diff.unchanged.len() as int;
    let kept_p = |l: LockedExtensionView| is_kept(d, o, l);
    let added_p = |x: Declared| is_added(o, x);
    let changed_p = |x: Declared| is_changed(o, x);
    lemma_filter_recorded_once(o, kept_p);
    lemma_filter_declared_once(d, added_p);
    lemma_filter_declared_once(d, changed_p);
    let added = d.filter(added_p);
    let changed = d.filter(changed_p);
    assert forall|i: int, j: int| 0 <= i < j < r.len() implies (#[trigger] r[i]).name != (
    #[trigger] r[j]).name by {
        if j < u {
            assert(r[i] == diff.unchanged[i] && r[j] == diff.unchanged[j]);
        } else if i < u {
            let l = r[i];
            assert(l == diff.unchanged[i]);
            assert(diff.unchanged.contains(diff.unchanged[i]));
            lemma_filter_member(o, kept_p, l);
            let m = choose|m: int| 0 <= m < o.len() && o[m] == l;
            assert(o[m].name == l.name);
            assert(has_name(o, l.name));
            assert(records(r[u + (j - u)], t[j - u]));
            lemma_target_is_declared(d, o, j - u);
            let q = choose|q: int|
                0 <= q < d.len() && #[trigger] d[q] == t[j - u] && (is_added(o, d[q])
                    || is_changed(o, d[q]));
            if r[j].name == l.name {
                assert(d[q].0.name == l.name);
                assert(changes_name(d, o, l.name) || is_added(o, d[q]));
            }
        } else {
            let a = i - u;
            let b = j - u;
            assert(records(r[u + a], t[a]) && records(r[u + b], t[b]));
            lemma_target_is_declared(d, o, a);
            lemma_target_is_declared(d, o, b);
            let qa = choose|q: int|
                0 <= q < d.len() && #[trigger] d[q] == t[a] && (is_added(o, d[q]) || is_changed(
                    o,
                    d[q],
                ));
            let qb = choose|q: int|
                0 <= q < d.len() && #[trigger] d[q] == t[b] && (is_added(o, d[q]) || is_changed(
                    o,
                    d[q],
                ));
            if r[i].name == r[j].name {
                if qa < qb {
                    assert(d[qa].0.name != d[qb].0.name);
                } else if qb < qa {
                    assert(d[qb].0.name != d[qa].0.name);
                } else {
                    assert(t[a] == t[b]);
                    if b < added.len() {
                        assert(added[a] == t[a] && added[b] == t[b]);
                        assert(added[a].0.name != added[b].0.name);
                    } else if a >= added.len() {
                        assert(changed[a - added.len()] == t[a]);
                        assert(changed[b - added.len()] == t[b]);
                        assert(changed[a - added.len()].0.name != changed[b - added.len()].0.name);
                    } else {
                        assert(added[a] == t[a]);
                        assert(changed[b - added.len()] == t[b]);
                        assert(added.contains(added[a]));
                        lemma_filter_member(d, added_p, added[a]);
                        assert(changed.contains(changed[b - added.len()]));
                        lemma_filter_member(d, changed_p, changed[b - added.len()]);
                    }
                }
            }
        }
    }
}

/// Every entry that is left once the missing ones are taken out is an entry
/// of the record whose directory is not known to be gone.
pub proof fn lemma_present_entries(
    o: Seq<LockedExtensionView>,
    present: Seq<bool>,
    x: LockedExtensionView,
)
    requires
        present_entries(o, present).contains(x),
    ensures
        exists|k: int|
            0 <= k < o.len() && #[trigger] o[k] == x && !(k < present.len() && !present[k]),
    decreases o.len(),
{
    if o.len() > 0 {
        let rest = present_entries(o.drop_last(), present);
        let last = o.len() - 1;
        if rest.contains(x) {
            lemma_present_entries(o.drop_last(), present, x);
            let k = choose|k: int|
                0 <= k < o.drop_last().len() && #[trigger] o.drop_last()[k] == x && !(k
                    < present.len() && !present[k]);
            assert(o[k] == x);
        } else {
            let i = choose|i: int|
                0 <= i < present_entries(o, present).len() && present_entries(o, present)[i] == x;
            assert(!(last < present.len() && !present[last]));
            if i < rest.len() {
                assert(rest[i] == x);
            }
            assert(o[last] == x);
        }
    }
}

/// An extension whose directory is gone is fetched again.
///
/// When the record, in which no name occurs twice, lists an extension whose
/// directory does not exist, and the extension is still declared, the
/// difference against what is left of the record has it among the added
/// extensions, which the run installs.
pub proof fn lemma_missing_is_fetched_again(
    d: Seq<Declared>,
    o: Seq<LockedExtensionView>,
    present: Seq<bool>,
    i: int,
)
    requires
        recorded_once(o),
        0 <= i < o.len(),
        i < present.len(),
        !present[i],
        declares(d, o[i].name),
    ensures
        !has_name(present_entries(o, present), o[i].name),
        declares(diff_of(d, present_entries(o, present)).added, o[i].name),
{
    let left = present_entries(o, present);
    let name = o[i].name;
    if has_name(left, name) {
        let q = choose|q: int| 0 <= q < left.len() && (#[trigger] left[q]).name == name;
        assert(left.contains(left[q]));
        lemma_present_entries(o, present, left[q]);
        let k = choose|k: int|
            0 <= k < o.len() && #[trigger] o[k] == left[q] && !(k < present.len() && !present[k]);
        if k < i {
            assert(o[k].name != o[i].name);
        } else if i < k {
            assert(o[i].name != o[k].name);
        }
    }
    lemma_added_names(d, left, name);
}

} // verus!
