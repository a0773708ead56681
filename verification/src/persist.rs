//! Saving and restoring the values of a unit's zones, by the paths of their
//! widgets.
//!
//! The path of a leaf is made of the labels from the top of the tree down to
//! the leaf, with `/` between them. A tree is saved well only if no two of
//! its leaves have the same path.

use vstd::prelude::*;
use vstd::string::StringExecFns;
use crate::widgets::{forest_view, DspWidget};
use crate::zone::Zone;

verus! {

broadcast use vstd::std_specs::vec::group_vec_axioms;

/// The value of one zone, as saved: the path of its widget and the bits of
/// the value.
#[derive(Debug, Clone, PartialEq, Eq)]
pub struct ZoneValue {
    pub path: String,
    pub value: u32,
}

impl View for ZoneValue {
    type V = (Seq<char>, u32);

    open spec fn view(&self) -> (Seq<char>, u32) {
        (self.path@, self.value)
    }
}

/// One entry of a saved state, as read back: a path, and the bits of the
/// value written for it, or `None` where what was written is no number.
#[derive(Debug, Clone, PartialEq, Eq)]
pub struct StoredValue {
    pub path: String,
    pub value: Option<u32>,
}

impl View for StoredValue {
    type V = (Seq<char>, Option<u32>);

    open spec fn view(&self) -> (Seq<char>, Option<u32>) {
        (self.path@, self.value)
    }
}

/// The paths that a saved state could not be restored for.
#[derive(Debug, Clone, PartialEq, Eq)]
pub struct ImportError {
    /// The paths of the leaves that the saved state has no entry for.
    pub missing: Vec<String>,
    /// The paths of the leaves whose entry is no number.
    pub unparsable: Vec<String>,
}

/// Saved values in spec terms.
pub open spec fn values_view(values: Seq<ZoneValue>) -> Seq<(Seq<char>, u32)> {
    Seq::new(values.len(), |i: int| values[i]@)
}

/// A saved state in spec terms.
pub open spec fn stored_view(stored: Seq<StoredValue>) -> Seq<(Seq<char>, Option<u32>)> {
    Seq::new(stored.len(), |i: int| stored[i]@)
}

/// Texts in spec terms.
pub open spec fn texts_view(texts: Seq<String>) -> Seq<Seq<char>> {
    Seq::new(texts.len(), |i: int| texts[i]@)
}

/// The path of a widget with the given label, below a box with path
/// `prefix` followed by `/`, or at the top where `prefix` is empty.
pub open spec fn path_of(prefix: Seq<char>, label: Seq<char>) -> Seq<char> {
    prefix + label
}

/// What stands in front of the labels of a box's children: the path of the
/// box and `/`.
pub open spec fn prefix_below(prefix: Seq<char>, label: Seq<char>) -> Seq<char> {
    prefix + label + seq!['/']
}

/// The leaves of a widget, depth first, each with its path and the value
/// that its zone holds.
pub open spec fn exported<Z: Zone>(w: DspWidget<Z>, prefix: Seq<char>) -> Seq<(Seq<char>, u32)>
    decreases w, 1int,
{
    match w {
        DspWidget::Box { label, inner, .. } => forest_exported(
            inner@,
            prefix_below(prefix, label@),
        ),
        DspWidget::BoolParam { label, zone, .. } => seq![(path_of(prefix, label@), zone.bits())],
        DspWidget::NumParam { label, zone, .. } => seq![(path_of(prefix, label@), zone.bits())],
        DspWidget::NumDisplay { label, zone, .. } => seq![(path_of(prefix, label@), zone.bits())],
    }
}

/// The leaves of a list of widgets, depth first, each with its path and
/// the value that its zone holds.
pub open spec fn forest_exported<Z: Zone>(ws: Seq<DspWidget<Z>>, prefix: Seq<char>) -> Seq<
    (Seq<char>, u32),
>
    decreases ws, 0int,
{
    if ws.len() == 0 {
        Seq::empty()
    } else {
        forest_exported(ws.drop_last(), prefix) + exported(ws.last(), prefix)
    }
}

/// What a saved state holds for a path: nothing, an entry that is no
/// number, or a value. Where the path occurs more than once, the last
/// entry counts.
pub open spec fn stored_for(stored: Seq<(Seq<char>, Option<u32>)>, path: Seq<char>) -> Option<
    Option<u32>,
>
    decreases stored.len(),
{
    if stored.len() == 0 {
        None
    } else if stored.last().0 == path {
        Some(stored.last().1)
    } else {
        stored_for(stored.drop_last(), path)
    }
}

/// The value of a leaf after a saved state has been restored: the stored
/// value where there is one, else the value that the leaf had.
pub open spec fn restored_value(
    leaf: (Seq<char>, u32),
    stored: Seq<(Seq<char>, Option<u32>)>,
) -> u32 {
    match stored_for(stored, leaf.0) {
        Some(Some(value)) => value,
        _ => leaf.1,
    }
}

/// The leaves after a saved state has been restored.
pub open spec fn restored(
    leaves: Seq<(Seq<char>, u32)>,
    stored: Seq<(Seq<char>, Option<u32>)>,
) -> Seq<(Seq<char>, u32)> {
    Seq::new(leaves.len(), |i: int| (leaves[i].0, restored_value(leaves[i], stored)))
}

/// The paths of the leaves, in order, for which the saved state holds
/// `found`.
pub open spec fn paths_with(
    leaves: Seq<(Seq<char>, u32)>,
    stored: Seq<(Seq<char>, Option<u32>)>,
    found: Option<Option<u32>>,
) -> Seq<Seq<char>>
    decreases leaves.len(),
{
    if leaves.len() == 0 {
        Seq::empty()
    } else {
        let earlier = paths_with(leaves.drop_last(), stored, found);
        if stored_for(stored, leaves.last().0) == found {
            earlier.push(leaves.last().0)
        } else {
            earlier
        }
    }
}

/// The paths of the leaves, in order, that the saved state has no entry
/// for.
pub open spec fn missing_paths(
    leaves: Seq<(Seq<char>, u32)>,
    stored: Seq<(Seq<char>, Option<u32>)>,
) -> Seq<Seq<char>> {
    paths_with(leaves, stored, None)
}

/// The paths of the leaves, in order, whose entry in the saved state is no
/// number.
pub open spec fn unparsable_paths(
    leaves: Seq<(Seq<char>, u32)>,
    stored: Seq<(Seq<char>, Option<u32>)>,
) -> Seq<Seq<char>> {
    paths_with(leaves, stored, Some(None))
}

/// The leaves as a saved state: each path with its value.
pub open spec fn saved(leaves: Seq<(Seq<char>, u32)>) -> Seq<(Seq<char>, Option<u32>)> {
    Seq::new(leaves.len(), |i: int| (leaves[i].0, Some(leaves[i].1)))
}

/// The paths found for the leaves of two lists are those found for the
/// first, then those found for the second.
pub proof fn lemma_paths_with_concat(
    a: Seq<(Seq<char>, u32)>,
    b: Seq<(Seq<char>, u32)>,
    stored: Seq<(Seq<char>, Option<u32>)>,
    found: Option<Option<u32>>,
)
    ensures
        paths_with(a + b, stored, found) == paths_with(a, stored, found) + paths_with(
            b,
            stored,
            found,
        ),
    decreases b.len(),
{
    if b.len() == 0 {
        assert(a + b =~= a);
        assert(paths_with(a, stored, found) + paths_with(b, stored, found) =~= paths_with(
            a,
            stored,
            found,
        ));
    } else {
        lemma_paths_with_concat(a, b.drop_last(), stored, found);
        assert((a + b).drop_last() =~= a + b.drop_last());
        assert((a + b).last() == b.last());
        let earlier = paths_with(a, stored, found) + paths_with(b.drop_last(), stored, found);
        assert(earlier.push(b.last().0) =~= paths_with(a, stored, found) + paths_with(
            b.drop_last(),
            stored,
            found,
        ).push(b.last().0));
    }
}

/// What a saved state holds for the path of a leaf that it was saved from:
/// the value of the last leaf with that path.
pub proof fn lemma_saved_holds_last(leaves: Seq<(Seq<char>, u32)>, path: Seq<char>)
    ensures
        match stored_for(saved(leaves), path) {
            None => forall|i: int| 0 <= i < leaves.len() ==> leaves[i].0 != path,
            Some(None) => false,
            Some(Some(value)) => exists|i: int|
                0 <= i < leaves.len() && leaves[i].0 == path && leaves[i].1 == value,
        },
    decreases leaves.len(),
{
    if leaves.len() > 0 {
        assert(saved(leaves).drop_last() =~= saved(leaves.drop_last()));
        if saved(leaves).last().0 == path {
            assert(leaves[leaves.len() - 1].0 == path);
        } else {
            lemma_saved_holds_last(leaves.drop_last(), path);
            match stored_for(saved(leaves.drop_last()), path) {
                Some(Some(value)) => {
                    let i = choose|i: int|
                        0 <= i < leaves.drop_last().len() && leaves.drop_last()[i].0 == path
                            && leaves.drop_last()[i].1 == value;
                    assert(leaves[i].0 == path && leaves[i].1 == value);
                },
                _ => {
                    assert forall|i: int| 0 <= i < leaves.len() implies leaves[i].0 != path by {
                        if i < leaves.len() - 1 {
                            assert(leaves.drop_last()[i].0 != path);
                        }
                    }
                },
            }
        }
    }
}

/// Saving the leaves and restoring what was saved changes no value and
/// leaves no path out, provided that leaves with the same path hold the
/// same value (as they do where no two leaves have the same path).
pub proof fn lemma_restore_saved_is_identity(leaves: Seq<(Seq<char>, u32)>)
    requires
        forall|i: int, j: int|
            0 <= i < leaves.len() && 0 <= j < leaves.len() && leaves[i].0 == leaves[j].0
                ==> leaves[i].1 == leaves[j].1,
    ensures
        restored(leaves, saved(leaves)) == leaves,
        missing_paths(leaves, saved(leaves)) == Seq::<Seq<char>>::empty(),
        unparsable_paths(leaves, saved(leaves)) == Seq::<Seq<char>>::empty(),
{
    assert forall|i: int| 0 <= i < leaves.len() implies restored_value(leaves[i], saved(leaves))
        == leaves[i].1 by {
        lemma_saved_holds_last(leaves, leaves[i].0);
    }
    assert(restored(leaves, saved(leaves)) =~= leaves);
    lemma_none_found(leaves, leaves.len() as int, saved(leaves), None);
    lemma_none_found(leaves, leaves.len() as int, saved(leaves), Some(None));
    assert(leaves.subrange(0, leaves.len() as int) =~= leaves);
}

/// No path is found among the first `n` leaves of a saved tree for
/// anything but a value.
proof fn lemma_none_found(
    leaves: Seq<(Seq<char>, u32)>,
    n: int,
    stored: Seq<(Seq<char>, Option<u32>)>,
    found: Option<Option<u32>>,
)
    requires
        0 <= n <= leaves.len(),
        stored == saved(leaves),
        found is None || found == Some(None::<u32>),
    ensures
        paths_with(leaves.subrange(0, n), stored, found) == Seq::<Seq<char>>::empty(),
    decreases n,
{
    if n > 0 {
        lemma_none_found(leaves, n - 1, stored, found);
        assert(leaves.subrange(0, n).drop_last() =~= leaves.subrange(0, n - 1));
        lemma_saved_holds_last(leaves, leaves[n - 1].0);
    }
}

/// Restoring a saved state that has no entry for the path of a leaf leaves
/// that leaf's value as it was and lists the path as missing; a leaf whose
/// path has a value stored takes that value all the same.
pub proof fn lemma_missing_path_is_reported(
    leaves: Seq<(Seq<char>, u32)>,
    stored: Seq<(Seq<char>, Option<u32>)>,
    i: int,
)
    requires
        0 <= i < leaves.len(),
        stored_for(stored, leaves[i].0) is None,
    ensures
        restored(leaves, stored)[i] == leaves[i],
        missing_paths(leaves, stored).contains(leaves[i].0),
        forall|j: int|
            0 <= j < leaves.len() ==> match stored_for(stored, leaves[j].0) {
                Some(Some(value)) => #[trigger] restored(leaves, stored)[j] == (leaves[j].0, value),
                _ => restored(leaves, stored)[j] == leaves[j],
            },
    decreases leaves.len(),
{
    if i == leaves.len() - 1 {
        let found = missing_paths(leaves, stored);
        assert(found[found.len() - 1] == leaves[i].0);
    } else {
        lemma_missing_path_is_reported(leaves.drop_last(), stored, i);
        let earlier = missing_paths(leaves.drop_last(), stored);
        let k = choose|k: int| 0 <= k < earlier.len() && earlier[k] == leaves.drop_last()[i].0;
        assert(missing_paths(leaves, stored)[k] == leaves[i].0);
    }
}

/// No two leaves have the same path.
pub open spec fn distinct_paths(leaves: Seq<(Seq<char>, u32)>) -> bool {
    forall|i: int, j: int| 0 <= i < j < leaves.len() ==> leaves[i].0 != leaves[j].0
}

/// Tells whether no path occurs twice among saved values, as it has to be
/// for the values to be restored to the leaves that they were saved from.
pub fn paths_are_distinct(values: &Vec<ZoneValue>) -> (r: bool)
    ensures
        r == distinct_paths(values_view(values@)),
{
    let ghost leaves = values_view(values@);
    let mut j: usize = 0;
    while j < values.len()
        invariant
            j <= values.len(),
            leaves == values_view(values@),
            forall|a: int, b: int| 0 <= a < b < j ==> leaves[a].0 != leaves[b].0,
        decreases values.len() - j,
    {
        let mut i: usize = 0;
        while i < j
            invariant
                i <= j < values.len(),
                leaves == values_view(values@),
                forall|a: int| 0 <= a < i ==> leaves[a].0 != leaves[j as int].0,
            decreases j - i,
        {
            if values[i].path == values[j].path {
                assert(leaves[i as int].0 == leaves[j as int].0);
                return false;
            }
            i += 1;
        }
        j += 1;
    }
    true
}

/// The prefix for the children of a box.
fn child_prefix(prefix: &String, label: &String) -> (below: String)
    ensures
        below@ == prefix_below(prefix@, label@),
{
    let mut below = prefix.clone();
    below.append(label.as_str());
    below.append("/");
    proof {
        reveal_strlit("/");
        assert("/"@ =~= seq!['/']);
    }
    below
}

/// The path of a leaf.
fn leaf_path(prefix: &String, label: &String) -> (path: String)
    ensures
        path@ == path_of(prefix@, label@),
{
    let mut path = prefix.clone();
    path.append(label.as_str());
    path
}

/// Appends the leaves of the widgets to `out`.
fn export_level<Z: Zone>(widgets: &Vec<DspWidget<Z>>, prefix: &String, out: &mut Vec<ZoneValue>)
    ensures
        values_view(final(out)@) == values_view(old(out)@) + forest_exported(widgets@, prefix@),
    decreases widgets,
{
    let mut i: usize = 0;
    assert(widgets@.subrange(0, 0) =~= Seq::<DspWidget<Z>>::empty());
    assert(values_view(out@) =~= values_view(old(out)@) + Seq::<(Seq<char>, u32)>::empty());
    while i < widgets.len()
        invariant
            i <= widgets.len(),
            values_view(out@) == values_view(old(out)@) + forest_exported(
                widgets@.subrange(0, i as int),
                prefix@,
            ),
        decreases widgets.len() - i,
    {
        let ghost before = values_view(out@);
        let ghost done = forest_exported(widgets@.subrange(0, i as int), prefix@);
        proof {
            let upto = widgets@.subrange(0, i + 1);
            assert(upto.drop_last() =~= widgets@.subrange(0, i as int));
            assert(upto.last() == widgets@[i as int]);
        }
        match &widgets[i] {
            DspWidget::Box { label, inner, .. } => {
                let below = child_prefix(prefix, label);
                export_level(inner, &below, out);
            },
            DspWidget::BoolParam { label, zone, .. } => {
                out.push(ZoneValue { path: leaf_path(prefix, label), value: zone.cur_value() });
                assert(values_view(out@) =~= before + exported(widgets@[i as int], prefix@));
            },
            DspWidget::NumParam { label, zone, .. } => {
                out.push(ZoneValue { path: leaf_path(prefix, label), value: zone.cur_value() });
                assert(values_view(out@) =~= before + exported(widgets@[i as int], prefix@));
            },
            DspWidget::NumDisplay { label, zone, .. } => {
                out.push(ZoneValue { path: leaf_path(prefix, label), value: zone.cur_value() });
                assert(values_view(out@) =~= before + exported(widgets@[i as int], prefix@));
            },
        }
        assert(values_view(out@) =~= values_view(old(out)@) + (done + exported(
            widgets@[i as int],
            prefix@,
        )));
        i += 1;
    }
    assert(widgets@.subrange(0, widgets.len() as int) =~= widgets@);
}

/// The values of all zones of the widgets: one entry for each leaf, depth
/// first, with the leaf's path and the value that its zone holds.
pub fn export_zones<Z: Zone>(widgets: &Vec<DspWidget<Z>>) -> (values: Vec<ZoneValue>)
    ensures
        values_view(values@) == forest_exported(widgets@, Seq::<char>::empty()),
{
    let mut values: Vec<ZoneValue> = Vec::new();
    let prefix = String::new();
    export_level(widgets, &prefix, &mut values);
    assert(values_view(values@) =~= forest_exported(widgets@, Seq::<char>::empty()));
    values
}

/// Looks a path up in a saved state.
fn lookup(stored: &Vec<StoredValue>, path: &String) -> (found: Option<Option<u32>>)
    ensures
        found == stored_for(stored_view(stored@), path@),
{
    let mut i: usize = stored.len();
    assert(stored_view(stored@).subrange(0, i as int) =~= stored_view(stored@));
    while i > 0
        invariant
            i <= stored.len(),
            stored_for(stored_view(stored@), path@) == stored_for(
                stored_view(stored@).subrange(0, i as int),
                path@,
            ),
        decreases i,
    {
        proof {
            let upto = stored_view(stored@).subrange(0, i as int);
            assert(upto.drop_last() =~= stored_view(stored@).subrange(0, i - 1));
            assert(upto.last() == stored@[i - 1]@);
        }
        i -= 1;
        if stored[i].path == *path {
            return Some(stored[i].value);
        }
    }
    None
}

/// Restores one zone, or notes why it could not be.
fn import_leaf<Z: Zone>(
    zone: &mut Z,
    path: String,
    stored: &Vec<StoredValue>,
    missing: &mut Vec<String>,
    unparsable: &mut Vec<String>,
)
    ensures
        final(zone).addr() == old(zone).addr(),
        seq![(path@, final(zone).bits())] == restored(
            seq![(path@, old(zone).bits())],
            stored_view(stored@),
        ),
        texts_view(final(missing)@) == texts_view(old(missing)@) + missing_paths(
            seq![(path@, old(zone).bits())],
            stored_view(stored@),
        ),
        texts_view(final(unparsable)@) == texts_view(old(unparsable)@) + unparsable_paths(
            seq![(path@, old(zone).bits())],
            stored_view(stored@),
        ),
{
    let ghost leaf = seq![(path@, old(zone).bits())];
    let ghost state = stored_view(stored@);
    proof {
        assert(leaf.drop_last() =~= Seq::<(Seq<char>, u32)>::empty());
        assert(paths_with(leaf.drop_last(), state, None) =~= Seq::<Seq<char>>::empty());
        assert(paths_with(leaf.drop_last(), state, Some(None)) =~= Seq::<Seq<char>>::empty());
    }
    match lookup(stored, &path) {
        None => {
            missing.push(path);
        },
        Some(None) => {
            unparsable.push(path);
        },
        Some(Some(value)) => {
            zone.set_value(value);
        },
    }
    assert(seq![(path@, zone.bits())] =~= restored(leaf, state));
    assert(texts_view(missing@) =~= texts_view(old(missing)@) + missing_paths(leaf, state));
    assert(texts_view(unparsable@) =~= texts_view(old(unparsable)@) + unparsable_paths(
        leaf,
        state,
    ));
}

/// Restores the zones of the widgets, and appends to `missing` and to
/// `unparsable` the paths that could not be restored.
fn import_level<Z: Zone>(
    widgets: &mut Vec<DspWidget<Z>>,
    prefix: &String,
    stored: &Vec<StoredValue>,
    missing: &mut Vec<String>,
    unparsable: &mut Vec<String>,
)
    ensures
        final(widgets).len() == old(widgets).len(),
        forest_view(final(widgets)@) == forest_view(old(widgets)@),
        forest_exported(final(widgets)@, prefix@) == restored(
            forest_exported(old(widgets)@, prefix@),
            stored_view(stored@),
        ),
        texts_view(final(missing)@) == texts_view(old(missing)@) + missing_paths(
            forest_exported(old(widgets)@, prefix@),
            stored_view(stored@),
        ),
        texts_view(final(unparsable)@) == texts_view(old(unparsable)@) + unparsable_paths(
            forest_exported(old(widgets)@, prefix@),
            stored_view(stored@),
        ),
    decreases old(widgets)@,
{
    let ghost state = stored_view(stored@);
    let mut i: usize = 0;
    proof {
        assert(widgets@.subrange(0, 0) =~= Seq::<DspWidget<Z>>::empty());
        let none = Seq::<(Seq<char>, u32)>::empty();
        assert(restored(none, state) =~= none);
        assert(texts_view(missing@) =~= texts_view(old(missing)@) + paths_with(none, state, None));
        assert(texts_view(unparsable@) =~= texts_view(old(unparsable)@) + paths_with(
            none,
            state,
            Some(None),
        ));
    }
    while i < widgets.len()
        invariant
            i <= widgets.len(),
            state == stored_view(stored@),
            widgets.len() == old(widgets).len(),
            forall|k: int| i <= k < widgets.len() ==> widgets[k] == old(widgets)[k],
            forest_view(widgets@.subrange(0, i as int)) == forest_view(
                old(widgets)@.subrange(0, i as int),
            ),
            forest_exported(widgets@.subrange(0, i as int), prefix@) == restored(
                forest_exported(old(widgets)@.subrange(0, i as int), prefix@),
                state,
            ),
            texts_view(missing@) == texts_view(old(missing)@) + missing_paths(
                forest_exported(old(widgets)@.subrange(0, i as int), prefix@),
                state,
            ),
            texts_view(unparsable@) == texts_view(old(unparsable)@) + unparsable_paths(
                forest_exported(old(widgets)@.subrange(0, i as int), prefix@),
                state,
            ),
        decreases widgets.len() - i,
    {
        let ghost before = widgets@;
        let ghost was = widgets@[i as int];
        let ghost done = forest_exported(old(widgets)@.subrange(0, i as int), prefix@);
        let ghost missing_before = texts_view(missing@);
        let ghost unparsable_before = texts_view(unparsable@);
        assert(was == old(widgets)@[i as int]);
        match &mut widgets[i] {
            DspWidget::Box { label, inner, .. } => {
                let below = child_prefix(prefix, label);
                import_level(inner, &below, stored, missing, unparsable);
            },
            DspWidget::BoolParam { label, zone, .. } => {
                let path = leaf_path(prefix, label);
                import_leaf(zone, path, stored, missing, unparsable);
            },
            DspWidget::NumParam { label, zone, .. } => {
                let path = leaf_path(prefix, label);
                import_leaf(zone, path, stored, missing, unparsable);
            },
            DspWidget::NumDisplay { label, zone, .. } => {
                let path = leaf_path(prefix, label);
                import_leaf(zone, path, stored, missing, unparsable);
            },
        }
        proof {
            let now = widgets@[i as int];
            assert(widgets@ =~= before.update(i as int, now));
            assert(now@ == was@);
            assert(exported(now, prefix@) == restored(exported(was, prefix@), state));
            let upto = widgets@.subrange(0, i + 1);
            assert(upto.drop_last() =~= before.subrange(0, i as int));
            assert(upto.last() == now);
            let old_upto = old(widgets)@.subrange(0, i + 1);
            assert(old_upto.drop_last() =~= old(widgets)@.subrange(0, i as int));
            assert(old_upto.last() == was);
            assert(restored(done + exported(was, prefix@), state) =~= restored(done, state)
                + restored(exported(was, prefix@), state));
            lemma_paths_with_concat(done, exported(was, prefix@), state, None);
            lemma_paths_with_concat(done, exported(was, prefix@), state, Some(None));
            assert(texts_view(missing@) =~= texts_view(old(missing)@) + (missing_paths(done, state)
                + missing_paths(exported(was, prefix@), state)));
            assert(texts_view(unparsable@) =~= texts_view(old(unparsable)@) + (unparsable_paths(
                done,
                state,
            ) + unparsable_paths(exported(was, prefix@), state)));
        }
        i += 1;
    }
    assert(widgets@.subrange(0, widgets.len() as int) =~= widgets@);
    assert(old(widgets)@.subrange(0, widgets.len() as int) =~= old(widgets)@);
}

/// Restores a saved state: each leaf whose path has a value stored takes
/// that value, and every other leaf keeps the value that it has. Nothing
/// else about the widgets changes.
///
/// The result is `Ok` if every leaf was restored. Otherwise the error lists
/// the paths of all leaves that were not: those without an entry, and
/// those whose entry is no number.
pub fn import_zones<Z: Zone>(widgets: &mut Vec<DspWidget<Z>>, stored: &Vec<StoredValue>) -> (res:
    Result<(), ImportError>)
    ensures
        final(widgets).len() == old(widgets).len(),
        forest_view(final(widgets)@) == forest_view(old(widgets)@),
        forest_exported(final(widgets)@, Seq::<char>::empty()) == restored(
            forest_exported(old(widgets)@, Seq::<char>::empty()),
            stored_view(stored@),
        ),
        res is Ok <==> missing_paths(
            forest_exported(old(widgets)@, Seq::<char>::empty()),
            stored_view(stored@),
        ).len() == 0 && unparsable_paths(
            forest_exported(old(widgets)@, Seq::<char>::empty()),
            stored_view(stored@),
        ).len() == 0,
        res matches Err(e) ==> {
            &&& texts_view(e.missing@) == missing_paths(
                forest_exported(old(widgets)@, Seq::<char>::empty()),
                stored_view(stored@),
            )
            &&& texts_view(e.unparsable@) == unparsable_paths(
                forest_exported(old(widgets)@, Seq::<char>::empty()),
                stored_view(stored@),
            )
        },
{
    let mut missing: Vec<String> = Vec::new();
    let mut unparsable: Vec<String> = Vec::new();
    let prefix = String::new();
    import_level(widgets, &prefix, stored, &mut missing, &mut unparsable);
    proof {
        let leaves = forest_exported(old(widgets)@, Seq::<char>::empty());
        let state = stored_view(stored@);
        assert(texts_view(missing@) =~= missing_paths(leaves, state));
        assert(texts_view(unparsable@) =~= unparsable_paths(leaves, state));
    }
    if missing.len() == 0 && unparsable.len() == 0 {
        Ok(())
    } else {
        Err(ImportError { missing, unparsable })
    }
}

} // verus!
