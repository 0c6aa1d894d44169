//! What holds of every listing: its order, its depth, and what it leaves
//! out.

use vstd::prelude::*;
use vstd::seq_lib::{to_multiset_build, to_multiset_contains};
use crate::tree::{
    arranged, insert_by_name, is_dot_name, is_visible, levels_below, listed_entry, name_le, pruned,
    sorted_by_name, EntryModel,
};

verus! {

/// Whether no row stands before one that its name is after.
pub open spec fn in_name_order(rows: Seq<EntryModel>) -> bool {
    forall|i: int, j: int| 0 <= i < j < rows.len() ==> name_le(rows[i].name, rows[j].name)
}

/// Whether `holds` is true of `rows` and of the rows below each of them, at
/// every level.
pub open spec fn every_level(rows: Seq<EntryModel>, holds: spec_fn(Seq<EntryModel>) -> bool) -> bool
    decreases rows,
{
    holds(rows) && forall|i: int|
        0 <= i < rows.len() ==> every_level(#[trigger] rows[i].children, holds)
}

/// How many levels `rows` have: none where there are no rows, else one more
/// than the most that lie below one of them.
pub open spec fn depth_of(rows: Seq<EntryModel>) -> nat
    decreases rows,
{
    if rows.len() == 0 {
        0
    } else {
        let here = 1 + depth_of(rows.last().children);
        let others = depth_of(rows.drop_last());
        if here >= others {
            here
        } else {
            others
        }
    }
}

/// Any two names are in order one way or the other.
pub proof fn lemma_name_le_total(a: Seq<char>, b: Seq<char>)
    ensures
        name_le(a, b) || name_le(b, a),
    decreases a.len(),
{
    if a.len() > 0 && b.len() > 0 && a[0] == b[0] {
        lemma_name_le_total(a.drop_first(), b.drop_first());
    }
}

/// The order of names is transitive.
pub proof fn lemma_name_le_transitive(a: Seq<char>, b: Seq<char>, c: Seq<char>)
    requires
        name_le(a, b),
        name_le(b, c),
    ensures
        name_le(a, c),
    decreases a.len(),
{
    if a.len() > 0 && b.len() > 0 && c.len() > 0 && a[0] == b[0] && b[0] == c[0] {
        lemma_name_le_transitive(a.drop_first(), b.drop_first(), c.drop_first());
    }
}

/// Two names that are in order both ways are one name.
pub proof fn lemma_name_le_antisymmetric(a: Seq<char>, b: Seq<char>)
    requires
        name_le(a, b),
        name_le(b, a),
    ensures
        a == b,
    decreases a.len(),
{
    if a.len() > 0 && b.len() > 0 {
        lemma_name_le_antisymmetric(a.drop_first(), b.drop_first());
        assert(b == seq![b[0]] + b.drop_first());
    }
}

/// Putting a row into rows that are in order leaves them in order, and
/// holding the same rows and the new one.
proof fn lemma_insert_by_name(sorted: Seq<EntryModel>, e: EntryModel)
    requires
        in_name_order(sorted),
    ensures
        in_name_order(insert_by_name(sorted, e)),
        insert_by_name(sorted, e).to_multiset() == sorted.to_multiset().insert(e),
        insert_by_name(sorted, e).len() == sorted.len() + 1,
    decreases sorted.len(),
{
    let out = insert_by_name(sorted, e);
    if sorted.len() == 0 {
        to_multiset_build(sorted, e);
        assert(seq![e] == sorted.push(e));
    } else if name_le(sorted.last().name, e.name) {
        to_multiset_build(sorted, e);
        assert forall|i: int, j: int| 0 <= i < j < out.len() implies name_le(
            out[i].name,
            out[j].name,
        ) by {
            if j == sorted.len() && i < sorted.len() - 1 {
                lemma_name_le_transitive(sorted[i].name, sorted.last().name, e.name);
            }
        }
    } else {
        let front = sorted.drop_last();
        let last = sorted.last();
        lemma_insert_by_name(front, e);
        let inner = insert_by_name(front, e);
        assert(sorted == front.push(last));
        to_multiset_build(front, last);
        to_multiset_build(inner, last);
        lemma_name_le_total(last.name, e.name);
        assert forall|i: int| 0 <= i < inner.len() implies name_le(inner[i].name, last.name) by {
            to_multiset_contains(inner, inner[i]);
            to_multiset_contains(front, inner[i]);
            if inner[i] != e {
                assert(front.contains(inner[i]));
            }
        }
    }
}

/// Rows that were put in order are in order, and are the rows they were.
pub proof fn lemma_sorted_by_name(entries: Seq<EntryModel>)
    ensures
        in_name_order(sorted_by_name(entries)),
        sorted_by_name(entries).to_multiset() == entries.to_multiset(),
        sorted_by_name(entries).len() == entries.len(),
    decreases entries.len(),
{
    if entries.len() > 0 {
        lemma_sorted_by_name(entries.drop_last());
        lemma_insert_by_name(sorted_by_name(entries.drop_last()), entries.last());
        to_multiset_build(entries.drop_last(), entries.last());
        assert(entries == entries.drop_last().push(entries.last()));
    }
}

/// Every row that is kept of `entries` is one of them as it is listed, and
/// that one is visible.
proof fn lemma_pruned_rows(
    entries: Seq<EntryModel>,
    levels: Option<nat>,
    show_notes: bool,
    row: EntryModel,
) -> (from: int)
    requires
        pruned(entries, levels, show_notes).contains(row),
    ensures
        0 <= from < entries.len(),
        is_visible(entries[from], show_notes),
        row == listed_entry(entries[from], levels, show_notes),
    decreases entries.len(),
{
    let kept = pruned(entries, levels, show_notes);
    let at = choose|at: int| 0 <= at < kept.len() && kept[at] == row;
    let rest = pruned(entries.drop_last(), levels, show_notes);
    if is_visible(entries.last(), show_notes) && at == rest.len() {
        entries.len() - 1
    } else {
        lemma_pruned_rows(entries.drop_last(), levels, show_notes, row)
    }
}

/// Every row of a listing is one of the directory's entries as it is
/// listed, and that one is visible.
proof fn lemma_arranged_rows(
    entries: Seq<EntryModel>,
    levels: Option<nat>,
    show_notes: bool,
    at: int,
) -> (from: int)
    requires
        0 <= at < arranged(entries, levels, show_notes).len(),
    ensures
        0 <= from < entries.len(),
        is_visible(entries[from], show_notes),
        levels != Some(0nat),
        arranged(entries, levels, show_notes)[at] == listed_entry(
            entries[from],
            levels,
            show_notes,
        ),
{
    let kept = pruned(entries, levels, show_notes);
    let rows = arranged(entries, levels, show_notes);
    lemma_sorted_by_name(kept);
    to_multiset_contains(kept, rows[at]);
    to_multiset_contains(rows, rows[at]);
    lemma_pruned_rows(entries, levels, show_notes, rows[at])
}

/// What holds of every listing that is drawn holds of a listing at every
/// level of it.
proof fn lemma_every_level(
    entries: Seq<EntryModel>,
    levels: Option<nat>,
    show_notes: bool,
    holds: spec_fn(Seq<EntryModel>) -> bool,
)
    requires
        forall|es: Seq<EntryModel>, lv: Option<nat>| #[trigger] holds(arranged(es, lv, show_notes)),
    ensures
        every_level(arranged(entries, levels, show_notes), holds),
    decreases entries,
{
    let rows = arranged(entries, levels, show_notes);
    assert forall|i: int| 0 <= i < rows.len() implies every_level(
        #[trigger] rows[i].children,
        holds,
    ) by {
        let from = lemma_arranged_rows(entries, levels, show_notes, i);
        let e = entries[from];
        if e.is_dir {
            lemma_every_level(e.children, levels_below(levels), show_notes, holds);
        } else {
            assert(rows[i].children == arranged(Seq::empty(), levels, show_notes));
        }
    }
}

/// The order of a listing: at every level the rows stand in the order of
/// their names.
pub proof fn lemma_listing_in_name_order(
    entries: Seq<EntryModel>,
    levels: Option<nat>,
    show_notes: bool,
)
    ensures
        every_level(
            arranged(entries, levels, show_notes),
            |rows: Seq<EntryModel>| in_name_order(rows),
        ),
{
    let holds = |rows: Seq<EntryModel>| in_name_order(rows);
    assert forall|es: Seq<EntryModel>, lv: Option<nat>| #[trigger]
        holds(arranged(es, lv, show_notes)) by {
        lemma_sorted_by_name(pruned(es, lv, show_notes));
    }
    lemma_every_level(entries, levels, show_notes, holds);
}

/// What a listing leaves out: at every level each row is a visible entry.
/// So no directory whose name begins with a dot is listed, however deep the
/// listing goes and whether notes are shown or not; and no file but a note
/// is, and none at all where notes are not shown.
pub proof fn lemma_listing_shows_visible_only(
    entries: Seq<EntryModel>,
    levels: Option<nat>,
    show_notes: bool,
)
    ensures
        every_level(
            arranged(entries, levels, show_notes),
            |rows: Seq<EntryModel>|
                forall|i: int|
                    0 <= i < rows.len() ==> {
                        &&& is_visible(#[trigger] rows[i], show_notes)
                        &&& !(rows[i].is_dir && is_dot_name(rows[i].name))
                        &&& (show_notes || rows[i].is_dir)
                    },
        ),
{
    let holds = |rows: Seq<EntryModel>|
        forall|i: int|
            0 <= i < rows.len() ==> {
                &&& is_visible(#[trigger] rows[i], show_notes)
                &&& !(rows[i].is_dir && is_dot_name(rows[i].name))
                &&& (show_notes || rows[i].is_dir)
            };
    assert forall|es: Seq<EntryModel>, lv: Option<nat>| #[trigger]
        holds(arranged(es, lv, show_notes)) by {
        let rows = arranged(es, lv, show_notes);
        assert forall|i: int| 0 <= i < rows.len() implies {
            &&& is_visible(#[trigger] rows[i], show_notes)
            &&& !(rows[i].is_dir && is_dot_name(rows[i].name))
            &&& (show_notes || rows[i].is_dir)
        } by {
            lemma_arranged_rows(es, lv, show_notes, i);
        }
    }
    lemma_every_level(entries, levels, show_notes, holds);
}

/// Rows have no more than `limit` levels if what lies below each of them
/// has fewer.
proof fn lemma_depth_of_rows(rows: Seq<EntryModel>, limit: nat)
    requires
        rows.len() > 0 ==> limit > 0,
        forall|i: int| 0 <= i < rows.len() ==> depth_of(#[trigger] rows[i].children) < limit,
    ensures
        depth_of(rows) <= limit,
    decreases rows.len(),
{
    if rows.len() > 0 {
        let front = rows.drop_last();
        assert forall|i: int| 0 <= i < front.len() implies depth_of(
            #[trigger] front[i].children,
        ) < limit by {
        }
        lemma_depth_of_rows(front, limit);
    }
}

/// The depth limit: a listing that is limited to `limit` levels has no more
/// than that, whatever the directory holds.
pub proof fn lemma_depth_limit_holds(entries: Seq<EntryModel>, limit: nat, show_notes: bool)
    ensures
        depth_of(arranged(entries, Some(limit), show_notes)) <= limit,
    decreases entries,
{
    let rows = arranged(entries, Some(limit), show_notes);
    assert forall|i: int| 0 <= i < rows.len() implies depth_of(#[trigger] rows[i].children)
        < limit by {
        let from = lemma_arranged_rows(entries, Some(limit), show_notes, i);
        let e = entries[from];
        if e.is_dir {
            lemma_depth_limit_holds(e.children, (limit - 1) as nat, show_notes);
        }
    }
    if rows.len() > 0 {
        lemma_arranged_rows(entries, Some(limit), show_notes, 0);
    }
    lemma_depth_of_rows(rows, limit);
}

/// One level only: in a listing that is limited to one level nothing lies
/// below any row, so all that is drawn is the first level.
pub proof fn lemma_one_level_lists_no_children(entries: Seq<EntryModel>, show_notes: bool)
    ensures
        forall|i: int|
            0 <= i < arranged(entries, Some(1nat), show_notes).len() ==> (#[trigger] arranged(
                entries,
                Some(1nat),
                show_notes,
            )[i]).children.len() == 0,
{
    let rows = arranged(entries, Some(1nat), show_notes);
    assert forall|i: int| 0 <= i < rows.len() implies (#[trigger] rows[i]).children.len() == 0 by {
        lemma_arranged_rows(entries, Some(1nat), show_notes, i);
    }
}

} // verus!
