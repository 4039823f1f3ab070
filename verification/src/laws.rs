use vstd::prelude::*;

use crate::collection::{count_hits, has_id, hit, is_first, updated_by_id, updated_by_window};
use crate::payload::EntryView;
use crate::record::{applied_prop, prop_at, updated_to, written_value, RecordView};
use crate::value::IsarValueView;
use crate::window::{norm_bound, win_end, win_start};

verus! {

/// Law: appending an entry grows a payload by exactly one entry, keeps every
/// earlier entry where it was, and stores the appended pair unchanged — so a
/// payload built by a run of appends holds exactly those pairs, in call
/// order.
pub proof fn lemma_append_round_trip(entries: Seq<EntryView>, e: EntryView)
    ensures
        entries.push(e).len() == entries.len() + 1,
        entries.push(e)[entries.len() as int] == e,
        forall|k: int| 0 <= k < entries.len() ==> entries.push(e)[k] == entries[k],
{
}

/// Law: a payload whose last mention of a property is an explicit null
/// clears that property on any record it is applied to.
pub proof fn lemma_explicit_null_clears(
    entries: Seq<EntryView>,
    fields: Seq<Option<IsarValueView>>,
    pid: u16,
)
    requires
        written_value(entries, pid) == Some(Option::<IsarValueView>::None),
    ensures
        applied_prop(entries, fields, pid) is None,
{
}

/// Law: a property that no entry of the payload mentions reads, after the
/// payload is applied, exactly as it read before — omitting a property is
/// observably different from setting it to the explicit null.
pub proof fn lemma_omitted_property_unchanged(
    entries: Seq<EntryView>,
    fields: Seq<Option<IsarValueView>>,
    pid: u16,
)
    requires
        forall|k: int| 0 <= k < entries.len() ==> entries[k].0 != pid,
    ensures
        applied_prop(entries, fields, pid) == prop_at(fields, pid),
    decreases entries.len(),
{
    if entries.len() > 0 {
        assert forall|k: int| 0 <= k < entries.drop_last().len() implies entries.drop_last()[k].0
            != pid by {
            assert(entries.drop_last()[k] == entries[k]);
        }
        lemma_omitted_property_unchanged(entries.drop_last(), fields, pid);
    }
}

/// Law: updating by an identifier that no record carries mutates nothing.
pub proof fn lemma_missing_id_mutates_nothing(
    new: Seq<RecordView>,
    olds: Seq<RecordView>,
    id: i64,
    e: Seq<EntryView>,
)
    requires
        updated_by_id(new, olds, id, e),
        !has_id(olds, id),
    ensures
        new == olds,
{
    assert forall|j: int| 0 <= j < olds.len() implies new[j] == olds[j] by {
        if olds[j].id == id {
            assert(has_id(olds, id));
        }
    }
    assert(new =~= olds);
}

/// Law: when every match names a present record, a batch over the window
/// `[from, to)` updates exactly `to - from` records, one per position.
pub proof fn lemma_window_count_full(recs: Seq<RecordView>, ids: Seq<i64>, from: int, to: int)
    requires
        0 <= from,
        to <= ids.len(),
        forall|p: int| 0 <= p < ids.len() ==> has_id(recs, ids[p]),
    ensures
        count_hits(recs, ids, from, to) == if to <= from {
            0int
        } else {
            to - from
        },
    decreases to - from,
{
    if to > from {
        lemma_window_count_full(recs, ids, from, to - 1);
    }
}

/// Law: for a non-negative offset `o` and limit `l` over `m` matches, the
/// window spans exactly `max(0, min(l, m - o))` positions.
pub proof fn lemma_window_span(o: u32, l: u32, m: int)
    requires
        0 <= m,
    ensures
        ({
            let from = win_start(Some(o), m);
            let to = win_end(Some(l), from, m);
            to - from == if m - o < 0 {
                0int
            } else if l <= m - o {
                l as int
            } else {
                m - o
            }
        }),
{
}

/// Law: against a query whose matches all name present records, a batch
/// with non-negative offset `o` and limit `l` updates exactly
/// `max(0, min(l, M - o))` records, where `M` is the number of matches.
pub proof fn lemma_pagination_count(recs: Seq<RecordView>, ids: Seq<i64>, o: u32, l: u32)
    requires
        forall|p: int| 0 <= p < ids.len() ==> has_id(recs, ids[p]),
    ensures
        ({
            let m = ids.len() as int;
            let from = win_start(Some(o), m);
            let to = win_end(Some(l), from, m);
            count_hits(recs, ids, from, to) == if m - o < 0 {
                0int
            } else if l <= m - o {
                l as int
            } else {
                m - o
            }
        }),
{
    let m = ids.len() as int;
    let from = win_start(Some(o), m);
    let to = win_end(Some(l), from, m);
    lemma_window_span(o, l, m);
    lemma_window_count_full(recs, ids, from, to);
}

/// Law: a batch window updates the record of every match inside it, and a
/// record none of whose identifiers the window names is left exactly as it
/// was — positions before the offset and at or past the limit are untouched.
pub proof fn lemma_window_updates_exactly(
    new: Seq<RecordView>,
    olds: Seq<RecordView>,
    ids: Seq<i64>,
    from: int,
    to: int,
    e: Seq<EntryView>,
)
    requires
        updated_by_window(new, olds, ids, from, to, e),
        0 <= from <= to <= ids.len(),
    ensures
        forall|j: int, p: int|
            0 <= j < olds.len() && from <= p < to && olds[j].id == ids[p] && is_first(olds, j)
                ==> updated_to(new[j], olds[j], e),
        forall|j: int|
            0 <= j < olds.len() && !hit(ids, from, to, olds[j].id) ==> new[j] == olds[j],
{
    assert forall|j: int, p: int|
        0 <= j < olds.len() && from <= p < to && olds[j].id == ids[p] && is_first(
            olds,
            j,
        ) implies updated_to(new[j], olds[j], e) by {
        assert(hit(ids, from, to, olds[j].id));
    }
}

/// Law: a negative offset behaves as offset zero, and a negative limit as no
/// limit at all — the window then runs from its start to the last match.
pub proof fn lemma_negative_bounds_unbounded(offset: i64, limit: i64, from: int, m: int)
    requires
        offset < 0,
        limit < 0,
        0 <= m,
    ensures
        win_start(norm_bound(offset), m) == 0,
        win_start(norm_bound(offset), m) == win_start(Some(0u32), m),
        win_end(norm_bound(limit), from, m) == m,
{
}

} // verus!
