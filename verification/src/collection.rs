use vstd::prelude::*;

use crate::payload::{EntryView, IsarUpdate};
use crate::record::{applied_prop, apply_update, prop_at, updated_to, Record, RecordView};
use crate::value::{duplicate_opt, opt_view, IsarValue};

verus! {

/// One collection of the model store: its records, in storage order.
pub struct Collection {
    pub records: Vec<Record>,
}

impl View for Collection {
    type V = Seq<RecordView>;

    open spec fn view(&self) -> Seq<RecordView> {
        self.records@.map_values(|r: Record| r@)
    }
}

/// Some record among `recs` carries the identifier `id`.
pub open spec fn has_id(recs: Seq<RecordView>, id: i64) -> bool {
    exists|j: int| 0 <= j < recs.len() && recs[j].id == id
}

/// No record before position `j` carries the same identifier as the one at
/// `j`: position `j` is the one a lookup by that identifier reaches.
pub open spec fn is_first(recs: Seq<RecordView>, j: int) -> bool {
    forall|k: int| 0 <= k < j ==> recs[k].id != recs[j].id
}

/// The records `new` are the records `olds` after one update by identifier:
/// the first record carrying `id` has the payload applied, every other
/// record is exactly as it was.
pub open spec fn updated_by_id(
    new: Seq<RecordView>,
    olds: Seq<RecordView>,
    id: i64,
    entries: Seq<EntryView>,
) -> bool {
    &&& new.len() == olds.len()
    &&& forall|j: int|
        0 <= j < olds.len() ==> if olds[j].id == id && is_first(olds, j) {
            updated_to(new[j], olds[j], entries)
        } else {
            new[j] == olds[j]
        }
}

/// Some position of `ids` in `[from, to)` holds the identifier `id`.
pub open spec fn hit(ids: Seq<i64>, from: int, to: int, id: i64) -> bool {
    exists|p: int| from <= p < to && ids[p] == id
}

/// The records `new` are the records `olds` after a batch update over the
/// window `[from, to)` of the matched identifiers `ids`: the first record
/// carrying an identifier the window names has the payload applied, every
/// other record is exactly as it was.
pub open spec fn updated_by_window(
    new: Seq<RecordView>,
    olds: Seq<RecordView>,
    ids: Seq<i64>,
    from: int,
    to: int,
    entries: Seq<EntryView>,
) -> bool {
    &&& new.len() == olds.len()
    &&& forall|j: int|
        0 <= j < olds.len() ==> if hit(ids, from, to, olds[j].id) && is_first(olds, j) {
            updated_to(new[j], olds[j], entries)
        } else {
            new[j] == olds[j]
        }
}

/// How many positions of `ids` in `[from, to)` name a record present among
/// `recs`: the number of updates a batch over that window performs.
pub open spec fn count_hits(recs: Seq<RecordView>, ids: Seq<i64>, from: int, to: int) -> nat
    decreases to - from,
{
    if to <= from {
        0
    } else {
        count_hits(recs, ids, from, to - 1) + if has_id(recs, ids[to - 1]) {
            1nat
        } else {
            0nat
        }
    }
}

/// A window of `n` positions performs at most `n` updates.
pub proof fn lemma_count_hits_le(recs: Seq<RecordView>, ids: Seq<i64>, from: int, to: int)
    ensures
        count_hits(recs, ids, from, to) <= if to <= from {
            0int
        } else {
            to - from
        },
    decreases to - from,
{
    if to > from {
        lemma_count_hits_le(recs, ids, from, to - 1);
    }
}

/// Records that relate by `updated_by_window` carry the same identifiers,
/// position by position.
proof fn lemma_window_preserves_ids(
    pre: Seq<RecordView>,
    old0: Seq<RecordView>,
    ids: Seq<i64>,
    start: int,
    p: int,
    e: Seq<EntryView>,
)
    requires
        updated_by_window(pre, old0, ids, start, p, e),
    ensures
        pre.len() == old0.len(),
        forall|j: int| 0 <= j < old0.len() ==> pre[j].id == old0[j].id,
{
    assert forall|j: int| 0 <= j < old0.len() implies pre[j].id == old0[j].id by {
        if hit(ids, start, p, old0[j].id) && is_first(old0, j) {
            assert(updated_to(pre[j], old0[j], e));
        } else {
            assert(pre[j] == old0[j]);
        }
    }
}

/// Two stores carrying the same identifiers hold a record for the same
/// identifiers.
proof fn lemma_same_ids_same_has_id(a: Seq<RecordView>, b: Seq<RecordView>, id: i64)
    requires
        a.len() == b.len(),
        forall|j: int| 0 <= j < a.len() ==> a[j].id == b[j].id,
    ensures
        has_id(a, id) == has_id(b, id),
{
    if has_id(a, id) {
        let w = choose|j: int| 0 <= j < a.len() && a[j].id == id;
        assert(b[w].id == id);
    }
    if has_id(b, id) {
        let w = choose|j: int| 0 <= j < b.len() && b[j].id == id;
        assert(a[w].id == id);
    }
}

/// Extending a batch window by one position: updating by the identifier at
/// position `p` takes a store reached over `[start, p)` to one reached over
/// `[start, p + 1)`. Applying the payload a second time to a record already
/// carrying it changes nothing, so a duplicated match is harmless.
proof fn lemma_window_step(
    old0: Seq<RecordView>,
    pre: Seq<RecordView>,
    post: Seq<RecordView>,
    ids: Seq<i64>,
    start: int,
    p: int,
    e: Seq<EntryView>,
)
    requires
        0 <= start <= p < ids.len(),
        updated_by_window(pre, old0, ids, start, p, e),
        updated_by_id(post, pre, ids[p], e),
    ensures
        updated_by_window(post, old0, ids, start, p + 1, e),
{
    lemma_window_preserves_ids(pre, old0, ids, start, p, e);
    assert forall|j: int| 0 <= j < old0.len() implies is_first(pre, j) == is_first(old0, j) by {
        if is_first(old0, j) {
            assert forall|k: int| 0 <= k < j implies pre[k].id != pre[j].id by {
                assert(pre[k].id == old0[k].id);
                assert(pre[j].id == old0[j].id);
            }
        }
        if is_first(pre, j) {
            assert forall|k: int| 0 <= k < j implies old0[k].id != old0[j].id by {
                assert(pre[k].id == old0[k].id);
                assert(pre[j].id == old0[j].id);
            }
        }
    }
    assert forall|j: int|
        0 <= j < old0.len() implies (if hit(ids, start, p + 1, old0[j].id) && is_first(old0, j) {
        updated_to(post[j], old0[j], e)
    } else {
        post[j] == old0[j]
    }) by {
        if hit(ids, start, p + 1, old0[j].id) && is_first(old0, j) {
            assert(is_first(pre, j));
            if old0[j].id == ids[p] {
                assert(pre[j].id == ids[p]);
                assert(updated_to(post[j], pre[j], e));
                if hit(ids, start, p, old0[j].id) {
                    assert(updated_to(pre[j], old0[j], e));
                    assert forall|q: u16|
                        prop_at(post[j].fields, q) == applied_prop(e, old0[j].fields, q) by {
                        assert(prop_at(post[j].fields, q) == applied_prop(e, pre[j].fields, q));
                        assert(prop_at(pre[j].fields, q) == applied_prop(e, old0[j].fields, q));
                    }
                } else {
                    assert(pre[j] == old0[j]);
                }
            } else {
                assert(hit(ids, start, p, old0[j].id)) by {
                    let w = choose|pp: int| start <= pp < p + 1 && ids[pp] == old0[j].id;
                    assert(w != p);
                    assert(start <= w < p && ids[w] == old0[j].id);
                }
                assert(updated_to(pre[j], old0[j], e));
                assert(pre[j].id == old0[j].id);
                assert(post[j] == pre[j]);
            }
        } else {
            if is_first(old0, j) {
                assert(!hit(ids, start, p, old0[j].id)) by {
                    if hit(ids, start, p, old0[j].id) {
                        let w = choose|pp: int| start <= pp < p && ids[pp] == old0[j].id;
                        assert(start <= w < p + 1 && ids[w] == old0[j].id);
                    }
                }
                assert(pre[j] == old0[j]);
                assert(old0[j].id != ids[p]) by {
                    if old0[j].id == ids[p] {
                        assert(start <= p < p + 1 && ids[p] == old0[j].id);
                    }
                }
                assert(post[j] == pre[j]);
            } else {
                assert(pre[j] == old0[j]);
                assert(!is_first(pre, j));
                assert(post[j] == pre[j]);
            }
        }
    }
}

impl Collection {
    /// Applies the payload to the record carrying `id`, if there is one.
    /// Returns whether a record was updated; a missing identifier is a
    /// normal outcome, not an error.
    pub fn update_record(&mut self, id: i64, update: &IsarUpdate) -> (updated: bool)
        ensures
            updated == has_id(old(self)@, id),
            updated_by_id(final(self)@, old(self)@, id, update@),
    {
        let n = self.records.len();
        let mut j: usize = 0;
        while j < n
            invariant
                n == self.records.len(),
                j <= n,
                self.records@ == old(self).records@,
                forall|k: int| 0 <= k < j ==> self@[k].id != id,
            decreases n - j,
        {
            if self.records[j].id == id {
                proof {
                    assert(old(self)@[j as int] == old(self).records@[j as int]@);
                    assert(old(self)@[j as int].id == id);
                    assert(has_id(old(self)@, id));
                    assert forall|k: int| 0 <= k < j implies old(self)@[k].id != old(
                        self,
                    )@[j as int].id by {
                        assert(self@[k].id != id);
                    }
                    assert(is_first(old(self)@, j as int));
                }
                let mut rec = self.records.remove(j);
                apply_update(&mut rec, update);
                self.records.insert(j, rec);
                proof {
                    assert(self.records@ =~= old(self).records@.update(j as int, rec));
                    assert(self@[j as int] == rec@);
                    assert forall|k: int| 0 <= k < old(self)@.len() && k != j implies self@[k]
                        == old(self)@[k] by {
                        assert(self.records@[k] == old(self).records@[k]);
                    }
                }
                return true;
            }
            j += 1;
        }
        proof {
            assert forall|k: int| 0 <= k < old(self)@.len() implies old(self)@[k].id != id by {
                assert(self@[k].id != id);
            }
        }
        false
    }

    /// Applies the payload to every record named by positions `[start, end)`
    /// of the matched identifiers `ids`, in that order, and returns how many
    /// records were actually updated. An identifier naming no record is
    /// skipped without being counted.
    pub fn update_window(
        &mut self,
        ids: &Vec<i64>,
        start: usize,
        end: usize,
        update: &IsarUpdate,
    ) -> (count: u32)
        requires
            start <= end <= ids@.len(),
            end - start <= u32::MAX,
        ensures
            updated_by_window(final(self)@, old(self)@, ids@, start as int, end as int, update@),
            count as nat == count_hits(old(self)@, ids@, start as int, end as int),
    {
        let mut p = start;
        let mut count: u32 = 0;
        while p < end
            invariant
                start <= p <= end,
                end <= ids@.len(),
                end - start <= u32::MAX,
                updated_by_window(self@, old(self)@, ids@, start as int, p as int, update@),
                count as nat == count_hits(old(self)@, ids@, start as int, p as int),
            decreases end - p,
        {
            let ghost pre = self@;
            let updated = self.update_record(ids[p], update);
            proof {
                lemma_window_step(old(self)@, pre, self@, ids@, start as int, p as int, update@);
                assert(has_id(pre, ids@[p as int]) == has_id(old(self)@, ids@[p as int])) by {
                    lemma_window_preserves_ids(
                        pre,
                        old(self)@,
                        ids@,
                        start as int,
                        p as int,
                        update@,
                    );
                    lemma_same_ids_same_has_id(pre, old(self)@, ids@[p as int]);
                }
                lemma_count_hits_le(old(self)@, ids@, start as int, p as int);
            }
            if updated {
                count += 1;
            }
            p += 1;
        }
        count
    }

    /// Reads property `property` of the record carrying `id`, duplicating
    /// the stored value; absent records and absent properties read as null.
    pub fn get_prop(&self, id: i64, property: u16) -> (r: Option<IsarValue>)
        ensures
            !has_id(self@, id) ==> r is None,
            forall|j: int|
                0 <= j < self@.len() && self@[j].id == id && is_first(self@, j) ==> opt_view(r)
                    == prop_at(self@[j].fields, property),
    {
        let n = self.records.len();
        let mut j: usize = 0;
        while j < n
            invariant
                n == self.records.len(),
                j <= n,
                forall|k: int| 0 <= k < j ==> self@[k].id != id,
            decreases n - j,
        {
            if self.records[j].id == id {
                let rec = &self.records[j];
                let r = if (property as usize) < rec.fields.len() {
                    duplicate_opt(&rec.fields[property as usize])
                } else {
                    None
                };
                proof {
                    assert(self@[j as int] == self.records@[j as int]@);
                    assert(has_id(self@, id));
                    assert forall|jj: int|
                        0 <= jj < self@.len() && self@[jj].id == id && is_first(
                            self@,
                            jj,
                        ) implies opt_view(r) == prop_at(self@[jj].fields, property) by {
                        if jj > j {
                            assert(self@[j as int].id == self@[jj].id);
                            assert(false);
                        }
                        assert(jj == j);
                        if (property as int) < rec.fields@.len() {
                            assert(self@[j as int].fields[property as int] == opt_view(
                                rec.fields@[property as int],
                            ));
                        }
                    }
                }
                return r;
            }
            j += 1;
        }
        None
    }
}

} // verus!
