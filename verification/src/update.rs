use vstd::prelude::*;

use crate::collection::{count_hits, has_id, updated_by_id, updated_by_window, Collection};
use crate::handles::{cols_view, IsarInstance, IsarQuery, IsarTxn, Query};
use crate::payload::IsarUpdate;
use crate::window::{norm_bound, normalize_bound, win_end, win_start};

verus! {

/// The status code reporting a completed operation.
pub const SUCCESS: u8 = 0;

/// The status code reporting that the handles of one call name different
/// backend variants; such a call mutates nothing.
pub const ERROR_ILLEGAL_ARGUMENT: u8 = 1;

/// Applies the payload to the record of collection `collection_index`
/// carrying `id`, within one engine's collections.
fn do_update(cols: &mut Vec<Collection>, collection_index: u16, id: i64, update: &IsarUpdate) -> (updated: bool)
    ensures
        final(cols)@.len() == old(cols)@.len(),
        (collection_index as int) < old(cols)@.len() ==> {
            &&& updated == has_id(cols_view(old(cols)@)[collection_index as int], id)
            &&& updated_by_id(
                cols_view(final(cols)@)[collection_index as int],
                cols_view(old(cols)@)[collection_index as int],
                id,
                update@,
            )
            &&& forall|c: int|
                0 <= c < old(cols)@.len() && c != collection_index ==> cols_view(final(cols)@)[c]
                    == cols_view(old(cols)@)[c]
        },
        (collection_index as int) >= old(cols)@.len()
            ==> updated == false && cols_view(final(cols)@) == cols_view(old(cols)@),
{
    let n = cols.len();
    if (collection_index as usize) < n {
        let ci = collection_index as usize;
        let mut col = cols.remove(ci);
        let updated = col.update_record(id, update);
        cols.insert(ci, col);
        proof {
            assert(cols@ =~= old(cols)@.update(ci as int, col));
            assert(cols_view(old(cols)@)[ci as int] == old(cols)@[ci as int]@);
            assert(cols_view(cols@)[ci as int] == col@);
            assert forall|c: int|
                0 <= c < old(cols)@.len() && c != ci implies cols_view(cols@)[c] == cols_view(
                old(cols)@,
            )[c] by {
                assert(cols@[c] == old(cols)@[c]);
            }
        }
        updated
    } else {
        false
    }
}

/// Applies the payload to the window of the query's matches, within one
/// engine's collections, and counts the records updated.
fn do_query_update(
    cols: &mut Vec<Collection>,
    query: &Query,
    offset: i64,
    limit: i64,
    update: &IsarUpdate,
) -> (count: u32)
    requires
        query.matched_ids@.len() <= u32::MAX,
    ensures
        final(cols)@.len() == old(cols)@.len(),
        ({
            let ids = query.matched_ids@;
            let from = win_start(norm_bound(offset), ids.len() as int);
            let to = win_end(norm_bound(limit), from, ids.len() as int);
            &&& ((query.collection_index as int) < old(cols)@.len() ==> {
                &&& updated_by_window(
                    cols_view(final(cols)@)[query.collection_index as int],
                    cols_view(old(cols)@)[query.collection_index as int],
                    ids,
                    from,
                    to,
                    update@,
                )
                &&& count as nat == count_hits(
                    cols_view(old(cols)@)[query.collection_index as int],
                    ids,
                    from,
                    to,
                )
                &&& forall|c: int|
                    0 <= c < old(cols)@.len() && c != query.collection_index
                        ==> cols_view(final(cols)@)[c] == cols_view(old(cols)@)[c]
            })
            &&& ((query.collection_index as int) >= old(cols)@.len()
                ==> count == 0 && cols_view(final(cols)@) == cols_view(old(cols)@))
        }),
{
    let off = normalize_bound(offset);
    let lim = normalize_bound(limit);
    let n_ids = query.matched_ids.len();
    let start: usize = match off {
        None => 0,
        Some(o) => if (o as usize) <= n_ids {
            o as usize
        } else {
            n_ids
        },
    };
    let end: usize = match lim {
        None => n_ids,
        Some(l) => if (l as usize) <= n_ids - start {
            start + (l as usize)
        } else {
            n_ids
        },
    };
    proof {
        assert(start as int == win_start(norm_bound(offset), n_ids as int));
        assert(end as int == win_end(norm_bound(limit), start as int, n_ids as int));
    }
    let n = cols.len();
    if (query.collection_index as usize) < n {
        let ci = query.collection_index as usize;
        let mut col = cols.remove(ci);
        let count = col.update_window(&query.matched_ids, start, end, update);
        cols.insert(ci, col);
        proof {
            assert(cols@ =~= old(cols)@.update(ci as int, col));
            assert(cols_view(old(cols)@)[ci as int] == old(cols)@[ci as int]@);
            assert(cols_view(cols@)[ci as int] == col@);
            assert forall|c: int|
                0 <= c < old(cols)@.len() && c != ci implies cols_view(cols@)[c] == cols_view(
                old(cols)@,
            )[c] by {
                assert(cols@[c] == old(cols)@[c]);
            }
        }
        count
    } else {
        0
    }
}

/// Applies the consumed payload to the record carrying `id` in collection
/// `collection_index`, inside the given transaction. The storage and
/// transaction handles must name the same backend variant, or the call
/// reports `ERROR_ILLEGAL_ARGUMENT` and mutates nothing. A missing
/// identifier is a normal outcome: the call succeeds with `false`.
pub fn isar_update(
    isar: &mut IsarInstance,
    txn: &IsarTxn,
    collection_index: u16,
    id: i64,
    update: IsarUpdate,
) -> (r: (u8, bool))
    ensures
        final(isar).backend() == old(isar).backend(),
        old(isar).backend() != txn.backend() ==> r == (ERROR_ILLEGAL_ARGUMENT, false)
            && final(isar).cols() == old(isar).cols(),
        old(isar).backend() == txn.backend() ==> {
            &&& r.0 == SUCCESS
            &&& final(isar).cols().len() == old(isar).cols().len()
            &&& ((collection_index as int) < old(isar).cols().len() ==> {
                &&& r.1 == has_id(old(isar).cols()[collection_index as int], id)
                &&& updated_by_id(
                    final(isar).cols()[collection_index as int],
                    old(isar).cols()[collection_index as int],
                    id,
                    update@,
                )
                &&& forall|c: int|
                    0 <= c < old(isar).cols().len() && c != collection_index
                        ==> final(isar).cols()[c] == old(isar).cols()[c]
            })
            &&& ((collection_index as int) >= old(isar).cols().len()
                ==> r.1 == false && final(isar).cols() == old(isar).cols())
        },
{
    match (isar, txn) {
        (IsarInstance::Native(cols), IsarTxn::Native) => {
            let updated = do_update(cols, collection_index, id, &update);
            (SUCCESS, updated)
        },
        (IsarInstance::SQLite(cols), IsarTxn::SQLite) => {
            let updated = do_update(cols, collection_index, id, &update);
            (SUCCESS, updated)
        },
        _ => (ERROR_ILLEGAL_ARGUMENT, false),
    }
}

/// Applies the consumed payload to every record the query matches, in the
/// backend's result order, skipping the first `offset` matches and updating
/// at most `limit` further ones; a negative bound means "unbounded", a
/// non-negative one is clamped into the unsigned 32-bit range. All three
/// handles must name the same backend variant, or the call reports
/// `ERROR_ILLEGAL_ARGUMENT` and mutates nothing. Returns the number of
/// records updated.
pub fn isar_query_update(
    isar: &mut IsarInstance,
    txn: &IsarTxn,
    query: &IsarQuery,
    offset: i64,
    limit: i64,
    update: IsarUpdate,
) -> (r: (u8, u32))
    requires
        query.data().matched_ids@.len() <= u32::MAX,
    ensures
        final(isar).backend() == old(isar).backend(),
        !(old(isar).backend() == txn.backend() && old(isar).backend() == query.backend()) ==> r
            == (ERROR_ILLEGAL_ARGUMENT, 0u32) && final(isar).cols() == old(isar).cols(),
        old(isar).backend() == txn.backend() && old(isar).backend() == query.backend() ==> ({
            let ids = query.data().matched_ids@;
            let from = win_start(norm_bound(offset), ids.len() as int);
            let to = win_end(norm_bound(limit), from, ids.len() as int);
            let ci = query.data().collection_index as int;
            &&& r.0 == SUCCESS
            &&& final(isar).cols().len() == old(isar).cols().len()
            &&& (ci < old(isar).cols().len() ==> {
                &&& updated_by_window(
                    final(isar).cols()[ci],
                    old(isar).cols()[ci],
                    ids,
                    from,
                    to,
                    update@,
                )
                &&& r.1 as nat == count_hits(old(isar).cols()[ci], ids, from, to)
                &&& forall|c: int|
                    0 <= c < old(isar).cols().len() && c != ci
                        ==> final(isar).cols()[c] == old(isar).cols()[c]
            })
            &&& (ci >= old(isar).cols().len()
                ==> r.1 == 0 && final(isar).cols() == old(isar).cols())
        }),
{
    match (isar, txn, query) {
        (IsarInstance::Native(cols), IsarTxn::Native, IsarQuery::Native(q)) => {
            let count = do_query_update(cols, q, offset, limit, &update);
            (SUCCESS, count)
        },
        (IsarInstance::SQLite(cols), IsarTxn::SQLite, IsarQuery::SQLite(q)) => {
            let count = do_query_update(cols, q, offset, limit, &update);
            (SUCCESS, count)
        },
        _ => (ERROR_ILLEGAL_ARGUMENT, 0),
    }
}

} // verus!
