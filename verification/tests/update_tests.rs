use isar_update::collection::Collection;
use isar_update::handles::{IsarInstance, IsarQuery, IsarTxn, Query};
use isar_update::payload::{isar_update_add_value, isar_update_new, IsarUpdate};
use isar_update::record::Record;
use isar_update::update::{isar_query_update, isar_update, ERROR_ILLEGAL_ARGUMENT, SUCCESS};
use isar_update::value::IsarValue;

fn record(id: i64, fields: Vec<Option<IsarValue>>) -> Record {
    Record { id, fields }
}

/// One collection holding five records with identifiers 1..=5; record `i`
/// starts with property 0 set to `Integer(10 * i)`.
fn five_record_instance() -> IsarInstance {
    let records = (1..=5i64)
        .map(|i| record(i, vec![Some(IsarValue::Integer(10 * i))]))
        .collect();
    IsarInstance::Native(vec![Collection { records }])
}

fn query_all_five() -> IsarQuery {
    IsarQuery::Native(Query { collection_index: 0, matched_ids: vec![1, 2, 3, 4, 5] })
}

fn read_prop(isar: &IsarInstance, col: usize, id: i64, property: u16) -> Option<IsarValue> {
    match isar {
        IsarInstance::Native(cols) => cols[col].get_prop(id, property),
        IsarInstance::SQLite(cols) => cols[col].get_prop(id, property),
    }
}

fn marking_payload() -> IsarUpdate {
    let mut u = isar_update_new();
    isar_update_add_value(&mut u, 1, Some(IsarValue::Bool(true)));
    u
}

#[test]
fn new_payload_is_empty() {
    let u = isar_update_new();
    assert!(u.0.is_empty());
}

#[test]
fn payload_appends_in_order() {
    let mut u = isar_update_new();
    isar_update_add_value(&mut u, 3, Some(IsarValue::Integer(7)));
    isar_update_add_value(&mut u, 9, None);
    isar_update_add_value(&mut u, 3, Some(IsarValue::Text(String::from("hi"))));
    assert_eq!(u.0.len(), 3);
    assert_eq!(u.0[0], (3, Some(IsarValue::Integer(7))));
    assert_eq!(u.0[1], (9, None));
    assert_eq!(u.0[2], (3, Some(IsarValue::Text(String::from("hi")))));
}

#[test]
fn update_by_id_sets_value() {
    let mut isar = five_record_instance();
    let txn = IsarTxn::Native;
    let mut u = isar_update_new();
    isar_update_add_value(&mut u, 0, Some(IsarValue::Integer(99)));
    let (code, updated) = isar_update(&mut isar, &txn, 0, 2, u);
    assert_eq!(code, SUCCESS);
    assert!(updated);
    assert_eq!(read_prop(&isar, 0, 2, 0), Some(IsarValue::Integer(99)));
    assert_eq!(read_prop(&isar, 0, 1, 0), Some(IsarValue::Integer(10)));
    assert_eq!(read_prop(&isar, 0, 3, 0), Some(IsarValue::Integer(30)));
}

#[test]
fn explicit_null_clears_property() {
    let mut isar = five_record_instance();
    let txn = IsarTxn::Native;
    let mut u = isar_update_new();
    isar_update_add_value(&mut u, 0, None);
    let (code, updated) = isar_update(&mut isar, &txn, 0, 4, u);
    assert_eq!(code, SUCCESS);
    assert!(updated);
    assert_eq!(read_prop(&isar, 0, 4, 0), None);
}

#[test]
fn omitted_property_left_unchanged() {
    let mut isar = five_record_instance();
    let txn = IsarTxn::Native;
    // Property 0 is never mentioned: only property 1 is set.
    let (code, updated) = isar_update(&mut isar, &txn, 0, 4, marking_payload());
    assert_eq!(code, SUCCESS);
    assert!(updated);
    assert_eq!(read_prop(&isar, 0, 4, 0), Some(IsarValue::Integer(40)));
    assert_eq!(read_prop(&isar, 0, 4, 1), Some(IsarValue::Bool(true)));
}

#[test]
fn later_entry_overrides_earlier() {
    let mut isar = five_record_instance();
    let txn = IsarTxn::Native;
    let mut u = isar_update_new();
    isar_update_add_value(&mut u, 0, Some(IsarValue::Integer(1)));
    isar_update_add_value(&mut u, 0, Some(IsarValue::Integer(2)));
    let (code, updated) = isar_update(&mut isar, &txn, 0, 1, u);
    assert_eq!(code, SUCCESS);
    assert!(updated);
    assert_eq!(read_prop(&isar, 0, 1, 0), Some(IsarValue::Integer(2)));
}

#[test]
fn update_by_id_missing_identifier() {
    let mut isar = five_record_instance();
    let txn = IsarTxn::Native;
    let (code, updated) = isar_update(&mut isar, &txn, 0, 99, marking_payload());
    assert_eq!(code, SUCCESS);
    assert!(!updated);
    for id in 1..=5i64 {
        assert_eq!(read_prop(&isar, 0, id, 0), Some(IsarValue::Integer(10 * id)));
        assert_eq!(read_prop(&isar, 0, id, 1), None);
    }
}

#[test]
fn update_collection_index_out_of_range() {
    let mut isar = five_record_instance();
    let txn = IsarTxn::Native;
    let (code, updated) = isar_update(&mut isar, &txn, 7, 1, marking_payload());
    assert_eq!(code, SUCCESS);
    assert!(!updated);
    assert_eq!(read_prop(&isar, 0, 1, 1), None);
}

#[test]
fn update_backend_mismatch() {
    let mut isar = five_record_instance();
    let txn = IsarTxn::SQLite;
    let (code, updated) = isar_update(&mut isar, &txn, 0, 1, marking_payload());
    assert_eq!(code, ERROR_ILLEGAL_ARGUMENT);
    assert!(!updated);
    assert_eq!(read_prop(&isar, 0, 1, 0), Some(IsarValue::Integer(10)));
    assert_eq!(read_prop(&isar, 0, 1, 1), None);
}

#[test]
fn query_update_backend_mismatch() {
    let mut isar = five_record_instance();
    let txn = IsarTxn::Native;
    let query = IsarQuery::SQLite(Query { collection_index: 0, matched_ids: vec![1, 2] });
    let (code, count) = isar_query_update(&mut isar, &txn, &query, 0, -1, marking_payload());
    assert_eq!(code, ERROR_ILLEGAL_ARGUMENT);
    assert_eq!(count, 0);
    for id in 1..=5i64 {
        assert_eq!(read_prop(&isar, 0, id, 1), None);
    }
}

#[test]
fn query_update_txn_mismatch() {
    let mut isar = five_record_instance();
    let txn = IsarTxn::SQLite;
    let query = query_all_five();
    let (code, count) = isar_query_update(&mut isar, &txn, &query, -1, -1, marking_payload());
    assert_eq!(code, ERROR_ILLEGAL_ARGUMENT);
    assert_eq!(count, 0);
    for id in 1..=5i64 {
        assert_eq!(read_prop(&isar, 0, id, 1), None);
    }
}

#[test]
fn query_update_window_offset_two_limit_two() {
    let mut isar = five_record_instance();
    let txn = IsarTxn::Native;
    let query = query_all_five();
    let (code, count) = isar_query_update(&mut isar, &txn, &query, 2, 2, marking_payload());
    assert_eq!(code, SUCCESS);
    assert_eq!(count, 2);
    // Result positions 2 and 3 carry identifiers 3 and 4.
    assert_eq!(read_prop(&isar, 0, 3, 1), Some(IsarValue::Bool(true)));
    assert_eq!(read_prop(&isar, 0, 4, 1), Some(IsarValue::Bool(true)));
    for id in [1, 2, 5] {
        assert_eq!(read_prop(&isar, 0, id, 1), None);
        assert_eq!(read_prop(&isar, 0, id, 0), Some(IsarValue::Integer(10 * id)));
    }
}

#[test]
fn query_update_negative_bounds_update_all() {
    let mut isar = five_record_instance();
    let txn = IsarTxn::Native;
    let query = query_all_five();
    let (code, count) = isar_query_update(&mut isar, &txn, &query, -1, -1, marking_payload());
    assert_eq!(code, SUCCESS);
    assert_eq!(count, 5);
    for id in 1..=5i64 {
        assert_eq!(read_prop(&isar, 0, id, 1), Some(IsarValue::Bool(true)));
    }
}

#[test]
fn query_update_negative_offset_is_zero() {
    let mut isar = five_record_instance();
    let txn = IsarTxn::Native;
    let query = query_all_five();
    let (code, count) = isar_query_update(&mut isar, &txn, &query, -3, 2, marking_payload());
    assert_eq!(code, SUCCESS);
    assert_eq!(count, 2);
    assert_eq!(read_prop(&isar, 0, 1, 1), Some(IsarValue::Bool(true)));
    assert_eq!(read_prop(&isar, 0, 2, 1), Some(IsarValue::Bool(true)));
    for id in [3, 4, 5] {
        assert_eq!(read_prop(&isar, 0, id, 1), None);
    }
}

#[test]
fn query_update_offset_beyond_matches() {
    let mut isar = five_record_instance();
    let txn = IsarTxn::Native;
    let query = query_all_five();
    let (code, count) = isar_query_update(&mut isar, &txn, &query, 10, -1, marking_payload());
    assert_eq!(code, SUCCESS);
    assert_eq!(count, 0);
    for id in 1..=5i64 {
        assert_eq!(read_prop(&isar, 0, id, 1), None);
    }
}

#[test]
fn query_update_zero_limit_updates_nothing() {
    let mut isar = five_record_instance();
    let txn = IsarTxn::Native;
    let query = query_all_five();
    let (code, count) = isar_query_update(&mut isar, &txn, &query, 0, 0, marking_payload());
    assert_eq!(code, SUCCESS);
    assert_eq!(count, 0);
    for id in 1..=5i64 {
        assert_eq!(read_prop(&isar, 0, id, 1), None);
    }
}

#[test]
fn query_update_limit_exceeds_matches() {
    let mut isar = five_record_instance();
    let txn = IsarTxn::Native;
    let query = query_all_five();
    let (code, count) = isar_query_update(&mut isar, &txn, &query, 0, 100, marking_payload());
    assert_eq!(code, SUCCESS);
    assert_eq!(count, 5);
}

#[test]
fn query_update_huge_offset_clamped() {
    let mut isar = five_record_instance();
    let txn = IsarTxn::Native;
    let query = query_all_five();
    let offset = u32::MAX as i64 + 10;
    let (code, count) = isar_query_update(&mut isar, &txn, &query, offset, -1, marking_payload());
    assert_eq!(code, SUCCESS);
    assert_eq!(count, 0);
}

#[test]
fn query_update_missing_identifiers_not_counted() {
    let mut isar = five_record_instance();
    let txn = IsarTxn::Native;
    let query = IsarQuery::Native(Query { collection_index: 0, matched_ids: vec![4, 77, 5] });
    let (code, count) = isar_query_update(&mut isar, &txn, &query, 0, -1, marking_payload());
    assert_eq!(code, SUCCESS);
    assert_eq!(count, 2);
    assert_eq!(read_prop(&isar, 0, 4, 1), Some(IsarValue::Bool(true)));
    assert_eq!(read_prop(&isar, 0, 5, 1), Some(IsarValue::Bool(true)));
}

#[test]
fn query_update_empty_matches() {
    let mut isar = five_record_instance();
    let txn = IsarTxn::Native;
    let query = IsarQuery::Native(Query { collection_index: 0, matched_ids: Vec::new() });
    let (code, count) = isar_query_update(&mut isar, &txn, &query, -1, -1, marking_payload());
    assert_eq!(code, SUCCESS);
    assert_eq!(count, 0);
}

#[test]
fn query_update_duplicate_match_counted_per_position() {
    let mut isar = five_record_instance();
    let txn = IsarTxn::Native;
    let query = IsarQuery::Native(Query { collection_index: 0, matched_ids: vec![2, 2] });
    let (code, count) = isar_query_update(&mut isar, &txn, &query, 0, -1, marking_payload());
    assert_eq!(code, SUCCESS);
    assert_eq!(count, 2);
    assert_eq!(read_prop(&isar, 0, 2, 1), Some(IsarValue::Bool(true)));
}

#[test]
fn text_value_round_trips_through_store() {
    let mut isar = five_record_instance();
    let txn = IsarTxn::Native;
    let mut u = isar_update_new();
    isar_update_add_value(&mut u, 2, Some(IsarValue::Text(String::from("renamed"))));
    let (code, updated) = isar_update(&mut isar, &txn, 0, 5, u);
    assert_eq!(code, SUCCESS);
    assert!(updated);
    assert_eq!(
        read_prop(&isar, 0, 5, 2),
        Some(IsarValue::Text(String::from("renamed")))
    );
}

#[test]
fn update_leaves_other_collections_alone() {
    let first = Collection { records: vec![record(1, vec![Some(IsarValue::Integer(10))])] };
    let second = Collection { records: vec![record(1, vec![Some(IsarValue::Integer(20))])] };
    let mut isar = IsarInstance::SQLite(vec![first, second]);
    let txn = IsarTxn::SQLite;
    let mut u = isar_update_new();
    isar_update_add_value(&mut u, 0, Some(IsarValue::Integer(99)));
    let (code, updated) = isar_update(&mut isar, &txn, 1, 1, u);
    assert_eq!(code, SUCCESS);
    assert!(updated);
    assert_eq!(read_prop(&isar, 0, 1, 0), Some(IsarValue::Integer(10)));
    assert_eq!(read_prop(&isar, 1, 1, 0), Some(IsarValue::Integer(99)));
}
