use sea_orm_crud::query::{
    new_store, ColumnRef, OptionModel, PageOption, Row, ServiceError, SortOption, Store,
};

// The fixture entity has two non-identity fields: values[0] is a payload,
// values[1] is the created-at timestamp the default sort orders by.
fn fixture_store() -> Store {
    new_store(2, 1)
}

fn row(id: i32, payload: i64, created_at: i64) -> Row {
    Row { id, values: vec![payload, created_at] }
}

fn empty_options() -> OptionModel {
    let options = OptionModel::all_absent(2);
    assert_eq!(options.predicates, vec![None, None]);
    options
}

fn insert_fixture_rows(store: &mut Store, n: i32) {
    for id in 1..=n {
        // Later rows are newer: created_at grows with the identity.
        store.insert_one(row(id, (id % 3) as i64, 100 + id as i64)).expect("insert failed");
    }
}

fn ids(rows: &[Row]) -> Vec<i32> {
    rows.iter().map(|r| r.id).collect()
}

#[test]
fn insert_returns_the_created_row() {
    let mut store = fixture_store();
    let created = store.insert_one(row(1, 7, 100)).expect("insert failed");
    assert_eq!(created.id, 1);
    assert_eq!(created.values, vec![7, 100]);
}

#[test]
fn insert_refuses_a_duplicate_identity() {
    let mut store = fixture_store();
    store.insert_one(row(1, 7, 100)).expect("insert failed");
    let result = store.insert_one(row(1, 8, 101));
    assert_eq!(result, Err(ServiceError::DuplicateIdentity));
    // The store is unchanged: the original row is still there.
    let kept = store.get_one_by_id(1).expect("row vanished");
    assert_eq!(kept.values, vec![7, 100]);
}

#[test]
fn get_one_by_id_finds_exactly_the_row() {
    let mut store = fixture_store();
    insert_fixture_rows(&mut store, 5);
    let found = store.get_one_by_id(3).expect("row 3 missing");
    assert_eq!(found.id, 3);
    assert_eq!(found.values, vec![0, 103]);
    assert!(store.get_one_by_id(99).is_none());
}

#[test]
fn all_absent_options_return_every_row_newest_first() {
    let mut store = fixture_store();
    insert_fixture_rows(&mut store, 3);
    let (rows, summary) = store.find_by_option_model(&empty_options());
    // Every row, ordered by the default created-at column descending.
    assert_eq!(ids(&rows), vec![3, 2, 1]);
    assert_eq!(summary.total_items, 3);
    assert_eq!(summary.total_pages, 1);
}

#[test]
fn all_absent_options_cap_at_the_default_page_size_of_ten() {
    let mut store = fixture_store();
    insert_fixture_rows(&mut store, 12);
    let (rows, summary) = store.find_by_option_model(&empty_options());
    assert_eq!(rows.len(), 10);
    assert_eq!(ids(&rows), vec![12, 11, 10, 9, 8, 7, 6, 5, 4, 3]);
    assert_eq!(summary.total_items, 12);
    assert_eq!(summary.total_pages, 2);
}

#[test]
fn page_two_of_size_five_returns_rows_six_to_ten() {
    let mut store = fixture_store();
    insert_fixture_rows(&mut store, 12);
    let mut options = empty_options();
    options.page_option = Some(PageOption { page: 2, page_size: 5 });
    let (rows, summary) = store.find_by_option_model(&options);
    // Offset (2 - 1) * 5 = 5 into the descending order 12, 11, ..., 1.
    assert_eq!(ids(&rows), vec![7, 6, 5, 4, 3]);
    assert_eq!(summary.total_items, 12);
    assert_eq!(summary.total_pages, 3);
}

#[test]
fn a_page_past_the_end_is_empty_but_keeps_the_totals() {
    let mut store = fixture_store();
    insert_fixture_rows(&mut store, 12);
    let mut options = empty_options();
    options.page_option = Some(PageOption { page: 4, page_size: 5 });
    let (rows, summary) = store.find_by_option_model(&options);
    assert!(rows.is_empty());
    assert_eq!(summary.total_items, 12);
    assert_eq!(summary.total_pages, 3);
}

#[test]
fn an_exactly_divided_row_count_needs_no_extra_page() {
    let mut store = fixture_store();
    insert_fixture_rows(&mut store, 10);
    let mut options = empty_options();
    options.page_option = Some(PageOption { page: 1, page_size: 5 });
    let (_, summary) = store.find_by_option_model(&options);
    assert_eq!(summary.total_items, 10);
    assert_eq!(summary.total_pages, 2);
}

#[test]
fn an_empty_store_reports_zero_items_and_zero_pages() {
    let store = fixture_store();
    let (rows, summary) = store.find_by_option_model(&empty_options());
    assert!(rows.is_empty());
    assert_eq!(summary.total_items, 0);
    assert_eq!(summary.total_pages, 0);
}

#[test]
fn present_predicates_combine_by_and() {
    let mut store = fixture_store();
    store.insert_one(row(1, 5, 100)).expect("insert failed");
    store.insert_one(row(2, 5, 200)).expect("insert failed");
    store.insert_one(row(3, 6, 200)).expect("insert failed");
    let options = OptionModel {
        predicates: vec![Some(5), Some(200)],
        sort_option: None,
        page_option: None,
    };
    let (rows, summary) = store.find_by_option_model(&options);
    assert_eq!(ids(&rows), vec![2]);
    assert_eq!(summary.total_items, 1);
}

#[test]
fn an_explicit_sort_ascending_by_identity_is_honored() {
    let mut store = fixture_store();
    insert_fixture_rows(&mut store, 4);
    let mut options = empty_options();
    options.sort_option = Some(SortOption { column: ColumnRef::Id, desc: false });
    let (rows, _) = store.find_by_option_model(&options);
    assert_eq!(ids(&rows), vec![1, 2, 3, 4]);
}

#[test]
fn get_by_field_searches_with_only_that_predicate() {
    let mut store = fixture_store();
    store.insert_one(row(1, 5, 100)).expect("insert failed");
    store.insert_one(row(2, 5, 200)).expect("insert failed");
    store.insert_one(row(3, 6, 300)).expect("insert failed");
    let (rows, summary) = store.get_by_field(0, 5, None, None);
    // Both payload-5 rows, newest first.
    assert_eq!(ids(&rows), vec![2, 1]);
    assert_eq!(summary.total_items, 2);
    assert_eq!(summary.total_pages, 1);
}

#[test]
fn update_changes_only_the_targeted_field() {
    let mut store = fixture_store();
    insert_fixture_rows(&mut store, 12);
    let before = store.get_one_by_id(7).expect("row 7 missing");
    let updated = store.update_field(7, 0, 999).expect("update failed");
    assert_eq!(updated.id, 7);
    assert_eq!(updated.values, vec![999, before.values[1]]);
    // A subsequent lookup shows the sibling field unchanged.
    let after = store.get_one_by_id(7).expect("row 7 missing");
    assert_eq!(after.values[0], 999);
    assert_eq!(after.values[1], before.values[1]);
    // Other rows are untouched.
    let other = store.get_one_by_id(8).expect("row 8 missing");
    assert_eq!(other.values, vec![(8 % 3) as i64, 108]);
}

#[test]
fn update_of_a_missing_identity_reports_not_found() {
    let mut store = fixture_store();
    insert_fixture_rows(&mut store, 3);
    assert_eq!(store.update_field(99, 0, 1), Err(ServiceError::NotFound));
    // The rows are untouched.
    let (rows, _) = store.find_by_option_model(&empty_options());
    assert_eq!(ids(&rows), vec![3, 2, 1]);
}
