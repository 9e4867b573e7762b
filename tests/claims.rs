use sheet_roller::claims::{ClaimError, SheetDB};

#[test]
fn claim_then_lookup_returns_sheet() {
    let mut db = SheetDB::new();
    assert_eq!(db.get_sheet(1, 10), None);
    assert_eq!(db.store_sheet(1, 10, "Aria"), Ok(()));
    assert_eq!(db.get_sheet(1, 10), Some("Aria".to_string()));
    assert_eq!(db.get_sheet(1, 11), None);
    assert_eq!(db.get_sheet(2, 10), None);
}

#[test]
fn sheet_held_by_other_member_is_refused() {
    let mut db = SheetDB::new();
    assert_eq!(db.store_sheet(1, 10, "Aria"), Ok(()));
    assert_eq!(
        db.store_sheet(1, 11, "Aria"),
        Err(ClaimError::SheetAlreadyClaimed { community_id: 1, holder_id: 10 })
    );
    assert_eq!(db.get_sheet(1, 10), Some("Aria".to_string()));
    assert_eq!(db.get_sheet(1, 11), None);
    assert_eq!(db.len(), 1);
}

#[test]
fn reclaim_replaces_previous_sheet() {
    let mut db = SheetDB::new();
    assert_eq!(db.store_sheet(1, 10, "Aria"), Ok(()));
    assert_eq!(db.store_sheet(1, 10, "Borin"), Ok(()));
    assert_eq!(db.get_sheet(1, 10), Some("Borin".to_string()));
    assert_eq!(db.len(), 1);
    // The released sheet can now be claimed by someone else.
    assert_eq!(db.store_sheet(1, 11, "Aria"), Ok(()));
    assert_eq!(db.get_sheet(1, 11), Some("Aria".to_string()));
}

#[test]
fn reclaim_of_sheet_held_by_other_is_refused() {
    let mut db = SheetDB::new();
    assert_eq!(db.store_sheet(1, 10, "Aria"), Ok(()));
    assert_eq!(db.store_sheet(1, 11, "Borin"), Ok(()));
    assert!(db.store_sheet(1, 10, "Borin").is_err());
    assert_eq!(db.get_sheet(1, 10), Some("Aria".to_string()));
}

#[test]
fn claims_are_scoped_per_community() {
    let mut db = SheetDB::new();
    assert_eq!(db.store_sheet(1, 10, "Aria"), Ok(()));
    assert_eq!(db.store_sheet(2, 10, "Aria"), Ok(()));
    assert_eq!(db.store_sheet(3, 99, "Aria"), Ok(()));
    assert_eq!(db.get_sheet(1, 10), Some("Aria".to_string()));
    assert_eq!(db.get_sheet(2, 10), Some("Aria".to_string()));
    assert_eq!(db.get_sheet(3, 99), Some("Aria".to_string()));
    assert_eq!(db.len(), 3);
}

#[test]
fn same_claim_twice_is_accepted_once_stored() {
    let mut db = SheetDB::new();
    assert_eq!(db.store_sheet(7, u64::MAX, "Aria"), Ok(()));
    assert_eq!(db.store_sheet(7, u64::MAX, "Aria"), Ok(()));
    assert_eq!(db.len(), 1);
    assert_eq!(db.get_sheet(7, u64::MAX), Some("Aria".to_string()));
}

#[test]
fn sheet_names_compare_exactly() {
    let mut db = SheetDB::new();
    assert_eq!(db.store_sheet(1, 10, "Aria"), Ok(()));
    assert_eq!(db.store_sheet(1, 11, "aria"), Ok(()));
    assert_eq!(db.store_sheet(1, 12, ""), Ok(()));
    assert_eq!(db.get_sheet(1, 12), Some(String::new()));
}
