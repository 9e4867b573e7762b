use sheet_roller::roll::{has_sheet_titled, roll_total};

#[test]
fn totals() {
    assert_eq!(roll_total(12, Some(10), 3, 1), 24);
    assert_eq!(roll_total(12, None, 1, 4), 21);
    assert_eq!(roll_total(0, None, 1, 4), -3);
    assert_eq!(roll_total(255, Some(255), 4, 1), 513);
}

#[test]
fn sheet_titles() {
    let titles = vec!["Aria".to_string(), "Borin".to_string()];
    assert!(has_sheet_titled(&titles, "Borin"));
    assert!(!has_sheet_titled(&titles, "borin"));
    assert!(!has_sheet_titled(&Vec::new(), "Aria"));
}
