use longinus::save::{
    most_recent_save, new_save_name, save_data_path, save_name, str_less, SaveSystem,
};

#[test]
fn save_data_path_is_in_storage() {
    assert_eq!(save_data_path("save_1"), "./storage/save_1.json");
    assert_eq!(save_data_path(""), "./storage/.json");
}

#[test]
fn save_name_prefixes_the_timestamp() {
    assert_eq!(save_name("2024-01-02T03:04:05+00:00"), "save_2024-01-02T03:04:05+00:00");
}

#[test]
fn new_save_name_at_the_epoch() {
    assert_eq!(new_save_name(0, 0), Some("save_1970-01-01T00:00:00+00:00".to_string()));
}

#[test]
fn new_save_name_with_nanoseconds() {
    assert_eq!(
        new_save_name(1431648000, 500_000_000),
        Some("save_2015-05-15T00:00:00.500+00:00".to_string())
    );
}

#[test]
fn new_save_name_out_of_range() {
    assert_eq!(new_save_name(i64::MAX, 0), None);
}

#[test]
fn with_new_save_appends_the_name() {
    let system = SaveSystem { available_save_data: vec!["a".to_string()] };
    let system = system.with_new_save(Some("b".to_string()));
    assert_eq!(system.available_save_data, vec!["a".to_string(), "b".to_string()]);
    let system = system.with_new_save(None);
    assert_eq!(system.available_save_data, vec!["a".to_string(), "b".to_string()]);
}

#[test]
fn str_less_orders_as_rust_does() {
    assert!(str_less("abc", "abd"));
    assert!(str_less("ab", "abc"));
    assert!(!str_less("abc", "abc"));
    assert!(!str_less("b", "abc"));
    assert_eq!(str_less("Zeta", "alpha"), "Zeta" < "alpha");
}

#[test]
fn most_recent_save_is_the_greatest_name() {
    let saves = vec![
        "save_2024-01-02T00:00:00+00:00".to_string(),
        "save_2025-03-01T00:00:00+00:00".to_string(),
        "save_2024-12-31T00:00:00+00:00".to_string(),
    ];
    assert_eq!(most_recent_save(&saves), "save_2025-03-01T00:00:00+00:00");
    assert_eq!(most_recent_save(&vec![]), "");
}
