use zkfp::capi::{
    blob_from_json_numbers, contrast_method_from_code, fingerprint_templates_table,
    fingerprint_users_table, parse_constraints, parse_csv, parse_data_type, parse_strategy,
    parse_weekday, unique_keys_from_csv, weekdays_from_csv, ZkfpEnhanceConfig,
};
use zkfp::image::{ContrastMethod, EnhanceConfig};
use zkfp::schema::{ColumnConstraint, DataType};
use zkfp::sync::{SyncStrategy, Weekday};

#[test]
fn codes() {
    assert_eq!(parse_data_type(3), Some(DataType::Blob));
    assert_eq!(parse_data_type(6), None);
    assert_eq!(parse_strategy(0).unwrap(), SyncStrategy::Replace);
    assert_eq!(parse_strategy(2).unwrap(), SyncStrategy::Upsert);
    assert_eq!(parse_strategy(7).unwrap_err(), "Invalid sync strategy");
    assert_eq!(contrast_method_from_code(1), ContrastMethod::Darken);
    assert_eq!(contrast_method_from_code(5), ContrastMethod::Stretch);
}

#[test]
fn constraint_flags() {
    assert_eq!(
        parse_constraints(0x0B, None, None),
        vec![ColumnConstraint::PrimaryKey, ColumnConstraint::NotNull, ColumnConstraint::AutoIncrement]
    );
    assert_eq!(
        parse_constraints(0x14, Some("users"), Some("id")),
        vec![
            ColumnConstraint::Unique,
            ColumnConstraint::ForeignKey { table: "users".to_string(), column: "id".to_string() }
        ]
    );
    assert_eq!(parse_constraints(0x10, Some("users"), None), vec![]);
}

#[test]
fn weekdays_and_csv() {
    assert_eq!(parse_weekday("  Tues "), Some(Weekday::Tue));
    assert_eq!(parse_weekday("SUNDAY"), Some(Weekday::Sun));
    assert_eq!(parse_weekday("funday"), None);
    assert_eq!(parse_csv(" a, b ,,c,"), vec!["a", "b", "c"]);
    assert_eq!(parse_csv(""), Vec::<String>::new());
    assert_eq!(weekdays_from_csv("mon, xyz ,FRI").unwrap(), vec![Weekday::Mon, Weekday::Fri]);
    assert_eq!(weekdays_from_csv("nope").unwrap_err(), "No valid weekdays provided");
    assert_eq!(unique_keys_from_csv(None), vec!["id"]);
    assert_eq!(unique_keys_from_csv(Some("a, b")), vec!["a", "b"]);
}

#[test]
fn blobs_from_json() {
    assert_eq!(blob_from_json_numbers(&[Some(1), Some(255)]).unwrap(), vec![1, 255]);
    assert_eq!(
        blob_from_json_numbers(&[Some(1), None, Some(300)]).unwrap_err(),
        "Blob JSON arrays must contain only unsigned byte values"
    );
    assert_eq!(
        blob_from_json_numbers(&[Some(300), None]).unwrap_err(),
        "Blob JSON arrays must contain values between 0 and 255"
    );
}

#[test]
fn enhance_config_conversions() {
    let c = ZkfpEnhanceConfig {
        apply_enhancement: 7,
        method: 1,
        bg_intensity: 200,
        invert: 0,
        flip_vertical: -1,
        padding: 4,
    };
    let cfg = EnhanceConfig::from(c);
    assert!(cfg.apply_enhancement && cfg.flip_vertical && !cfg.invert);
    assert_eq!(cfg.method, ContrastMethod::Darken);
    let back = ZkfpEnhanceConfig::from(cfg);
    assert_eq!(
        back,
        ZkfpEnhanceConfig { apply_enhancement: 1, method: 1, bg_intensity: 200, invert: 0, flip_vertical: 1, padding: 4 }
    );
    assert_eq!(EnhanceConfig::from(back), cfg);
}

#[test]
fn fingerprint_schema_tables() {
    let u = fingerprint_users_table("users", "name").build();
    assert_eq!(u.columns[1].to_sqlite_ddl(), "name TEXT NOT NULL");
    let t = fingerprint_templates_table("templates", "user_id", "finger", "data", "quality").build();
    let ddl: Vec<String> = t.columns[1..5].iter().map(|c| c.to_sqlite_ddl()).collect();
    assert_eq!(
        ddl,
        vec![
            "user_id INTEGER NOT NULL",
            "finger INTEGER NOT NULL",
            "data BLOB NOT NULL",
            "quality INTEGER NOT NULL"
        ]
    );
}
