use nodus_executor::session_vars::{default_session_var, normalize_var_value, setting};

#[test]
fn known_defaults_resolve() {
    assert_eq!(default_session_var("search_path"), Some("public"));
    assert_eq!(default_session_var("client_encoding"), Some("UTF8"));
    assert_eq!(
        default_session_var("default_transaction_read_only"),
        Some("off")
    );
}

#[test]
fn unknown_var_has_no_default() {
    assert_eq!(default_session_var("not_a_real_guc"), None);
}

#[test]
fn normalize_strips_one_quote_layer() {
    assert_eq!(normalize_var_value("'UTC'"), "UTC");
    assert_eq!(normalize_var_value("  'ISO, MDY' "), "ISO, MDY");
    assert_eq!(normalize_var_value("\"app\""), "app");
    assert_eq!(normalize_var_value("3"), "3");
    assert_eq!(normalize_var_value("read committed"), "read committed");
}

#[test]
fn normalize_leaves_unmatched_quotes() {
    assert_eq!(normalize_var_value("'UTC\""), "'UTC\"");
    assert_eq!(normalize_var_value("'"), "'");
    assert_eq!(normalize_var_value("''x''"), "'x'");
}

#[test]
fn a_session_setting_wins_over_the_default() {
    let own = vec![("timezone".to_string(), "Europe/Vienna".to_string())];
    assert_eq!(setting(&own, " TimeZone "), Some("Europe/Vienna".to_string()));
    assert_eq!(setting(&own, "lc_ctype"), Some("C".to_string()));
    assert_eq!(setting(&own, "nope"), None);
}
