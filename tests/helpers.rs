use choreo_schema::gvk::split_api_version;
use choreo_schema::rules::parse_int_for_kind;
use choreo_schema::schema::Comparison;
use choreo_schema::shape::IntKind;
use choreo_schema::text::{split_char, trim_str};
use choreo_schema::validate::{custom_error, is_multiple, is_violation, pattern_error};

#[test]
fn integer_literals_by_kind() {
    assert_eq!(parse_int_for_kind("127", IntKind::I8), Some(127));
    assert_eq!(parse_int_for_kind("128", IntKind::I8), None);
    assert_eq!(parse_int_for_kind("-128", IntKind::I8), Some(-128));
    assert_eq!(parse_int_for_kind("-0", IntKind::U8), None);
    assert_eq!(parse_int_for_kind("+5", IntKind::U8), Some(5));
    assert_eq!(parse_int_for_kind("", IntKind::U8), None);
    assert_eq!(parse_int_for_kind("+", IntKind::I32), None);
    assert_eq!(parse_int_for_kind("1_000", IntKind::I32), None);
    assert_eq!(parse_int_for_kind(" 1", IntKind::I32), None);
    assert_eq!(parse_int_for_kind("18446744073709551615", IntKind::U64), Some(18446744073709551615));
    assert_eq!(parse_int_for_kind("18446744073709551616", IntKind::U64), None);
    assert_eq!(parse_int_for_kind("99999999999999999999999999", IntKind::U64), None);
}

#[test]
fn comparisons_and_multiples() {
    assert!(is_violation(Comparison::Ge, 9, 10));
    assert!(!is_violation(Comparison::Ge, 10, 10));
    assert!(is_violation(Comparison::Gt, 10, 10));
    assert!(!is_violation(Comparison::Le, 10, 10));
    assert!(is_violation(Comparison::Lt, 10, 10));
    assert!(is_multiple(40, 20));
    assert!(!is_multiple(30, 20));
    assert!(is_multiple(-9, 3));
    assert!(is_multiple(i128::MIN, -1));
    assert!(is_multiple(0, 0));
    assert!(!is_multiple(5, 0));
}

#[test]
fn messages_from_outside_results() {
    assert_eq!(pattern_error("x", "^a$", Some(true)), None);
    assert_eq!(
        pattern_error("x", "^a$", Some(false)),
        Some("Field 'x' does not match the required pattern: '^a$'.".to_string())
    );
    assert_eq!(
        pattern_error("x", "(", None),
        Some("Field 'x' has an invalid pattern: '('.".to_string())
    );
    assert_eq!(custom_error("name", "check", Ok(())), None);
    assert_eq!(
        custom_error("name", "check", Err("too short".to_string())),
        Some("Field 'name' failed custom validation 'check': too short".to_string())
    );
}

#[test]
fn text_helpers() {
    assert_eq!(trim_str("  a b \t"), "a b");
    assert_eq!(trim_str("   "), "");
    assert_eq!(split_char("a,b,,c", ','), vec!["a", "b", "", "c"]);
    assert_eq!(split_char("", ','), vec![""]);
    assert_eq!(split_api_version("apps/v1"), ("apps".to_string(), "v1".to_string()));
    assert_eq!(split_api_version("v1"), ("".to_string(), "v1".to_string()));
}
