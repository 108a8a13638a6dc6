use weezterm::config_overlay::{
    domain_child_field_name, extract_domain_field_key, parse_domain_field_name,
    value_to_display_string, values_equal, DomainHeaderInfo, DynValue, FieldStatus,
    ADD_DOMAIN_FIELD_NAME, DELETE_DOMAIN_FIELD_NAME,
};
use weezterm::overlay_data::{DomainSource, FieldKind};
use weezterm::overlay_state::SettingRow;

#[test]
fn test_extract_domain_field_key() {
    assert_eq!(
        extract_domain_field_key("__domain_2_remote_address__"),
        Some("remote_address".to_string())
    );
    assert_eq!(extract_domain_field_key("__domain_0_ssh_backend__"), Some("ssh_backend".to_string()));
    assert_eq!(
        extract_domain_field_key("__domain_10_no_agent_auth__"),
        Some("no_agent_auth".to_string())
    );
    // No underscore after index
    assert_eq!(extract_domain_field_key("__domain___"), None);
}

#[test]
fn test_parse_domain_field_name() {
    let result = parse_domain_field_name("__domain_2_remote_address__");
    assert_eq!(result, Some((2, "remote_address".to_string())));

    let result = parse_domain_field_name("__domain_0_username__");
    assert_eq!(result, Some((0, "username".to_string())));

    // Invalid format
    assert_eq!(parse_domain_field_name("__domain_notanumber_field__"), None);
}

#[test]
fn test_add_domain_field_name() {
    assert_eq!(ADD_DOMAIN_FIELD_NAME, "__add_ssh_domain__");
}

#[test]
fn test_delete_domain_field_name() {
    assert_eq!(DELETE_DOMAIN_FIELD_NAME, "__delete_domain__");
    let name = format!("{}_{}", DELETE_DOMAIN_FIELD_NAME, 3);
    assert!(name.starts_with(DELETE_DOMAIN_FIELD_NAME));
}

#[test]
fn test_domain_header_info_clone() {
    let info = DomainHeaderInfo { domain_index: 5, source: DomainSource::Overlay, expanded: true };
    let cloned = info.clone();
    assert_eq!(cloned.domain_index, 5);
    assert_eq!(cloned.source, DomainSource::Overlay);
    assert!(cloned.expanded);
}

#[test]
fn test_setting_row_domain_markers() {
    let row = SettingRow {
        field_name: "__domain_header_0__".to_string(),
        display_name: "myhost".to_string(),
        current_value: "myhost:22".to_string(),
        proposed_value: None,
        status: FieldStatus::Inherited,
        kind: FieldKind::Text,
        domain_header: Some(DomainHeaderInfo { domain_index: 0, source: DomainSource::Lua, expanded: false }),
        domain_child: None,
    };
    assert!(row.domain_header.is_some());
    assert!(row.domain_child.is_none());
}

#[test]
fn domain_child_names_read_back() {
    for (idx, key) in [(0usize, "username"), (12, "remote_address"), (7, "a_b"), (3, "")] {
        let name = domain_child_field_name(idx, key);
        assert_eq!(parse_domain_field_name(&name), Some((idx, key.to_string())));
        assert_eq!(extract_domain_field_key(&name), Some(key.to_string()));
    }
    assert_eq!(domain_child_field_name(4, "ssh_backend"), "__domain_4_ssh_backend__");
    // A key ending in "__" is eaten by the trimming.
    assert_eq!(parse_domain_field_name(&domain_child_field_name(1, "x__")), Some((1, "x".to_string())));
}

#[test]
fn parse_rejects_out_of_range_and_signed_indices() {
    assert_eq!(parse_domain_field_name("__domain_99999999999999999999_x__"), None);
    assert_eq!(parse_domain_field_name("__domain_-1_x__"), None);
    assert_eq!(parse_domain_field_name("__domain_+1_x__"), Some((1, "x".to_string())));
}

fn float(v: f64, text: &str) -> DynValue {
    DynValue::F64 { bits: v.to_bits(), text: text.to_string() }
}

#[test]
fn display_strings() {
    assert_eq!(value_to_display_string(&DynValue::Bool(true)), "On");
    assert_eq!(value_to_display_string(&DynValue::Bool(false)), "Off");
    assert_eq!(value_to_display_string(&DynValue::I64(-42)), "-42");
    assert_eq!(value_to_display_string(&DynValue::I64(i64::MIN)), "-9223372036854775808");
    assert_eq!(value_to_display_string(&DynValue::U64(18446744073709551615)), "18446744073709551615");
    assert_eq!(value_to_display_string(&DynValue::String("x".into())), "x");
    assert_eq!(value_to_display_string(&DynValue::Null), "");
    assert_eq!(value_to_display_string(&DynValue::Compound), "...");
    assert_eq!(value_to_display_string(&float(14.5, "14.50")), "14.50");
}

#[test]
fn values_compare_across_numeric_types() {
    assert!(values_equal(&DynValue::I64(14), &float(14.0, "14")));
    assert!(values_equal(&float(14.0, "14"), &DynValue::U64(14)));
    assert!(!values_equal(&DynValue::I64(14), &float(14.5, "14.50")));
    assert!(values_equal(&DynValue::I64(-3), &float(-3.0, "-3")));
    assert!(values_equal(&DynValue::I64(0), &float(-0.0, "-0")));
    assert!(values_equal(&DynValue::U64(1 << 60), &float((1u64 << 60) as f64, "x")));
    assert!(values_equal(&float(f64::NAN, "NaN"), &float(f64::NAN, "NaN")));
    assert!(values_equal(&float(0.0, "0"), &float(-0.0, "-0")));
    assert!(!values_equal(&float(1.0, "1"), &float(2.0, "2")));
    assert!(!values_equal(&float(f64::INFINITY, "inf"), &DynValue::I64(i64::MAX)));
    assert!(values_equal(&DynValue::I64(7), &DynValue::U64(7)));
    assert!(!values_equal(&DynValue::I64(-7), &DynValue::U64(7)));
    assert!(!values_equal(&DynValue::Bool(true), &DynValue::String("On".into())));
    assert!(!values_equal(&DynValue::Null, &DynValue::Null));
}

#[test]
fn integers_compare_to_floats_after_rounding() {
    // each integer is compared as the nearest f64, as `as f64` converts it
    for &i in &[(1i64 << 53) + 1, (1i64 << 53) + 3, i64::MAX, i64::MIN, -(1i64 << 60) - 5, 123_456_789_012_345_678] {
        let f = i as f64;
        assert!(values_equal(&DynValue::I64(i), &float(f, "x")), "{}", i);
        assert!(values_equal(&float(f, "x"), &DynValue::I64(i)), "{}", i);
        let next = f64::from_bits(f.to_bits() + 1);
        assert!(!values_equal(&DynValue::I64(i), &float(next, "x")), "{}", i);
    }
    for &u in &[u64::MAX, (1u64 << 63) + 1, (1u64 << 54) + 2, (1u64 << 54) + 6, 3] {
        let f = u as f64;
        assert!(values_equal(&DynValue::U64(u), &float(f, "x")), "{}", u);
        assert!(values_equal(&float(f, "x"), &DynValue::U64(u)), "{}", u);
    }
    assert!(values_equal(&DynValue::U64(u64::MAX), &float(18446744073709551616.0, "x")));
    assert!(!values_equal(&DynValue::U64((1u64 << 54) + 2), &float(((1u64 << 54) + 4) as f64, "x")));
}
