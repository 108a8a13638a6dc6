use weezterm::overlay_data::{
    get_color_schemes, monitors_from_config_with_screens, MonitorOverride, MonitorRect,
};
use weezterm::text_order::{text_less, text_order};

fn rect(x: isize) -> MonitorRect {
    MonitorRect { x, y: 0, width: 1920, height: 1080 }
}

fn ov(monitor: &str, scheme: Option<&str>) -> MonitorOverride {
    MonitorOverride { monitor: monitor.to_string(), color_scheme: scheme.map(|s| s.to_string()) }
}

#[test]
fn monitor_entries_merge_and_sort_by_name() {
    let screens = vec![("DP-2".to_string(), rect(1920)), ("DP-1".to_string(), rect(0))];
    let overrides = vec![
        ov("DP-1", Some("Dracula")),
        ov("HDMI-1", Some("Nord")),
        ov("DP-1", Some("Ignored")),
        ov("Absent", None),
    ];
    let entries = monitors_from_config_with_screens(&screens, &overrides, Some("DP-2"));
    let names: Vec<&str> = entries.iter().map(|e| e.monitor_name.as_str()).collect();
    assert_eq!(names, vec!["Absent", "DP-1", "DP-2", "HDMI-1"]);
    assert_eq!(entries[0].color_scheme, None);
    assert_eq!(entries[0].screen_rect, None);
    assert_eq!(entries[1].color_scheme.as_deref(), Some("Dracula"));
    assert_eq!(entries[1].screen_rect, Some(rect(0)));
    assert!(!entries[1].is_current);
    assert_eq!(entries[2].color_scheme, None);
    assert!(entries[2].is_current);
    assert_eq!(entries[3].color_scheme.as_deref(), Some("Nord"));
    assert!(!entries[3].is_current);
    assert!(entries.iter().all(|e| !e.expanded));
}

#[test]
fn monitor_entries_without_current_screen() {
    let screens = vec![("A".to_string(), rect(0))];
    let entries = monitors_from_config_with_screens(&screens, &Vec::new(), None);
    assert_eq!(entries.len(), 1);
    assert!(!entries[0].is_current);
    assert_eq!(entries[0].color_scheme, None);
}

#[test]
fn color_schemes_merged_and_sorted_case_insensitively() {
    let builtin = vec!["zenburn".to_string(), "Dracula".to_string(), "Ayu".to_string()];
    let user = vec!["apple".to_string(), "Dracula".to_string(), "Ayu".to_string(), "apple".to_string()];
    let schemes = get_color_schemes(&builtin, &user);
    assert_eq!(schemes, vec!["apple", "Ayu", "Dracula", "zenburn"]);
}

#[test]
fn color_schemes_equal_lowercase_keep_their_order() {
    let builtin = vec!["b".to_string(), "B".to_string(), "a".to_string()];
    let schemes = get_color_schemes(&builtin, &Vec::new());
    assert_eq!(schemes, vec!["a", "b", "B"]);
}

#[test]
fn strings_order_as_std_orders_them() {
    let cases = ["", "a", "ab", "b", "B", "é", "aa"];
    for x in cases {
        for y in cases {
            assert_eq!(text_less(x, y), x < y, "{x:?} < {y:?}");
        }
    }
}

#[test]
fn text_order_is_a_stable_sort() {
    let keys: Vec<String> = ["b", "a", "b", "", "a"].iter().map(|s| s.to_string()).collect();
    assert_eq!(text_order(&keys), vec![3, 1, 4, 0, 2]);
}
