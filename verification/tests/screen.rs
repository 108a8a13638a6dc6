use weezterm::screen::{compute_monitor_positions, position_label, vertical_overlap, MonitorGeometry};

fn make_screen(name: &str, x: isize, y: isize, w: isize, h: isize) -> MonitorGeometry {
    MonitorGeometry { name: name.to_string(), x, y, width: w, height: h }
}

fn label_of(pos: &[(String, String)], name: &str) -> String {
    pos.iter().find(|(n, _)| n == name).map(|(_, l)| l.clone()).unwrap()
}

#[test]
fn test_2x2_grid() {
    let monitors = vec![
        make_screen("TL", 0, 0, 1920, 1080),
        make_screen("TR", 1920, 0, 1920, 1080),
        make_screen("BL", 0, 1080, 1920, 1080),
        make_screen("BR", 1920, 1080, 1920, 1080),
    ];
    let pos = compute_monitor_positions(&monitors);
    assert_eq!(label_of(&pos, "TL"), "top-left");
    assert_eq!(label_of(&pos, "TR"), "top-right");
    assert_eq!(label_of(&pos, "BL"), "bottom-left");
    assert_eq!(label_of(&pos, "BR"), "bottom-right");
}

#[test]
fn test_2x2_with_offset() {
    let monitors = vec![
        make_screen("TL", 0, 0, 1920, 1080),
        make_screen("TR", 1920, 10, 1920, 1080),
        make_screen("BL", 0, 1080, 1920, 1080),
        make_screen("BR", 1925, 1090, 1920, 1080),
    ];
    let pos = compute_monitor_positions(&monitors);
    assert_eq!(label_of(&pos, "TL"), "top-left");
    assert_eq!(label_of(&pos, "TR"), "top-right");
    assert_eq!(label_of(&pos, "BL"), "bottom-left");
    assert_eq!(label_of(&pos, "BR"), "bottom-right");
}

#[test]
fn test_side_by_side() {
    let monitors = vec![make_screen("L", 0, 0, 1920, 1080), make_screen("R", 1920, 0, 2560, 1440)];
    let pos = compute_monitor_positions(&monitors);
    assert_eq!(label_of(&pos, "L"), "left");
    assert_eq!(label_of(&pos, "R"), "right");
}

#[test]
fn test_stacked() {
    let monitors = vec![make_screen("T", 0, 0, 1920, 1080), make_screen("B", 0, 1080, 1920, 1080)];
    let pos = compute_monitor_positions(&monitors);
    assert_eq!(label_of(&pos, "T"), "top");
    assert_eq!(label_of(&pos, "B"), "bottom");
}

#[test]
fn test_single_monitor() {
    let monitors = vec![make_screen("M", 0, 0, 1920, 1080)];
    let pos = compute_monitor_positions(&monitors);
    assert_eq!(label_of(&pos, "M"), "sole");
}

#[test]
fn test_three_side_by_side() {
    let monitors = vec![
        make_screen("L", 0, 0, 1920, 1080),
        make_screen("C", 1920, 0, 1920, 1080),
        make_screen("R", 3840, 0, 1920, 1080),
    ];
    let pos = compute_monitor_positions(&monitors);
    assert_eq!(label_of(&pos, "L"), "left");
    assert_eq!(label_of(&pos, "C"), "center");
    assert_eq!(label_of(&pos, "R"), "right");
}

#[test]
fn test_negative_coordinates() {
    let monitors = vec![make_screen("R", 0, 0, 1920, 1080), make_screen("L", -1920, 0, 1920, 1080)];
    let pos = compute_monitor_positions(&monitors);
    assert_eq!(label_of(&pos, "L"), "left");
    assert_eq!(label_of(&pos, "R"), "right");
}

#[test]
fn no_monitors_no_labels() {
    assert!(compute_monitor_positions(&vec![]).is_empty());
}

#[test]
fn labels_keep_input_order() {
    let monitors = vec![make_screen("B", 0, 1080, 1920, 1080), make_screen("T", 0, 0, 1920, 1080)];
    let pos = compute_monitor_positions(&monitors);
    assert_eq!(pos, vec![("B".to_string(), "bottom".to_string()), ("T".to_string(), "top".to_string())]);
}

#[test]
fn four_in_a_row_fall_back_to_grid_labels() {
    let monitors = vec![
        make_screen("A", 0, 0, 100, 100),
        make_screen("B", 100, 0, 100, 100),
        make_screen("C", 200, 0, 100, 100),
        make_screen("D", 300, 0, 100, 100),
    ];
    let pos = compute_monitor_positions(&monitors);
    assert_eq!(label_of(&pos, "A"), "row0-col0");
    assert_eq!(label_of(&pos, "D"), "row0-col3");
}

#[test]
fn overlap_needs_more_than_half_of_the_shorter() {
    assert!(vertical_overlap(0, 100, 40, 100));
    assert!(!vertical_overlap(0, 100, 50, 100));
    assert!(!vertical_overlap(0, 100, 200, 100));
    assert!(vertical_overlap(0, 1080, 10, 1080));
}

#[test]
fn position_labels() {
    assert_eq!(position_label(0, 0, 1, 1, 1), "sole");
    assert_eq!(position_label(1, 2, 3, 3, 3), "middle-right");
    assert_eq!(position_label(0, 1, 2, 1, 1), "top");
    assert_eq!(position_label(4, 5, 5, 6, 6), "row4-col5");
    assert_eq!(position_label(0, 1, 1, 3, 2), "center");
}

#[test]
fn rows_compare_with_first_monitor_only() {
    let monitors = vec![
        make_screen("A", 0, 0, 200, 100),
        make_screen("B", 200, 40, 200, 100),
        make_screen("C", 400, 90, 200, 100),
    ];
    let pos = compute_monitor_positions(&monitors);
    assert_eq!(label_of(&pos, "A"), "top-left");
    assert_eq!(label_of(&pos, "B"), "top-right");
    assert_eq!(label_of(&pos, "C"), "bottom-left");
}
