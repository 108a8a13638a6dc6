use weezterm::monitor_diagram::{diagram_lines, diagram_note, grid_size, monitor_bounds, resolve, ScaledMonitor};
use weezterm::overlay_data::{MonitorOverrideEntry, MonitorRect};
use weezterm::overlay_view::{Span, Style};

fn sp(text: &str, style: Style) -> Span {
    Span { text: text.to_string(), style }
}

fn entry(name: &str, rect: Option<MonitorRect>) -> MonitorOverrideEntry {
    MonitorOverrideEntry {
        monitor_name: name.to_string(),
        color_scheme: None,
        is_current: false,
        expanded: false,
        screen_rect: rect,
    }
}

#[test]
fn bounds_and_notes() {
    let ms = vec![
        entry("a", Some(MonitorRect { x: 0, y: 0, width: 1920, height: 1080 })),
        entry("b", None),
        entry("c", Some(MonitorRect { x: -1280, y: 100, width: 1280, height: 1024 })),
    ];
    assert_eq!(monitor_bounds(&ms), Some((-1280, 0, 1920, 1124)));
    assert_eq!(monitor_bounds(&vec![entry("b", None)]), None);
    assert_eq!(diagram_note(None), Some(sp(" (no monitor geometry available)", Style::TextDim)));
    assert_eq!(diagram_note(Some((0, 0, 0, 10))), Some(sp(" (invalid monitor geometry)", Style::TextDim)));
    assert_eq!(diagram_note(Some((-1280, 0, 1920, 1124))), None);
}

#[test]
fn grid_is_cut_to_the_drawing_area() {
    assert_eq!(grid_size(40, 8, 100, 2), (39, 2));
    assert_eq!(grid_size(5, 1, 100, 100), (10, 3));
    assert_eq!(grid_size(40, 8, 0, 0), (1, 1));
}

#[test]
fn junction_characters() {
    assert_eq!(resolve(2 | 8), '┌');
    assert_eq!(resolve(1 | 2 | 4 | 8), '┼');
    assert_eq!(resolve(2 | 4 | 8), '┬');
    assert_eq!(resolve(1), '│');
    assert_eq!(resolve(8), '─');
    assert_eq!(resolve(0), ' ');
}

#[test]
fn side_by_side_monitors_share_an_edge() {
    let ms = vec![
        ScaledMonitor { index: 0, x1: 0, y1: 0, x2: 4, y2: 3, is_current: false },
        ScaledMonitor { index: 1, x1: 4, y1: 0, x2: 8, y2: 3, is_current: true },
    ];
    let lines = diagram_lines(&ms, 9, 4, Some(1));
    assert_eq!(
        lines,
        vec![
            vec![sp(" ", Style::Plain), sp("┌───", Style::Border), sp("┬───┐", Style::Selected)],
            vec![
                sp(" ", Style::Plain),
                sp("│", Style::Border),
                sp(" 1 ", Style::Text),
                sp("│", Style::Selected),
                sp("2  ", Style::Selected),
                sp("│", Style::Selected),
            ],
            vec![
                sp(" ", Style::Plain),
                sp("│", Style::Border),
                sp("   ", Style::Text),
                sp("│", Style::Selected),
                sp("   ", Style::Selected),
                sp("│", Style::Selected),
            ],
            vec![sp(" ", Style::Plain), sp("└───", Style::Border), sp("┴───┘", Style::Selected)],
        ]
    );
}

#[test]
fn current_monitor_label_has_a_diamond() {
    let ms = vec![ScaledMonitor { index: 0, x1: 0, y1: 0, x2: 8, y2: 2, is_current: true }];
    let lines = diagram_lines(&ms, 9, 3, None);
    assert_eq!(
        lines[1],
        vec![
            sp(" ", Style::Plain),
            sp("│", Style::Border),
            sp(" ◆1    ", Style::Text),
            sp("│", Style::Border),
        ]
    );
}
