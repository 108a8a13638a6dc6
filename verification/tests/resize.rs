use weezterm::resize::{
    adjust_window_size_when_changing_font_size, font_scale_resizes_window, plan_dimensions,
    resize_action, scale_change_plan, terminal_size_for_window, window_for_cells, Dimensions,
    Edges, ResizeAction, RowsAndCols, TerminalSize, WindowLayout,
};

fn layout() -> WindowLayout {
    WindowLayout {
        padding: Edges { left: 4, top: 2, right: 4, bottom: 2 },
        border: Edges { left: 1, top: 1, right: 1, bottom: 1 },
        tab_bar_height: 30,
        cell_width: 8,
        cell_height: 16,
    }
}

fn dims(w: usize, h: usize, dpi: usize) -> Dimensions {
    Dimensions { pixel_width: w, pixel_height: h, dpi }
}

#[test]
fn grid_fits_inside_padding_border_and_tab_bar() {
    let size = terminal_size_for_window(dims(808, 600, 96), layout());
    assert_eq!(
        size,
        TerminalSize { rows: 35, cols: 99, pixel_width: 792, pixel_height: 560, dpi: 96 }
    );
}

#[test]
fn tiny_window_holds_no_cells() {
    let size = terminal_size_for_window(dims(5, 5, 96), layout());
    assert_eq!((size.rows, size.cols, size.pixel_width, size.pixel_height), (0, 0, 0, 0));
}

#[test]
fn window_sized_for_grid_holds_that_grid() {
    let cells = RowsAndCols { rows: 24, cols: 80 };
    let (size, window) = window_for_cells(cells, 144, layout());
    assert_eq!(window, dims(650, 420, 144));
    assert_eq!(size, TerminalSize { rows: 24, cols: 80, pixel_width: 640, pixel_height: 384, dpi: 144 });
    assert_eq!(terminal_size_for_window(window, layout()), size);
}

#[test]
fn scale_change_resizes_window_around_grid() {
    let cells = RowsAndCols { rows: 24, cols: 80 };
    let plan = plan_dimensions(dims(800, 600, 96), dims(900, 700, 192), Some(cells), true, layout());
    assert_eq!(plan.dims, dims(650, 420, 192));
    assert_eq!(plan.dimensions, dims(650, 420, 192));
    assert_eq!(plan.set_inner_size, Some(dims(650, 420, 192)));
    assert_eq!((plan.size.rows, plan.size.cols), (24, 80));
}

#[test]
fn scale_change_on_fixed_window_keeps_old_dimensions() {
    let cells = RowsAndCols { rows: 24, cols: 80 };
    let plan = plan_dimensions(dims(800, 600, 96), dims(808, 600, 192), Some(cells), false, layout());
    assert_eq!(plan.dimensions, dims(800, 600, 96));
    assert_eq!(plan.dims, dims(808, 600, 192));
    assert_eq!(plan.set_inner_size, None);
    assert_eq!((plan.size.rows, plan.size.cols), (35, 99));
}

#[test]
fn plain_resize_takes_requested_dimensions() {
    let plan = plan_dimensions(dims(800, 600, 96), dims(808, 600, 96), None, true, layout());
    assert_eq!(plan.dimensions, dims(808, 600, 96));
    assert_eq!(plan.set_inner_size, None);
    assert_eq!((plan.size.rows, plan.size.cols), (35, 99));
}

#[test]
fn resize_events() {
    let a = dims(800, 600, 96);
    assert_eq!(resize_action(a, 0, dims(0, 600, 96), 0, false, false), ResizeAction::Ignore);
    assert_eq!(resize_action(a, 0, a, 0, true, false), ResizeAction::Unchanged { repaint: true });
    assert_eq!(resize_action(a, 0, a, 0, true, true), ResizeAction::Unchanged { repaint: false });
    assert_eq!(
        resize_action(a, 0, dims(900, 600, 96), 0, false, true),
        ResizeAction::Apply { reload_os_parameters: false, rescale: false }
    );
    assert_eq!(
        resize_action(a, 0, dims(800, 600, 192), 8, false, false),
        ResizeAction::Apply { reload_os_parameters: true, rescale: true }
    );
}

#[test]
fn scale_changes() {
    let cells = RowsAndCols { rows: 3, cols: 4 };
    assert_eq!(scale_change_plan(true, false, false, cells), (true, None));
    assert_eq!(scale_change_plan(true, false, true, cells), (true, Some(cells)));
    assert_eq!(scale_change_plan(false, true, false, cells), (true, Some(cells)));
    assert_eq!(scale_change_plan(false, false, false, cells), (false, None));
}

#[test]
fn font_size_changes_resize_window_unless_tiling() {
    let tiling = vec!["sway".to_string(), "i3".to_string()];
    assert!(!adjust_window_size_when_changing_font_size(None, &tiling, "i3"));
    assert!(adjust_window_size_when_changing_font_size(None, &tiling, "X11"));
    assert!(adjust_window_size_when_changing_font_size(Some(true), &tiling, "i3"));
    assert!(!adjust_window_size_when_changing_font_size(Some(false), &tiling, "X11"));
    assert!(font_scale_resizes_window(true, true));
    assert!(!font_scale_resizes_window(false, true));
}

#[test]
fn scroll_bar_takes_a_cell_when_no_right_padding() {
    assert_eq!(weezterm::resize::effective_right_padding(true, true, 0, 9), 9);
    assert_eq!(weezterm::resize::effective_right_padding(true, false, 4, 9), 4);
    assert_eq!(weezterm::resize::effective_right_padding(false, true, 0, 9), 0);
}

#[test]
fn set_window_size_counts_padding_and_tab_bar() {
    let size = TerminalSize { rows: 24, cols: 80, pixel_width: 0, pixel_height: 0, dpi: 96 };
    let padding = Edges { left: 2, top: 3, right: 4, bottom: 5 };
    let (dims, cells) = weezterm::resize::window_size_for_terminal(size, 144, padding, 30, 8, 16);
    assert_eq!(dims, Dimensions { pixel_width: 80 * 8 + 2 + 4, pixel_height: 24 * 16 + 3 + 5 + 30, dpi: 144 });
    assert_eq!(cells, RowsAndCols { rows: 24, cols: 80 });
}
