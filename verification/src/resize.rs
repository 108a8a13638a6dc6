//! Terminal grid dimensions: how many cells fit in a window, how large a
//! window must be to hold a grid, and what a resize event asks for.
use vstd::prelude::*;
use vstd::arithmetic::div_mod::{lemma_div_multiples_vanish, lemma_fundamental_div_mod, lemma_mod_pos_bound, lemma_div_pos_is_pos};
use crate::text::str_eq;
use crate::text_order::texts;

verus! {

/// A terminal size in character cells.
#[derive(Debug, Clone, Copy, PartialEq, Eq, Structural)]
pub struct RowsAndCols {
    pub rows: usize,
    pub cols: usize,
}

/// The size of a window in pixels, with its DPI.
#[derive(Debug, Clone, Copy, PartialEq, Eq, Structural)]
pub struct Dimensions {
    pub pixel_width: usize,
    pub pixel_height: usize,
    pub dpi: usize,
}

/// The size of the terminal grid, in cells and in pixels.
#[derive(Debug, Clone, Copy, PartialEq, Eq, Structural)]
pub struct TerminalSize {
    pub rows: usize,
    pub cols: usize,
    pub pixel_width: usize,
    pub pixel_height: usize,
    pub dpi: u32,
}

/// Widths in pixels of the four edges of a frame.
#[derive(Debug, Clone, Copy, PartialEq, Eq, Structural)]
pub struct Edges {
    pub left: usize,
    pub top: usize,
    pub right: usize,
    pub bottom: usize,
}

/// What surrounds the grid in a window, and the size of one cell: the
/// padding (already evaluated to pixels), the OS border, the tab bar
/// height (zero when hidden) and the cell width and height.
#[derive(Debug, Clone, Copy, PartialEq, Eq, Structural)]
pub struct WindowLayout {
    pub padding: Edges,
    pub border: Edges,
    pub tab_bar_height: usize,
    pub cell_width: usize,
    pub cell_height: usize,
}

/// Horizontal pixels that are not grid.
pub open spec fn chrome_width(l: WindowLayout) -> int {
    l.padding.left + l.padding.right + l.border.left + l.border.right
}

/// Vertical pixels that are not grid.
pub open spec fn chrome_height(l: WindowLayout) -> int {
    l.padding.top + l.padding.bottom + l.border.top + l.border.bottom + l.tab_bar_height
}

/// A layout whose cells have a size and whose frame sizes fit in `usize`.
pub open spec fn layout_ok(l: WindowLayout) -> bool {
    &&& l.cell_width > 0
    &&& l.cell_height > 0
    &&& chrome_width(l) <= usize::MAX
    &&& chrome_height(l) <= usize::MAX
}

/// `n - chrome`, or zero when the frame takes everything.
pub open spec fn available(n: int, chrome: int) -> int {
    if n >= chrome {
        n - chrome
    } else {
        0
    }
}

/// The grid that fits in a window of `dims`: as many whole cells as the
/// space inside padding, border and tab bar holds.
pub open spec fn grid_for_window(dims: Dimensions, l: WindowLayout) -> TerminalSize {
    let rows = available(dims.pixel_height as int, chrome_height(l)) / (l.cell_height as int);
    let cols = available(dims.pixel_width as int, chrome_width(l)) / (l.cell_width as int);
    TerminalSize {
        rows: rows as usize,
        cols: cols as usize,
        pixel_height: (rows * l.cell_height) as usize,
        pixel_width: (cols * l.cell_width) as usize,
        dpi: dims.dpi as u32,
    }
}

/// The window size that holds exactly a grid of `cells`.
pub open spec fn window_for_grid(cells: RowsAndCols, dpi: usize, l: WindowLayout) -> Dimensions {
    Dimensions {
        pixel_width: (cells.cols * l.cell_width + chrome_width(l)) as usize,
        pixel_height: (cells.rows * l.cell_height + chrome_height(l)) as usize,
        dpi,
    }
}

/// The grid of `cells`, with its size in pixels.
pub open spec fn grid_of_cells(cells: RowsAndCols, dpi: usize, l: WindowLayout) -> TerminalSize {
    TerminalSize {
        rows: cells.rows,
        cols: cells.cols,
        pixel_height: (cells.rows * l.cell_height) as usize,
        pixel_width: (cells.cols * l.cell_width) as usize,
        dpi: dpi as u32,
    }
}

/// Whether a window for `cells` has a size that fits in `usize`.
pub open spec fn window_fits(cells: RowsAndCols, l: WindowLayout) -> bool {
    &&& cells.cols * l.cell_width + chrome_width(l) <= usize::MAX
    &&& cells.rows * l.cell_height + chrome_height(l) <= usize::MAX
}

proof fn lemma_whole_cells(avail: int, cell: int)
    requires
        avail >= 0,
        cell > 0,
    ensures
        0 <= avail / cell,
        (avail / cell) * cell <= avail,
{
    lemma_fundamental_div_mod(avail, cell);
    lemma_mod_pos_bound(avail, cell);
    lemma_div_pos_is_pos(avail, cell);
    assert((avail / cell) * cell == cell * (avail / cell)) by (nonlinear_arith);
}

/// The terminal grid that fits in a window of `dims`.
pub fn terminal_size_for_window(dims: Dimensions, l: WindowLayout) -> (r: TerminalSize)
    requires
        layout_ok(l),
    ensures
        r == grid_for_window(dims, l),
{
    let chrome_w = l.padding.left + l.padding.right + l.border.left + l.border.right;
    let avail_width = dims.pixel_width.saturating_sub(chrome_w);
    let avail_height = dims.pixel_height.saturating_sub(
        l.padding.top + l.padding.bottom + l.border.top + l.border.bottom,
    ).saturating_sub(l.tab_bar_height);
    assert(avail_height == available(dims.pixel_height as int, chrome_height(l)));
    assert(avail_width == available(dims.pixel_width as int, chrome_width(l)));
    let rows = avail_height / l.cell_height;
    let cols = avail_width / l.cell_width;
    proof {
        lemma_whole_cells(avail_height as int, l.cell_height as int);
        lemma_whole_cells(avail_width as int, l.cell_width as int);
    }
    TerminalSize {
        rows,
        cols,
        pixel_height: rows * l.cell_height,
        pixel_width: cols * l.cell_width,
        dpi: dims.dpi as u32,
    }
}

/// The grid of `cells` and the window size that holds it exactly.
pub fn window_for_cells(cells: RowsAndCols, dpi: usize, l: WindowLayout) -> (r: (TerminalSize, Dimensions))
    requires
        layout_ok(l),
        window_fits(cells, l),
    ensures
        r.0 == grid_of_cells(cells, dpi, l),
        r.1 == window_for_grid(cells, dpi, l),
{
    assert(0 <= cells.rows * l.cell_height <= cells.rows * l.cell_height + chrome_height(l)) by (nonlinear_arith)
        requires
            chrome_height(l) >= 0,
    ;
    assert(0 <= cells.cols * l.cell_width <= cells.cols * l.cell_width + chrome_width(l)) by (nonlinear_arith)
        requires
            chrome_width(l) >= 0,
    ;
    let grid_h = cells.rows * l.cell_height;
    let grid_w = cells.cols * l.cell_width;
    let size = TerminalSize {
        rows: cells.rows,
        cols: cells.cols,
        pixel_height: grid_h,
        pixel_width: grid_w,
        dpi: dpi as u32,
    };
    let dims = Dimensions {
        pixel_width: grid_w + (l.padding.left + l.padding.right) + (l.border.left + l.border.right),
        pixel_height: grid_h + (l.padding.top + l.padding.bottom) + (l.border.top + l.border.bottom)
            + l.tab_bar_height,
        dpi,
    };
    (size, dims)
}

/// A window sized for a grid holds exactly that grid again.
pub proof fn lemma_window_for_grid_round_trip(cells: RowsAndCols, dpi: usize, l: WindowLayout)
    requires
        layout_ok(l),
        window_fits(cells, l),
    ensures
        grid_for_window(window_for_grid(cells, dpi, l), l) == grid_of_cells(cells, dpi, l),
{
    let w = window_for_grid(cells, dpi, l);
    assert(cells.rows * l.cell_height >= 0 && cells.cols * l.cell_width >= 0) by (nonlinear_arith);
    assert(available(w.pixel_height as int, chrome_height(l)) == cells.rows * l.cell_height);
    assert(available(w.pixel_width as int, chrome_width(l)) == cells.cols * l.cell_width);
    lemma_div_multiples_vanish(cells.rows as int, l.cell_height as int);
    lemma_div_multiples_vanish(cells.cols as int, l.cell_width as int);
    assert(l.cell_height * cells.rows == cells.rows * l.cell_height) by (nonlinear_arith);
    assert(l.cell_width * cells.cols == cells.cols * l.cell_width) by (nonlinear_arith);
}

/// What applying new dimensions settles: the grid, the window size the
/// grid was computed for, the dimensions the window keeps, and the size
/// the window must be set to, if any.
#[derive(Debug, Clone, Copy, PartialEq, Eq, Structural)]
pub struct DimensionsPlan {
    pub size: TerminalSize,
    pub dims: Dimensions,
    pub dimensions: Dimensions,
    pub set_inner_size: Option<Dimensions>,
}

/// Applying `requested` to a window that had `saved`. With a grid to keep
/// (`cells`, after a scale change) and a window that can be resized, the
/// window is sized for that grid; a window that cannot be resized keeps
/// its old dimensions and gets the grid that fits `requested`.
pub open spec fn dimensions_plan(
    saved: Dimensions,
    requested: Dimensions,
    cells: Option<RowsAndCols>,
    can_resize: bool,
    l: WindowLayout,
) -> DimensionsPlan {
    match cells {
        Some(c) if can_resize => {
            let dims = window_for_grid(c, requested.dpi, l);
            DimensionsPlan {
                size: grid_of_cells(c, requested.dpi, l),
                dims,
                dimensions: if saved != dims { dims } else { requested },
                set_inner_size: if saved != dims { Some(dims) } else { None },
            }
        },
        _ => DimensionsPlan {
            size: grid_for_window(requested, l),
            dims: requested,
            dimensions: if cells is Some { saved } else { requested },
            set_inner_size: None,
        },
    }
}

/// What applying new window dimensions does to the grid and the window.
pub fn plan_dimensions(
    saved: Dimensions,
    requested: Dimensions,
    scale_changed_cells: Option<RowsAndCols>,
    can_resize: bool,
    l: WindowLayout,
) -> (r: DimensionsPlan)
    requires
        layout_ok(l),
        scale_changed_cells matches Some(c) ==> window_fits(c, l),
    ensures
        r == dimensions_plan(saved, requested, scale_changed_cells, can_resize, l),
{
    let mut dimensions = requested;
    let mut cells = scale_changed_cells;
    if cells.is_some() && !can_resize {
        cells = None;
        dimensions = saved;
    }
    match cells {
        Some(c) => {
            let (size, dims) = window_for_cells(c, requested.dpi, l);
            let mut set_inner_size = None;
            if saved != dims {
                dimensions = dims;
                set_inner_size = Some(dims);
            }
            DimensionsPlan { size, dims, dimensions, set_inner_size }
        },
        None => {
            let size = terminal_size_for_window(requested, l);
            DimensionsPlan { size, dims: requested, dimensions, set_inner_size: None }
        },
    }
}

/// What a resize event asks of the window.
#[derive(Debug, Clone, Copy, PartialEq, Eq, Structural)]
pub enum ResizeAction {
    /// The new size is zero (a minimized window): nothing happens.
    Ignore,
    /// Neither size nor state changed. `repaint` when a live resize has
    /// just ended, so the deferred surface size is applied.
    Unchanged { repaint: bool },
    /// The window takes the new size: `reload_os_parameters` when its
    /// state changed, `rescale` when the DPI changed (else the new
    /// dimensions are applied at the current scale).
    Apply { reload_os_parameters: bool, rescale: bool },
}

/// The action for a resize from `current` (in `current_state`) to `new`
/// (in `new_state`); `was_live` and `live` say whether a live resize was
/// and is in progress.
pub open spec fn spec_resize_action(
    current: Dimensions,
    current_state: u8,
    new: Dimensions,
    new_state: u8,
    was_live: bool,
    live: bool,
) -> ResizeAction {
    if new.pixel_width == 0 || new.pixel_height == 0 {
        ResizeAction::Ignore
    } else if current == new && current_state == new_state {
        ResizeAction::Unchanged { repaint: was_live && !live }
    } else {
        ResizeAction::Apply { reload_os_parameters: current_state != new_state, rescale: current.dpi != new.dpi }
    }
}

/// Decides what a resize event does; the window state is given by its
/// flag bits.
pub fn resize_action(
    current: Dimensions,
    current_state: u8,
    new: Dimensions,
    new_state: u8,
    was_live: bool,
    live: bool,
) -> (r: ResizeAction)
    ensures
        r == spec_resize_action(current, current_state, new, new_state, was_live, live),
{
    if new.pixel_width == 0 || new.pixel_height == 0 {
        return ResizeAction::Ignore;
    }
    if current == new && current_state == new_state {
        return ResizeAction::Unchanged { repaint: was_live && !live };
    }
    ResizeAction::Apply { reload_os_parameters: current_state != new_state, rescale: current.dpi != new.dpi }
}

/// What a change of scale does: whether the fonts are rescaled, and the
/// grid to keep while the window is resized around it. A font scale
/// change or a plain DPI change (the window kept its size) keeps the grid.
pub fn scale_change_plan(
    dpi_changed: bool,
    font_scale_changed: bool,
    simple_dpi_change: bool,
    cells: RowsAndCols,
) -> (r: (bool, Option<RowsAndCols>))
    ensures
        r.0 == (dpi_changed || font_scale_changed),
        r.1 == (if font_scale_changed || simple_dpi_change { Some(cells) } else { None }),
{
    let keep = if font_scale_changed || simple_dpi_change {
        Some(cells)
    } else {
        None
    };
    (dpi_changed || font_scale_changed, keep)
}

/// Whether changing the font size also resizes the window: as configured,
/// or, when not configured, unless the desktop environment is a tiling one.
pub open spec fn spec_adjust_window_size(
    configured: Option<bool>,
    tiling: Seq<Seq<char>>,
    connection: Seq<char>,
) -> bool {
    match configured {
        Some(v) => v,
        None => !tiling.contains(connection),
    }
}

/// Whether a font size change resizes the window, for a window named by
/// `connection` and the configured list of tiling environments.
pub fn adjust_window_size_when_changing_font_size(
    configured: Option<bool>,
    tiling: &Vec<String>,
    connection: &str,
) -> (r: bool)
    ensures
        r == spec_adjust_window_size(configured, texts(tiling@), connection@),
{
    match configured {
        Some(v) => v,
        None => {
            let ghost names = texts(tiling@);
            let mut found = false;
            let mut k: usize = 0;
            while k < tiling.len() && !found
                invariant
                    k <= tiling@.len(),
                    names == texts(tiling@),
                    found ==> names.contains(connection@),
                    !found ==> forall|q: int| 0 <= q < k ==> (#[trigger] names[q]) != connection@,
                decreases tiling@.len() - k + (if found { 0int } else { 1int }),
            {
                if str_eq(tiling[k].as_str(), connection) {
                    assert(names[k as int] == connection@);
                    found = true;
                } else {
                    k += 1;
                }
            }
            !found
        },
    }
}

/// Whether a font size change goes through a rescale of the window (which
/// keeps the grid) or only rescales the fonts at the current size.
pub fn font_scale_resizes_window(can_resize: bool, adjust_window_size: bool) -> (r: bool)
    ensures
        r == (can_resize && adjust_window_size),
{
    can_resize && adjust_window_size
}


/// The right padding in pixels: one cell width when the scroll bar is
/// enabled and no right padding is configured (room for the bar),
/// otherwise the configured padding evaluated to pixels.
pub fn effective_right_padding(
    enable_scroll_bar: bool,
    right_padding_is_zero: bool,
    configured_right: usize,
    cell_width: usize,
) -> (r: usize)
    ensures
        r == (if enable_scroll_bar && right_padding_is_zero { cell_width } else { configured_right }),
{
    if enable_scroll_bar && right_padding_is_zero {
        cell_width
    } else {
        configured_right
    }
}

/// The layout of a window without OS border: padding, tab bar and cell
/// size only.
pub open spec fn borderless(padding: Edges, tab_bar_height: usize, cell_width: usize, cell_height: usize) -> WindowLayout {
    WindowLayout {
        padding,
        border: Edges { left: 0, top: 0, right: 0, bottom: 0 },
        tab_bar_height,
        cell_width,
        cell_height,
    }
}

/// What setting the terminal to `size` asks of a window at `dpi`: the
/// window size that holds the requested rows and columns inside the
/// padding and the tab bar (the OS border is not counted), and the grid
/// to keep while the window is resized to it.
pub fn window_size_for_terminal(
    size: TerminalSize,
    dpi: usize,
    padding: Edges,
    tab_bar_height: usize,
    cell_width: usize,
    cell_height: usize,
) -> (r: (Dimensions, RowsAndCols))
    requires
        window_fits(
            RowsAndCols { rows: size.rows, cols: size.cols },
            borderless(padding, tab_bar_height, cell_width, cell_height),
        ),
    ensures
        r.1 == (RowsAndCols { rows: size.rows, cols: size.cols }),
        r.0 == window_for_grid(r.1, dpi, borderless(padding, tab_bar_height, cell_width, cell_height)),
{
    assert(0 <= size.cols * cell_width <= size.cols * cell_width + padding.left + padding.right)
        by (nonlinear_arith);
    assert(0 <= size.rows * cell_height
        <= size.rows * cell_height + padding.top + padding.bottom + tab_bar_height) by (nonlinear_arith);
    let cells = RowsAndCols { rows: size.rows, cols: size.cols };
    let dims = Dimensions {
        pixel_width: size.cols * cell_width + padding.left + padding.right,
        pixel_height: (size.rows * cell_height + padding.top + padding.bottom) + tab_bar_height,
        dpi,
    };
    (dims, cells)
}

/// A resize to a non-zero size leaves the window as it is only when both
/// its dimensions and its state are unchanged; a change of state always
/// applies the new size and reloads the OS parameters, and the fonts are
/// rescaled exactly when the DPI changed. A zero size is ignored.
pub proof fn lemma_resize_action_on_change(
    current: Dimensions,
    current_state: u8,
    new: Dimensions,
    new_state: u8,
    was_live: bool,
    live: bool,
)
    ensures
        ({
            let a = spec_resize_action(current, current_state, new, new_state, was_live, live);
            &&& (new.pixel_width == 0 || new.pixel_height == 0) <==> a is Ignore
            &&& new.pixel_width > 0 && new.pixel_height > 0 ==> (a is Unchanged <==> (current.pixel_width
                == new.pixel_width && current.pixel_height == new.pixel_height && current.dpi == new.dpi
                && current_state == new_state))
            &&& new.pixel_width > 0 && new.pixel_height > 0 && current_state != new_state ==> a
                == ResizeAction::Apply { reload_os_parameters: true, rescale: current.dpi != new.dpi }
            &&& a matches ResizeAction::Apply { reload_os_parameters, rescale } ==> reload_os_parameters == (
            current_state != new_state) && rescale == (current.dpi != new.dpi)
            &&& a matches ResizeAction::Unchanged { repaint } ==> repaint == (was_live && !live)
        }),
{
}

} // verus!
