//! The colors the overlay's widgets use, and the terminal colors they are
//! drawn with.
use vstd::prelude::*;

verus! {

/// A widget color: reset, one of the sixteen named ANSI colors, an RGB
/// triple or a palette index.
#[derive(Debug, Clone, Copy, PartialEq, Eq, Structural)]
pub enum TuiColor {
    Reset,
    Black,
    Red,
    Green,
    Yellow,
    Blue,
    Magenta,
    Cyan,
    Gray,
    DarkGray,
    LightRed,
    LightGreen,
    LightYellow,
    LightBlue,
    LightMagenta,
    LightCyan,
    White,
    Rgb(u8, u8, u8),
    Indexed(u8),
}

/// A terminal cell color: the default color, a palette entry, or a true
/// color given by its 8-bit channels (each channel `c` stands for the
/// intensity `c / 255`, fully opaque), falling back to the default.
#[derive(Debug, Clone, Copy, PartialEq, Eq, Structural)]
pub enum TermColor {
    Default,
    PaletteIndex(u8),
    TrueColorWithDefaultFallback { red: u8, green: u8, blue: u8 },
}

/// The palette index of a named ANSI color, in the standard order (black,
/// red, green, yellow, blue, magenta, cyan, gray, then the bright ones).
pub open spec fn named_index(c: TuiColor) -> Option<u8> {
    match c {
        TuiColor::Black => Some(0u8),
        TuiColor::Red => Some(1u8),
        TuiColor::Green => Some(2u8),
        TuiColor::Yellow => Some(3u8),
        TuiColor::Blue => Some(4u8),
        TuiColor::Magenta => Some(5u8),
        TuiColor::Cyan => Some(6u8),
        TuiColor::Gray => Some(7u8),
        TuiColor::DarkGray => Some(8u8),
        TuiColor::LightRed => Some(9u8),
        TuiColor::LightGreen => Some(10u8),
        TuiColor::LightYellow => Some(11u8),
        TuiColor::LightBlue => Some(12u8),
        TuiColor::LightMagenta => Some(13u8),
        TuiColor::LightCyan => Some(14u8),
        TuiColor::White => Some(15u8),
        _ => None,
    }
}

/// The terminal color a widget color is drawn with.
pub open spec fn spec_term_color(c: TuiColor) -> TermColor {
    match c {
        TuiColor::Reset => TermColor::Default,
        TuiColor::Rgb(r, g, b) => TermColor::TrueColorWithDefaultFallback { red: r, green: g, blue: b },
        TuiColor::Indexed(i) => TermColor::PaletteIndex(i),
        _ => TermColor::PaletteIndex(named_index(c)->0),
    }
}

/// Converts a widget color to the terminal color it is drawn with.
pub fn ratatui_color_to_termwiz(color: TuiColor) -> (r: TermColor)
    ensures
        r == spec_term_color(color),
{
    match color {
        TuiColor::Reset => TermColor::Default,
        TuiColor::Black => TermColor::PaletteIndex(0),
        TuiColor::Red => TermColor::PaletteIndex(1),
        TuiColor::Green => TermColor::PaletteIndex(2),
        TuiColor::Yellow => TermColor::PaletteIndex(3),
        TuiColor::Blue => TermColor::PaletteIndex(4),
        TuiColor::Magenta => TermColor::PaletteIndex(5),
        TuiColor::Cyan => TermColor::PaletteIndex(6),
        TuiColor::Gray => TermColor::PaletteIndex(7),
        TuiColor::DarkGray => TermColor::PaletteIndex(8),
        TuiColor::LightRed => TermColor::PaletteIndex(9),
        TuiColor::LightGreen => TermColor::PaletteIndex(10),
        TuiColor::LightYellow => TermColor::PaletteIndex(11),
        TuiColor::LightBlue => TermColor::PaletteIndex(12),
        TuiColor::LightMagenta => TermColor::PaletteIndex(13),
        TuiColor::LightCyan => TermColor::PaletteIndex(14),
        TuiColor::White => TermColor::PaletteIndex(15),
        TuiColor::Rgb(r, g, b) => TermColor::TrueColorWithDefaultFallback { red: r, green: g, blue: b },
        TuiColor::Indexed(idx) => TermColor::PaletteIndex(idx),
    }
}

/// Text intensity.
#[derive(Debug, Clone, Copy, PartialEq, Eq, Structural)]
pub enum Intensity {
    Normal,
    Bold,
    Half,
}

/// The style modifiers of a widget cell.
#[derive(Debug, Clone, Copy, PartialEq, Eq, Structural)]
pub struct Modifiers {
    pub bold: bool,
    pub dim: bool,
    pub italic: bool,
    pub underlined: bool,
    pub reversed: bool,
}

/// A widget cell to draw at column `x`, row `y`.
#[derive(Debug, PartialEq, Eq)]
pub struct DrawCell {
    pub x: u16,
    pub y: u16,
    pub symbol: String,
    pub fg: TuiColor,
    pub bg: TuiColor,
    pub modifier: Modifiers,
}

/// A change to the terminal.
#[derive(Debug, PartialEq, Eq)]
pub enum CellChange {
    MoveTo { x: u16, y: u16 },
    Foreground(TermColor),
    Background(TermColor),
    Intensity(Intensity),
    Italic(bool),
    Underline(bool),
    Reverse(bool),
    Text(String),
}

pub enum CellChangeView {
    MoveTo(u16, u16),
    Foreground(TermColor),
    Background(TermColor),
    Intensity(Intensity),
    Italic(bool),
    Underline(bool),
    Reverse(bool),
    Text(Seq<char>),
}

pub open spec fn change_view(c: CellChange) -> CellChangeView {
    match c {
        CellChange::MoveTo { x, y } => CellChangeView::MoveTo(x, y),
        CellChange::Foreground(t) => CellChangeView::Foreground(t),
        CellChange::Background(t) => CellChangeView::Background(t),
        CellChange::Intensity(i) => CellChangeView::Intensity(i),
        CellChange::Italic(b) => CellChangeView::Italic(b),
        CellChange::Underline(b) => CellChangeView::Underline(b),
        CellChange::Reverse(b) => CellChangeView::Reverse(b),
        CellChange::Text(s) => CellChangeView::Text(s@),
    }
}

pub open spec fn changes_view(v: Seq<CellChange>) -> Seq<CellChangeView> {
    v.map_values(|c: CellChange| change_view(c))
}

/// Bold wins over dim; neither is normal.
pub open spec fn intensity_of(m: Modifiers) -> Intensity {
    if m.bold { Intensity::Bold } else if m.dim { Intensity::Half } else { Intensity::Normal }
}

/// `acc` followed by the changes drawing one cell: its style, then its
/// symbol.
pub open spec fn cell_changes(acc: Seq<CellChangeView>, c: DrawCell) -> Seq<CellChangeView> {
    acc.push(CellChangeView::Foreground(spec_term_color(c.fg)))
        .push(CellChangeView::Background(spec_term_color(c.bg)))
        .push(CellChangeView::Intensity(intensity_of(c.modifier)))
        .push(CellChangeView::Italic(c.modifier.italic))
        .push(CellChangeView::Underline(c.modifier.underlined))
        .push(CellChangeView::Reverse(c.modifier.reversed))
        .push(CellChangeView::Text(c.symbol@))
}

/// The changes drawing `cells` in order: the cursor moves to a cell unless
/// it directly follows the previous one on the same row.
pub open spec fn spec_draw(cells: Seq<DrawCell>) -> Seq<CellChangeView>
    decreases cells.len(),
{
    if cells.len() == 0 {
        Seq::empty()
    } else {
        let prev = cells.drop_last();
        let c = cells.last();
        let contiguous = prev.len() > 0 && prev.last().y == c.y && prev.last().x + 1 == c.x;
        let a = spec_draw(prev);
        cell_changes(if contiguous { a } else { a.push(CellChangeView::MoveTo(c.x, c.y)) }, c)
    }
}

fn push_change(out: &mut Vec<CellChange>, c: CellChange)
    ensures
        changes_view(final(out)@) == changes_view(old(out)@).push(change_view(c)),
{
    let ghost v = change_view(c);
    out.push(c);
    assert(changes_view(out@) =~= changes_view(old(out)@).push(v));
}

fn draw_cell(out: &mut Vec<CellChange>, c: &DrawCell)
    ensures
        changes_view(final(out)@) == cell_changes(changes_view(old(out)@), *c),
{
    push_change(out, CellChange::Foreground(ratatui_color_to_termwiz(c.fg)));
    push_change(out, CellChange::Background(ratatui_color_to_termwiz(c.bg)));
    let intensity = if c.modifier.bold {
        Intensity::Bold
    } else if c.modifier.dim {
        Intensity::Half
    } else {
        Intensity::Normal
    };
    push_change(out, CellChange::Intensity(intensity));
    push_change(out, CellChange::Italic(c.modifier.italic));
    push_change(out, CellChange::Underline(c.modifier.underlined));
    push_change(out, CellChange::Reverse(c.modifier.reversed));
    push_change(out, CellChange::Text(c.symbol.clone()));
}

/// The terminal changes that draw the widget cells.
pub fn draw_changes(cells: &Vec<DrawCell>) -> (r: Vec<CellChange>)
    requires
        forall|i: int| 0 <= i < cells@.len() ==> (#[trigger] cells@[i]).x < u16::MAX,
    ensures
        changes_view(r@) == spec_draw(cells@),
{
    let mut out: Vec<CellChange> = Vec::new();
    assert(changes_view(out@) =~= Seq::<CellChangeView>::empty());
    let mut last: Option<(u16, u16)> = None;
    let mut i: usize = 0;
    while i < cells.len()
        invariant
            i <= cells@.len(),
            forall|k: int| 0 <= k < cells@.len() ==> (#[trigger] cells@[k]).x < u16::MAX,
            changes_view(out@) == spec_draw(cells@.take(i as int)),
            last == (if i == 0 { None } else { Some((cells@[i - 1].x, cells@[i - 1].y)) }),
        decreases cells@.len() - i,
    {
        let c = &cells[i];
        let ghost tk = cells@.take(i + 1);
        assert(tk.drop_last() =~= cells@.take(i as int));
        assert(tk.last() == cells@[i as int]);
        let contiguous = match last {
            Some((lx, ly)) => ly == c.y && lx + 1 == c.x,
            None => false,
        };
        if !contiguous {
            push_change(&mut out, CellChange::MoveTo { x: c.x, y: c.y });
        }
        last = Some((c.x, c.y));
        draw_cell(&mut out, c);
        i += 1;
    }
    assert(cells@.take(cells@.len() as int) =~= cells@);
    out
}

} // verus!
