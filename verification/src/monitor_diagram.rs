//! The monitor layout diagram of the config overlay: numbered boxes drawn
//! with box-drawing characters, shared edges joined into proper junctions.
//! Scaling the monitor rectangles to the character grid (floating point)
//! is the caller's; from the scaled corners on, everything is here.
use vstd::prelude::*;

use crate::overlay_data::{MonitorOverrideEntry, MonitorRect};
use crate::overlay_view::{byte_len, sat_sub, spans_view, utf8_len, Span, Style};
use crate::text::{decimal_of, push_char, push_decimal};

verus! {

/// The bounding box of the monitors that have a screen rectangle:
/// (min x, min y, max right edge, max bottom edge).
pub open spec fn bounds_of(rects: Seq<Option<MonitorRect>>) -> Option<(int, int, int, int)>
    decreases rects.len(),
{
    if rects.len() == 0 {
        None
    } else {
        let prev = bounds_of(rects.drop_last());
        match rects.last() {
            None => prev,
            Some(r) => {
                let (x0, y0, x1, y1) = (r.x as int, r.y as int, r.x + r.width, r.y + r.height);
                match prev {
                    None => Some((x0, y0, x1, y1)),
                    Some((a, b, c, d)) => Some((
                        if a <= x0 { a } else { x0 },
                        if b <= y0 { b } else { y0 },
                        if c >= x1 { c } else { x1 },
                        if d >= y1 { d } else { y1 },
                    )),
                }
            },
        }
    }
}

pub open spec fn entry_rects(v: Seq<MonitorOverrideEntry>) -> Seq<Option<MonitorRect>> {
    v.map_values(|e: MonitorOverrideEntry| e.screen_rect)
}

/// Whether every rectangle's far edges fit in `isize`.
pub open spec fn rects_fit(rects: Seq<Option<MonitorRect>>) -> bool {
    forall|i: int|
        0 <= i < rects.len() ==> match #[trigger] rects[i] {
            Some(r) => isize::MIN <= r.x + r.width <= isize::MAX && isize::MIN <= r.y + r.height <= isize::MAX,
            None => true,
        }
}

/// The bounding box of the monitors' screen rectangles, if any has one.
pub fn monitor_bounds(monitors: &Vec<MonitorOverrideEntry>) -> (r: Option<(isize, isize, isize, isize)>)
    requires
        rects_fit(entry_rects(monitors@)),
    ensures
        match r {
            Some((a, b, c, d)) => bounds_of(entry_rects(monitors@)) == Some((a as int, b as int, c as int, d as int)),
            None => bounds_of(entry_rects(monitors@)) is None,
        },
{
    let ghost rv = entry_rects(monitors@);
    let mut acc: Option<(isize, isize, isize, isize)> = None;
    let mut i: usize = 0;
    while i < monitors.len()
        invariant
            i <= monitors@.len(),
            rv == entry_rects(monitors@),
            rects_fit(rv),
            match acc {
                Some((a, b, c, d)) => bounds_of(rv.take(i as int)) == Some((a as int, b as int, c as int, d as int)),
                None => bounds_of(rv.take(i as int)) is None,
            },
        decreases monitors@.len() - i,
    {
        let ghost t = rv.take(i + 1);
        assert(t.drop_last() =~= rv.take(i as int));
        assert(t.last() == monitors@[i as int].screen_rect);
        if let Some(r) = monitors[i].screen_rect {
            assert(rv[i as int] == Some(r));
            let x1 = r.x + r.width;
            let y1 = r.y + r.height;
            acc = match acc {
                None => Some((r.x, r.y, x1, y1)),
                Some((a, b, c, d)) => Some((
                    if a <= r.x { a } else { r.x },
                    if b <= r.y { b } else { r.y },
                    if c >= x1 { c } else { x1 },
                    if d >= y1 { d } else { y1 },
                )),
            };
        }
        i += 1;
    }
    assert(rv.take(monitors@.len() as int) =~= rv);
    acc
}

/// The note shown instead of a diagram: none when there is a bounding box
/// with width and height.
pub open spec fn spec_diagram_note(bounds: Option<(int, int, int, int)>) -> Option<Seq<char>> {
    match bounds {
        None => Some(" (no monitor geometry available)"@),
        Some((a, b, c, d)) => if c - a <= 0 || d - b <= 0 {
            Some(" (invalid monitor geometry)"@)
        } else {
            None
        },
    }
}

/// The note shown instead of the diagram, if one is.
pub fn diagram_note(bounds: Option<(isize, isize, isize, isize)>) -> (r: Option<Span>)
    ensures
        match r {
            Some(s) => Some(s.text@) == spec_diagram_note(match bounds {
                Some((a, b, c, d)) => Some((a as int, b as int, c as int, d as int)),
                None => None,
            }) && s.style == Style::TextDim,
            None => spec_diagram_note(match bounds {
                Some((a, b, c, d)) => Some((a as int, b as int, c as int, d as int)),
                None => None,
            }) is None,
        },
{
    match bounds {
        None => Some(Span { text: " (no monitor geometry available)".to_owned(), style: Style::TextDim }),
        Some((a, b, c, d)) => {
            if c <= a || d <= b {
                Some(Span { text: " (invalid monitor geometry)".to_owned(), style: Style::TextDim })
            } else {
                None
            }
        },
    }
}

/// The drawing area and the grid size: the drawing area is one column
/// less than available (at least 10 wide, 3 high), and the grid the
/// scaled size (`raw_w` × `raw_h`) cut to it, at least one cell.
pub open spec fn spec_grid_size(avail_w: int, avail_h: int, raw_w: int, raw_h: int) -> (int, int) {
    let dw = if sat_sub(avail_w, 1) >= 10 { sat_sub(avail_w, 1) } else { 10 };
    let dh = if avail_h >= 3 { avail_h } else { 3 };
    let gw = if raw_w <= dw { raw_w } else { dw };
    let gh = if raw_h <= dh { raw_h } else { dh };
    (if gw >= 1 { gw } else { 1 }, if gh >= 1 { gh } else { 1 })
}

pub fn grid_size(avail_w: usize, avail_h: usize, raw_w: usize, raw_h: usize) -> (r: (usize, usize))
    ensures
        (r.0 as int, r.1 as int) == spec_grid_size(avail_w as int, avail_h as int, raw_w as int, raw_h as int),
{
    let dw = if avail_w.saturating_sub(1) >= 10 { avail_w.saturating_sub(1) } else { 10 };
    let dh = if avail_h >= 3 { avail_h } else { 3 };
    let gw = if raw_w <= dw { raw_w } else { dw };
    let gh = if raw_h <= dh { raw_h } else { dh };
    (if gw >= 1 { gw } else { 1 }, if gh >= 1 { gh } else { 1 })
}

/// A monitor scaled to the grid: its index among the entries, its corners
/// (rounded, not yet cut to the grid) and whether it is the current one.
#[derive(Debug, Clone, Copy, PartialEq, Eq, Structural)]
pub struct ScaledMonitor {
    pub index: usize,
    pub x1: usize,
    pub y1: usize,
    pub x2: usize,
    pub y2: usize,
    pub is_current: bool,
}

/// A box's corners cut to a `gw` × `gh` grid, at least two cells apart.
pub open spec fn clamp_box(m: ScaledMonitor, gw: int, gh: int) -> (int, int, int, int) {
    let x1 = if m.x1 <= gw - 1 { m.x1 as int } else { gw - 1 };
    let x2a = if m.x2 <= gw - 1 { m.x2 as int } else { gw - 1 };
    let x2 = if x2a >= x1 + 2 { x2a } else { x1 + 2 };
    let y1 = if m.y1 <= gh - 1 { m.y1 as int } else { gh - 1 };
    let y2a = if m.y2 <= gh - 1 { m.y2 as int } else { gh - 1 };
    let y2 = if y2a >= y1 + 2 { y2a } else { y1 + 2 };
    (x1, y1, x2, y2)
}

/// Edge bits of a cell: 1 up, 2 down, 4 left, 8 right.
pub open spec fn box_bits(m: ScaledMonitor, gw: int, gh: int, y: int, x: int) -> u8 {
    let (x1, y1, x2, y2) = clamp_box(m, gw, gh);
    let horiz = (y == y1 || y == y2) && y < gh;
    let vert = (x == x1 || x == x2) && x < gw;
    let right: u8 = if horiz && x1 <= x < x2 && x + 1 < gw { 8 } else { 0 };
    let left: u8 = if horiz && x1 <= x - 1 < x2 && x < gw { 4 } else { 0 };
    let down: u8 = if vert && y1 <= y < y2 && y + 1 < gh { 2 } else { 0 };
    let up: u8 = if vert && y1 <= y - 1 < y2 && y < gh { 1 } else { 0 };
    (right | left | down | up) as u8
}

/// The edge bits all boxes give a cell.
pub open spec fn cell_bits(ms: Seq<ScaledMonitor>, gw: int, gh: int, y: int, x: int) -> u8
    decreases ms.len(),
{
    if ms.len() == 0 {
        0
    } else {
        cell_bits(ms.drop_last(), gw, gh, y, x) | box_bits(ms.last(), gw, gh, y, x)
    }
}

/// The monitor owning a cell: the last box whose area (cut to the grid)
/// holds it.
pub open spec fn cell_owner(ms: Seq<ScaledMonitor>, gw: int, gh: int, y: int, x: int) -> Option<usize>
    decreases ms.len(),
{
    if ms.len() == 0 {
        None
    } else {
        let (x1, y1, x2, y2) = clamp_box(ms.last(), gw, gh);
        let ye = if y2 <= gh - 1 { y2 } else { gh - 1 };
        let xe = if x2 <= gw - 1 { x2 } else { gw - 1 };
        if y1 <= y <= ye && x1 <= x <= xe {
            Some(ms.last().index)
        } else {
            cell_owner(ms.drop_last(), gw, gh, y, x)
        }
    }
}

/// The label of a box: its number, after a diamond for the current one.
pub open spec fn box_label(m: ScaledMonitor) -> Seq<char> {
    (if m.is_current { seq!['◆'] } else { Seq::empty() }) + decimal_of((m.index + 1) as nat)
}

/// The byte length of a label.
pub open spec fn label_bytes(m: ScaledMonitor) -> int {
    utf8_len(box_label(m))
}

/// The label character a box puts on a cell: labels are centred in the
/// box and only drawn strictly inside it.
pub open spec fn box_label_at(m: ScaledMonitor, gw: int, gh: int, y: int, x: int) -> Option<char> {
    let (x1, y1, x2, y2) = clamp_box(m, gw, gh);
    let cy = (y1 + y2) / 2;
    let cx = (x1 + x2) / 2;
    let start = sat_sub(cx, label_bytes(m) / 2);
    let l = box_label(m);
    if y == cy && cy > y1 && cy < y2 && x > x1 && x < x2 && x < gw && start <= x < start + l.len() {
        Some(l[x - start])
    } else {
        None
    }
}

/// The label character of a cell: that of the last box labelling it.
pub open spec fn cell_label(ms: Seq<ScaledMonitor>, gw: int, gh: int, y: int, x: int) -> Option<char>
    decreases ms.len(),
{
    if ms.len() == 0 {
        None
    } else {
        match box_label_at(ms.last(), gw, gh, y, x) {
            Some(c) => Some(c),
            None => cell_label(ms.drop_last(), gw, gh, y, x),
        }
    }
}

/// The box-drawing character for a cell's edge bits.
pub open spec fn resolve_bits(c: u8) -> char {
    let up = c & 1 != 0;
    let down = c & 2 != 0;
    let left = c & 4 != 0;
    let right = c & 8 != 0;
    if !up && down && !left && right {
        '┌'
    } else if !up && down && left && !right {
        '┐'
    } else if up && !down && !left && right {
        '└'
    } else if up && !down && left && !right {
        '┘'
    } else if !up && !down && left && right {
        '─'
    } else if up && down && !left && !right {
        '│'
    } else if up && down && !left && right {
        '├'
    } else if up && down && left && !right {
        '┤'
    } else if !up && down && left && right {
        '┬'
    } else if up && !down && left && right {
        '┴'
    } else if up && down && left && right {
        '┼'
    } else if (!up && down && !left && !right) || (up && !down && !left && !right) {
        '│'
    } else if (!up && !down && left && !right) || (!up && !down && !left && right) {
        '─'
    } else {
        ' '
    }
}

/// The box-drawing character for edge bits.
pub fn resolve(c: u8) -> (r: char)
    ensures
        r == resolve_bits(c),
{
    let up = c & 1 != 0;
    let down = c & 2 != 0;
    let left = c & 4 != 0;
    let right = c & 8 != 0;
    match (up, down, left, right) {
        (false, true, false, true) => '┌',
        (false, true, true, false) => '┐',
        (true, false, false, true) => '└',
        (true, false, true, false) => '┘',
        (false, false, true, true) => '─',
        (true, true, false, false) => '│',
        (true, true, false, true) => '├',
        (true, true, true, false) => '┤',
        (false, true, true, true) => '┬',
        (true, false, true, true) => '┴',
        (true, true, true, true) => '┼',
        (false, true, false, false) => '│',
        (true, false, false, false) => '│',
        (false, false, true, false) => '─',
        (false, false, false, true) => '─',
        _ => ' ',
    }
}

/// What a cell shows: its character, its owner, and whether it is on an
/// edge.
pub open spec fn cell(ms: Seq<ScaledMonitor>, gw: int, gh: int, y: int, x: int) -> (char, Option<usize>, bool) {
    let bits = cell_bits(ms, gw, gh, y, x);
    let ch = match cell_label(ms, gw, gh, y, x) {
        Some(c) => c,
        None => if bits != 0 { resolve_bits(bits) } else { ' ' },
    };
    (ch, cell_owner(ms, gw, gh, y, x), bits != 0)
}

/// The style of a run of cells: selected monitor, edge, inside of a
/// monitor, or background.
pub open spec fn run_style(owner: Option<usize>, border: bool, selected: Option<usize>) -> Style {
    match owner {
        Some(i) => if Some(i) == selected {
            Style::Selected
        } else if border {
            Style::Border
        } else {
            Style::Text
        },
        None => Style::TextDim,
    }
}

/// The spans of a row so far, the text of the open run, and its key,
/// after the cells `cs`: a run closes where the owner or edge-ness changes.
pub open spec fn row_runs(cs: Seq<(char, Option<usize>, bool)>, selected: Option<usize>) -> (Seq<(Seq<char>, Style)>, Seq<char>, (Option<usize>, bool))
    decreases cs.len(),
{
    if cs.len() == 0 {
        (Seq::empty(), Seq::empty(), (None, false))
    } else {
        let (spans, text, key) = row_runs(cs.drop_last(), selected);
        let (ch, own, border) = cs.last();
        if (own, border) != key {
            let spans2 = if text.len() > 0 { spans.push((text, run_style(key.0, key.1, selected))) } else { spans };
            (spans2, seq![ch], (own, border))
        } else {
            (spans, text.push(ch), key)
        }
    }
}

/// A row of the diagram: a leading blank, then its runs.
pub open spec fn row_line(cs: Seq<(char, Option<usize>, bool)>, selected: Option<usize>) -> Seq<(Seq<char>, Style)> {
    let (spans, text, key) = row_runs(cs, selected);
    seq![(" "@, Style::Plain)] + spans + if text.len() > 0 { seq![(text, run_style(key.0, key.1, selected))] } else { Seq::empty() }
}

/// The cells of row `y`.
pub open spec fn row_cells(ms: Seq<ScaledMonitor>, gw: int, gh: int, y: int) -> Seq<(char, Option<usize>, bool)> {
    Seq::new(gw as nat, |x: int| cell(ms, gw, gh, y, x))
}

/// The grid is small enough for its arithmetic.
pub open spec fn diagram_fits(ms: Seq<ScaledMonitor>, gw: int, gh: int) -> bool {
    &&& 1 <= gw && 2 * gw + 4 <= usize::MAX
    &&& 1 <= gh && 2 * gh + 4 <= usize::MAX
    &&& forall|i: int| 0 <= i < ms.len() ==> (#[trigger] ms[i]).index < usize::MAX && ms[i].index + 1 <= u64::MAX
}

fn clamp_box_exec(m: ScaledMonitor, gw: usize, gh: usize) -> (r: (usize, usize, usize, usize))
    requires
        1 <= gw,
        2 * gw + 4 <= usize::MAX,
        1 <= gh,
        2 * gh + 4 <= usize::MAX,
    ensures
        (r.0 as int, r.1 as int, r.2 as int, r.3 as int) == clamp_box(m, gw as int, gh as int),
{
    let x1 = if m.x1 <= gw - 1 { m.x1 } else { gw - 1 };
    let x2a = if m.x2 <= gw - 1 { m.x2 } else { gw - 1 };
    let x2 = if x2a >= x1 + 2 { x2a } else { x1 + 2 };
    let y1 = if m.y1 <= gh - 1 { m.y1 } else { gh - 1 };
    let y2a = if m.y2 <= gh - 1 { m.y2 } else { gh - 1 };
    let y2 = if y2a >= y1 + 2 { y2a } else { y1 + 2 };
    (x1, y1, x2, y2)
}

fn label_of(m: ScaledMonitor) -> (r: (Vec<char>, usize))
    requires
        m.index < usize::MAX,
        m.index + 1 <= u64::MAX,
    ensures
        r.0@ == box_label(m),
        r.1 as int == label_bytes(m),
{
    let mut s = String::new();
    assert(s@ =~= Seq::<char>::empty());
    if m.is_current {
        push_char(&mut s, '◆');
    }
    let ghost pre = s@;
    push_decimal(&mut s, (m.index + 1) as u64);
    assert(s@ =~= box_label(m));
    let n = byte_len(&s);
    (crate::text::chars_of(s.as_str()), n)
}

fn box_bits_exec(m: ScaledMonitor, gw: usize, gh: usize, y: usize, x: usize) -> (r: u8)
    requires
        1 <= gw,
        2 * gw + 4 <= usize::MAX,
        1 <= gh,
        2 * gh + 4 <= usize::MAX,
        x < gw,
        y < gh,
    ensures
        r == box_bits(m, gw as int, gh as int, y as int, x as int),
{
    let (x1, y1, x2, y2) = clamp_box_exec(m, gw, gh);
    let horiz = (y == y1 || y == y2) && y < gh;
    let vert = (x == x1 || x == x2) && x < gw;
    let right: u8 = if horiz && x1 <= x && x < x2 && x + 1 < gw { 8 } else { 0 };
    let left: u8 = if horiz && x >= 1 && x1 <= x - 1 && x - 1 < x2 && x < gw { 4 } else { 0 };
    let down: u8 = if vert && y1 <= y && y < y2 && y + 1 < gh { 2 } else { 0 };
    let up: u8 = if vert && y >= 1 && y1 <= y - 1 && y - 1 < y2 && y < gh { 1 } else { 0 };
    right | left | down | up
}

fn cell_exec(ms: &Vec<ScaledMonitor>, labels: &Vec<(Vec<char>, usize)>, gw: usize, gh: usize, y: usize, x: usize) -> (r: (char, Option<usize>, bool))
    requires
        diagram_fits(ms@, gw as int, gh as int),
        labels@.len() == ms@.len(),
        forall|i: int| 0 <= i < ms@.len() ==> (#[trigger] labels@[i]).0@ == box_label(ms@[i]) && labels@[i].1 as int == label_bytes(ms@[i]),
        x < gw,
        y < gh,
    ensures
        r == cell(ms@, gw as int, gh as int, y as int, x as int),
{
    let mut bits: u8 = 0;
    let mut owner: Option<usize> = None;
    let mut label: Option<char> = None;
    let mut i: usize = 0;
    while i < ms.len()
        invariant
            i <= ms@.len(),
            diagram_fits(ms@, gw as int, gh as int),
            labels@.len() == ms@.len(),
            forall|k: int| 0 <= k < ms@.len() ==> (#[trigger] labels@[k]).0@ == box_label(ms@[k]) && labels@[k].1 as int == label_bytes(ms@[k]),
            x < gw,
            y < gh,
            bits == cell_bits(ms@.take(i as int), gw as int, gh as int, y as int, x as int),
            owner == cell_owner(ms@.take(i as int), gw as int, gh as int, y as int, x as int),
            label == cell_label(ms@.take(i as int), gw as int, gh as int, y as int, x as int),
        decreases ms@.len() - i,
    {
        let m = ms[i];
        let ghost t = ms@.take(i + 1);
        assert(t.drop_last() =~= ms@.take(i as int));
        assert(t.last() == m);
        bits = bits | box_bits_exec(m, gw, gh, y, x);
        let (x1, y1, x2, y2) = clamp_box_exec(m, gw, gh);
        let ye = if y2 <= gh - 1 { y2 } else { gh - 1 };
        let xe = if x2 <= gw - 1 { x2 } else { gw - 1 };
        if y1 <= y && y <= ye && x1 <= x && x <= xe {
            owner = Some(m.index);
        }
        let cy = (y1 + y2) / 2;
        let cx = (x1 + x2) / 2;
        let (l, lbytes) = &labels[i];
        let start = cx.saturating_sub(*lbytes / 2);
        if y == cy && cy > y1 && cy < y2 && x > x1 && x < x2 && x < gw && start <= x && x - start < l.len() {
            label = Some(l[x - start]);
        }
        i += 1;
    }
    assert(ms@.take(ms@.len() as int) =~= ms@);
    let ch = match label {
        Some(c) => c,
        None => if bits != 0 { resolve(bits) } else { ' ' },
    };
    (ch, owner, bits != 0)
}

fn run_style_exec(owner: Option<usize>, border: bool, selected: Option<usize>) -> (r: Style)
    ensures
        r == run_style(owner, border, selected),
{
    match owner {
        Some(i) => if selected == Some(i) {
            Style::Selected
        } else if border {
            Style::Border
        } else {
            Style::Text
        },
        None => Style::TextDim,
    }
}

/// The lines of the diagram for monitors scaled to a `gw` × `gh` grid, the
/// monitor `selected` highlighted.
pub fn diagram_lines(ms: &Vec<ScaledMonitor>, gw: usize, gh: usize, selected: Option<usize>) -> (r: Vec<Vec<Span>>)
    requires
        diagram_fits(ms@, gw as int, gh as int),
    ensures
        r@.len() == gh,
        forall|y: int| 0 <= y < gh ==> spans_view((#[trigger] r@[y])@) == row_line(row_cells(ms@, gw as int, gh as int, y), selected),
{
    let mut labels: Vec<(Vec<char>, usize)> = Vec::new();
    let mut i: usize = 0;
    while i < ms.len()
        invariant
            i <= ms@.len(),
            diagram_fits(ms@, gw as int, gh as int),
            labels@.len() == i,
            forall|k: int| 0 <= k < i ==> (#[trigger] labels@[k]).0@ == box_label(ms@[k]) && labels@[k].1 as int == label_bytes(ms@[k]),
        decreases ms@.len() - i,
    {
        labels.push(label_of(ms[i]));
        i += 1;
    }
    let mut lines: Vec<Vec<Span>> = Vec::new();
    let mut y: usize = 0;
    while y < gh
        invariant
            y <= gh,
            diagram_fits(ms@, gw as int, gh as int),
            labels@.len() == ms@.len(),
            forall|k: int| 0 <= k < ms@.len() ==> (#[trigger] labels@[k]).0@ == box_label(ms@[k]) && labels@[k].1 as int == label_bytes(ms@[k]),
            lines@.len() == y,
            forall|q: int| 0 <= q < y ==> spans_view((#[trigger] lines@[q])@) == row_line(row_cells(ms@, gw as int, gh as int, q), selected),
        decreases gh - y,
    {
        let ghost cs = row_cells(ms@, gw as int, gh as int, y as int);
        let mut spans: Vec<Span> = Vec::new();
        spans.push(Span { text: " ".to_owned(), style: Style::Plain });
        let mut text = String::new();
        assert(text@ =~= Seq::<char>::empty());
        let mut cur_owner: Option<usize> = None;
        let mut cur_border = false;
        let mut x: usize = 0;
        while x < gw
            invariant
                x <= gw,
                y < gh,
                diagram_fits(ms@, gw as int, gh as int),
                labels@.len() == ms@.len(),
                forall|k: int| 0 <= k < ms@.len() ==> (#[trigger] labels@[k]).0@ == box_label(ms@[k]) && labels@[k].1 as int == label_bytes(ms@[k]),
                cs == row_cells(ms@, gw as int, gh as int, y as int),
                ({
                    let (sp, t, key) = row_runs(cs.take(x as int), selected);
                    &&& spans_view(spans@) == seq![(" "@, Style::Plain)] + sp
                    &&& text@ == t
                    &&& (cur_owner, cur_border) == key
                }),
            decreases gw - x,
        {
            let (ch, own, border) = cell_exec(ms, &labels, gw, gh, y, x);
            let ghost t = cs.take(x + 1);
            assert(t.drop_last() =~= cs.take(x as int));
            assert(t.last() == cs[x as int]);
            let ghost before = spans@;
            let ghost old_text = text@;
            if own != cur_owner || border != cur_border {
                if !text.as_str().is_empty() {
                    let style = run_style_exec(cur_owner, cur_border, selected);
                    spans.push(Span { text, style });
                    assert(spans_view(spans@) =~= spans_view(before).push((old_text, style)));
                }
                text = String::new();
                assert(text@ =~= Seq::<char>::empty());
                cur_owner = own;
                cur_border = border;
            }
            push_char(&mut text, ch);
            x += 1;
        }
        assert(cs.take(gw as int) =~= cs);
        let ghost before = spans@;
        let ghost old_text = text@;
        if !text.as_str().is_empty() {
            let style = run_style_exec(cur_owner, cur_border, selected);
            spans.push(Span { text, style });
            assert(spans_view(spans@) =~= spans_view(before).push((old_text, style)));
        }
        assert(spans_view(spans@) =~= row_line(cs, selected));
        lines.push(spans);
        y += 1;
    }
    lines
}

} // verus!
