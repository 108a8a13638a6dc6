//! Frame bookkeeping of the CPU renderer: which rows of the terminal must
//! be redrawn (those whose content changed since the last frame, or all of
//! them after an invalidation), where the cursor block goes, and the one
//! dirty rectangle to present. Rasterising and blending glyphs is the
//! caller's.
use vstd::prelude::*;
use std::collections::HashMap;

use crate::dirty_rect::DirtyRect;

verus! {

broadcast use vstd::std_specs::hash::group_hash_axioms;

/// The sequence numbers of the rows drawn in the last frame, and whether
/// the next frame must redraw everything.
#[derive(Debug)]
pub struct FrameTracker {
    pub last_row_seqno: HashMap<isize, u64>,
    pub fresh: bool,
}

/// The cursor: its column, its row, and whether it is shown.
#[derive(Debug, Clone, Copy, PartialEq, Eq, Structural)]
pub struct CursorCell {
    pub x: usize,
    pub y: isize,
    pub visible: bool,
}

/// A row to redraw: its index among the visible rows, its top and its
/// height in pixels.
#[derive(Debug, Clone, Copy, PartialEq, Eq, Structural)]
pub struct RowPlan {
    pub index: usize,
    pub y_top: usize,
    pub height: usize,
}

/// What a frame draws: the rows, the cursor block (x, y, width, height)
/// and the dirty rectangle to present.
#[derive(Debug, PartialEq, Eq)]
pub struct FramePlan {
    pub rows: Vec<RowPlan>,
    pub cursor: Option<(usize, usize, usize, usize)>,
    pub dirty: Option<DirtyRect>,
}

/// The frame's inputs as plain values.
pub struct FrameInput {
    pub fresh: bool,
    pub last: Map<isize, u64>,
    pub canvas_w: int,
    pub canvas_h: int,
    pub cell_w: int,
    pub cell_h: int,
    pub first_row: int,
    pub seqnos: Seq<u64>,
}

/// Everything is redrawn on the first frame, after an invalidation, on an
/// empty canvas, or when no row was recorded.
pub open spec fn force_full(f: FrameInput) -> bool {
    f.fresh || f.canvas_w == 0 || f.canvas_h == 0 || f.last.dom().is_empty()
}

/// Row `i` changed since the last frame.
pub open spec fn changed(f: FrameInput, i: int) -> bool {
    force_full(f) || !(f.last.dom().contains((f.first_row + i) as isize) && f.last[(f.first_row + i) as isize] == f.seqnos[i])
}

/// Row `i` ends the frame: it changed but starts below the canvas.
pub open spec fn stops(f: FrameInput, i: int) -> bool {
    changed(f, i) && i * f.cell_h >= f.canvas_h
}

/// Rows `[0, k)` are all looked at: none of them ends the frame.
pub open spec fn reached(f: FrameInput, k: int) -> bool {
    forall|i: int| 0 <= i < k ==> !#[trigger] stops(f, i)
}

/// The row that ends the frame, or the number of rows when none does: the
/// first row that changed but starts below the canvas.
pub open spec fn stop_index(f: FrameInput) -> int {
    choose|k: int| 0 <= k <= f.seqnos.len() && reached(f, k) && (k == f.seqnos.len() || stops(f, k))
}

proof fn lemma_stop_index(f: FrameInput, k: int)
    requires
        0 <= k <= f.seqnos.len(),
        reached(f, k),
        k == f.seqnos.len() || stops(f, k),
    ensures
        stop_index(f) == k,
{
    let j = stop_index(f);
    assert(0 <= j <= f.seqnos.len() && reached(f, j) && (j == f.seqnos.len() || stops(f, j)));
    if j < k {
        assert(!stops(f, j));
    } else if j > k {
        assert(!stops(f, k));
    }
}

/// The rows redrawn among the first `k`.
pub open spec fn rows_upto(f: FrameInput, k: int) -> Seq<(int, int, int)>
    decreases k,
{
    if k <= 0 {
        Seq::empty()
    } else {
        let prev = rows_upto(f, k - 1);
        let i = k - 1;
        if changed(f, i) {
            let top = i * f.cell_h;
            prev.push((i, top, if f.cell_h <= f.canvas_h - top { f.cell_h } else { f.canvas_h - top }))
        } else {
            prev
        }
    }
}

/// The rows whose numbers the frame records: up to the row that ends it.
pub open spec fn recorded(f: FrameInput, k: int) -> Map<isize, u64> {
    Map::new(
        |r: isize| 0 <= r - f.first_row < k,
        |r: isize| f.seqnos[r - f.first_row],
    )
}

/// The cursor block, when the cursor is shown on a visible row and its
/// corner is on the canvas.
pub open spec fn cursor_block(f: FrameInput, c: CursorCell) -> Option<(int, int, int, int)> {
    let n = f.seqnos.len() as int;
    if !c.visible || c.y < f.first_row || c.y >= f.first_row + n {
        None
    } else {
        let x = c.x * f.cell_w;
        let y = (c.y - f.first_row) * f.cell_h;
        if x >= f.canvas_w || y >= f.canvas_h {
            None
        } else {
            Some((
                x,
                y,
                if f.cell_w <= f.canvas_w - x { f.cell_w } else { f.canvas_w - x },
                if f.cell_h <= f.canvas_h - y { f.cell_h } else { f.canvas_h - y },
            ))
        }
    }
}

/// The smallest top and largest bottom of the rows, if any.
pub open spec fn rows_bounds(rows: Seq<(int, int, int)>) -> Option<(int, int)>
    decreases rows.len(),
{
    if rows.len() == 0 {
        None
    } else {
        let r = rows.last();
        extend(rows_bounds(rows.drop_last()), r.1, r.1 + r.2)
    }
}

/// Bounds grown to take in `[top, bottom)`.
pub open spec fn extend(b: Option<(int, int)>, top: int, bottom: int) -> Option<(int, int)> {
    match b {
        None => Some((top, bottom)),
        Some((a, z)) => Some((if a <= top { a } else { top }, if z >= bottom { z } else { bottom })),
    }
}

/// The dirty rectangle: the full width of the canvas over the rows drawn
/// and the cursor, when that is not empty.
pub open spec fn dirty_of(b: Option<(int, int)>, canvas_w: int) -> Option<DirtyRect> {
    match b {
        Some((y0, y1)) => if y1 > y0 && canvas_w > 0 {
            Some(DirtyRect { x: 0, y: y0 as i32, w: canvas_w as u32, h: (y1 - y0) as u32 })
        } else {
            None
        },
        None => None,
    }
}

pub open spec fn row_plans_view(v: Seq<RowPlan>) -> Seq<(int, int, int)> {
    v.map_values(|r: RowPlan| (r.index as int, r.y_top as int, r.height as int))
}

/// The sizes keep every product and sum in range.
pub open spec fn frame_fits(f: FrameInput, c: CursorCell) -> bool {
    &&& f.seqnos.len() * f.cell_h <= usize::MAX
    &&& f.seqnos.len() <= isize::MAX
    &&& f.first_row + f.seqnos.len() <= isize::MAX
    &&& c.x * f.cell_w <= usize::MAX
}

impl FrameTracker {
    /// A tracker for a first frame.
    pub fn new() -> (r: FrameTracker)
        ensures
            r.fresh,
            r.last_row_seqno@ == Map::<isize, u64>::empty(),
    {
        FrameTracker { last_row_seqno: HashMap::new(), fresh: true }
    }

    /// Makes the next frame redraw every row (after a resize or a palette
    /// change).
    pub fn invalidate_all(&mut self)
        ensures
            final(self).fresh,
            final(self).last_row_seqno@ == Map::<isize, u64>::empty(),
    {
        self.last_row_seqno.clear();
        self.fresh = true;
    }

    /// Plans a frame on a `canvas_w` × `canvas_h` canvas with cells of
    /// `cell_w` × `cell_h` pixels (at least one), for the visible rows
    /// starting at `first_row` whose sequence numbers are `seqnos`, and
    /// records the rows it looked at for the next frame.
    pub fn plan_frame(
        &mut self,
        canvas_w: usize,
        canvas_h: usize,
        cell_w: isize,
        cell_h: isize,
        first_row: isize,
        seqnos: &Vec<u64>,
        cursor: CursorCell,
    ) -> (r: FramePlan)
        requires
            frame_fits(
                FrameInput {
                    fresh: old(self).fresh,
                    last: old(self).last_row_seqno@,
                    canvas_w: canvas_w as int,
                    canvas_h: canvas_h as int,
                    cell_w: if cell_w >= 1 { cell_w as int } else { 1 },
                    cell_h: if cell_h >= 1 { cell_h as int } else { 1 },
                    first_row: first_row as int,
                    seqnos: seqnos@,
                },
                cursor,
            ),
        ensures
            ({
                let f = FrameInput {
                    fresh: old(self).fresh,
                    last: old(self).last_row_seqno@,
                    canvas_w: canvas_w as int,
                    canvas_h: canvas_h as int,
                    cell_w: if cell_w >= 1 { cell_w as int } else { 1 },
                    cell_h: if cell_h >= 1 { cell_h as int } else { 1 },
                    first_row: first_row as int,
                    seqnos: seqnos@,
                };
                let k = stop_index(f);
                &&& row_plans_view(r.rows@) == rows_upto(f, k)
                &&& final(self).last_row_seqno@ == recorded(f, if k < seqnos@.len() { k + 1 } else { k })
                &&& (r.cursor is Some) == (cursor_block(f, cursor) is Some)
                &&& (r.cursor matches Some(b) ==> Some((b.0 as int, b.1 as int, b.2 as int, b.3 as int)) == cursor_block(f, cursor))
                &&& r.dirty == dirty_of(match cursor_block(f, cursor) {
                    Some(b) => extend(rows_bounds(rows_upto(f, k)), b.1, b.1 + b.3),
                    None => rows_bounds(rows_upto(f, k)),
                }, canvas_w as int)
            }),
            !final(self).fresh,
    {
        let ghost f = FrameInput {
            fresh: self.fresh,
            last: self.last_row_seqno@,
            canvas_w: canvas_w as int,
            canvas_h: canvas_h as int,
            cell_w: if cell_w >= 1 { cell_w as int } else { 1 },
            cell_h: if cell_h >= 1 { cell_h as int } else { 1 },
            first_row: first_row as int,
            seqnos: seqnos@,
        };
        let cw: usize = if cell_w >= 1 { cell_w as usize } else { 1 };
        let ch: usize = if cell_h >= 1 { cell_h as usize } else { 1 };
        let force = self.fresh || canvas_w == 0 || canvas_h == 0 || self.last_row_seqno.is_empty();
        assert(force == force_full(f));
        let n = seqnos.len();
        let mut new_seqnos: HashMap<isize, u64> = HashMap::new();
        let mut rows: Vec<RowPlan> = Vec::new();
        let mut bounds: Option<(usize, usize)> = None;
        let mut i: usize = 0;
        let mut stopped = false;
        while i < n && !stopped
            invariant
                i <= n == seqnos@.len(),
                f.seqnos == seqnos@,
                f.last == self.last_row_seqno@,
                f.cell_h == ch as int,
                f.canvas_h == canvas_h as int,
                f.first_row == first_row as int,
                force == force_full(f),
                frame_fits(f, cursor),
                ch >= 1,
                reached(f, i as int),
                stopped ==> i < n && stops(f, i as int),
                new_seqnos@ == recorded(f, if stopped { i + 1 } else { i as int }),
                row_plans_view(rows@) == rows_upto(f, i as int),
                match bounds {
                    Some((a, b)) => rows_bounds(rows_upto(f, i as int)) == Some((a as int, b as int)),
                    None => rows_bounds(rows_upto(f, i as int)) is None,
                },
                forall|k: int| 0 <= k < rows@.len() ==> (#[trigger] rows@[k]).y_top + rows@[k].height <= canvas_h,
            decreases n - i + (if stopped { 0int } else { 1int }),
        {
            assert(i * ch <= n * ch) by (nonlinear_arith)
                requires
                    i <= n,
            ;
            let row = first_row + i as isize;
            assert(row as int == f.first_row + i);
            let seqno = seqnos[i];
            let ghost before = new_seqnos@;
            new_seqnos.insert(row, seqno);
            let prev = self.last_row_seqno.get(&row);
            let same = match prev {
                Some(p) => {
                    assert(f.last.dom().contains(row) && f.last[row] == *p);
                    *p == seqno
                },
                None => {
                    assert(!f.last.dom().contains(row));
                    false
                },
            };
            let is_changed = force || !same;
            assert(is_changed == changed(f, i as int));
            if is_changed {
                let y_top = i * ch;
                if y_top >= canvas_h {
                    stopped = true;
                    assert(new_seqnos@ =~= recorded(f, i + 1));
                } else {
                    let row_h = if ch <= canvas_h - y_top { ch } else { canvas_h - y_top };
                    let ghost rprev = rows@;
                    rows.push(RowPlan { index: i, y_top, height: row_h });
                    assert(row_plans_view(rows@) =~= row_plans_view(rprev).push((i as int, y_top as int, row_h as int)));
                    assert(rows_upto(f, i + 1) == rows_upto(f, i as int).push((i as int, y_top as int, row_h as int)));
                    assert(rows_upto(f, i + 1).drop_last() =~= rows_upto(f, i as int));
                    let y_end = y_top + row_h;
                    bounds = match bounds {
                        None => Some((y_top, y_end)),
                        Some((a, b)) => Some((if a <= y_top { a } else { y_top }, if b >= y_end { b } else { y_end })),
                    };
                    assert(new_seqnos@ =~= recorded(f, i + 1));
                    i += 1;
                }
            } else {
                assert(new_seqnos@ =~= recorded(f, i + 1));
                i += 1;
            }
        }
        let ghost k: int = i as int;
        let cursor_rect: Option<(usize, usize, usize, usize)> = if !cursor.visible || cursor.y < first_row
            || cursor.y >= first_row + n as isize {
            None
        } else {
            let row = (cursor.y - first_row) as usize;
            assert(row * ch <= n * ch) by (nonlinear_arith)
                requires
                    row <= n,
            ;
            let x = cursor.x * cw;
            let y = row * ch;
            if x >= canvas_w || y >= canvas_h {
                None
            } else {
                Some((x, y, if cw <= canvas_w - x { cw } else { canvas_w - x }, if ch <= canvas_h - y { ch } else { canvas_h - y }))
            }
        };
        let all = match cursor_rect {
            Some((_, y, _, h)) => match bounds {
                None => Some((y, y + h)),
                Some((a, b)) => Some((if a <= y { a } else { y }, if b >= y + h { b } else { y + h })),
            },
            None => bounds,
        };
        let dirty = match all {
            Some((y0, y1)) => if y1 > y0 && canvas_w > 0 {
                Some(DirtyRect { x: 0, y: y0 as i32, w: canvas_w as u32, h: (y1 - y0) as u32 })
            } else {
                None
            },
            None => None,
        };
        self.last_row_seqno = new_seqnos;
        self.fresh = false;
        assert(k == seqnos@.len() || stops(f, k));
        proof {
            lemma_stop_index(f, k);
        }
        let r = FramePlan { rows, cursor: cursor_rect, dirty };
        assert(self.last_row_seqno@ == recorded(f, if k < seqnos@.len() { k + 1 } else { k }));
        assert((r.cursor is Some) == (cursor_block(f, cursor) is Some));
        assert(r.cursor matches Some(b) ==> Some((b.0 as int, b.1 as int, b.2 as int, b.3 as int)) == cursor_block(f, cursor));
        assert(r.dirty == dirty_of(match cursor_block(f, cursor) {
            Some(b) => extend(rows_bounds(rows_upto(f, k)), b.1, b.1 + b.3),
            None => rows_bounds(rows_upto(f, k)),
        }, canvas_w as int));
        r
    }
}


/// The first row that ends the frame at or after `j`, or the number of
/// rows when none does.
proof fn lemma_first_stop(f: FrameInput, j: int) -> (k: int)
    requires
        0 <= j <= f.seqnos.len(),
        reached(f, j),
    ensures
        j <= k <= f.seqnos.len(),
        reached(f, k),
        k == f.seqnos.len() || stops(f, k),
    decreases f.seqnos.len() - j,
{
    if j == f.seqnos.len() || stops(f, j) {
        j
    } else {
        assert forall|i: int| 0 <= i < j + 1 implies !#[trigger] stops(f, i) by {
            if i < j {
                assert(!stops(f, i));
            }
        }
        lemma_first_stop(f, j + 1)
    }
}

proof fn lemma_no_rows_upto(f: FrameInput, k: int)
    requires
        forall|i: int| 0 <= i < k ==> !#[trigger] changed(f, i),
    ensures
        rows_upto(f, k) == Seq::<(int, int, int)>::empty(),
    decreases k,
{
    if k > 0 {
        assert(!changed(f, k - 1));
        lemma_no_rows_upto(f, k - 1);
    }
}

/// A frame that follows one with the same rows on the same canvas redraws
/// no row: every row the first frame recorded is unchanged, and the row
/// after them (if any) lies below the canvas.
pub proof fn lemma_repeated_frame_redraws_nothing(f1: FrameInput)
    requires
        f1.canvas_w > 0,
        f1.canvas_h > 0,
        f1.cell_h >= 1,
        isize::MIN <= f1.first_row,
        f1.first_row + f1.seqnos.len() <= isize::MAX,
    ensures
        ({
            let k1 = stop_index(f1);
            let kept = if k1 < f1.seqnos.len() { k1 + 1 } else { k1 };
            let f2 = FrameInput { fresh: false, last: recorded(f1, kept), ..f1 };
            rows_upto(f2, stop_index(f2)) == Seq::<(int, int, int)>::empty()
        }),
{
    let n = f1.seqnos.len() as int;
    assert(reached(f1, 0));
    let k1 = lemma_first_stop(f1, 0);
    lemma_stop_index(f1, k1);
    let kept = if k1 < n { k1 + 1 } else { k1 };
    let f2 = FrameInput { fresh: false, last: recorded(f1, kept), ..f1 };
    if n == 0 {
        assert(reached(f2, 0));
        lemma_stop_index(f2, 0);
        return;
    }
    let r0 = f1.first_row as isize;
    assert(f2.last.dom().contains(r0));
    assert(!f2.last.dom().is_empty());
    assert(!force_full(f2));
    assert forall|i: int| 0 <= i < kept implies !#[trigger] changed(f2, i) by {
        let r = (f2.first_row + i) as isize;
        assert(r as int == f1.first_row + i);
        assert(f2.last.dom().contains(r));
        assert(f2.last[r] == f1.seqnos[i]);
    }
    assert(reached(f2, kept)) by {
        assert forall|i: int| 0 <= i < kept implies !#[trigger] stops(f2, i) by {
            assert(!changed(f2, i));
        }
    }
    if kept < n {
        assert(stops(f1, k1));
        assert(k1 * f1.cell_h >= f1.canvas_h);
        assert(kept * f1.cell_h >= f1.canvas_h) by (nonlinear_arith)
            requires
                kept == k1 + 1,
                k1 * f1.cell_h >= f1.canvas_h,
                f1.cell_h >= 1,
        ;
        let r = (f2.first_row + kept) as isize;
        assert(r as int == f1.first_row + kept);
        assert(!f2.last.dom().contains(r));
        assert(changed(f2, kept));
        assert(stops(f2, kept));
    }
    lemma_stop_index(f2, kept);
    lemma_no_rows_upto(f2, kept);
}

} // verus!
