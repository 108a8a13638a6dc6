//! Dirty-rectangle bookkeeping for the software presentation path.
use vstd::prelude::*;

use crate::window_state::wrap_i32;

verus! {

/// A dirty rectangle in window-client pixels.
#[derive(Debug, Clone, Copy, PartialEq, Eq, Structural)]
pub struct DirtyRect {
    pub x: i32,
    pub y: i32,
    pub w: u32,
    pub h: u32,
}

/// A rectangle given by its edges, right and bottom exclusive.
#[derive(Debug, Clone, Copy, PartialEq, Eq, Structural)]
pub struct ClipRect {
    pub left: i32,
    pub top: i32,
    pub right: i32,
    pub bottom: i32,
}

pub open spec fn min_int(a: int, b: int) -> int {
    if a < b {
        a
    } else {
        b
    }
}

pub open spec fn max_int(a: int, b: int) -> int {
    if a > b {
        a
    } else {
        b
    }
}

impl DirtyRect {
    /// `x + w` and `y + h` (widths taken as `i32`) do not overflow.
    pub open spec fn edges_fit(self) -> bool {
        &&& i32::MIN <= self.x + wrap_i32(self.w) <= i32::MAX
        &&& i32::MIN <= self.y + wrap_i32(self.h) <= i32::MAX
    }

    pub open spec fn spec_clip(self, width: u32, height: u32) -> Option<ClipRect> {
        let x0 = max_int(self.x as int, 0);
        let y0 = max_int(self.y as int, 0);
        let x1 = min_int(self.x + wrap_i32(self.w), wrap_i32(width));
        let y1 = min_int(self.y + wrap_i32(self.h), wrap_i32(height));
        if x1 <= x0 || y1 <= y0 {
            None
        } else {
            Some(ClipRect { left: x0 as i32, top: y0 as i32, right: x1 as i32, bottom: y1 as i32 })
        }
    }

    /// Clips to a `width` x `height` surface; `None` when nothing is left.
    pub fn clip(self, width: u32, height: u32) -> (r: Option<ClipRect>)
        requires
            self.edges_fit(),
        ensures
            r == self.spec_clip(width, height),
    {
        let x0 = if self.x > 0 {
            self.x
        } else {
            0
        };
        let y0 = if self.y > 0 {
            self.y
        } else {
            0
        };
        let xe = self.x + as_i32(self.w);
        let ye = self.y + as_i32(self.h);
        let wi = as_i32(width);
        let hi = as_i32(height);
        let x1 = if xe < wi {
            xe
        } else {
            wi
        };
        let y1 = if ye < hi {
            ye
        } else {
            hi
        };
        if x1 <= x0 || y1 <= y0 {
            return None;
        }
        Some(ClipRect { left: x0, top: y0, right: x1, bottom: y1 })
    }
}

/// `v as i32`, a two's complement reinterpretation.
fn as_i32(v: u32) -> (r: i32)
    ensures
        r == wrap_i32(v),
{
    if v <= 0x7fff_ffff {
        v as i32
    } else {
        let low: i32 = (v - 0x8000_0000) as i32;
        low - 0x7fff_ffff - 1
    }
}

/// The dirty rectangles queued since the last present.
pub struct DirtyRegions {
    rects: Vec<DirtyRect>,
}

impl View for DirtyRegions {
    type V = Seq<DirtyRect>;

    closed spec fn view(&self) -> Seq<DirtyRect> {
        self.rects@
    }
}

impl DirtyRegions {
    /// No dirty rectangle.
    pub fn new() -> (r: DirtyRegions)
        ensures
            r@ == Seq::<DirtyRect>::empty(),
    {
        DirtyRegions { rects: Vec::new() }
    }

    /// Queues `rect`; empty rectangles are ignored.
    pub fn mark_dirty(&mut self, rect: DirtyRect)
        ensures
            final(self)@ == if rect.w == 0 || rect.h == 0 {
                old(self)@
            } else {
                old(self)@.push(rect)
            },
    {
        if rect.w == 0 || rect.h == 0 {
            return;
        }
        self.rects.push(rect);
    }

    /// Replaces the queue by one rectangle covering the whole surface.
    pub fn mark_all_dirty(&mut self, width: u32, height: u32)
        ensures
            final(self)@ == seq![DirtyRect { x: 0, y: 0, w: width, h: height }],
    {
        self.rects.clear();
        self.rects.push(DirtyRect { x: 0, y: 0, w: width, h: height });
    }

    /// Drops every queued rectangle.
    pub fn clear_dirty(&mut self)
        ensures
            final(self)@ == Seq::<DirtyRect>::empty(),
    {
        self.rects.clear();
    }

    /// Number of queued rectangles.
    pub fn dirty_count(&self) -> (r: usize)
        ensures
            r == self@.len(),
    {
        self.rects.len()
    }

    /// Readies the queue for presenting a `width` x `height` buffer. When
    /// the window's client area (where the platform reports it) is not
    /// empty and differs from the buffer, the frame is dropped: the queue
    /// is emptied and `false` returned (another paint is then asked for).
    /// Otherwise a forced full present or an empty queue becomes one
    /// rectangle covering the buffer, and `true` is returned.
    pub fn prepare_present(&mut self, width: u32, height: u32, client_size: Option<(u32, u32)>, force_full: bool) -> (r: bool)
        ensures
            ({
                let wrong_size = client_size matches Some((cw, ch)) && cw > 0 && ch > 0 && (cw != width || ch != height);
                &&& r == !wrong_size
                &&& wrong_size ==> final(self)@ == Seq::<DirtyRect>::empty()
                &&& !wrong_size ==> final(self)@ == if force_full || old(self)@.len() == 0 {
                    seq![DirtyRect { x: 0, y: 0, w: width, h: height }]
                } else {
                    old(self)@
                }
            }),
    {
        if let Some((cw, ch)) = client_size {
            if cw > 0 && ch > 0 && (cw != width || ch != height) {
                self.clear_dirty();
                return false;
            }
        }
        if force_full || self.rects.len() == 0 {
            self.mark_all_dirty(width, height);
        }
        true
    }

    /// The queued rectangle at `i`.
    pub fn get(&self, i: usize) -> (r: DirtyRect)
        requires
            i < self@.len(),
        ensures
            r == self@[i as int],
    {
        self.rects[i]
    }
}


/// The size a software surface of `current_width` x `current_height` is
/// resized to when asked for `width` x `height`: each side at least 1;
/// `None` when that is the size it already has (nothing to do).
pub fn resize_target(current_width: u32, current_height: u32, width: u32, height: u32) -> (r: Option<(u32, u32)>)
    ensures
        ({
            let w = if width >= 1 { width } else { 1u32 };
            let h = if height >= 1 { height } else { 1u32 };
            r == if w == current_width && h == current_height { None } else { Some((w, h)) }
        }),
{
    let w = if width >= 1 { width } else { 1 };
    let h = if height >= 1 { height } else { 1 };
    if w == current_width && h == current_height {
        None
    } else {
        Some((w, h))
    }
}

/// Pixel `(px, py)` lies in the clip rectangle `c`.
pub open spec fn clip_holds(c: Option<ClipRect>, px: int, py: int) -> bool {
    match c {
        Some(r) => r.left <= px < r.right && r.top <= py < r.bottom,
        None => false,
    }
}

/// Clipping keeps exactly the pixels of the rectangle that lie on the
/// `width` x `height` surface, and gives `None` when there are none; a
/// rectangle lying inside the surface clips to itself. (Sizes are taken
/// up to `i32::MAX`, where `as i32` keeps their value.)
pub proof fn lemma_clip_keeps_pixels_on_surface(d: DirtyRect, width: u32, height: u32)
    requires
        d.edges_fit(),
        d.w <= i32::MAX,
        d.h <= i32::MAX,
        width <= i32::MAX,
        height <= i32::MAX,
    ensures
        forall|px: int, py: int|
            #[trigger] clip_holds(d.spec_clip(width, height), px, py) <==> (d.x <= px < d.x + d.w && d.y <= py
                < d.y + d.h && 0 <= px < width && 0 <= py < height),
        d.spec_clip(width, height) is None <==> (d.w == 0 || d.h == 0 || d.x + d.w <= 0 || d.y + d.h <= 0
            || d.x >= width || d.y >= height || width == 0 || height == 0),
        0 <= d.x && 0 <= d.y && d.w > 0 && d.h > 0 && d.x + d.w <= width && d.y + d.h <= height ==> d.spec_clip(
            width,
            height,
        ) == Some(ClipRect { left: d.x, top: d.y, right: (d.x + d.w) as i32, bottom: (d.y + d.h) as i32 }),
{
}

} // verus!
