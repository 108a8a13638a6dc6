//! Window placement persistence: coordinate spaces, monitor selection and
//! the restore fallback chain.
//!
//! Persisted rectangles are expressed relative to a monitor's top-left
//! corner (`WorkspaceCoords`) so that they survive monitor renames, docking
//! and DPI changes; the operating system works in absolute `ScreenCoords`.
use vstd::prelude::*;

use crate::text::str_eq;
use crate::dpi_scale::{f64_ratio, ratio_is_one, f64_scale_int, f64_ratio_exec, ratio_is_one_exec, f64_scale_int_exec, lemma_ratio_of_equal};

verus! {

/// Current on-disk schema version.
pub const CURRENT_SCHEMA: u32 = 2;

/// Coordinates whose origin is a specific monitor's top-left corner.
#[derive(Debug, Clone, Copy, PartialEq, Eq, Structural)]
pub struct WorkspaceCoords {
    pub x: i32,
    pub y: i32,
}

/// Coordinates in the operating system's virtual screen space.
#[derive(Debug, Clone, Copy, PartialEq, Eq, Structural)]
pub struct ScreenCoords {
    pub x: i32,
    pub y: i32,
}

/// A rectangle in monitor-relative coordinates.
#[derive(Debug, Clone, Copy, PartialEq, Eq, Structural)]
pub struct WorkspaceRect {
    pub origin: WorkspaceCoords,
    pub width: u32,
    pub height: u32,
}

/// A rectangle in virtual-screen coordinates.
#[derive(Debug, Clone, Copy, PartialEq, Eq, Structural)]
pub struct ScreenRect {
    pub origin: ScreenCoords,
    pub width: u32,
    pub height: u32,
}

/// The value of a `u32` reinterpreted as an `i32` (two's complement).
pub open spec fn wrap_i32(w: u32) -> int {
    if w <= i32::MAX {
        w as int
    } else {
        w as int - 0x1_0000_0000
    }
}

/// `v` clamped to the `i32` range.
pub open spec fn sat_i32(v: int) -> int {
    if v < i32::MIN {
        i32::MIN as int
    } else if v > i32::MAX {
        i32::MAX as int
    } else {
        v
    }
}

/// `v` clamped to the `u32` range.
pub open spec fn sat_u32(v: int) -> int {
    if v < 0 {
        0
    } else if v > u32::MAX {
        u32::MAX as int
    } else {
        v
    }
}

/// Length of the overlap of the intervals `[a1, a2)` and `[b1, b2)`.
pub open spec fn overlap_len(a1: int, a2: int, b1: int, b2: int) -> int {
    let lo = if a1 > b1 { a1 } else { b1 };
    let hi = if a2 < b2 { a2 } else { b2 };
    if hi - lo > 0 {
        hi - lo
    } else {
        0
    }
}

/// `origin + len as i32`, saturating at the `i32` bounds.
fn saturating_extent(origin: i32, len: u32) -> (r: i32)
    ensures
        r == sat_i32(origin + wrap_i32(len)),
{
    let wrapped: i64 = if len <= 0x7fff_ffff {
        len as i64
    } else {
        len as i64 - 0x1_0000_0000
    };
    let sum: i64 = origin as i64 + wrapped;
    if sum < -0x8000_0000 {
        i32::MIN
    } else if sum > 0x7fff_ffff {
        i32::MAX
    } else {
        sum as i32
    }
}

impl ScreenRect {
    /// Right edge, computed with a wrapping width and a saturating add.
    pub open spec fn sat_right(self) -> int {
        sat_i32(self.origin.x + wrap_i32(self.width))
    }

    /// Bottom edge, computed with a wrapping height and a saturating add.
    pub open spec fn sat_bottom(self) -> int {
        sat_i32(self.origin.y + wrap_i32(self.height))
    }

    pub open spec fn spec_intersects(self, other: ScreenRect) -> bool {
        &&& self.origin.x < other.sat_right()
        &&& self.sat_right() > other.origin.x
        &&& self.origin.y < other.sat_bottom()
        &&& self.sat_bottom() > other.origin.y
    }

    pub open spec fn spec_intersection_area(self, other: ScreenRect) -> int {
        overlap_len(
            self.origin.x as int,
            self.origin.x + self.width,
            other.origin.x as int,
            other.origin.x + other.width,
        ) * overlap_len(
            self.origin.y as int,
            self.origin.y + self.height,
            other.origin.y as int,
            other.origin.y + other.height,
        )
    }

    /// The area shared with `other` fits in an `i64`.
    pub open spec fn intersection_fits(self, other: ScreenRect) -> bool {
        self.spec_intersection_area(other) <= i64::MAX
    }

    /// Whether the two rectangles overlap; edges are computed as in the
    /// operating system layer (wrapping width, saturating addition).
    pub fn intersects(&self, other: &ScreenRect) -> (r: bool)
        ensures
            r == self.spec_intersects(*other),
    {
        let ax1 = self.origin.x;
        let ay1 = self.origin.y;
        let ax2 = saturating_extent(ax1, self.width);
        let ay2 = saturating_extent(ay1, self.height);
        let bx1 = other.origin.x;
        let by1 = other.origin.y;
        let bx2 = saturating_extent(bx1, other.width);
        let by2 = saturating_extent(by1, other.height);
        ax1 < bx2 && ax2 > bx1 && ay1 < by2 && ay2 > by1
    }

    /// Area of the intersection of `self` and `other`.
    pub fn intersection_area(&self, other: &ScreenRect) -> (r: i64)
        requires
            self.intersection_fits(*other),
        ensures
            r == self.spec_intersection_area(*other),
            r >= 0,
    {
        let ax1 = self.origin.x as i64;
        let ay1 = self.origin.y as i64;
        let ax2 = ax1 + self.width as i64;
        let ay2 = ay1 + self.height as i64;
        let bx1 = other.origin.x as i64;
        let by1 = other.origin.y as i64;
        let bx2 = bx1 + other.width as i64;
        let by2 = by1 + other.height as i64;
        let lo_x = if ax1 > bx1 {
            ax1
        } else {
            bx1
        };
        let hi_x = if ax2 < bx2 {
            ax2
        } else {
            bx2
        };
        let lo_y = if ay1 > by1 {
            ay1
        } else {
            by1
        };
        let hi_y = if ay2 < by2 {
            ay2
        } else {
            by2
        };
        let w: i64 = if hi_x - lo_x > 0 {
            hi_x - lo_x
        } else {
            0
        };
        let h: i64 = if hi_y - lo_y > 0 {
            hi_y - lo_y
        } else {
            0
        };
        assert(0 <= w <= self.width);
        assert(0 <= h <= self.height);
        assert(w * h >= 0) by (nonlinear_arith)
            requires
                0 <= w,
                0 <= h,
        ;
        w * h
    }
}

/// Snapshot of a single monitor.
#[derive(Debug)]
pub struct MonitorContext {
    pub name: String,
    /// The monitor's top-left corner in screen coordinates.
    pub screen_origin: ScreenCoords,
    pub width: u32,
    pub height: u32,
    /// Effective DPI of this monitor (96 when unknown).
    pub dpi: u32,
}

impl Clone for MonitorContext {
    fn clone(&self) -> (r: Self)
        ensures
            r == *self,
    {
        MonitorContext {
            name: self.name.clone(),
            screen_origin: self.screen_origin,
            width: self.width,
            height: self.height,
            dpi: self.dpi,
        }
    }
}

impl MonitorContext {
    /// Workspace-relative coordinates `ws` map into the `i32` screen range.
    pub open spec fn to_screen_fits(self, ws: WorkspaceCoords) -> bool {
        &&& i32::MIN <= self.screen_origin.x + ws.x <= i32::MAX
        &&& i32::MIN <= self.screen_origin.y + ws.y <= i32::MAX
    }

    /// Screen coordinates `sc` map into the `i32` workspace range.
    pub open spec fn to_workspace_fits(self, sc: ScreenCoords) -> bool {
        &&& i32::MIN <= sc.x - self.screen_origin.x <= i32::MAX
        &&& i32::MIN <= sc.y - self.screen_origin.y <= i32::MAX
    }

    pub open spec fn spec_workspace_to_screen(self, ws: WorkspaceCoords) -> ScreenCoords {
        ScreenCoords {
            x: (self.screen_origin.x + ws.x) as i32,
            y: (self.screen_origin.y + ws.y) as i32,
        }
    }

    pub open spec fn spec_screen_to_workspace(self, sc: ScreenCoords) -> WorkspaceCoords {
        WorkspaceCoords { x: (sc.x - self.screen_origin.x) as i32, y: (sc.y - self.screen_origin.y) as i32 }
    }

    pub open spec fn spec_workspace_rect_to_screen(self, r: WorkspaceRect) -> ScreenRect {
        ScreenRect {
            origin: self.spec_workspace_to_screen(r.origin),
            width: r.width,
            height: r.height,
        }
    }

    pub open spec fn spec_screen_rect(self) -> ScreenRect {
        ScreenRect { origin: self.screen_origin, width: self.width, height: self.height }
    }

    /// Converts workspace-relative coordinates to absolute screen coordinates.
    pub fn workspace_to_screen(&self, ws: WorkspaceCoords) -> (r: ScreenCoords)
        requires
            self.to_screen_fits(ws),
        ensures
            r == self.spec_workspace_to_screen(ws),
            r.x == self.screen_origin.x + ws.x,
            r.y == self.screen_origin.y + ws.y,
    {
        ScreenCoords { x: self.screen_origin.x + ws.x, y: self.screen_origin.y + ws.y }
    }

    /// Converts absolute screen coordinates to coordinates relative to this monitor.
    pub fn screen_to_workspace(&self, sc: ScreenCoords) -> (r: WorkspaceCoords)
        requires
            self.to_workspace_fits(sc),
        ensures
            r == self.spec_screen_to_workspace(sc),
            r.x == sc.x - self.screen_origin.x,
            r.y == sc.y - self.screen_origin.y,
    {
        WorkspaceCoords { x: sc.x - self.screen_origin.x, y: sc.y - self.screen_origin.y }
    }

    /// Converts a workspace-relative rectangle to screen coordinates.
    pub fn workspace_rect_to_screen(&self, ws_rect: WorkspaceRect) -> (r: ScreenRect)
        requires
            self.to_screen_fits(ws_rect.origin),
        ensures
            r == self.spec_workspace_rect_to_screen(ws_rect),
    {
        ScreenRect {
            origin: self.workspace_to_screen(ws_rect.origin),
            width: ws_rect.width,
            height: ws_rect.height,
        }
    }

    /// The whole monitor in screen coordinates.
    pub fn screen_rect(&self) -> (r: ScreenRect)
        ensures
            r == self.spec_screen_rect(),
    {
        ScreenRect { origin: self.screen_origin, width: self.width, height: self.height }
    }
}

/// Converting to screen coordinates and back gives the original
/// workspace coordinates, and conversely.
pub proof fn lemma_coords_round_trip(m: MonitorContext, ws: WorkspaceCoords, sc: ScreenCoords)
    ensures
        m.to_screen_fits(ws) ==> m.to_workspace_fits(m.spec_workspace_to_screen(ws))
            && m.spec_screen_to_workspace(m.spec_workspace_to_screen(ws)) == ws,
        m.to_workspace_fits(sc) ==> m.to_screen_fits(m.spec_screen_to_workspace(sc))
            && m.spec_workspace_to_screen(m.spec_screen_to_workspace(sc)) == sc,
{
}


/// The persisted placement of one workspace's window.
#[derive(Debug)]
pub struct PersistedWindowState {
    /// Schema version; `CURRENT_SCHEMA` for valid files.
    pub schema: u32,
    pub workspace: String,
    /// Name of the monitor the window was on when it was saved.
    pub monitor_name: Option<String>,
    /// The normal (un-maximized) rectangle, relative to the saved monitor.
    pub workspace_relative_rect: WorkspaceRect,
    /// DPI at which `workspace_relative_rect` was captured.
    pub persistence_dpi: u32,
    pub maximized: bool,
    pub fullscreen: bool,
    pub saved_at_unix_secs: u64,
}

impl Clone for PersistedWindowState {
    fn clone(&self) -> (r: Self)
        ensures
            r == *self,
    {
        PersistedWindowState {
            schema: self.schema,
            workspace: self.workspace.clone(),
            monitor_name: match &self.monitor_name {
                Some(n) => Some(n.clone()),
                None => None,
            },
            workspace_relative_rect: self.workspace_relative_rect,
            persistence_dpi: self.persistence_dpi,
            maximized: self.maximized,
            fullscreen: self.fullscreen,
            saved_at_unix_secs: self.saved_at_unix_secs,
        }
    }
}

/// Outcome of restoring a window from a `PersistedWindowState`.
#[derive(Debug)]
pub enum RestoreResult {
    /// Place the window on `monitor` at workspace-relative `coords`, then
    /// apply `maximized` / `fullscreen`.
    Restored {
        monitor: MonitorContext,
        coords: WorkspaceCoords,
        width: u32,
        height: u32,
        maximized: bool,
        fullscreen: bool,
    },
    /// The saved rectangle misses the chosen monitor: center the window on
    /// `monitor` at the saved size.
    CenteredOnMonitor {
        monitor: MonitorContext,
        width: u32,
        height: u32,
        maximized: bool,
        fullscreen: bool,
    },
    /// No usable saved placement (stale schema or no monitor information):
    /// use the default geometry.
    SkippedStaleSchema,
    /// Nothing was saved for this workspace.
    NoState,
}

/// Index of the first monitor named `name`, or -1.
pub open spec fn name_index(ms: Seq<MonitorContext>, name: Seq<char>) -> int
    decreases ms.len(),
{
    if ms.len() == 0 {
        -1
    } else {
        let p = name_index(ms.drop_last(), name);
        if p >= 0 {
            p
        } else if ms.last().name@ == name {
            ms.len() - 1
        } else {
            -1
        }
    }
}

/// Area shared by monitor `m` and `rect` interpreted relative to `m`.
pub open spec fn projected_overlap(m: MonitorContext, rect: WorkspaceRect) -> int {
    m.spec_screen_rect().spec_intersection_area(m.spec_workspace_rect_to_screen(rect))
}

/// Index of the monitor with the largest positive `projected_overlap`
/// (the last one among equals), or -1 when no monitor overlaps.
pub open spec fn overlap_index(ms: Seq<MonitorContext>, rect: WorkspaceRect) -> int
    decreases ms.len(),
{
    if ms.len() == 0 {
        -1
    } else {
        let p = overlap_index(ms.drop_last(), rect);
        let a = projected_overlap(ms.last(), rect);
        if a > 0 && (p < 0 || a >= projected_overlap(ms[p], rect)) {
            ms.len() - 1
        } else {
            p
        }
    }
}

/// Index of the monitor with the largest positive overlap with the screen
/// rectangle `placement` (the last one among equals), or -1.
pub open spec fn placement_index(ms: Seq<MonitorContext>, placement: ScreenRect) -> int
    decreases ms.len(),
{
    if ms.len() == 0 {
        -1
    } else {
        let p = placement_index(ms.drop_last(), placement);
        let a = ms.last().spec_screen_rect().spec_intersection_area(placement);
        if a > 0 && (p < 0 || a >= ms[p].spec_screen_rect().spec_intersection_area(placement)) {
            ms.len() - 1
        } else {
            p
        }
    }
}

pub open spec fn opt_name_index(ms: Seq<MonitorContext>, name: Option<Seq<char>>) -> int {
    match name {
        Some(n) => name_index(ms, n),
        None => -1,
    }
}

pub open spec fn opt_string_view(s: Option<String>) -> Option<Seq<char>> {
    match s {
        Some(n) => Some(n@),
        None => None,
    }
}

pub open spec fn opt_str_view(s: Option<&str>) -> Option<Seq<char>> {
    match s {
        Some(n) => Some(n@),
        None => None,
    }
}

/// The fallback chain: saved monitor name, best overlap, primary monitor,
/// first monitor.
pub open spec fn target_index(
    saved: PersistedWindowState,
    ms: Seq<MonitorContext>,
    primary: Option<Seq<char>>,
) -> int {
    let by_name = opt_name_index(ms, opt_string_view(saved.monitor_name));
    if by_name >= 0 {
        by_name
    } else {
        let by_overlap = overlap_index(ms, saved.workspace_relative_rect);
        if by_overlap >= 0 {
            by_overlap
        } else {
            let by_primary = opt_name_index(ms, primary);
            if by_primary >= 0 {
                by_primary
            } else {
                0
            }
        }
    }
}

/// `saved_dpi`, or 1 where it is 0: the divisor of the DPI ratio.
pub open spec fn dpi_divisor(saved_dpi: u32) -> nat {
    if saved_dpi == 0 {
        1
    } else {
        saved_dpi as nat
    }
}

/// The DPI ratio `target / max(saved, 1)` is, as an `f64`, within one
/// millionth of 1.
pub open spec fn scale_is_identity(target_dpi: u32, saved_dpi: u32) -> bool {
    let (m, k) = f64_ratio(target_dpi as nat, dpi_divisor(saved_dpi));
    target_dpi > 0 && ratio_is_one(m, k)
}

/// `rect` rescaled by the `f64` ratio `target_dpi / max(saved_dpi, 1)`: a
/// ratio within one millionth of 1 leaves it as it is; otherwise each value
/// is multiplied by the ratio in `f64` and rounded, halves away from zero,
/// coordinates clamped to `i32`, sizes at least 1 and clamped to `u32`. A
/// zero target DPI gives the ratio 0: origin `(0, 0)`, size 1 by 1.
pub open spec fn spec_scale_rect(rect: WorkspaceRect, target_dpi: u32, saved_dpi: u32) -> WorkspaceRect {
    if scale_is_identity(target_dpi, saved_dpi) {
        rect
    } else if target_dpi == 0 {
        WorkspaceRect { origin: WorkspaceCoords { x: 0, y: 0 }, width: 1, height: 1 }
    } else {
        let (m, k) = f64_ratio(target_dpi as nat, dpi_divisor(saved_dpi));
        let w = f64_scale_int(rect.width as int, m, k);
        let h = f64_scale_int(rect.height as int, m, k);
        WorkspaceRect {
            origin: WorkspaceCoords {
                x: sat_i32(f64_scale_int(rect.origin.x as int, m, k)) as i32,
                y: sat_i32(f64_scale_int(rect.origin.y as int, m, k)) as i32,
            },
            width: sat_u32(if w < 1 { 1 } else { w }) as u32,
            height: sat_u32(if h < 1 { 1 } else { h }) as u32,
        }
    }
}

/// The outcome of `restore_window`.
pub open spec fn spec_restore(
    saved: Option<PersistedWindowState>,
    ms: Seq<MonitorContext>,
    primary: Option<Seq<char>>,
) -> RestoreResult {
    match saved {
        None => RestoreResult::NoState,
        Some(s) => if s.schema < CURRENT_SCHEMA || ms.len() == 0 {
            RestoreResult::SkippedStaleSchema
        } else {
            let m = ms[target_index(s, ms, primary)];
            let scaled = spec_scale_rect(s.workspace_relative_rect, m.dpi, s.persistence_dpi);
            let projected = m.spec_workspace_rect_to_screen(scaled);
            if !m.spec_screen_rect().spec_intersects(projected) {
                RestoreResult::CenteredOnMonitor {
                    monitor: m,
                    width: scaled.width,
                    height: scaled.height,
                    maximized: s.maximized,
                    fullscreen: s.fullscreen,
                }
            } else {
                RestoreResult::Restored {
                    monitor: m,
                    coords: scaled.origin,
                    width: scaled.width,
                    height: scaled.height,
                    maximized: s.maximized,
                    fullscreen: s.fullscreen,
                }
            }
        },
    }
}

pub open spec fn opt_deref<'a>(saved: Option<&'a PersistedWindowState>) -> Option<PersistedWindowState> {
    match saved {
        Some(s) => Some(*s),
        None => None,
    }
}

/// The integer arithmetic of `restore_window` stays in range: the overlap
/// areas and projected coordinates it computes fit their types.
pub open spec fn restore_in_range(
    saved: PersistedWindowState,
    ms: Seq<MonitorContext>,
    primary: Option<Seq<char>>,
) -> bool {
    &&& opt_name_index(ms, opt_string_view(saved.monitor_name)) < 0 ==> forall|i: int|
        0 <= i < ms.len() ==> overlap_in_range(#[trigger] ms[i], saved.workspace_relative_rect)
    &&& ms.len() > 0 ==> {
        let m = ms[target_index(saved, ms, primary)];
        m.to_screen_fits(
            spec_scale_rect(saved.workspace_relative_rect, m.dpi, saved.persistence_dpi).origin,
        )
    }
}

/// Monitor `m` and `rect` projected onto it can be intersected without overflow.
pub open spec fn overlap_in_range(m: MonitorContext, rect: WorkspaceRect) -> bool {
    &&& projected_overlap(m, rect) <= i64::MAX
    &&& m.to_screen_fits(rect.origin)
}

/// A match found in a prefix is the first match of the whole sequence.
proof fn lemma_name_index_prefix(s: Seq<MonitorContext>, k: int, name: Seq<char>)
    requires
        0 <= k <= s.len(),
        name_index(s.take(k), name) >= 0,
    ensures
        name_index(s, name) == name_index(s.take(k), name),
    decreases s.len(),
{
    if k == s.len() {
        assert(s.take(k) =~= s);
    } else {
        assert(s.drop_last().take(k) =~= s.take(k));
        lemma_name_index_prefix(s.drop_last(), k, name);
    }
}

/// Index of the first monitor named `name`.
fn find_monitor_by_name(monitors: &[MonitorContext], name: &str) -> (r: Option<usize>)
    ensures
        match r {
            Some(i) => i == name_index(monitors@, name@) && i < monitors@.len(),
            None => name_index(monitors@, name@) < 0,
        },
{
    let mut i: usize = 0;
    while i < monitors.len()
        invariant
            i <= monitors@.len(),
            name_index(monitors@.take(i as int), name@) < 0,
        decreases monitors@.len() - i,
    {
        assert(monitors@.take(i + 1).drop_last() =~= monitors@.take(i as int));
        if str_eq(monitors[i].name.as_str(), name) {
            proof {
                lemma_name_index_prefix(monitors@, i + 1, name@);
            }
            return Some(i);
        }
        i += 1;
    }
    assert(monitors@.take(monitors@.len() as int) =~= monitors@);
    None
}

/// Index of the monitor that best overlaps `rect` interpreted relative to it.
fn best_overlap_monitor(monitors: &[MonitorContext], rect: WorkspaceRect) -> (r: Option<usize>)
    requires
        forall|i: int|
            0 <= i < monitors@.len() ==> overlap_in_range(#[trigger] monitors@[i], rect),
    ensures
        match r {
            Some(i) => i == overlap_index(monitors@, rect) && i < monitors@.len(),
            None => overlap_index(monitors@, rect) < 0,
        },
{
    let mut best: Option<usize> = None;
    let mut best_area: i64 = 0;
    let mut i: usize = 0;
    while i < monitors.len()
        invariant
            i <= monitors@.len(),
            forall|k: int|
                0 <= k < monitors@.len() ==> overlap_in_range(#[trigger] monitors@[k], rect),
            match best {
                Some(b) => b == overlap_index(monitors@.take(i as int), rect) && b < i
                    && best_area == projected_overlap(monitors@[b as int], rect),
                None => overlap_index(monitors@.take(i as int), rect) < 0,
            },
        decreases monitors@.len() - i,
    {
        let ghost prefix = monitors@.take(i + 1);
        assert(prefix.drop_last() =~= monitors@.take(i as int));
        assert(prefix.last() == monitors@[i as int]);
        let m = &monitors[i];
        assert(overlap_in_range(monitors@[i as int], rect));
        let projected = m.workspace_rect_to_screen(rect);
        let area = m.screen_rect().intersection_area(&projected);
        match best {
            Some(b) => {
                assert(prefix[b as int] == monitors@[b as int]);
            },
            None => {},
        }
        if area > 0 && (best.is_none() || area >= best_area) {
            best = Some(i);
            best_area = area;
        }
        i += 1;
    }
    assert(monitors@.take(monitors@.len() as int) =~= monitors@);
    best
}

/// `rect` rescaled from `saved_dpi` to `target_dpi`; see `spec_scale_rect`.
pub fn scale_workspace_rect(rect: WorkspaceRect, target_dpi: u32, saved_dpi: u32) -> (r: WorkspaceRect)
    ensures
        r == spec_scale_rect(rect, target_dpi, saved_dpi),
{
    if target_dpi == 0 {
        return WorkspaceRect { origin: WorkspaceCoords { x: 0, y: 0 }, width: 1, height: 1 };
    }
    let b: u32 = if saved_dpi == 0 {
        1
    } else {
        saved_dpi
    };
    let (m, k) = f64_ratio_exec(target_dpi, b);
    if ratio_is_one_exec(m, k) {
        return rect;
    }
    let x = clamp_i32(f64_scale_int_exec(rect.origin.x as i64, m, k));
    let y = clamp_i32(f64_scale_int_exec(rect.origin.y as i64, m, k));
    let w = f64_scale_int_exec(rect.width as i64, m, k);
    let h = f64_scale_int_exec(rect.height as i64, m, k);
    WorkspaceRect {
        origin: WorkspaceCoords { x, y },
        width: clamp_u32(if w < 1 { 1 } else { w }),
        height: clamp_u32(if h < 1 { 1 } else { h }),
    }
}

fn clamp_i32(v: i128) -> (r: i32)
    ensures
        r == sat_i32(v as int),
{
    if v < -0x8000_0000 {
        i32::MIN
    } else if v > 0x7fff_ffff {
        i32::MAX
    } else {
        v as i32
    }
}

fn clamp_u32(v: i128) -> (r: u32)
    ensures
        r == sat_u32(v as int),
{
    if v < 0 {
        0
    } else if v > 0xffff_ffff {
        u32::MAX
    } else {
        v as u32
    }
}

/// Chooses where to put a window from its saved state.
///
/// A state with an older schema is never reused: it is answered with
/// `SkippedStaleSchema`, as is any state when there is no monitor. The monitor is the first of: the monitor named as in the saved state,
/// the monitor that best overlaps the saved rectangle, the monitor named
/// `primary_name`, the first monitor. The saved rectangle is rescaled to
/// that monitor's DPI; if it then misses the monitor, the window is to be
/// centered instead.
pub fn restore_window(
    saved: Option<&PersistedWindowState>,
    monitors: &[MonitorContext],
    primary_name: Option<&str>,
) -> (r: RestoreResult)
    requires
        saved matches Some(s) ==> (s.schema >= CURRENT_SCHEMA ==> restore_in_range(
            *s,
            monitors@,
            opt_str_view(primary_name),
        )),
    ensures
        r == spec_restore(opt_deref(saved), monitors@, opt_str_view(primary_name)),
{
    let saved = match saved {
        Some(s) => s,
        None => return RestoreResult::NoState,
    };
    if saved.schema < CURRENT_SCHEMA || monitors.len() == 0 {
        return RestoreResult::SkippedStaleSchema;
    }
    let ghost primary = opt_str_view(primary_name);
    let mut idx: Option<usize> = match &saved.monitor_name {
        Some(n) => find_monitor_by_name(monitors, n.as_str()),
        None => None,
    };
    assert(idx.is_none() ==> opt_name_index(monitors@, opt_string_view(saved.monitor_name)) < 0);
    assert(idx matches Some(k) ==> k == opt_name_index(monitors@, opt_string_view(saved.monitor_name)));
    if idx.is_none() {
        idx = best_overlap_monitor(monitors, saved.workspace_relative_rect);
    }
    if idx.is_none() {
        idx = match primary_name {
            Some(n) => find_monitor_by_name(monitors, n),
            None => None,
        };
    }
    let i: usize = match idx {
        Some(i) => i,
        None => 0,
    };
    assert(i == target_index(*saved, monitors@, primary));
    let monitor = monitors[i].clone();
    let scaled = scale_workspace_rect(
        saved.workspace_relative_rect,
        monitor.dpi,
        saved.persistence_dpi,
    );
    let projected = monitor.workspace_rect_to_screen(scaled);
    let monitor_rect = monitor.screen_rect();
    if !monitor_rect.intersects(&projected) {
        return RestoreResult::CenteredOnMonitor {
            monitor,
            width: scaled.width,
            height: scaled.height,
            maximized: saved.maximized,
            fullscreen: saved.fullscreen,
        };
    }
    RestoreResult::Restored {
        monitor,
        coords: scaled.origin,
        width: scaled.width,
        height: scaled.height,
        maximized: saved.maximized,
        fullscreen: saved.fullscreen,
    }
}

/// Index of the monitor a captured placement is stored against: the
/// monitor named `current`, else the one that best contains `placement`,
/// else the first.
pub open spec fn capture_index(
    ms: Seq<MonitorContext>,
    current: Option<Seq<char>>,
    placement: ScreenRect,
) -> int {
    let by_name = opt_name_index(ms, current);
    if by_name >= 0 {
        by_name
    } else {
        let by_overlap = placement_index(ms, placement);
        if by_overlap >= 0 {
            by_overlap
        } else {
            0
        }
    }
}

/// The integer arithmetic of `capture_window_state` stays in range.
pub open spec fn capture_in_range(
    ms: Seq<MonitorContext>,
    current: Option<Seq<char>>,
    placement: ScreenRect,
) -> bool {
    &&& opt_name_index(ms, current) < 0 ==> forall|i: int|
        0 <= i < ms.len() ==> (#[trigger] ms[i]).spec_screen_rect().intersection_fits(placement)
    &&& ms.len() > 0 ==> ms[capture_index(ms, current, placement)].to_workspace_fits(
        placement.origin,
    )
}

/// `st` records `placement` (and the window flags) against monitor `ms[j]`.
pub open spec fn is_capture_of(
    st: PersistedWindowState,
    placement: ScreenRect,
    maximized: bool,
    fullscreen: bool,
    ms: Seq<MonitorContext>,
    j: int,
) -> bool {
    &&& 0 <= j < ms.len()
    &&& st.schema == CURRENT_SCHEMA
    &&& opt_string_view(st.monitor_name) == Some(ms[j].name@)
    &&& st.workspace_relative_rect == (WorkspaceRect {
        origin: ms[j].spec_screen_to_workspace(placement.origin),
        width: placement.width,
        height: placement.height,
    })
    &&& st.persistence_dpi == ms[j].dpi
    &&& st.maximized == maximized
    &&& st.fullscreen == fullscreen
}

/// Index of the monitor that best contains `placement`.
fn best_placement_monitor(monitors: &[MonitorContext], placement: ScreenRect) -> (r: Option<usize>)
    requires
        forall|i: int| 0 <= i < monitors@.len() ==> (#[trigger] monitors@[i]).spec_screen_rect().intersection_fits(placement),
    ensures
        match r {
            Some(i) => i == placement_index(monitors@, placement) && i < monitors@.len(),
            None => placement_index(monitors@, placement) < 0,
        },
{
    let mut best: Option<usize> = None;
    let mut best_area: i64 = 0;
    let mut i: usize = 0;
    while i < monitors.len()
        invariant
            i <= monitors@.len(),
            forall|k: int| 0 <= k < monitors@.len() ==> (#[trigger] monitors@[k]).spec_screen_rect().intersection_fits(placement),
            match best {
                Some(b) => b == placement_index(monitors@.take(i as int), placement) && b < i
                    && best_area == monitors@[b as int].spec_screen_rect().spec_intersection_area(placement),
                None => placement_index(monitors@.take(i as int), placement) < 0,
            },
        decreases monitors@.len() - i,
    {
        let ghost prefix = monitors@.take(i + 1);
        assert(prefix.drop_last() =~= monitors@.take(i as int));
        assert(prefix.last() == monitors@[i as int]);
        let m = &monitors[i];
        assert(monitors@[i as int].spec_screen_rect().intersection_fits(placement));
        let area = m.screen_rect().intersection_area(&placement);
        match best {
            Some(b) => {
                assert(prefix[b as int] == monitors@[b as int]);
            },
            None => {},
        }
        if area > 0 && (best.is_none() || area >= best_area) {
            best = Some(i);
            best_area = area;
        }
        i += 1;
    }
    assert(monitors@.take(monitors@.len() as int) =~= monitors@);
    best
}

/// Builds the state to persist for a window whose normal rectangle is
/// `placement` (screen coordinates). The rectangle is stored relative to
/// the monitor named `current_monitor_name`, else the monitor that best
/// contains it, else the first monitor; `None` when there is no monitor.
pub fn capture_window_state(
    workspace: &str,
    placement: ScreenRect,
    maximized: bool,
    fullscreen: bool,
    current_monitor_name: Option<&str>,
    monitors: &[MonitorContext],
    saved_at_unix_secs: u64,
) -> (r: Option<PersistedWindowState>)
    requires
        capture_in_range(monitors@, opt_str_view(current_monitor_name), placement),
    ensures
        r is None <==> monitors@.len() == 0,
        r matches Some(st) ==> {
            &&& is_capture_of(
                st,
                placement,
                maximized,
                fullscreen,
                monitors@,
                capture_index(monitors@, opt_str_view(current_monitor_name), placement),
            )
            &&& st.workspace@ == workspace@
            &&& st.saved_at_unix_secs == saved_at_unix_secs
        },
{
    if monitors.len() == 0 {
        return None;
    }
    let mut idx: Option<usize> = match current_monitor_name {
        Some(n) => find_monitor_by_name(monitors, n),
        None => None,
    };
    if idx.is_none() {
        idx = best_placement_monitor(monitors, placement);
    }
    let i: usize = match idx {
        Some(i) => i,
        None => 0,
    };
    let monitor = &monitors[i];
    let origin = monitor.screen_to_workspace(placement.origin);
    Some(PersistedWindowState {
        schema: CURRENT_SCHEMA,
        workspace: crate::text::owned(workspace),
        monitor_name: Some(monitor.name.clone()),
        workspace_relative_rect: WorkspaceRect {
            origin,
            width: placement.width,
            height: placement.height,
        },
        persistence_dpi: monitor.dpi,
        maximized,
        fullscreen,
        saved_at_unix_secs,
    })
}

/// The schema number read from disk, as the `u32` it is compared in.
pub open spec fn schema_of(raw_schema: Option<u64>) -> int {
    match raw_schema {
        Some(v) => (v as int) % 0x1_0000_0000,
        None => 0,
    }
}

/// Decides whether a state read from disk is used: its schema (missing
/// counts as 0) must be at least `CURRENT_SCHEMA`, it must have parsed,
/// and its rectangle must have non-zero width and height.
pub fn accept_loaded_state(
    raw_schema: Option<u64>,
    parsed: Option<PersistedWindowState>,
) -> (r: Option<PersistedWindowState>)
    ensures
        r == (if schema_of(raw_schema) < CURRENT_SCHEMA {
            None
        } else {
            match parsed {
                Some(st) => if st.workspace_relative_rect.width == 0
                    || st.workspace_relative_rect.height == 0 {
                    None
                } else {
                    Some(st)
                },
                None => None,
            }
        }),
{
    let schema: u32 = match raw_schema {
        Some(v) => (v % 0x1_0000_0000) as u32,
        None => 0,
    };
    if schema < CURRENT_SCHEMA {
        return None;
    }
    match parsed {
        Some(st) => {
            if st.workspace_relative_rect.width == 0 || st.workspace_relative_rect.height == 0 {
                None
            } else {
                Some(st)
            }
        },
        None => None,
    }
}

/// No two monitors share a name.
pub open spec fn names_distinct(ms: Seq<MonitorContext>) -> bool {
    forall|i: int, j: int|
        0 <= i < ms.len() && 0 <= j < ms.len() && i != j ==> ms[i].name@ != ms[j].name@
}

proof fn lemma_name_index_distinct(ms: Seq<MonitorContext>, j: int)
    requires
        names_distinct(ms),
        0 <= j < ms.len(),
    ensures
        name_index(ms, ms[j].name@) == j,
    decreases ms.len(),
{
    let name = ms[j].name@;
    if j < ms.len() - 1 {
        let p = ms.drop_last();
        assert(names_distinct(p));
        assert(p[j] == ms[j]);
        lemma_name_index_distinct(p, j);
    } else {
        lemma_name_index_absent(ms.drop_last(), name);
    }
}

proof fn lemma_name_index_absent(ms: Seq<MonitorContext>, name: Seq<char>)
    requires
        forall|i: int| 0 <= i < ms.len() ==> (#[trigger] ms[i]).name@ != name,
    ensures
        name_index(ms, name) == -1,
    decreases ms.len(),
{
    if ms.len() > 0 {
        lemma_name_index_absent(ms.drop_last(), name);
    }
}

/// Restoring a captured placement on the same monitors puts the window
/// back where it was: on the monitor it was captured against, at the same
/// screen position and size, with the same maximized/fullscreen flags —
/// provided monitor names are distinct, the monitor's DPI is known
/// (non-zero) and the placement still overlaps that monitor.
pub proof fn lemma_capture_then_restore(
    st: PersistedWindowState,
    placement: ScreenRect,
    maximized: bool,
    fullscreen: bool,
    ms: Seq<MonitorContext>,
    j: int,
    primary: Option<Seq<char>>,
)
    requires
        is_capture_of(st, placement, maximized, fullscreen, ms, j),
        ms[j].to_workspace_fits(placement.origin),
        names_distinct(ms),
        ms[j].dpi > 0,
        ms[j].spec_screen_rect().spec_intersects(placement),
    ensures
        spec_restore(Some(st), ms, primary) == (RestoreResult::Restored {
            monitor: ms[j],
            coords: st.workspace_relative_rect.origin,
            width: placement.width,
            height: placement.height,
            maximized,
            fullscreen,
        }),
        ms[j].spec_workspace_to_screen(st.workspace_relative_rect.origin) == placement.origin,
{
    lemma_name_index_distinct(ms, j);
    assert(target_index(st, ms, primary) == j);
    lemma_same_dpi_keeps_rect(st.workspace_relative_rect, ms[j].dpi, st.persistence_dpi);
    let scaled = spec_scale_rect(st.workspace_relative_rect, ms[j].dpi, st.persistence_dpi);
    assert(scaled == st.workspace_relative_rect);
    assert(ms[j].spec_workspace_rect_to_screen(scaled) == placement);
}

/// Restoring on a monitor with the DPI the state was saved at keeps the
/// saved rectangle unchanged (a saved DPI of 0 counts as 1).
pub proof fn lemma_same_dpi_keeps_rect(rect: WorkspaceRect, target_dpi: u32, saved_dpi: u32)
    requires
        target_dpi == dpi_divisor(saved_dpi),
    ensures
        scale_is_identity(target_dpi, saved_dpi),
        spec_scale_rect(rect, target_dpi, saved_dpi) == rect,
{
    lemma_ratio_of_equal(dpi_divisor(saved_dpi));
}

/// Restoring on a monitor whose DPI is the one the state was saved at
/// neither moves nor resizes the window: the result has the saved size,
/// and, unless the window is to be centered, the saved origin.
pub proof fn lemma_restore_at_saved_dpi(
    s: PersistedWindowState,
    ms: Seq<MonitorContext>,
    primary: Option<Seq<char>>,
)
    requires
        s.schema >= CURRENT_SCHEMA,
        ms.len() > 0,
        ms[target_index(s, ms, primary)].dpi == dpi_divisor(s.persistence_dpi),
    ensures
        match spec_restore(Some(s), ms, primary) {
            RestoreResult::Restored { coords, width, height, .. } => {
                &&& coords == s.workspace_relative_rect.origin
                &&& width == s.workspace_relative_rect.width
                &&& height == s.workspace_relative_rect.height
            },
            RestoreResult::CenteredOnMonitor { width, height, .. } => {
                &&& width == s.workspace_relative_rect.width
                &&& height == s.workspace_relative_rect.height
            },
            _ => false,
        },
{
    let m = ms[target_index(s, ms, primary)];
    lemma_same_dpi_keeps_rect(s.workspace_relative_rect, m.dpi, s.persistence_dpi);
}

} // verus!
