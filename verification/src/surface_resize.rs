//! Deferred GPU surface resizing: resize requests are coalesced, and the
//! slow surface reconfiguration runs one at a time, never during a live
//! drag. The surface calls themselves are the caller's; this state machine
//! decides when to make them and for which size.
use vstd::prelude::*;
use crate::resize::Dimensions;

verus! {

/// What became of the configure in flight since the last paint.
#[derive(Debug, Clone, Copy, PartialEq, Eq, Structural)]
pub enum ConfigureOutcome {
    /// Still running (or none in flight).
    Pending,
    /// The surface was configured for the in-flight size.
    Landed,
    /// It failed, or its thread went away.
    Failed,
}

/// The bookkeeping of a GPU surface's size.
#[derive(Debug, Clone, Copy, PartialEq, Eq, Structural)]
pub struct SurfaceResize {
    /// The dimensions last asked for.
    pub dimensions: Dimensions,
    /// The size the surface is configured for.
    pub configured_width: u32,
    pub configured_height: u32,
    /// A size asked for since the last paint.
    pub pending_resize: Option<Dimensions>,
    /// A size that arrived while a configure for another size ran.
    pub queued_configure: Option<Dimensions>,
    /// The size a background configure is running for.
    pub in_flight: Option<Dimensions>,
    /// Whether an interactive resize drag is under way.
    pub live_resize_active: bool,
}

/// What a paint must do about the surface size.
#[derive(Debug, Clone, Copy, PartialEq, Eq, Structural)]
pub struct ResizeStep {
    /// The configured size changed (caches may be stale).
    pub configured_change: bool,
    /// Start a background configure for this size.
    pub start: Option<Dimensions>,
}

/// The state after draining the in-flight configure, and whether the
/// configured size changed.
pub open spec fn drained(s: SurfaceResize, outcome: ConfigureOutcome) -> (SurfaceResize, bool) {
    match s.in_flight {
        None => (s, false),
        Some(t) => match outcome {
            ConfigureOutcome::Pending => (s, false),
            ConfigureOutcome::Landed => (
                SurfaceResize {
                    configured_width: t.pixel_width as u32,
                    configured_height: t.pixel_height as u32,
                    in_flight: None,
                    ..s
                },
                true,
            ),
            ConfigureOutcome::Failed => (SurfaceResize { in_flight: None, ..s }, false),
        },
    }
}

/// The size a paint aims for: the latest request, else a queued one, else
/// (outside a drag) the window's client area when it is not empty.
pub open spec fn target_size(s: SurfaceResize, client_rect: Option<Dimensions>) -> Option<Dimensions> {
    match (s.pending_resize, s.queued_configure) {
        (Some(d), _) => Some(d),
        (None, Some(d)) => Some(d),
        (None, None) => match client_rect {
            Some(r) if !s.live_resize_active && r.pixel_width > 0 && r.pixel_height > 0 => Some(r),
            _ => None,
        },
    }
}

/// One paint's decision, from the drained state `s`.
pub open spec fn decide(s: SurfaceResize, client_rect: Option<Dimensions>) -> (SurfaceResize, Option<Dimensions>) {
    match target_size(s, client_rect) {
        None => (s, None),
        Some(d) => {
            let w = d.pixel_width as u32;
            let h = d.pixel_height as u32;
            if s.live_resize_active || w == 0 || h == 0 {
                (s, None)
            } else if w == s.configured_width && h == s.configured_height {
                (SurfaceResize { pending_resize: None, queued_configure: None, ..s }, None)
            } else {
                match s.in_flight {
                    Some(t) => if t.pixel_width as u32 == w && t.pixel_height as u32 == h {
                        (SurfaceResize { pending_resize: None, queued_configure: None, ..s }, None)
                    } else {
                        (SurfaceResize { pending_resize: None, queued_configure: Some(d), ..s }, None)
                    },
                    None => (
                        SurfaceResize { pending_resize: None, queued_configure: None, in_flight: Some(d), ..s },
                        Some(d),
                    ),
                }
            }
        },
    }
}

impl SurfaceResize {
    /// A surface configured for `dims`, with nothing pending.
    pub fn new(dims: Dimensions) -> (r: SurfaceResize)
        ensures
            r.dimensions == dims,
            r.configured_width == dims.pixel_width as u32,
            r.configured_height == dims.pixel_height as u32,
            r.pending_resize is None,
            r.queued_configure is None,
            r.in_flight is None,
            !r.live_resize_active,
    {
        SurfaceResize {
            dimensions: dims,
            configured_width: dims.pixel_width as u32,
            configured_height: dims.pixel_height as u32,
            pending_resize: None,
            queued_configure: None,
            in_flight: None,
            live_resize_active: false,
        }
    }

    /// Records a resize request; the surface is configured on a later
    /// paint. A request for the current dimensions is ignored.
    pub fn resize(&mut self, dims: Dimensions)
        ensures
            *final(self) == (if dims == old(self).dimensions {
                *old(self)
            } else {
                SurfaceResize { dimensions: dims, pending_resize: Some(dims), ..*old(self) }
            }),
    {
        if dims == self.dimensions {
            return;
        }
        self.dimensions = dims;
        self.pending_resize = Some(dims);
    }

    /// Marks the start or end of an interactive resize drag.
    pub fn set_live_resize_active(&mut self, active: bool)
        ensures
            *final(self) == (SurfaceResize { live_resize_active: active, ..*old(self) }),
    {
        self.live_resize_active = active;
    }

    pub fn is_live_resize_active(&self) -> (r: bool)
        ensures
            r == self.live_resize_active,
    {
        self.live_resize_active
    }

    pub fn has_pending_configure(&self) -> (r: bool)
        ensures
            r == self.in_flight is Some,
    {
        self.in_flight.is_some()
    }

    /// The decision made before each paint. `outcome` says what became of
    /// the configure in flight; `client_rect` is the window's client area
    /// where the platform reports one. Returns whether the configured size
    /// changed and the size to start a background configure for, which is
    /// then recorded as in flight.
    pub fn apply_pending_resize(&mut self, outcome: ConfigureOutcome, client_rect: Option<Dimensions>) -> (r: ResizeStep)
        ensures
            ({
                let (d, changed) = drained(*old(self), outcome);
                let (next, start) = decide(d, client_rect);
                &&& *final(self) == next
                &&& r == (ResizeStep { configured_change: changed, start })
            }),
            r.start is Some ==> !old(self).live_resize_active,
            r.start is Some ==> drained(*old(self), outcome).0.in_flight is None,
            final(self).in_flight is Some <== r.start is Some,
    {
        let mut configured_change = false;
        if let Some(t) = self.in_flight {
            match outcome {
                ConfigureOutcome::Pending => {},
                ConfigureOutcome::Landed => {
                    self.configured_width = t.pixel_width as u32;
                    self.configured_height = t.pixel_height as u32;
                    self.in_flight = None;
                    configured_change = true;
                },
                ConfigureOutcome::Failed => {
                    self.in_flight = None;
                },
            }
        }
        let target = match (self.pending_resize, self.queued_configure) {
            (Some(d), _) => Some(d),
            (None, Some(d)) => Some(d),
            (None, None) => match client_rect {
                Some(rect) => if !self.live_resize_active && rect.pixel_width > 0 && rect.pixel_height > 0 {
                    Some(rect)
                } else {
                    None
                },
                None => None,
            },
        };
        let d = match target {
            None => return ResizeStep { configured_change, start: None },
            Some(d) => d,
        };
        let w = d.pixel_width as u32;
        let h = d.pixel_height as u32;
        if self.live_resize_active || w == 0 || h == 0 {
            return ResizeStep { configured_change, start: None };
        }
        if w == self.configured_width && h == self.configured_height {
            self.pending_resize = None;
            self.queued_configure = None;
            return ResizeStep { configured_change, start: None };
        }
        if let Some(t) = self.in_flight {
            if t.pixel_width as u32 == w && t.pixel_height as u32 == h {
                self.pending_resize = None;
                self.queued_configure = None;
            } else {
                self.queued_configure = Some(d);
                self.pending_resize = None;
            }
            return ResizeStep { configured_change, start: None };
        }
        self.pending_resize = None;
        self.queued_configure = None;
        self.in_flight = Some(d);
        ResizeStep { configured_change, start: Some(d) }
    }

    /// The background configure for `dims` could not be started. When the
    /// surface was then configured in place (`inline_ok`) its size is
    /// `dims` and the configured size changed; otherwise nothing changed.
    pub fn start_failed(&mut self, dims: Dimensions, inline_ok: bool) -> (r: bool)
        ensures
            r == inline_ok,
            *final(self) == (if inline_ok {
                SurfaceResize {
                    in_flight: None,
                    configured_width: dims.pixel_width as u32,
                    configured_height: dims.pixel_height as u32,
                    ..*old(self)
                }
            } else {
                SurfaceResize { in_flight: None, ..*old(self) }
            }),
    {
        self.in_flight = None;
        if inline_ok {
            self.configured_width = dims.pixel_width as u32;
            self.configured_height = dims.pixel_height as u32;
        }
        inline_ok
    }
}

/// Asking twice for the same size records one request.
pub proof fn lemma_resize_idempotent(s: SurfaceResize, dims: Dimensions)
    ensures
        ({
            let once = if dims == s.dimensions {
                s
            } else {
                SurfaceResize { dimensions: dims, pending_resize: Some(dims), ..s }
            };
            let twice = if dims == once.dimensions {
                once
            } else {
                SurfaceResize { dimensions: dims, pending_resize: Some(dims), ..once }
            };
            twice == once
        }),
{
}

/// A paint that finds the surface at its target size starts nothing and
/// leaves no request behind; once it settles, a further paint with no new
/// request and no client area to follow changes nothing.
pub proof fn lemma_settled_paint_is_quiet(s: SurfaceResize)
    requires
        s.in_flight is None,
        s.pending_resize is None,
        s.queued_configure is None,
    ensures
        decide(drained(s, ConfigureOutcome::Pending).0, None) == (s, None::<Dimensions>),
        !drained(s, ConfigureOutcome::Landed).1,
{
}

/// A configure that lands sets the configured size to the size it ran for.
pub proof fn lemma_landed_configure_sets_size(s: SurfaceResize)
    requires
        s.in_flight is Some,
    ensures
        drained(s, ConfigureOutcome::Landed).0.configured_width == s.in_flight->0.pixel_width as u32,
        drained(s, ConfigureOutcome::Landed).0.configured_height == s.in_flight->0.pixel_height as u32,
        drained(s, ConfigureOutcome::Landed).0.in_flight is None,
        drained(s, ConfigureOutcome::Landed).1,
{
}


/// Whether a paint goes ahead.
#[derive(Debug, Clone, Copy, PartialEq, Eq, Structural)]
pub enum PaintGate {
    /// Draw the frame.
    Draw,
    /// Keep the previous frame on screen.
    Skip,
    /// Drop this frame and ask for another paint.
    Repaint,
}

/// Whether a paint draws, once pending sizes are dealt with: while a
/// configure is in flight the previous frame stays; when the window's
/// client area (where the platform reports it) is not empty and differs
/// from the configured size, the frame is dropped and another paint
/// asked for; without a surface nothing is drawn.
pub open spec fn spec_paint_gate(s: SurfaceResize, client_size: Option<(u32, u32)>, has_surface: bool) -> PaintGate {
    if s.in_flight is Some {
        PaintGate::Skip
    } else if client_size matches Some((w, h)) && w > 0 && h > 0
        && (w != s.configured_width || h != s.configured_height) {
        PaintGate::Repaint
    } else if !has_surface {
        PaintGate::Skip
    } else {
        PaintGate::Draw
    }
}

impl SurfaceResize {
    /// Whether this paint draws; see `spec_paint_gate`.
    pub fn paint_gate(&self, client_size: Option<(u32, u32)>, has_surface: bool) -> (r: PaintGate)
        ensures
            r == spec_paint_gate(*self, client_size, has_surface),
    {
        if self.in_flight.is_some() {
            return PaintGate::Skip;
        }
        if let Some((w, h)) = client_size {
            if w > 0 && h > 0 && (w != self.configured_width || h != self.configured_height) {
                return PaintGate::Repaint;
            }
        }
        if !has_surface {
            return PaintGate::Skip;
        }
        PaintGate::Draw
    }
}

/// A paint never draws while a configure is in flight, and never draws
/// into a surface whose size differs from a reported client area.
pub proof fn lemma_drawn_frames_match_the_window(s: SurfaceResize, client_size: Option<(u32, u32)>, has_surface: bool)
    ensures
        spec_paint_gate(s, client_size, has_surface) == PaintGate::Draw ==> {
            &&& s.in_flight is None
            &&& has_surface
            &&& (client_size matches Some((w, h)) ==> (w > 0 && h > 0 ==> w == s.configured_width
                && h == s.configured_height))
        },
{
}

} // verus!
