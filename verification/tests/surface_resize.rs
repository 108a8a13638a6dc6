use weezterm::resize::Dimensions;
use weezterm::surface_resize::{ConfigureOutcome, PaintGate, ResizeStep, SurfaceResize};

fn dims(w: usize, h: usize) -> Dimensions {
    Dimensions { pixel_width: w, pixel_height: h, dpi: 96 }
}

#[test]
fn requests_coalesce_into_one_configure() {
    let mut s = SurfaceResize::new(dims(800, 600));
    s.resize(dims(810, 600));
    s.resize(dims(820, 600));
    let step = s.apply_pending_resize(ConfigureOutcome::Pending, None);
    assert_eq!(step, ResizeStep { configured_change: false, start: Some(dims(820, 600)) });
    assert!(s.has_pending_configure());
    assert_eq!(s.pending_resize, None);
}

#[test]
fn no_configure_during_live_drag() {
    let mut s = SurfaceResize::new(dims(800, 600));
    s.set_live_resize_active(true);
    assert!(s.is_live_resize_active());
    s.resize(dims(900, 600));
    let step = s.apply_pending_resize(ConfigureOutcome::Pending, Some(dims(900, 600)));
    assert_eq!(step.start, None);
    assert_eq!(s.pending_resize, Some(dims(900, 600)));
    s.set_live_resize_active(false);
    let step = s.apply_pending_resize(ConfigureOutcome::Pending, None);
    assert_eq!(step.start, Some(dims(900, 600)));
}

#[test]
fn new_size_while_configuring_is_queued_then_started() {
    let mut s = SurfaceResize::new(dims(800, 600));
    s.resize(dims(900, 600));
    assert_eq!(s.apply_pending_resize(ConfigureOutcome::Pending, None).start, Some(dims(900, 600)));
    s.resize(dims(1000, 600));
    let step = s.apply_pending_resize(ConfigureOutcome::Pending, None);
    assert_eq!(step.start, None);
    assert_eq!(s.queued_configure, Some(dims(1000, 600)));
    let step = s.apply_pending_resize(ConfigureOutcome::Landed, None);
    assert_eq!(step, ResizeStep { configured_change: true, start: Some(dims(1000, 600)) });
    assert_eq!((s.configured_width, s.configured_height), (900, 600));
    let step = s.apply_pending_resize(ConfigureOutcome::Landed, None);
    assert_eq!(step, ResizeStep { configured_change: true, start: None });
    assert_eq!((s.configured_width, s.configured_height), (1000, 600));
    assert!(!s.has_pending_configure());
}

#[test]
fn same_size_as_in_flight_is_dropped() {
    let mut s = SurfaceResize::new(dims(800, 600));
    s.resize(dims(900, 600));
    s.apply_pending_resize(ConfigureOutcome::Pending, None);
    s.resize(dims(800, 600));
    s.resize(dims(900, 600));
    let step = s.apply_pending_resize(ConfigureOutcome::Pending, None);
    assert_eq!(step.start, None);
    assert_eq!(s.queued_configure, None);
    assert_eq!(s.pending_resize, None);
}

#[test]
fn failed_configure_is_retried_and_client_rect_followed() {
    let mut s = SurfaceResize::new(dims(800, 600));
    s.resize(dims(900, 600));
    s.apply_pending_resize(ConfigureOutcome::Pending, None);
    let step = s.apply_pending_resize(ConfigureOutcome::Failed, Some(dims(900, 600)));
    assert_eq!(step, ResizeStep { configured_change: false, start: Some(dims(900, 600)) });
    let mut t = SurfaceResize::new(dims(800, 600));
    assert_eq!(t.apply_pending_resize(ConfigureOutcome::Pending, Some(dims(0, 600))).start, None);
    assert_eq!(t.apply_pending_resize(ConfigureOutcome::Pending, Some(dims(800, 600))).start, None);
    assert_eq!(
        t.apply_pending_resize(ConfigureOutcome::Pending, Some(dims(640, 480))).start,
        Some(dims(640, 480))
    );
    assert!(t.start_failed(dims(640, 480), true));
    assert_eq!((t.configured_width, t.configured_height), (640, 480));
    assert!(!t.has_pending_configure());
    assert!(!t.start_failed(dims(1, 1), false));
    assert_eq!((t.configured_width, t.configured_height), (640, 480));
}

#[test]
fn paint_waits_for_configure_and_matching_size() {
    let mut s = SurfaceResize::new(dims(800, 600));
    assert_eq!(s.paint_gate(Some((800, 600)), true), PaintGate::Draw);
    assert_eq!(s.paint_gate(None, true), PaintGate::Draw);
    assert_eq!(s.paint_gate(Some((0, 600)), true), PaintGate::Draw);
    assert_eq!(s.paint_gate(Some((801, 600)), true), PaintGate::Repaint);
    assert_eq!(s.paint_gate(Some((800, 600)), false), PaintGate::Skip);
    s.resize(dims(900, 700));
    s.apply_pending_resize(ConfigureOutcome::Pending, None);
    assert_eq!(s.paint_gate(Some((900, 700)), true), PaintGate::Skip);
    s.apply_pending_resize(ConfigureOutcome::Landed, None);
    assert_eq!(s.paint_gate(Some((900, 700)), true), PaintGate::Draw);
}
