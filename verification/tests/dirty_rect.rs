use weezterm::dirty_rect::{DirtyRect, DirtyRegions};

#[test]
fn dirty_rect_clip_inside() {
    let r = DirtyRect { x: 10, y: 20, w: 30, h: 40 };
    let clipped = r.clip(100, 100).unwrap();
    assert_eq!(clipped.left, 10);
    assert_eq!(clipped.top, 20);
    assert_eq!(clipped.right, 40);
    assert_eq!(clipped.bottom, 60);
}

#[test]
fn dirty_rect_clip_partial() {
    let r = DirtyRect { x: -5, y: -5, w: 20, h: 20 };
    let clipped = r.clip(100, 100).unwrap();
    assert_eq!(clipped.left, 0);
    assert_eq!(clipped.top, 0);
    assert_eq!(clipped.right, 15);
    assert_eq!(clipped.bottom, 15);
}

#[test]
fn dirty_rect_clip_outside() {
    let r = DirtyRect { x: 200, y: 200, w: 10, h: 10 };
    assert!(r.clip(100, 100).is_none());
}

#[test]
fn dirty_rect_clip_zero() {
    let r = DirtyRect { x: 5, y: 5, w: 0, h: 10 };
    assert!(r.clip(100, 100).is_none());
}

#[test]
fn dirty_regions_track_marks() {
    let mut d = DirtyRegions::new();
    assert_eq!(d.dirty_count(), 0);
    d.mark_dirty(DirtyRect { x: 1, y: 2, w: 3, h: 4 });
    d.mark_dirty(DirtyRect { x: 5, y: 6, w: 7, h: 8 });
    assert_eq!(d.dirty_count(), 2);
    assert_eq!(d.get(1), DirtyRect { x: 5, y: 6, w: 7, h: 8 });
    d.mark_all_dirty(640, 480);
    assert_eq!(d.dirty_count(), 1);
    assert_eq!(d.get(0), DirtyRect { x: 0, y: 0, w: 640, h: 480 });
    d.clear_dirty();
    assert_eq!(d.dirty_count(), 0);
}

#[test]
fn present_drops_wrong_size_frames_and_fills_empty_queues() {
    let mut q = DirtyRegions::new();
    assert!(q.prepare_present(640, 480, Some((640, 480)), false));
    assert_eq!(q.dirty_count(), 1);
    assert_eq!(q.get(0), DirtyRect { x: 0, y: 0, w: 640, h: 480 });

    q.clear_dirty();
    q.mark_dirty(DirtyRect { x: 5, y: 5, w: 10, h: 10 });
    assert!(q.prepare_present(640, 480, None, false));
    assert_eq!(q.get(0), DirtyRect { x: 5, y: 5, w: 10, h: 10 });
    assert!(q.prepare_present(640, 480, Some((0, 0)), true));
    assert_eq!(q.dirty_count(), 1);
    assert_eq!(q.get(0), DirtyRect { x: 0, y: 0, w: 640, h: 480 });

    q.mark_dirty(DirtyRect { x: 1, y: 1, w: 2, h: 2 });
    assert!(!q.prepare_present(640, 480, Some((800, 480)), false));
    assert_eq!(q.dirty_count(), 0);
}

#[test]
fn software_surface_resizes_to_at_least_one_pixel() {
    assert_eq!(weezterm::dirty_rect::resize_target(640, 480, 640, 480), None);
    assert_eq!(weezterm::dirty_rect::resize_target(640, 480, 800, 480), Some((800, 480)));
    assert_eq!(weezterm::dirty_rect::resize_target(640, 480, 0, 0), Some((1, 1)));
    assert_eq!(weezterm::dirty_rect::resize_target(1, 1, 0, 0), None);
}
