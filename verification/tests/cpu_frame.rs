use weezterm::cpu_frame::{CursorCell, FrameTracker, RowPlan};
use weezterm::dirty_rect::DirtyRect;

#[test]
fn frame_tracker_starts_fresh() {
    let t = FrameTracker::new();
    assert!(t.fresh);
    assert!(t.last_row_seqno.is_empty());
}

#[test]
fn invalidate_clears_seqno_and_marks_fresh() {
    let mut r = FrameTracker::new();
    r.fresh = false;
    r.last_row_seqno.insert(0, 7);
    r.invalidate_all();
    assert!(r.fresh);
    assert!(r.last_row_seqno.is_empty());
}

#[test]
fn only_changed_rows_are_redrawn() {
    let mut t = FrameTracker::new();
    let cursor = CursorCell { x: 2, y: 6, visible: true };
    let p = t.plan_frame(100, 50, 10, 20, 5, &vec![1, 2, 3, 4], cursor);
    assert_eq!(
        p.rows,
        vec![
            RowPlan { index: 0, y_top: 0, height: 20 },
            RowPlan { index: 1, y_top: 20, height: 20 },
            RowPlan { index: 2, y_top: 40, height: 10 },
        ]
    );
    assert_eq!(p.cursor, Some((20, 20, 10, 20)));
    assert_eq!(p.dirty, Some(DirtyRect { x: 0, y: 0, w: 100, h: 50 }));
    assert!(!t.fresh);
    assert_eq!(t.last_row_seqno.len(), 4);
    assert_eq!(t.last_row_seqno.get(&8), Some(&4));

    let hidden = CursorCell { x: 2, y: 6, visible: false };
    let p = t.plan_frame(100, 50, 10, 20, 5, &vec![1, 9, 3, 4], hidden);
    assert_eq!(p.rows, vec![RowPlan { index: 1, y_top: 20, height: 20 }]);
    assert_eq!(p.cursor, None);
    assert_eq!(p.dirty, Some(DirtyRect { x: 0, y: 20, w: 100, h: 20 }));

    let p = t.plan_frame(100, 50, 10, 20, 5, &vec![1, 9, 3, 4], hidden);
    assert!(p.rows.is_empty());
    assert_eq!(p.dirty, None);
}

#[test]
fn cursor_alone_marks_its_row_and_zero_cells_count_as_one_pixel() {
    let mut t = FrameTracker::new();
    t.plan_frame(8, 4, 0, 0, 0, &vec![1, 1], CursorCell { x: 0, y: 0, visible: false });
    let p = t.plan_frame(8, 4, 0, 0, 0, &vec![1, 1], CursorCell { x: 7, y: 1, visible: true });
    assert!(p.rows.is_empty());
    assert_eq!(p.cursor, Some((7, 1, 1, 1)));
    assert_eq!(p.dirty, Some(DirtyRect { x: 0, y: 1, w: 8, h: 1 }));
    let p = t.plan_frame(8, 4, 0, 0, 0, &vec![1, 1], CursorCell { x: 9, y: 1, visible: true });
    assert_eq!(p.cursor, None);
}
