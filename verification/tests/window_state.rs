use weezterm::window_state::{
    accept_loaded_state, restore_window, scale_workspace_rect, MonitorContext, PersistedWindowState, RestoreResult,
    ScreenCoords, ScreenRect, WorkspaceCoords, WorkspaceRect, CURRENT_SCHEMA,
};

fn mon(name: &str, x: i32, y: i32, w: u32, h: u32, dpi: u32) -> MonitorContext {
    MonitorContext {
        name: name.to_string(),
        screen_origin: ScreenCoords { x, y },
        width: w,
        height: h,
        dpi,
    }
}

fn state(monitor: &str, x: i32, y: i32, w: u32, h: u32, dpi: u32) -> PersistedWindowState {
    PersistedWindowState {
        schema: CURRENT_SCHEMA,
        workspace: "default".to_string(),
        monitor_name: Some(monitor.to_string()),
        workspace_relative_rect: WorkspaceRect {
            origin: WorkspaceCoords { x, y },
            width: w,
            height: h,
        },
        persistence_dpi: dpi,
        maximized: false,
        fullscreen: false,
        saved_at_unix_secs: 0,
    }
}

#[test]
fn restore_by_name_when_monitor_present() {
    let monitors = vec![
        mon("primary", 0, 0, 1920, 1080, 96),
        mon("secondary", 1920, 0, 2560, 1440, 96),
    ];
    let s = state("secondary", 100, 200, 800, 600, 96);
    match restore_window(Some(&s), &monitors, Some("primary")) {
        RestoreResult::Restored { monitor, coords, .. } => {
            assert_eq!(monitor.name, "secondary");
            assert_eq!(coords, WorkspaceCoords { x: 100, y: 200 });
        }
        other => panic!("expected Restored, got {:?}", other),
    }
}

#[test]
fn restore_falls_back_to_overlap_when_monitor_renamed() {
    let monitors = vec![
        mon("primary", 0, 0, 1920, 1080, 96),
        mon("secondary-renamed", 1920, 0, 2560, 1440, 96),
    ];
    let s = state("secondary", 100, 200, 800, 600, 96);
    match restore_window(Some(&s), &monitors, Some("primary")) {
        RestoreResult::Restored { monitor, .. } => {
            assert_eq!(monitor.name, "secondary-renamed");
        }
        other => panic!("expected Restored, got {:?}", other),
    }
}

#[test]
fn restore_falls_back_to_primary_when_monitor_disconnected() {
    let monitors = vec![mon("primary", 0, 0, 1920, 1080, 96)];
    let s = state("disconnected", 100, 200, 800, 600, 96);
    match restore_window(Some(&s), &monitors, Some("primary")) {
        RestoreResult::Restored { monitor, .. } | RestoreResult::CenteredOnMonitor { monitor, .. } => {
            assert_eq!(monitor.name, "primary");
        }
        other => panic!("expected Restored or CenteredOnMonitor, got {:?}", other),
    }
}

#[test]
fn restore_centers_when_offscreen_rect() {
    let monitors = vec![mon("primary", 0, 0, 1920, 1080, 96)];
    let s = state("primary", -10000, 0, 800, 600, 96);
    match restore_window(Some(&s), &monitors, Some("primary")) {
        RestoreResult::CenteredOnMonitor { monitor, width, height, .. } => {
            assert_eq!(monitor.name, "primary");
            assert_eq!(width, 800);
            assert_eq!(height, 600);
        }
        other => panic!("expected CenteredOnMonitor, got {:?}", other),
    }
}

#[test]
fn restore_rescales_for_dpi_change() {
    let monitors = vec![mon("primary", 0, 0, 3840, 2160, 192)];
    let s = state("primary", 100, 100, 800, 600, 96);
    match restore_window(Some(&s), &monitors, Some("primary")) {
        RestoreResult::Restored { width, height, coords, .. } => {
            assert_eq!(width, 1600);
            assert_eq!(height, 1200);
            assert_eq!(coords, WorkspaceCoords { x: 200, y: 200 });
        }
        other => panic!("expected Restored, got {:?}", other),
    }
}

#[test]
fn restore_preserves_maximized_flag() {
    let monitors = vec![mon("primary", 0, 0, 1920, 1080, 96)];
    let mut s = state("primary", 100, 100, 800, 600, 96);
    s.maximized = true;
    match restore_window(Some(&s), &monitors, Some("primary")) {
        RestoreResult::Restored { maximized, .. } => assert!(maximized),
        other => panic!("expected Restored, got {:?}", other),
    }
}

#[test]
fn restore_no_state_when_none() {
    let monitors = vec![mon("primary", 0, 0, 1920, 1080, 96)];
    match restore_window(None, &monitors, Some("primary")) {
        RestoreResult::NoState => {}
        other => panic!("expected NoState, got {:?}", other),
    }
}

#[test]
fn restore_no_state_when_no_monitors() {
    let s = state("primary", 100, 100, 800, 600, 96);
    match restore_window(Some(&s), &[], None) {
        RestoreResult::SkippedStaleSchema => {}
        other => panic!("expected SkippedStaleSchema, got {:?}", other),
    }
}

#[test]
fn coord_round_trip() {
    let m = mon("primary", -1920, 0, 1920, 1080, 96);
    let sc = ScreenCoords { x: -1820, y: 100 };
    let ws = m.screen_to_workspace(sc);
    assert_eq!(ws, WorkspaceCoords { x: 100, y: 100 });
    let back = m.workspace_to_screen(ws);
    assert_eq!(back, sc);
}

#[test]
fn screen_rect_intersects() {
    let a = ScreenRect { origin: ScreenCoords { x: 0, y: 0 }, width: 100, height: 100 };
    let b = ScreenRect { origin: ScreenCoords { x: 50, y: 50 }, width: 100, height: 100 };
    let c = ScreenRect { origin: ScreenCoords { x: 200, y: 200 }, width: 100, height: 100 };
    assert!(a.intersects(&b));
    assert!(!a.intersects(&c));
}

#[test]
fn intersection_area_of_overlapping_rects() {
    let a = ScreenRect { origin: ScreenCoords { x: 0, y: 0 }, width: 100, height: 100 };
    let b = ScreenRect { origin: ScreenCoords { x: 50, y: 50 }, width: 100, height: 100 };
    let c = ScreenRect { origin: ScreenCoords { x: 200, y: 200 }, width: 100, height: 100 };
    assert_eq!(a.intersection_area(&b), 2500);
    assert_eq!(a.intersection_area(&c), 0);
}

#[test]
fn workspace_rect_maps_to_screen() {
    let m = mon("right", 1920, 0, 2560, 1440, 96);
    let r = m.workspace_rect_to_screen(WorkspaceRect {
        origin: WorkspaceCoords { x: 10, y: 20 },
        width: 300,
        height: 200,
    });
    assert_eq!(r, ScreenRect { origin: ScreenCoords { x: 1930, y: 20 }, width: 300, height: 200 });
    assert_eq!(m.screen_rect(), ScreenRect { origin: ScreenCoords { x: 1920, y: 0 }, width: 2560, height: 1440 });
}

#[test]
fn same_dpi_keeps_rect() {
    let r = WorkspaceRect { origin: WorkspaceCoords { x: 7, y: -3 }, width: 640, height: 480 };
    assert_eq!(scale_workspace_rect(r, 144, 144), r);
}

#[test]
fn halving_dpi_halves_rect() {
    let r = WorkspaceRect { origin: WorkspaceCoords { x: 200, y: 100 }, width: 1600, height: 1200 };
    let s = scale_workspace_rect(r, 96, 192);
    assert_eq!(s, WorkspaceRect { origin: WorkspaceCoords { x: 100, y: 50 }, width: 800, height: 600 });
}

#[test]
fn capture_then_restore_round_trip() {
    let monitors = vec![mon("primary", 0, 0, 1920, 1080, 96), mon("right", 1920, 0, 2560, 1440, 96)];
    let placement = ScreenRect { origin: ScreenCoords { x: 2000, y: 100 }, width: 800, height: 600 };
    let st = weezterm::window_state::capture_window_state("default", placement, true, false, Some("right"), &monitors, 42)
        .unwrap();
    assert_eq!(st.monitor_name.as_deref(), Some("right"));
    assert_eq!(st.workspace_relative_rect.origin, WorkspaceCoords { x: 80, y: 100 });
    assert_eq!(st.saved_at_unix_secs, 42);
    match restore_window(Some(&st), &monitors, Some("primary")) {
        RestoreResult::Restored { monitor, coords, width, height, maximized, fullscreen } => {
            assert_eq!(monitor.name, "right");
            assert_eq!(monitor.workspace_to_screen(coords), placement.origin);
            assert_eq!((width, height), (800, 600));
            assert!(maximized);
            assert!(!fullscreen);
        }
        other => panic!("expected Restored, got {:?}", other),
    }
}

#[test]
fn capture_without_monitors_gives_nothing() {
    let placement = ScreenRect { origin: ScreenCoords { x: 0, y: 0 }, width: 800, height: 600 };
    assert!(weezterm::window_state::capture_window_state("default", placement, false, false, None, &[], 0).is_none());
}

#[test]
fn loaded_state_with_old_schema_or_empty_rect_is_dropped() {
    assert!(accept_loaded_state(Some(1), Some(state("primary", 0, 0, 800, 600, 96))).is_none());
    assert!(accept_loaded_state(None, Some(state("primary", 0, 0, 800, 600, 96))).is_none());
    assert!(accept_loaded_state(Some(CURRENT_SCHEMA as u64), Some(state("primary", 0, 0, 0, 600, 96))).is_none());
    let kept = accept_loaded_state(Some(CURRENT_SCHEMA as u64), Some(state("primary", 5, 6, 800, 600, 96))).unwrap();
    assert_eq!(kept.workspace_relative_rect.origin, WorkspaceCoords { x: 5, y: 6 });
}

#[test]
fn stale_schema_is_never_reused() {
    let monitors = vec![mon("primary", 0, 0, 1920, 1080, 96)];
    let mut s = state("primary", 100, 200, 800, 600, 96);
    s.schema = 1;
    assert!(matches!(restore_window(Some(&s), &monitors, None), RestoreResult::SkippedStaleSchema));
    s.schema = 0;
    assert!(matches!(restore_window(Some(&s), &monitors, None), RestoreResult::SkippedStaleSchema));
}

#[test]
fn huge_monitor_with_small_window_restores() {
    // the overlap picks the monitor; its width, read as an i32 edge as the
    // window layer does, wraps, so the window is centered on it
    let monitors = vec![mon("big", 0, 0, 4_000_000_000, 4_000_000_000, 96)];
    let s = state("renamed", 10, 10, 100, 100, 96);
    match restore_window(Some(&s), &monitors, None) {
        RestoreResult::CenteredOnMonitor { monitor, width, height, .. } => {
            assert_eq!(monitor.name, "big");
            assert_eq!((width, height), (100, 100));
        }
        other => panic!("expected CenteredOnMonitor, got {:?}", other),
    }
    let monitors = vec![mon("small", 0, 0, 1000, 1000, 96), mon("big", 0, 0, 2_000_000_000, 2_000_000_000, 96)];
    match restore_window(Some(&s), &monitors, None) {
        RestoreResult::Restored { monitor, coords, .. } => {
            assert_eq!(monitor.name, "big");
            assert_eq!(coords, WorkspaceCoords { x: 10, y: 10 });
        }
        other => panic!("expected Restored, got {:?}", other),
    }
}

fn rescaled_in_f64(rect: WorkspaceRect, target_dpi: u32, saved_dpi: u32) -> WorkspaceRect {
    let scale = target_dpi as f64 / saved_dpi.max(1) as f64;
    if (scale - 1.0).abs() < 1e-6 {
        return rect;
    }
    WorkspaceRect {
        origin: WorkspaceCoords {
            x: (rect.origin.x as f64 * scale).round() as i32,
            y: (rect.origin.y as f64 * scale).round() as i32,
        },
        width: ((rect.width as f64) * scale).round().max(1.0) as u32,
        height: ((rect.height as f64) * scale).round().max(1.0) as u32,
    }
}

#[test]
fn rescale_rounds_like_f64() {
    let r = WorkspaceRect { origin: WorkspaceCoords { x: 45, y: -45 }, width: 85, height: 165 };
    let s = scale_workspace_rect(r, 70, 100);
    assert_eq!(s, WorkspaceRect { origin: WorkspaceCoords { x: 31, y: -31 }, width: 59, height: 115 });
    assert_eq!(s, rescaled_in_f64(r, 70, 100));
    let r = WorkspaceRect { origin: WorkspaceCoords { x: 5, y: -5 }, width: 5, height: 15 };
    let s = scale_workspace_rect(r, 70, 100);
    assert_eq!(s, WorkspaceRect { origin: WorkspaceCoords { x: 4, y: -4 }, width: 4, height: 11 });
    assert_eq!(s, rescaled_in_f64(r, 70, 100));
}

#[test]
fn rescale_matches_f64_on_many_inputs() {
    let dpis: [u32; 12] = [0, 1, 3, 70, 72, 96, 100, 120, 144, 192, 1_000_000, 1_000_001];
    let values: [i64; 14] = [
        0, 1, 2, 3, 5, 7, 15, 333, 1001, 65_535, 1_000_000, 500_000, 2_147_483_647, -2_147_483_648,
    ];
    for &t in dpis.iter() {
        for &sd in dpis.iter() {
            for &v in values.iter() {
                let w = v.unsigned_abs() as u32;
                let r = WorkspaceRect {
                    origin: WorkspaceCoords { x: v as i32, y: (v / 3) as i32 },
                    width: w,
                    height: u32::MAX - w,
                };
                assert_eq!(scale_workspace_rect(r, t, sd), rescaled_in_f64(r, t, sd), "t={t} s={sd} v={v}");
            }
        }
    }
}

#[test]
fn rescale_to_zero_dpi_collapses() {
    let r = WorkspaceRect { origin: WorkspaceCoords { x: -40, y: 90 }, width: 800, height: 600 };
    let s = scale_workspace_rect(r, 0, 96);
    assert_eq!(s, WorkspaceRect { origin: WorkspaceCoords { x: 0, y: 0 }, width: 1, height: 1 });
}

#[test]
fn rescale_within_a_millionth_is_identity() {
    let r = WorkspaceRect { origin: WorkspaceCoords { x: 500_000, y: 3 }, width: 1_000_000, height: 9 };
    assert_eq!(scale_workspace_rect(r, 1_000_001, 1_000_000), r);
    assert_eq!(scale_workspace_rect(r, 96, 0), rescaled_in_f64(r, 96, 0));
}

#[test]
fn restore_at_saved_dpi_keeps_rect() {
    let monitors = vec![mon("a", 0, 0, 1920, 1080, 1), mon("b", 1920, 0, 2560, 1440, 144)];
    let st = state("a", 13, 27, 1001, 333, 0);
    match restore_window(Some(&st), &monitors, None) {
        RestoreResult::Restored { coords, width, height, .. } => {
            assert_eq!(coords, WorkspaceCoords { x: 13, y: 27 });
            assert_eq!((width, height), (1001, 333));
        }
        other => panic!("unexpected {:?}", other),
    }
    let st = state("b", -5000, 7, 1001, 333, 144);
    match restore_window(Some(&st), &monitors, None) {
        RestoreResult::CenteredOnMonitor { width, height, .. } => assert_eq!((width, height), (1001, 333)),
        other => panic!("unexpected {:?}", other),
    }
}
