use weezterm::titlebar::{
    DrawPlan, FrameAction, FrameClick, FrameState, Location, TitleBarFrame, UIButton, WmCapabilities,
    BTN_HOVER_BG, BTN_ICON_COLOR, HEADER_SIZE, PRIMARY_COLOR_ACTIVE, PRIMARY_COLOR_INACTIVE,
};

const PX: i32 = 256;

fn caps(window_menu: bool, maximize: bool, minimize: bool) -> WmCapabilities {
    WmCapabilities { window_menu, maximize, fullscreen: true, minimize }
}

fn bar_of_width(width: u32) -> TitleBarFrame {
    let mut bar = TitleBarFrame::new();
    bar.resize(width);
    bar
}

fn pixel(canvas: &[u8], width: u32, scale: u32, x: u32, y: u32) -> [u8; 4] {
    let stride = (width * 4 * scale) as usize;
    let off = y as usize * stride + x as usize * 4;
    [canvas[off], canvas[off + 1], canvas[off + 2], canvas[off + 3]]
}

fn bgra(c: (u8, u8, u8, u8)) -> [u8; 4] {
    [c.2, c.1, c.0, 0xff]
}

#[test]
fn buttons_follow_capabilities() {
    assert_eq!(
        TitleBarFrame::supported_buttons(caps(true, true, true)),
        [Some(UIButton::Close), Some(UIButton::Maximize), Some(UIButton::Minimize)]
    );
    assert_eq!(TitleBarFrame::supported_buttons(caps(true, false, true)), [Some(UIButton::Close), None, Some(UIButton::Minimize)]);
    assert_eq!(TitleBarFrame::supported_buttons(caps(false, false, false)), [Some(UIButton::Close), None, None]);
}

#[test]
fn new_bar_is_shown_dirty_and_synchronized() {
    let bar = TitleBarFrame::new();
    assert!(bar.is_dirty());
    assert!(!bar.is_hidden());
    assert!(bar.should_sync);
    assert_eq!(bar.header_width, Some(HEADER_SIZE));
    assert_eq!(bar.mouse_location, Location::Outside);
    assert_eq!(bar.buffer_scale, 1);
}

#[test]
fn buttons_are_found_from_the_right_end() {
    let buttons = [Some(UIButton::Close), Some(UIButton::Maximize), Some(UIButton::Minimize)];
    // a 200 pixel bar: close covers [176, 200], maximize [152, 176], minimize [128, 152]
    assert_eq!(TitleBarFrame::find_button(&buttons, 190 * PX, 10 * PX, 200), Location::Button(UIButton::Close));
    assert_eq!(TitleBarFrame::find_button(&buttons, 176 * PX, 10 * PX, 200), Location::Button(UIButton::Close));
    assert_eq!(TitleBarFrame::find_button(&buttons, 175 * PX + 128, 10 * PX, 200), Location::Button(UIButton::Maximize));
    assert_eq!(TitleBarFrame::find_button(&buttons, 130 * PX, 0, 200), Location::Button(UIButton::Minimize));
    assert_eq!(TitleBarFrame::find_button(&buttons, 100 * PX, 10 * PX, 200), Location::Head);
    assert_eq!(TitleBarFrame::find_button(&buttons, 190 * PX, 25 * PX, 200), Location::Head);
    assert_eq!(TitleBarFrame::find_button(&buttons, 190 * PX, -1, 200), Location::Head);
    // a missing maximize button moves minimize next to close
    let no_max = [Some(UIButton::Close), None, Some(UIButton::Minimize)];
    assert_eq!(TitleBarFrame::find_button(&no_max, 160 * PX, 10 * PX, 200), Location::Button(UIButton::Minimize));
    // a bar too narrow for a button has none
    assert_eq!(TitleBarFrame::find_button(&buttons, 10 * PX, 10 * PX, 20), Location::Head);
}

#[test]
fn clicks_map_to_frame_actions() {
    let mut bar = bar_of_width(200);
    assert!(bar.click_point_moved(true, 50 * PX, 12 * PX));
    assert_eq!(bar.on_click(FrameClick::Normal, true), Some(FrameAction::Move));
    assert_eq!(bar.on_click(FrameClick::Normal, false), None);
    assert_eq!(bar.on_click(FrameClick::Alternate, true), Some(FrameAction::ShowMenu(50, 12 - 24)));
    bar.update_wm_capabilities(caps(false, true, true));
    assert_eq!(bar.on_click(FrameClick::Alternate, true), None);

    bar.click_point_moved(true, 190 * PX, 12 * PX);
    assert_eq!(bar.on_click(FrameClick::Normal, false), Some(FrameAction::Close));
    assert_eq!(bar.on_click(FrameClick::Normal, true), None);
    assert_eq!(bar.on_click(FrameClick::Alternate, false), None);

    bar.click_point_moved(true, 160 * PX, 12 * PX);
    assert_eq!(bar.on_click(FrameClick::Normal, false), Some(FrameAction::Maximize));
    bar.update_state(FrameState { activated: true, fullscreen: false, maximized: true });
    assert_eq!(bar.on_click(FrameClick::Normal, false), Some(FrameAction::UnMaximize));

    bar.click_point_moved(true, 140 * PX, 12 * PX);
    assert_eq!(bar.on_click(FrameClick::Normal, false), Some(FrameAction::Minimize));

    bar.click_point_left();
    assert_eq!(bar.on_click(FrameClick::Normal, true), None);
}

#[test]
fn pointer_moves_dirty_the_bar_only_across_buttons() {
    let mut bar = bar_of_width(200);
    bar.begin_draw(96);
    assert!(!bar.is_dirty());
    assert!(bar.click_point_moved(true, 20 * PX, 5 * PX));
    assert!(!bar.is_dirty());
    assert_eq!(bar.mouse_coords, (20, 5));
    assert!(bar.click_point_moved(true, 190 * PX, 5 * PX));
    assert!(bar.is_dirty());
    bar.begin_draw(96);
    assert!(bar.click_point_moved(true, 191 * PX, 6 * PX));
    assert!(!bar.is_dirty());
    // events for another surface do not count
    assert!(!bar.click_point_moved(false, 20 * PX, 5 * PX));
    assert_eq!(bar.mouse_location, Location::Button(UIButton::Close));
    // negative positions round toward zero
    assert!(bar.click_point_moved(true, -(PX + 1), 3 * PX + 10));
    assert_eq!(bar.mouse_coords, (-1, 3));
}

#[test]
fn hidden_bar_ignores_the_pointer_and_takes_no_room() {
    let mut bar = bar_of_width(200);
    bar.set_hidden(true);
    assert!(bar.is_hidden());
    assert!(!bar.click_point_moved(true, 10 * PX, 10 * PX));
    assert_eq!(bar.location(), (0, 0));
    assert_eq!(bar.subtract_borders(300, 400), (Some(300), Some(400)));
    assert_eq!(bar.add_borders(300, 400), (300, 400));
    assert!(matches!(bar.begin_draw(96), DrawPlan::Hidden));
    assert!(!DrawPlan::Hidden.reported());
    bar.set_hidden(false);
    assert_eq!(bar.header_width, Some(HEADER_SIZE));
    assert!(bar.is_dirty());
}

#[test]
fn borders_add_and_remove_the_header() {
    let mut bar = bar_of_width(200);
    assert_eq!(bar.location(), (0, -24));
    assert_eq!(bar.subtract_borders(300, 400), (Some(300), Some(376)));
    assert_eq!(bar.subtract_borders(300, 24), (Some(300), None));
    assert_eq!(bar.subtract_borders(300, 10), (Some(300), None));
    assert_eq!(bar.add_borders(300, 376), (300, 400));
    bar.update_state(FrameState { activated: true, fullscreen: true, maximized: false });
    assert_eq!(bar.location(), (0, 0));
    assert_eq!(bar.subtract_borders(300, 400), (Some(300), Some(400)));
    assert_eq!(bar.add_borders(300, 400), (300, 400));
}

#[test]
fn state_and_capability_changes_dirty_the_bar() {
    let mut bar = bar_of_width(200);
    bar.begin_draw(96);
    bar.update_state(FrameState { activated: false, fullscreen: false, maximized: false });
    assert!(!bar.is_dirty());
    bar.update_state(FrameState { activated: true, fullscreen: false, maximized: false });
    assert!(bar.is_dirty());
    bar.begin_draw(96);
    bar.update_wm_capabilities(caps(true, true, true));
    assert!(!bar.is_dirty());
    bar.update_wm_capabilities(caps(true, false, true));
    assert!(bar.is_dirty());
    assert_eq!(bar.buttons, [Some(UIButton::Close), None, Some(UIButton::Minimize)]);
}

#[test]
fn titles_and_drawing_plans() {
    let mut bar = bar_of_width(200);
    bar.set_title("shell".to_string());
    assert!(bar.is_dirty());
    bar.set_scaling_factor(2);
    let plan = bar.begin_draw(96);
    assert_eq!(
        plan,
        DrawPlan::Paint { sync: true, shape_title: true, is_active: false, fill: PRIMARY_COLOR_INACTIVE, width: 200, scale: 2 }
    );
    assert!(plan.reported());
    assert!(!bar.is_dirty());
    assert!(!bar.should_sync);
    bar.record_shaped_title(false, 96);
    bar.update_state(FrameState { activated: true, fullscreen: false, maximized: false });
    let plan = bar.begin_draw(96);
    assert_eq!(
        plan,
        DrawPlan::Paint { sync: false, shape_title: true, is_active: true, fill: PRIMARY_COLOR_ACTIVE, width: 200, scale: 2 }
    );
    assert!(!plan.reported());
    bar.record_shaped_title(true, 96);
    assert!(matches!(bar.begin_draw(96), DrawPlan::Paint { shape_title: false, .. }));
    assert!(matches!(bar.begin_draw(120), DrawPlan::Paint { shape_title: true, .. }));
    bar.set_title("shell".to_string());
    assert!(bar.shaped_title.is_some());
    bar.set_title("editor".to_string());
    assert!(bar.shaped_title.is_none());
    bar.set_title(String::new());
    bar.record_shaped_title(true, 96);
    assert!(matches!(bar.begin_draw(96), DrawPlan::Paint { shape_title: false, .. }));
    assert!(bar.shaped_title.is_none());
    bar.update_state(FrameState { activated: true, fullscreen: true, maximized: false });
    bar.resize(300);
    assert_eq!(bar.begin_draw(96), DrawPlan::Clear { sync: true, shape_title: false });
}

#[test]
fn header_is_filled_and_buttons_drawn() {
    let (width, scale) = (100u32, 1u32);
    let mut canvas = vec![0u8; (width * 4 * scale * HEADER_SIZE * scale) as usize];
    TitleBarFrame::draw_buttons(
        &[Some(UIButton::Close), Some(UIButton::Maximize), None],
        &mut canvas,
        width,
        scale,
        true,
        Location::Button(UIButton::Close),
    );
    // close square [76, 100): hover background, filled icon in [82, 94) x [6, 18)
    assert_eq!(pixel(&canvas, width, scale, 76, 0), bgra(BTN_HOVER_BG));
    assert_eq!(pixel(&canvas, width, scale, 99, 23), bgra(BTN_HOVER_BG));
    assert_eq!(pixel(&canvas, width, scale, 82, 6), bgra(BTN_ICON_COLOR));
    assert_eq!(pixel(&canvas, width, scale, 93, 17), bgra(BTN_ICON_COLOR));
    assert_eq!(pixel(&canvas, width, scale, 94, 17), bgra(BTN_HOVER_BG));
    // maximize square [52, 76): no background, a hollow square
    assert_eq!(pixel(&canvas, width, scale, 52, 0), [0, 0, 0, 0]);
    assert_eq!(pixel(&canvas, width, scale, 58, 6), bgra(BTN_ICON_COLOR));
    assert_eq!(pixel(&canvas, width, scale, 58, 12), bgra(BTN_ICON_COLOR));
    assert_eq!(pixel(&canvas, width, scale, 64, 12), [0, 0, 0, 0]);
    assert_eq!(pixel(&canvas, width, scale, 69, 12), bgra(BTN_ICON_COLOR));
    assert_eq!(pixel(&canvas, width, scale, 64, 17), bgra(BTN_ICON_COLOR));
    // left of the buttons nothing is drawn
    assert_eq!(pixel(&canvas, width, scale, 10, 10), [0, 0, 0, 0]);

    TitleBarFrame::draw_buttons(&[Some(UIButton::Close), None, None], &mut canvas, width, scale, false, Location::Head);
    assert!(canvas.len() == (width * 4 * HEADER_SIZE) as usize);
}

#[test]
fn scaled_header_is_filled_and_minimize_drawn() {
    let (width, scale) = (30u32, 2u32);
    let mut canvas = vec![7u8; (width * 4 * scale * HEADER_SIZE * scale) as usize];
    weezterm::titlebar::fill_header(&mut canvas, width, scale, PRIMARY_COLOR_ACTIVE);
    assert!(canvas.chunks_exact(4).all(|p| p == bgra(PRIMARY_COLOR_ACTIVE)));
    TitleBarFrame::draw_icon(&mut canvas, width, 0, scale, BTN_ICON_COLOR, UIButton::Minimize);
    // minimize bar: columns [12, 24) and rows [15, 18), doubled
    assert_eq!(pixel(&canvas, width, scale, 24, 30), bgra(BTN_ICON_COLOR));
    assert_eq!(pixel(&canvas, width, scale, 47, 35), bgra(BTN_ICON_COLOR));
    assert_eq!(pixel(&canvas, width, scale, 48, 35), bgra(PRIMARY_COLOR_ACTIVE));
    assert_eq!(pixel(&canvas, width, scale, 24, 29), bgra(PRIMARY_COLOR_ACTIVE));
    TitleBarFrame::draw_button(&mut canvas, 0, scale, width, BTN_HOVER_BG);
    assert_eq!(pixel(&canvas, width, scale, 12, 0), bgra(BTN_HOVER_BG));
    assert_eq!(pixel(&canvas, width, scale, 11, 0), bgra(PRIMARY_COLOR_ACTIVE));
}
