use weezterm::fancy_tab_bar::{
    adjust, close_button_hover_colors, derive_tab_bar_colors_from_palette, frame_background,
    frame_foreground, layout_tab_bar, left_padding, ButtonConfig, IntegratedTitleButton,
    LeftPadding, Rgb, TabBarColor, TabBarItem,
};

fn rgb(r: u8, g: u8, b: u8) -> Rgb {
    Rgb { r, g, b }
}

#[test]
fn dark_palette_lightens_tab_bar() {
    let c = derive_tab_bar_colors_from_palette(rgb(30, 30, 30), rgb(200, 200, 200));
    assert_eq!(c.background, rgb(55, 55, 55));
    assert_eq!(c.active_tab, TabBarColor { bg_color: rgb(200, 200, 200), fg_color: rgb(30, 30, 30) });
    assert_eq!(c.inactive_tab, TabBarColor { bg_color: rgb(55, 55, 55), fg_color: rgb(120, 120, 120) });
    assert_eq!(c.inactive_tab_hover, TabBarColor { bg_color: rgb(80, 80, 80), fg_color: rgb(200, 200, 200) });
    assert_eq!(c.new_tab, c.inactive_tab);
    assert_eq!(c.new_tab_hover, c.inactive_tab_hover);
    assert_eq!(c.inactive_tab_edge, rgb(200, 200, 200));
}

#[test]
fn light_palette_darkens_tab_bar() {
    let c = derive_tab_bar_colors_from_palette(rgb(250, 250, 250), rgb(20, 20, 20));
    assert_eq!(c.background, rgb(225, 225, 225));
    assert_eq!(c.inactive_tab_hover.bg_color, rgb(200, 200, 200));
    assert_eq!(c.inactive_tab.fg_color, rgb(100, 100, 100));
}

#[test]
fn adjustments_clamp_each_channel() {
    let c = derive_tab_bar_colors_from_palette(rgb(240, 10, 128), rgb(50, 200, 0));
    assert_eq!(c.background, rgb(255, 35, 153));
    assert_eq!(c.inactive_tab.fg_color, rgb(0, 120, 0));
    assert_eq!(adjust(rgb(5, 250, 100), -10), rgb(0, 240, 90));
    assert_eq!(adjust(rgb(5, 250, 100), 10), rgb(15, 255, 110));
}

#[test]
fn close_button_hover() {
    let c = derive_tab_bar_colors_from_palette(rgb(30, 30, 30), rgb(200, 200, 200));
    assert_eq!(close_button_hover_colors(&c, true), c.inactive_tab_hover);
    assert_eq!(close_button_hover_colors(&c, false), c.active_tab);
}

#[test]
fn frame_colors() {
    let a = rgb(1, 2, 3);
    let i = rgb(4, 5, 6);
    assert_eq!(frame_background(Some(rgb(5, 100, 10)), true, a, i), rgb(0, 90, 0));
    assert_eq!(frame_background(None, true, a, i), a);
    assert_eq!(frame_background(None, false, a, i), i);
    assert_eq!(frame_foreground(Some(rgb(9, 9, 9)), false, a, i), rgb(9, 9, 9));
    assert_eq!(frame_foreground(None, false, a, i), i);
}

fn buttons(align_left: bool, macos_native: bool, full_screen: bool) -> ButtonConfig {
    ButtonConfig { integrated: true, align_left, macos_native, full_screen }
}

#[test]
fn items_split_into_groups() {
    let items = vec![
        TabBarItem::LeftStatus,
        TabBarItem::Tab { tab_idx: 0, active: true },
        TabBarItem::Tab { tab_idx: 1, active: false },
        TabBarItem::NewTabButton,
        TabBarItem::Blank,
        TabBarItem::RightStatus,
        TabBarItem::WindowButton(IntegratedTitleButton::Close),
    ];
    let l = layout_tab_bar(&items, buttons(false, false, false));
    assert!(!l.native_buttons_placeholder);
    assert_eq!(l.left_status, vec![0]);
    assert_eq!(l.left, vec![1, 2, 3]);
    assert_eq!(l.right, vec![4, 5, 6]);
    let l = layout_tab_bar(&items, buttons(true, true, false));
    assert!(l.native_buttons_placeholder);
    assert_eq!(l.left, vec![1, 2, 3, 6]);
    assert_eq!(l.right, vec![4, 5]);
    assert!(!layout_tab_bar(&items, buttons(true, true, true)).native_buttons_placeholder);
}

#[test]
fn padding_before_tabs() {
    assert_eq!(left_padding(buttons(false, true, false)), LeftPadding::NativeButtons);
    assert_eq!(left_padding(buttons(false, true, true)), LeftPadding::HalfCell);
    assert_eq!(left_padding(buttons(true, false, false)), LeftPadding::Zero);
    assert_eq!(left_padding(buttons(false, false, false)), LeftPadding::HalfCell);
    let mut b = buttons(true, false, false);
    b.integrated = false;
    assert_eq!(left_padding(b), LeftPadding::HalfCell);
}
