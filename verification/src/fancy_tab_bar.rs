//! The decisions of the fancy tab bar: the colors it derives from the
//! terminal palette, the title bar frame colors, and which group of the bar
//! each item goes to. Building and painting the elements is the caller's.
use vstd::prelude::*;

verus! {

/// An sRGB color as 8-bit channels.
#[derive(Debug, Clone, Copy, PartialEq, Eq, Structural)]
pub struct Rgb {
    pub r: u8,
    pub g: u8,
    pub b: u8,
}

/// A background and text color pair.
#[derive(Debug, Clone, Copy, PartialEq, Eq, Structural)]
pub struct TabBarColor {
    pub bg_color: Rgb,
    pub fg_color: Rgb,
}

/// The colors of the tab bar.
#[derive(Debug, Clone, Copy, PartialEq, Eq, Structural)]
pub struct TabBarColors {
    pub background: Rgb,
    pub active_tab: TabBarColor,
    pub inactive_tab: TabBarColor,
    pub inactive_tab_hover: TabBarColor,
    pub new_tab: TabBarColor,
    pub new_tab_hover: TabBarColor,
    pub inactive_tab_edge: Rgb,
    pub inactive_tab_edge_hover: Rgb,
}

/// `v + amount`, clamped to a channel's range.
pub open spec fn clamp_channel(v: int) -> u8 {
    if v < 0 {
        0
    } else if v > 255 {
        255
    } else {
        v as u8
    }
}

pub open spec fn spec_adjust(c: Rgb, amount: int) -> Rgb {
    Rgb { r: clamp_channel(c.r + amount), g: clamp_channel(c.g + amount), b: clamp_channel(c.b + amount) }
}

/// Whether a background is light: the mean of its channels exceeds 128.
pub open spec fn is_light(c: Rgb) -> bool {
    (c.r + c.g + c.b) / 3 > 128
}

/// Tab bar colors derived from the terminal's background and foreground:
/// backgrounds step 25 away from the terminal background (darker on a
/// light background, lighter on a dark one, twice that when hovered),
/// inactive text steps 80 towards the background, and the active tab
/// swaps the terminal's colors.
pub open spec fn spec_derived_colors(bg: Rgb, fg: Rgb) -> TabBarColors {
    let step: int = if is_light(bg) { -25 } else { 25 };
    let dim: int = if is_light(bg) { 80 } else { -80 };
    TabBarColors {
        background: spec_adjust(bg, step),
        active_tab: TabBarColor { bg_color: fg, fg_color: bg },
        inactive_tab: TabBarColor { bg_color: spec_adjust(bg, step), fg_color: spec_adjust(fg, dim) },
        inactive_tab_hover: TabBarColor { bg_color: spec_adjust(bg, step * 2), fg_color: fg },
        new_tab: TabBarColor { bg_color: spec_adjust(bg, step), fg_color: spec_adjust(fg, dim) },
        new_tab_hover: TabBarColor { bg_color: spec_adjust(bg, step * 2), fg_color: fg },
        inactive_tab_edge: fg,
        inactive_tab_edge_hover: fg,
    }
}

fn adjust_channel(v: u8, amount: i16) -> (r: u8)
    requires
        -255 <= amount <= 255,
    ensures
        r == clamp_channel(v + amount),
{
    let x: i16 = v as i16 + amount;
    if x < 0 {
        0
    } else if x > 255 {
        255
    } else {
        x as u8
    }
}

/// `c` with `amount` added to each channel, clamped.
pub fn adjust(c: Rgb, amount: i16) -> (r: Rgb)
    requires
        -255 <= amount <= 255,
    ensures
        r == spec_adjust(c, amount as int),
{
    Rgb { r: adjust_channel(c.r, amount), g: adjust_channel(c.g, amount), b: adjust_channel(c.b, amount) }
}

/// The tab bar colors used when the configuration sets none, derived from
/// the palette's background and foreground.
pub fn derive_tab_bar_colors_from_palette(bg: Rgb, fg: Rgb) -> (r: TabBarColors)
    ensures
        r == spec_derived_colors(bg, fg),
{
    let luminance: u16 = (bg.r as u16 + bg.g as u16 + bg.b as u16) / 3;
    let light = luminance > 128;
    let step: i16 = if light { -25 } else { 25 };
    let dim: i16 = if light { 80 } else { -80 };
    TabBarColors {
        background: adjust(bg, step),
        active_tab: TabBarColor { bg_color: fg, fg_color: bg },
        inactive_tab: TabBarColor { bg_color: adjust(bg, step), fg_color: adjust(fg, dim) },
        inactive_tab_hover: TabBarColor { bg_color: adjust(bg, step * 2), fg_color: fg },
        new_tab: TabBarColor { bg_color: adjust(bg, step), fg_color: adjust(fg, dim) },
        new_tab_hover: TabBarColor { bg_color: adjust(bg, step * 2), fg_color: fg },
        inactive_tab_edge: fg,
        inactive_tab_edge_hover: fg,
    }
}

/// The hover colors of a tab's close button: those of a hovered inactive
/// tab on the active tab, those of the active tab elsewhere.
pub fn close_button_hover_colors(colors: &TabBarColors, active: bool) -> (r: TabBarColor)
    ensures
        r == (if active { colors.inactive_tab_hover } else { colors.active_tab }),
{
    if active {
        colors.inactive_tab_hover
    } else {
        colors.active_tab
    }
}

/// The title bar background: the palette background darkened by 10 on
/// each channel when the palette sets one, else the configured title bar
/// color for a focused or unfocused window.
pub fn frame_background(palette_bg: Option<Rgb>, focused: bool, active_bg: Rgb, inactive_bg: Rgb) -> (r: Rgb)
    ensures
        r == (match palette_bg {
            Some(c) => Rgb {
                r: if c.r >= 10 { (c.r - 10) as u8 } else { 0 },
                g: if c.g >= 10 { (c.g - 10) as u8 } else { 0 },
                b: if c.b >= 10 { (c.b - 10) as u8 } else { 0 },
            },
            None => if focused { active_bg } else { inactive_bg },
        }),
{
    match palette_bg {
        Some(c) => Rgb { r: c.r.saturating_sub(10), g: c.g.saturating_sub(10), b: c.b.saturating_sub(10) },
        None => if focused {
            active_bg
        } else {
            inactive_bg
        },
    }
}

/// The title bar text color: the palette foreground when set, else the
/// configured title bar text color for a focused or unfocused window.
pub fn frame_foreground(palette_fg: Option<Rgb>, focused: bool, active_fg: Rgb, inactive_fg: Rgb) -> (r: Rgb)
    ensures
        r == (match palette_fg {
            Some(c) => c,
            None => if focused { active_fg } else { inactive_fg },
        }),
{
    match palette_fg {
        Some(c) => c,
        None => if focused {
            active_fg
        } else {
            inactive_fg
        },
    }
}

/// A window button integrated in the tab bar.
#[derive(Debug, Clone, Copy, PartialEq, Eq, Structural)]
pub enum IntegratedTitleButton {
    Hide,
    Maximize,
    Close,
}

/// An item of the tab bar.
#[derive(Debug, Clone, Copy, PartialEq, Eq, Structural)]
pub enum TabBarItem {
    Blank,
    LeftStatus,
    RightStatus,
    Tab { tab_idx: usize, active: bool },
    NewTabButton,
    NewTabDropdown,
    WindowButton(IntegratedTitleButton),
}

/// Where an item goes: the left status area, the tabs on the left, or the
/// area floated to the right.
#[derive(Debug, Clone, Copy, PartialEq, Eq, Structural)]
pub enum TabBarGroup {
    LeftStatus,
    Left,
    Right,
}

/// The group of an item; window buttons go left when aligned left.
pub open spec fn group_of(item: TabBarItem, buttons_left: bool) -> TabBarGroup {
    match item {
        TabBarItem::LeftStatus => TabBarGroup::LeftStatus,
        TabBarItem::Blank | TabBarItem::RightStatus => TabBarGroup::Right,
        TabBarItem::WindowButton(_) => if buttons_left { TabBarGroup::Left } else { TabBarGroup::Right },
        _ => TabBarGroup::Left,
    }
}

/// The indices of the items of group `g`, in order.
pub open spec fn indices_in(items: Seq<TabBarItem>, g: TabBarGroup, buttons_left: bool) -> Seq<usize>
    decreases items.len(),
{
    if items.len() == 0 {
        Seq::empty()
    } else {
        let rest = indices_in(items.drop_last(), g, buttons_left);
        if group_of(items.last(), buttons_left) == g {
            rest.push((items.len() - 1) as usize)
        } else {
            rest
        }
    }
}

/// The tab bar split into its groups, as indices into the items.
#[derive(Debug, Clone, PartialEq, Eq)]
pub struct TabBarLayout {
    /// An empty element opens the left status area, making room for the
    /// native macOS window buttons.
    pub native_buttons_placeholder: bool,
    pub left_status: Vec<usize>,
    pub left: Vec<usize>,
    pub right: Vec<usize>,
}

/// How the integrated window buttons are set up.
#[derive(Debug, Clone, Copy, PartialEq, Eq, Structural)]
pub struct ButtonConfig {
    /// The window decorations integrate the buttons in the tab bar.
    pub integrated: bool,
    /// The buttons are aligned left.
    pub align_left: bool,
    /// The buttons are drawn in the native macOS style.
    pub macos_native: bool,
    /// The window is full screen.
    pub full_screen: bool,
}

/// Splits the items of the tab bar into its groups.
pub fn layout_tab_bar(items: &Vec<TabBarItem>, buttons: ButtonConfig) -> (r: TabBarLayout)
    ensures
        r.native_buttons_placeholder == (buttons.integrated && buttons.macos_native && !buttons.full_screen),
        r.left_status@ == indices_in(items@, TabBarGroup::LeftStatus, buttons.align_left),
        r.left@ == indices_in(items@, TabBarGroup::Left, buttons.align_left),
        r.right@ == indices_in(items@, TabBarGroup::Right, buttons.align_left),
{
    let mut left_status: Vec<usize> = Vec::new();
    let mut left: Vec<usize> = Vec::new();
    let mut right: Vec<usize> = Vec::new();
    let mut i: usize = 0;
    while i < items.len()
        invariant
            i <= items@.len(),
            left_status@ == indices_in(items@.take(i as int), TabBarGroup::LeftStatus, buttons.align_left),
            left@ == indices_in(items@.take(i as int), TabBarGroup::Left, buttons.align_left),
            right@ == indices_in(items@.take(i as int), TabBarGroup::Right, buttons.align_left),
        decreases items@.len() - i,
    {
        let ghost pre = items@.take(i + 1);
        assert(pre.drop_last() =~= items@.take(i as int));
        assert(pre.last() == items@[i as int]);
        match items[i] {
            TabBarItem::LeftStatus => left_status.push(i),
            TabBarItem::Blank | TabBarItem::RightStatus => right.push(i),
            TabBarItem::WindowButton(_) => {
                if buttons.align_left {
                    left.push(i);
                } else {
                    right.push(i);
                }
            },
            _ => left.push(i),
        }
        i += 1;
    }
    assert(items@.take(items@.len() as int) =~= items@);
    TabBarLayout {
        native_buttons_placeholder: buttons.integrated && buttons.macos_native && !buttons.full_screen,
        left_status,
        left,
        right,
    }
}

/// The padding before the tabs.
#[derive(Debug, Clone, Copy, PartialEq, Eq, Structural)]
pub enum LeftPadding {
    /// Room for the native macOS buttons, 70 pixels.
    NativeButtons,
    /// Half a cell.
    HalfCell,
    /// None: the integrated buttons sit at the very left.
    Zero,
}

/// The padding before the tabs: room for native macOS buttons (outside
/// full screen) when they are drawn at the left, nothing for other
/// buttons at the left, half a cell otherwise.
pub fn left_padding(buttons: ButtonConfig) -> (r: LeftPadding)
    ensures
        r == (if buttons.integrated && (buttons.align_left || buttons.macos_native) {
            if buttons.macos_native {
                if !buttons.full_screen { LeftPadding::NativeButtons } else { LeftPadding::HalfCell }
            } else {
                LeftPadding::Zero
            }
        } else {
            LeftPadding::HalfCell
        }),
{
    let at_left = buttons.integrated && (buttons.align_left || buttons.macos_native);
    if at_left {
        if buttons.macos_native {
            if !buttons.full_screen {
                LeftPadding::NativeButtons
            } else {
                LeftPadding::HalfCell
            }
        } else {
            LeftPadding::Zero
        }
    } else {
        LeftPadding::HalfCell
    }
}

/// Every item lands in exactly one group.
pub proof fn lemma_groups_partition(items: Seq<TabBarItem>, buttons_left: bool)
    ensures
        indices_in(items, TabBarGroup::LeftStatus, buttons_left).len()
            + indices_in(items, TabBarGroup::Left, buttons_left).len()
            + indices_in(items, TabBarGroup::Right, buttons_left).len() == items.len(),
    decreases items.len(),
{
    if items.len() > 0 {
        lemma_groups_partition(items.drop_last(), buttons_left);
    }
}

} // verus!
