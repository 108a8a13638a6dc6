//! The client-side title bar drawn over a Wayland window: which buttons
//! it shows, where the pointer is, what a click asks of the compositor,
//! how much room the bar takes, and when it must be redrawn.
//!
//! Pointer positions are in the protocol's fixed-point unit, 1/256 of a
//! surface pixel, in which the compositor reports them.
use vstd::prelude::*;
use crate::text::str_eq;
use crate::pixel_fill::{painted, paint_region};
use vstd::arithmetic::div_mod::lemma_div_multiples_vanish;

verus! {

/// Height of the title bar in surface pixels; each button is a square of
/// this size at the right end.
pub const HEADER_SIZE: u32 = 24;

/// Fixed-point units per surface pixel.
pub const FIXED_ONE: i64 = 256;

/// A button of the title bar.
#[derive(Debug, Clone, Copy, PartialEq, Eq, Structural)]
pub enum UIButton {
    Close,
    Maximize,
    Minimize,
}

/// What the pointer is over.
#[derive(Debug, Clone, Copy, PartialEq, Eq, Structural)]
pub enum Location {
    /// Not over the title bar.
    Outside,
    /// Over the title bar, outside the buttons.
    Head,
    Button(UIButton),
}

/// The window states that the title bar looks at.
#[derive(Debug, Clone, Copy, PartialEq, Eq, Structural)]
pub struct FrameState {
    pub activated: bool,
    pub fullscreen: bool,
    pub maximized: bool,
}

/// What the compositor lets the client ask for.
#[derive(Debug, Clone, Copy, PartialEq, Eq, Structural)]
pub struct WmCapabilities {
    pub window_menu: bool,
    pub maximize: bool,
    pub fullscreen: bool,
    pub minimize: bool,
}

/// Which pointer button clicked.
#[derive(Debug, Clone, Copy, PartialEq, Eq, Structural)]
pub enum FrameClick {
    /// The primary button.
    Normal,
    /// The secondary button.
    Alternate,
}

/// What a click on the title bar asks of the compositor.
#[derive(Debug, Clone, Copy, PartialEq, Eq, Structural)]
pub enum FrameAction {
    Minimize,
    Maximize,
    UnMaximize,
    Close,
    /// Start an interactive move.
    Move,
    /// Show the window menu at this position, relative to the window.
    ShowMenu(i32, i32),
}

/// The title the shaped glyphs were made for.
#[derive(Debug)]
pub struct ShapedTitle {
    pub title: String,
    pub is_active: bool,
    pub dpi: usize,
}

/// The title bar of one window.
#[derive(Debug)]
pub struct TitleBarFrame {
    pub state: FrameState,
    pub wm_capabilities: WmCapabilities,
    pub dirty: bool,
    pub mouse_location: Location,
    /// The pointer position in whole surface pixels.
    pub mouse_coords: (i32, i32),
    /// The width of the header surface; `None` while the bar is hidden.
    pub header_width: Option<u32>,
    /// Whether the next commit must be synchronized with the window's.
    pub should_sync: bool,
    /// The buffer scale: the scaling factor rounded up.
    pub buffer_scale: u32,
    pub buttons: [Option<UIButton>; 3],
    pub title: String,
    pub shaped_title: Option<ShapedTitle>,
}

/// The buttons shown for `caps`, right to left: close always, then
/// maximize and minimize where the compositor supports them.
pub open spec fn spec_buttons(caps: WmCapabilities) -> Seq<Option<UIButton>> {
    seq![
        Some(UIButton::Close),
        if caps.maximize { Some(UIButton::Maximize) } else { None },
        if caps.minimize { Some(UIButton::Minimize) } else { None },
    ]
}

/// The buttons that are present, in order.
pub open spec fn present(b: Seq<Option<UIButton>>) -> Seq<UIButton>
    decreases b.len(),
{
    if b.len() == 0 {
        Seq::empty()
    } else {
        let rest = present(b.drop_last());
        match b.last() {
            Some(x) => rest.push(x),
            None => rest,
        }
    }
}

/// Whether the point (`x`, `y`), in fixed-point units, is on the button
/// square `idx` places from the right end of a bar `width` pixels wide.
pub open spec fn on_button(idx: int, x: int, y: int, width: int) -> bool {
    &&& width >= (idx + 1) * HEADER_SIZE
    &&& x >= (width - (idx + 1) * HEADER_SIZE) * FIXED_ONE
    &&& x <= (width - idx * HEADER_SIZE) * FIXED_ONE
    &&& y <= HEADER_SIZE * FIXED_ONE
    &&& y >= 0
}

/// The location of a point among the buttons `flat[from..]`, the first
/// one it is on, or the head when on none.
pub open spec fn spec_find_button(flat: Seq<UIButton>, from: int, x: int, y: int, width: int) -> Location
    decreases flat.len() - from,
{
    if from < 0 || from >= flat.len() {
        Location::Head
    } else if on_button(from, x, y, width) {
        Location::Button(flat[from])
    } else {
        spec_find_button(flat, from + 1, x, y, width)
    }
}

/// A fixed-point position in whole pixels, rounded toward zero.
pub open spec fn whole_pixels(x: i32) -> int {
    if x >= 0 {
        (x as int) / 256
    } else {
        -((-(x as int)) / 256)
    }
}

/// Whether the bar takes no room: in fullscreen or while hidden.
pub open spec fn borderless(f: TitleBarFrame) -> bool {
    f.state.fullscreen || f.header_width is None
}

/// The content size left in a window of `width` × `height`.
pub open spec fn spec_subtract_borders(f: TitleBarFrame, width: u32, height: u32) -> (Option<u32>, Option<u32>) {
    (Some(width), if borderless(f) {
        Some(height)
    } else if height > HEADER_SIZE {
        Some((height - HEADER_SIZE) as u32)
    } else {
        None
    })
}

/// The window size for content of `width` × `height`.
pub open spec fn spec_add_borders(f: TitleBarFrame, width: u32, height: u32) -> (u32, u32) {
    if borderless(f) {
        (width, height)
    } else {
        (width, (height + HEADER_SIZE) as u32)
    }
}

/// The action of a click with the pointer at `loc`.
pub open spec fn spec_click(
    loc: Location,
    coords: (i32, i32),
    caps: WmCapabilities,
    state: FrameState,
    click: FrameClick,
    pressed: bool,
) -> Option<FrameAction> {
    if click == FrameClick::Alternate {
        if loc != Location::Head || !caps.window_menu {
            None
        } else {
            Some(FrameAction::ShowMenu(coords.0, (coords.1 - HEADER_SIZE) as i32))
        }
    } else {
        match loc {
            Location::Head => if pressed { Some(FrameAction::Move) } else { None },
            Location::Button(UIButton::Close) => if !pressed { Some(FrameAction::Close) } else { None },
            Location::Button(UIButton::Minimize) => if !pressed { Some(FrameAction::Minimize) } else { None },
            Location::Button(UIButton::Maximize) => if pressed {
                None
            } else if state.maximized {
                Some(FrameAction::UnMaximize)
            } else {
                Some(FrameAction::Maximize)
            },
            Location::Outside => None,
        }
    }
}

fn flatten_buttons(buttons: &[Option<UIButton>; 3]) -> (r: Vec<UIButton>)
    ensures
        r@ == present(buttons@),
{
    let mut out: Vec<UIButton> = Vec::new();
    let mut k: usize = 0;
    while k < 3
        invariant
            k <= 3,
            buttons@.len() == 3,
            out@ == present(buttons@.subrange(0, k as int)),
        decreases 3 - k,
    {
        assert(buttons@.subrange(0, k + 1).drop_last() =~= buttons@.subrange(0, k as int));
        match buttons[k] {
            Some(b) => out.push(b),
            None => {},
        }
        k += 1;
    }
    assert(buttons@.subrange(0, 3) =~= buttons@);
    out
}

impl TitleBarFrame {
    /// The buttons shown for the capabilities `caps`: close, and
    /// maximize and minimize where supported.
    pub fn supported_buttons(caps: WmCapabilities) -> (r: [Option<UIButton>; 3])
        ensures
            r@ == spec_buttons(caps),
    {
        let maximize = if caps.maximize { Some(UIButton::Maximize) } else { None };
        let minimize = if caps.minimize { Some(UIButton::Minimize) } else { None };
        let r = [Some(UIButton::Close), maximize, minimize];
        assert(r@ =~= spec_buttons(caps));
        r
    }

    /// A new, shown title bar: every capability, dirty, an empty title,
    /// the header as wide as it is high, at scale one.
    pub fn new() -> (r: TitleBarFrame)
        ensures
            r.state == (FrameState { activated: false, fullscreen: false, maximized: false }),
            r.wm_capabilities == (WmCapabilities { window_menu: true, maximize: true, fullscreen: true, minimize: true }),
            r.dirty,
            r.mouse_location == Location::Outside,
            r.mouse_coords == (0i32, 0i32),
            r.header_width == Some(HEADER_SIZE),
            r.should_sync,
            r.buffer_scale == 1,
            r.buttons@ == spec_buttons(r.wm_capabilities),
            r.title@ == Seq::<char>::empty(),
            r.shaped_title is None,
    {
        let caps = WmCapabilities { window_menu: true, maximize: true, fullscreen: true, minimize: true };
        TitleBarFrame {
            state: FrameState { activated: false, fullscreen: false, maximized: false },
            wm_capabilities: caps,
            dirty: true,
            mouse_location: Location::Outside,
            mouse_coords: (0, 0),
            header_width: Some(HEADER_SIZE),
            should_sync: true,
            buffer_scale: 1,
            buttons: Self::supported_buttons(caps),
            title: String::new(),
            shaped_title: None,
        }
    }

    /// Where a point lies among `buttons` on a bar `width` pixels wide:
    /// the first present button whose square holds it (the square of the
    /// n-th present button is the n-th from the right, edges included),
    /// else the head.
    pub fn find_button(buttons: &[Option<UIButton>; 3], x: i32, y: i32, width: u32) -> (r: Location)
        ensures
            r == spec_find_button(present(buttons@), 0, x as int, y as int, width as int),
    {
        let flat = flatten_buttons(buttons);
        assert(flat@.len() <= 3) by {
            assert(present(buttons@.subrange(0, 0)) =~= Seq::<UIButton>::empty());
            assert(buttons@.subrange(0, 0) =~= Seq::<Option<UIButton>>::empty());
            lemma_present_len(buttons@);
        }
        let mut idx: usize = 0;
        while idx < flat.len()
            invariant
                flat@ == present(buttons@),
                flat@.len() <= 3,
                idx <= flat@.len(),
                spec_find_button(flat@, 0, x as int, y as int, width as int)
                    == spec_find_button(flat@, idx as int, x as int, y as int, width as int),
            decreases flat@.len() - idx,
        {
            let i = idx as i64;
            let w = width as i64;
            let hs = HEADER_SIZE as i64;
            let xi = x as i64;
            let yi = y as i64;
            if w >= (i + 1) * hs && xi >= (w - (i + 1) * hs) * FIXED_ONE && xi <= (w - i * hs) * FIXED_ONE
                && yi <= hs * FIXED_ONE && yi >= 0 {
                return Location::Button(flat[idx]);
            }
            idx += 1;
        }
        Location::Head
    }

    /// What a click asks of the compositor. A secondary click on the head
    /// shows the window menu (where the compositor has one) at the
    /// pointer, relative to the window; a primary press on the head
    /// starts a move; releasing the primary button over a button closes,
    /// minimizes, or maximizes the window (restores it when maximized).
    pub fn on_click(&self, click: FrameClick, pressed: bool) -> (r: Option<FrameAction>)
        requires
            self.mouse_coords.1 >= i32::MIN + HEADER_SIZE,
        ensures
            r == spec_click(self.mouse_location, self.mouse_coords, self.wm_capabilities, self.state, click, pressed),
    {
        if click == FrameClick::Alternate {
            return if self.mouse_location != Location::Head || !self.wm_capabilities.window_menu {
                None
            } else {
                Some(FrameAction::ShowMenu(self.mouse_coords.0, self.mouse_coords.1 - HEADER_SIZE as i32))
            };
        }
        match self.mouse_location {
            Location::Head => if pressed { Some(FrameAction::Move) } else { None },
            Location::Button(UIButton::Close) => if !pressed { Some(FrameAction::Close) } else { None },
            Location::Button(UIButton::Minimize) => if !pressed { Some(FrameAction::Minimize) } else { None },
            Location::Button(UIButton::Maximize) => if pressed {
                None
            } else if self.state.maximized {
                Some(FrameAction::UnMaximize)
            } else {
                Some(FrameAction::Maximize)
            },
            Location::Outside => None,
        }
    }

    /// The pointer moved to (`x`, `y`). Only an event on the title bar's
    /// own surface, while the bar is shown, counts: then the pointer
    /// position (in whole pixels, rounded toward zero) and location are
    /// recorded, and the bar becomes dirty when the pointer entered, left
    /// or changed a button. Returns whether the event counted (the
    /// default cursor is then shown).
    pub fn click_point_moved(&mut self, on_header_surface: bool, x: i32, y: i32) -> (r: bool)
        ensures
            r == (on_header_surface && old(self).header_width is Some),
            !r ==> *final(self) == *old(self),
            r ==> {
                let loc = spec_find_button(
                    present(old(self).buttons@),
                    0,
                    x as int,
                    y as int,
                    old(self).header_width->0 as int,
                );
                &&& final(self).mouse_location == loc
                &&& final(self).mouse_coords == (whole_pixels(x) as i32, whole_pixels(y) as i32)
                &&& final(self).dirty == (old(self).dirty || ((old(self).mouse_location is Button
                    || loc is Button) && old(self).mouse_location != loc))
                &&& final(self).state == old(self).state
                &&& final(self).wm_capabilities == old(self).wm_capabilities
                &&& final(self).header_width == old(self).header_width
                &&& final(self).should_sync == old(self).should_sync
                &&& final(self).buffer_scale == old(self).buffer_scale
                &&& final(self).buttons == old(self).buttons
                &&& final(self).title == old(self).title
                &&& final(self).shaped_title == old(self).shaped_title
            },
    {
        if !on_header_surface {
            return false;
        }
        let width = match self.header_width {
            Some(w) => w,
            None => return false,
        };
        let old_location = self.mouse_location;
        self.mouse_coords = (x / 256, y / 256);
        let loc = Self::find_button(&self.buttons, x, y, width);
        self.mouse_location = loc;
        let was_button = match old_location {
            Location::Button(_) => true,
            _ => false,
        };
        let is_button = match loc {
            Location::Button(_) => true,
            _ => false,
        };
        self.dirty = self.dirty || ((was_button || is_button) && old_location != loc);
        true
    }

    /// The pointer left the title bar.
    pub fn click_point_left(&mut self)
        ensures
            *final(self) == (TitleBarFrame { mouse_location: Location::Outside, dirty: true, ..*old(self) }),
    {
        self.mouse_location = Location::Outside;
        self.dirty = true;
    }

    /// The window state changed; the bar becomes dirty when activation,
    /// fullscreen or maximization changed.
    pub fn update_state(&mut self, state: FrameState)
        ensures
            *final(self) == (TitleBarFrame {
                state,
                dirty: old(self).dirty || old(self).state != state,
                ..*old(self)
            }),
    {
        let changed = self.state != state;
        self.state = state;
        self.dirty = self.dirty || changed;
    }

    /// The compositor's capabilities changed: the buttons follow them, and
    /// the bar becomes dirty when they differ from the previous ones.
    pub fn update_wm_capabilities(&mut self, caps: WmCapabilities)
        ensures
            final(self).wm_capabilities == caps,
            final(self).buttons@ == spec_buttons(caps),
            final(self).dirty == (old(self).dirty || old(self).wm_capabilities != caps),
            final(self).state == old(self).state,
            final(self).mouse_location == old(self).mouse_location,
            final(self).mouse_coords == old(self).mouse_coords,
            final(self).header_width == old(self).header_width,
            final(self).should_sync == old(self).should_sync,
            final(self).buffer_scale == old(self).buffer_scale,
            final(self).title == old(self).title,
            final(self).shaped_title == old(self).shaped_title,
    {
        self.dirty = self.dirty || self.wm_capabilities != caps;
        self.wm_capabilities = caps;
        self.buttons = Self::supported_buttons(caps);
    }

    /// The window was resized to `width`: the header follows, and the next
    /// draw is synchronized.
    pub fn resize(&mut self, width: u32)
        requires
            width > 0,
            old(self).header_width is Some,
        ensures
            *final(self) == (TitleBarFrame {
                header_width: Some(width),
                dirty: true,
                should_sync: true,
                ..*old(self)
            }),
    {
        self.header_width = Some(width);
        self.dirty = true;
        self.should_sync = true;
    }

    /// The scaling factor changed; `buffer_scale` is it rounded up.
    pub fn set_scaling_factor(&mut self, buffer_scale: u32)
        ensures
            *final(self) == (TitleBarFrame { buffer_scale, dirty: true, should_sync: true, ..*old(self) }),
    {
        self.buffer_scale = buffer_scale;
        self.dirty = true;
        self.should_sync = true;
    }

    /// The offset of the bar from the window's content: none in fullscreen
    /// or while hidden, else one header height above it.
    pub fn location(&self) -> (r: (i32, i32))
        ensures
            r == (if borderless(*self) { (0i32, 0i32) } else { (0i32, -24i32) }),
    {
        if self.state.fullscreen || self.header_width.is_none() {
            (0, 0)
        } else {
            (0, -(HEADER_SIZE as i32))
        }
    }

    /// The content size left in a window of `width` × `height`: all of it
    /// in fullscreen or while hidden, else the height less the header
    /// (`None` when nothing is left).
    pub fn subtract_borders(&self, width: u32, height: u32) -> (r: (Option<u32>, Option<u32>))
        requires
            width > 0,
            height > 0,
        ensures
            r == spec_subtract_borders(*self, width, height),
    {
        if self.state.fullscreen || self.header_width.is_none() {
            (Some(width), Some(height))
        } else {
            let h = height.saturating_sub(HEADER_SIZE);
            (Some(width), if h == 0 { None } else { Some(h) })
        }
    }

    /// The window size for content of `width` × `height`: the same in
    /// fullscreen or while hidden, else with the header added.
    pub fn add_borders(&self, width: u32, height: u32) -> (r: (u32, u32))
        requires
            !borderless(*self) ==> height + HEADER_SIZE <= u32::MAX,
        ensures
            r == spec_add_borders(*self, width, height),
    {
        if self.state.fullscreen || self.header_width.is_none() {
            (width, height)
        } else {
            (width, height + HEADER_SIZE)
        }
    }

    pub fn is_dirty(&self) -> (r: bool)
        ensures
            r == self.dirty,
    {
        self.dirty
    }

    pub fn is_hidden(&self) -> (r: bool)
        ensures
            r == (self.header_width is None),
    {
        self.header_width.is_none()
    }

    /// Hides or shows the bar. Showing it makes a new header surface as
    /// wide as it is high. A change makes the bar dirty and the next
    /// draw synchronized; asking for the current visibility changes
    /// nothing.
    pub fn set_hidden(&mut self, hidden: bool)
        ensures
            (old(self).header_width is None) == hidden ==> *final(self) == *old(self),
            (old(self).header_width is None) != hidden ==> *final(self) == (TitleBarFrame {
                header_width: if hidden { None } else { Some(HEADER_SIZE) },
                dirty: true,
                should_sync: true,
                ..*old(self)
            }),
    {
        if self.header_width.is_none() == hidden {
            return;
        }
        self.header_width = if hidden { None } else { Some(HEADER_SIZE) };
        self.dirty = true;
        self.should_sync = true;
    }

    /// Sets the title; a different one drops the shaped glyphs and makes
    /// the bar dirty.
    pub fn set_title(&mut self, title: String)
        ensures
            final(self).title@ == title@,
            title@ != old(self).title@ ==> final(self).shaped_title is None && final(self).dirty,
            title@ == old(self).title@ ==> final(self).shaped_title == old(self).shaped_title
                && final(self).dirty == old(self).dirty,
            final(self).state == old(self).state,
            final(self).wm_capabilities == old(self).wm_capabilities,
            final(self).mouse_location == old(self).mouse_location,
            final(self).mouse_coords == old(self).mouse_coords,
            final(self).header_width == old(self).header_width,
            final(self).should_sync == old(self).should_sync,
            final(self).buffer_scale == old(self).buffer_scale,
            final(self).buttons == old(self).buttons,
    {
        if !str_eq(self.title.as_str(), title.as_str()) {
            self.title = title;
            self.shaped_title = None;
            self.dirty = true;
        }
    }
}

proof fn lemma_present_len(b: Seq<Option<UIButton>>)
    ensures
        present(b).len() <= b.len(),
    decreases b.len(),
{
    if b.len() > 0 {
        lemma_present_len(b.drop_last());
    }
}


/// The header color of an active window, as (red, green, blue, alpha).
pub const PRIMARY_COLOR_ACTIVE: (u8, u8, u8, u8) = (0x3a, 0x3a, 0x3a, 0xff);
/// The header color of an inactive window.
pub const PRIMARY_COLOR_INACTIVE: (u8, u8, u8, u8) = (0x24, 0x24, 0x24, 0xff);
/// The color of the button icons.
pub const BTN_ICON_COLOR: (u8, u8, u8, u8) = (0xcc, 0xcc, 0xcc, 0xff);
/// The background of the button under the pointer.
pub const BTN_HOVER_BG: (u8, u8, u8, u8) = (0x80, 0x80, 0x80, 0xff);

/// What drawing the title bar takes.
#[derive(Debug, Clone, Copy, PartialEq, Eq)]
pub enum DrawPlan {
    /// The bar is hidden: nothing is drawn.
    Hidden,
    /// Fullscreen: the header surface is committed without a buffer.
    Clear { sync: bool, shape_title: bool },
    /// A buffer of `width * scale` by `HEADER_SIZE * scale` pixels is
    /// filled with `fill`, the title and the buttons are drawn on it, and
    /// it is committed.
    Paint { sync: bool, shape_title: bool, is_active: bool, fill: (u8, u8, u8, u8), width: u32, scale: u32 },
}

impl DrawPlan {
    /// What drawing reports: whether the commit is synchronized (false
    /// when nothing was drawn).
    pub fn reported(&self) -> (r: bool)
        ensures
            r == match *self {
                DrawPlan::Hidden => false,
                DrawPlan::Clear { sync, .. } => sync,
                DrawPlan::Paint { sync, .. } => sync,
            },
    {
        match self {
            DrawPlan::Hidden => false,
            DrawPlan::Clear { sync, .. } => *sync,
            DrawPlan::Paint { sync, .. } => *sync,
        }
    }
}

/// Whether the glyphs shaped for `shaped` serve `title` drawn with
/// `is_active` at `dpi`.
pub open spec fn shaping_current(shaped: Option<ShapedTitle>, title: Seq<char>, is_active: bool, dpi: usize) -> bool {
    match shaped {
        Some(t) => t.title@ == title && t.is_active == is_active && t.dpi == dpi,
        None => false,
    }
}

/// The plan for drawing `f` at `dpi`.
pub open spec fn spec_draw_plan(f: TitleBarFrame, dpi: usize) -> DrawPlan {
    let is_active = f.state.activated;
    let shape_title = f.title@.len() > 0 && !shaping_current(f.shaped_title, f.title@, is_active, dpi);
    match f.header_width {
        None => DrawPlan::Hidden,
        Some(width) => if f.state.fullscreen {
            DrawPlan::Clear { sync: f.should_sync, shape_title }
        } else {
            DrawPlan::Paint {
                sync: f.should_sync,
                shape_title,
                is_active,
                fill: if is_active { PRIMARY_COLOR_ACTIVE } else { PRIMARY_COLOR_INACTIVE },
                width,
                scale: f.buffer_scale,
            }
        },
    }
}

impl TitleBarFrame {
    /// Starts drawing at `dpi`. A hidden bar is left as it is. Otherwise
    /// the bar is no longer dirty, the next commit is not synchronized
    /// unless asked again, and the glyphs of an empty title are dropped;
    /// the title must be shaped again when it is not empty and its
    /// glyphs were not made for it, this activation and this DPI.
    pub fn begin_draw(&mut self, dpi: usize) -> (r: DrawPlan)
        ensures
            r == spec_draw_plan(*old(self), dpi),
            old(self).header_width is None ==> *final(self) == *old(self),
            old(self).header_width is Some ==> {
                &&& !final(self).dirty
                &&& !final(self).should_sync
                &&& final(self).shaped_title == (if old(self).title@.len() == 0 {
                    None
                } else {
                    old(self).shaped_title
                })
                &&& final(self).state == old(self).state
                &&& final(self).wm_capabilities == old(self).wm_capabilities
                &&& final(self).mouse_location == old(self).mouse_location
                &&& final(self).mouse_coords == old(self).mouse_coords
                &&& final(self).header_width == old(self).header_width
                &&& final(self).buffer_scale == old(self).buffer_scale
                &&& final(self).buttons == old(self).buttons
                &&& final(self).title == old(self).title
            },
    {
        let width = match self.header_width {
            Some(w) => w,
            None => return DrawPlan::Hidden,
        };
        let is_active = self.state.activated;
        let shape_title = if self.title.as_str().is_empty() {
            self.shaped_title = None;
            false
        } else {
            match &self.shaped_title {
                Some(t) => !(str_eq(t.title.as_str(), self.title.as_str()) && t.is_active == is_active && t.dpi == dpi),
                None => true,
            }
        };
        self.dirty = false;
        let sync = self.should_sync;
        self.should_sync = false;
        if self.state.fullscreen {
            return DrawPlan::Clear { sync, shape_title };
        }
        let fill = if is_active { PRIMARY_COLOR_ACTIVE } else { PRIMARY_COLOR_INACTIVE };
        DrawPlan::Paint { sync, shape_title, is_active, fill, width, scale: self.buffer_scale }
    }

    /// Records that the title was shaped for this activation and DPI.
    pub fn record_shaped_title(&mut self, is_active: bool, dpi: usize)
        ensures
            final(self).shaped_title matches Some(t) && t.title@ == old(self).title@ && t.is_active == is_active
                && t.dpi == dpi,
            *final(self) == (TitleBarFrame { shaped_title: final(self).shaped_title, ..*old(self) }),
    {
        self.shaped_title = Some(ShapedTitle { title: self.title.clone(), is_active, dpi });
    }
}

/// A header buffer of `len` bytes for a bar `width` pixels wide at
/// `scale`: `HEADER_SIZE * scale` rows of `width * scale` four-byte
/// pixels.
pub open spec fn header_canvas(len: int, width: int, scale: int) -> bool {
    &&& width > 0
    &&& scale > 0
    &&& len == (width * 4 * scale) * (HEADER_SIZE * scale)
}

/// `c` with the header pixels of columns `[x0, x1)` and rows `[y0, y1)`
/// (in unscaled pixels) painted with `rgba`.
pub open spec fn paint_block(c: Seq<u8>, width: int, scale: int, x0: int, x1: int, y0: int, y1: int, rgba: (u8, u8, u8, u8)) -> Seq<u8> {
    painted(c, width * 4 * scale, x0 * scale, x1 * scale, y0 * scale, y1 * scale, rgba)
}

proof fn lemma_header_canvas(len: int, width: int, scale: int, x1: int, y1: int)
    requires
        header_canvas(len, width, scale),
        0 <= x1 <= width,
        0 <= y1 <= HEADER_SIZE,
    ensures
        0 < width * 4 <= width * 4 * scale <= len,
        len / (width * 4 * scale) == HEADER_SIZE * scale,
        0 <= x1 * scale <= (width * 4 * scale) / 4,
        0 <= y1 * scale <= HEADER_SIZE * scale,
{
    assert(0 < width * 4 <= width * 4 * scale <= (width * 4 * scale) * (HEADER_SIZE * scale)) by (nonlinear_arith)
        requires
            width > 0,
            scale > 0,
    ;
    lemma_div_multiples_vanish(HEADER_SIZE * scale, width * 4 * scale);
    assert((width * 4 * scale) * (HEADER_SIZE * scale) == (HEADER_SIZE * scale) * (width * 4 * scale)) by (nonlinear_arith);
    assert(width * 4 * scale == 4 * (width * scale)) by (nonlinear_arith);
    lemma_div_multiples_vanish(width * scale, 4);
    assert(0 <= x1 * scale <= width * scale) by (nonlinear_arith)
        requires
            0 <= x1 <= width,
            scale > 0,
    ;
    assert(0 <= y1 * scale <= HEADER_SIZE * scale) by (nonlinear_arith)
        requires
            0 <= y1 <= HEADER_SIZE,
            scale > 0,
    ;
}

fn paint_block_exec(canvas: &mut Vec<u8>, width: u32, scale: u32, x0: u32, x1: u32, y0: u32, y1: u32, rgba: (u8, u8, u8, u8))
    requires
        header_canvas(old(canvas)@.len() as int, width as int, scale as int),
        x0 <= x1 <= width,
        y0 <= y1 <= HEADER_SIZE,
    ensures
        final(canvas)@ == paint_block(old(canvas)@, width as int, scale as int, x0 as int, x1 as int, y0 as int, y1 as int, rgba),
{
    proof {
        lemma_header_canvas(canvas@.len() as int, width as int, scale as int, x1 as int, y1 as int);
        assert(0 <= x0 * scale <= x1 * scale) by (nonlinear_arith)
            requires
                x0 <= x1,
        ;
        assert(0 <= y0 * scale <= y1 * scale) by (nonlinear_arith)
            requires
                y0 <= y1,
        ;
    }
    let n = canvas.len();
    let w = width as usize;
    let s = scale as usize;
    assert(w * 4 * s <= n);
    let stride = w * 4 * s;
    paint_region(canvas, stride, x0 as usize * s, x1 as usize * s, y0 as usize * s, y1 as usize * s, rgba);
}

/// Fills the whole header buffer with `rgba`.
pub fn fill_header(canvas: &mut Vec<u8>, width: u32, scale: u32, rgba: (u8, u8, u8, u8))
    requires
        header_canvas(old(canvas)@.len() as int, width as int, scale as int),
    ensures
        final(canvas)@ == paint_block(old(canvas)@, width as int, scale as int, 0, width as int, 0, HEADER_SIZE as int, rgba),
{
    paint_block_exec(canvas, width, scale, 0, width, 0, HEADER_SIZE, rgba);
}


/// `c` with the hover background of the button square whose left edge is
/// at `x_start`.
pub open spec fn button_painted(c: Seq<u8>, width: int, scale: int, x_start: int, rgba: (u8, u8, u8, u8)) -> Seq<u8> {
    paint_block(c, width, scale, x_start, x_start + HEADER_SIZE, 0, HEADER_SIZE as int, rgba)
}

/// `c` with the icon of `icon` drawn in the button square whose left edge
/// is at `x_start`: close a filled square, maximize a hollow one, minimize
/// a bar along the bottom of that square.
pub open spec fn icon_painted(c: Seq<u8>, width: int, scale: int, x_start: int, rgba: (u8, u8, u8, u8), icon: UIButton) -> Seq<u8> {
    let left = x_start + 6;
    let right = x_start + 18;
    match icon {
        UIButton::Close => paint_block(c, width, scale, left, right, 6, 18, rgba),
        UIButton::Maximize => {
            let top = paint_block(c, width, scale, left, right, 6, 9, rgba);
            let l = paint_block(top, width, scale, left, x_start + 9, 9, 15, rgba);
            let r = paint_block(l, width, scale, x_start + 15, right, 9, 15, rgba);
            paint_block(r, width, scale, left, right, 15, 18, rgba)
        },
        UIButton::Minimize => paint_block(c, width, scale, left, right, 15, 18, rgba),
    }
}

/// `c` with the first `n` buttons of `flat` drawn: the n-th from the right
/// end, when the bar is wide enough for it, with the hover background when
/// the window is active and the pointer is over it.
pub open spec fn buttons_painted(
    c: Seq<u8>,
    flat: Seq<UIButton>,
    n: int,
    width: int,
    scale: int,
    is_active: bool,
    loc: Location,
) -> Seq<u8>
    decreases n,
{
    if n <= 0 {
        c
    } else {
        let prev = buttons_painted(c, flat, n - 1, width, scale, is_active, loc);
        let idx = n - 1;
        if width >= (idx + 1) * HEADER_SIZE {
            let x_start = width - HEADER_SIZE - idx * HEADER_SIZE;
            let bg = if is_active && loc == Location::Button(flat[idx]) {
                button_painted(prev, width, scale, x_start, BTN_HOVER_BG)
            } else {
                prev
            };
            icon_painted(bg, width, scale, x_start, BTN_ICON_COLOR, flat[idx])
        } else {
            prev
        }
    }
}

impl TitleBarFrame {
    /// Paints the background of the button square `x_offset` pixels left of
    /// the bar's right end.
    pub fn draw_button(canvas: &mut Vec<u8>, x_offset: u32, scale: u32, width: u32, btn_color: (u8, u8, u8, u8))
        requires
            header_canvas(old(canvas)@.len() as int, width as int, scale as int),
            x_offset + HEADER_SIZE <= width,
        ensures
            final(canvas)@ == button_painted(
                old(canvas)@,
                width as int,
                scale as int,
                width - HEADER_SIZE - x_offset,
                btn_color,
            ),
    {
        let x_start = width - HEADER_SIZE - x_offset;
        paint_block_exec(canvas, width, scale, x_start, x_start + HEADER_SIZE, 0, HEADER_SIZE, btn_color);
    }

    /// Draws the icon of `icon` in the button square `x_offset` pixels left
    /// of the bar's right end.
    pub fn draw_icon(canvas: &mut Vec<u8>, width: u32, x_offset: u32, scale: u32, icon_color: (u8, u8, u8, u8), icon: UIButton)
        requires
            header_canvas(old(canvas)@.len() as int, width as int, scale as int),
            x_offset + HEADER_SIZE <= width,
        ensures
            final(canvas)@ == icon_painted(
                old(canvas)@,
                width as int,
                scale as int,
                width - HEADER_SIZE - x_offset,
                icon_color,
                icon,
            ),
    {
        let x_start = width - HEADER_SIZE - x_offset;
        let left = x_start + 6;
        let right = x_start + 18;
        match icon {
            UIButton::Close => {
                paint_block_exec(canvas, width, scale, left, right, 6, 18, icon_color);
            },
            UIButton::Maximize => {
                paint_block_exec(canvas, width, scale, left, right, 6, 9, icon_color);
                paint_block_exec(canvas, width, scale, left, x_start + 9, 9, 15, icon_color);
                paint_block_exec(canvas, width, scale, x_start + 15, right, 9, 15, icon_color);
                paint_block_exec(canvas, width, scale, left, right, 15, 18, icon_color);
            },
            UIButton::Minimize => {
                paint_block_exec(canvas, width, scale, left, right, 15, 18, icon_color);
            },
        }
    }

    /// Draws the present buttons from the right end of the bar, each that
    /// fits: the hover background under the pointer's button when the
    /// window is active, then its icon.
    pub fn draw_buttons(
        buttons: &[Option<UIButton>; 3],
        canvas: &mut Vec<u8>,
        width: u32,
        scale: u32,
        is_active: bool,
        mouse_location: Location,
    )
        requires
            header_canvas(old(canvas)@.len() as int, width as int, scale as int),
        ensures
            final(canvas)@ == buttons_painted(
                old(canvas)@,
                present(buttons@),
                present(buttons@).len() as int,
                width as int,
                scale as int,
                is_active,
                mouse_location,
            ),
    {
        let flat = flatten_buttons(buttons);
        proof {
            lemma_present_len(buttons@);
        }
        let ghost c0 = canvas@;
        let mut idx: usize = 0;
        while idx < flat.len()
            invariant
                flat@ == present(buttons@),
                flat@.len() <= 3,
                idx <= flat@.len(),
                canvas@.len() == c0.len(),
                header_canvas(c0.len() as int, width as int, scale as int),
                canvas@ == buttons_painted(c0, flat@, idx as int, width as int, scale as int, is_active, mouse_location),
            decreases flat@.len() - idx,
        {
            let button = flat[idx];
            let i = idx as u32;
            if width >= (i + 1) * HEADER_SIZE {
                if is_active && mouse_location == Location::Button(button) {
                    Self::draw_button(canvas, i * HEADER_SIZE, scale, width, BTN_HOVER_BG);
                }
                Self::draw_icon(canvas, width, i * HEADER_SIZE, scale, BTN_ICON_COLOR, button);
            }
            idx += 1;
        }
    }
}


/// Adding the title bar to a content size and taking it away again gives
/// the content size back; taking it from a window size taller than the
/// bar and adding it again gives the window size back.
pub proof fn lemma_borders_round_trip(f: TitleBarFrame, width: u32, height: u32)
    requires
        width > 0,
        height > 0,
    ensures
        (borderless(f) || height + HEADER_SIZE <= u32::MAX) ==> {
            let added = spec_add_borders(f, width, height);
            spec_subtract_borders(f, added.0, added.1) == (Some(width), Some(height))
        },
        (borderless(f) || height > HEADER_SIZE) ==> {
            let left = spec_subtract_borders(f, width, height);
            spec_add_borders(f, left.0->0, left.1->0) == (width, height)
        },
{
}

} // verus!
