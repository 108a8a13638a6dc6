//! Config overlay data: the section registry, field metadata, SSH and
//! DevContainer domain records and their field accessors.
use vstd::prelude::*;

use crate::text::{owned, str_eq, lowercase, to_lowercase};
use crate::text_order::{text_order, text_order_of, texts};

verus! {

/// A user-managed SSH domain configuration.
#[derive(Debug, PartialEq, Eq)]
pub struct SshDomainConfig {
    pub name: String,
    pub remote_address: String,
    pub username: String,
    pub multiplexing: String,
    pub ssh_backend: String,
    pub no_agent_auth: bool,
    pub connect_automatically: bool,
}

impl Clone for SshDomainConfig {
    fn clone(&self) -> (r: Self)
        ensures
            r == *self,
    {
        SshDomainConfig {
            name: self.name.clone(),
            remote_address: self.remote_address.clone(),
            username: self.username.clone(),
            multiplexing: self.multiplexing.clone(),
            ssh_backend: self.ssh_backend.clone(),
            no_agent_auth: self.no_agent_auth,
            connect_automatically: self.connect_automatically,
        }
    }
}

impl Default for SshDomainConfig {
    /// Empty name, address and user; no multiplexing, the libssh backend,
    /// agent authentication enabled, not connected at startup.
    fn default() -> (r: Self)
        ensures
            r.name@ == Seq::<char>::empty(),
            r.remote_address@ == Seq::<char>::empty(),
            r.username@ == Seq::<char>::empty(),
            r.multiplexing@ == "None"@,
            r.ssh_backend@ == "LibSsh"@,
            !r.no_agent_auth,
            !r.connect_automatically,
    {
        SshDomainConfig {
            name: String::new(),
            remote_address: String::new(),
            username: String::new(),
            multiplexing: owned("None"),
            ssh_backend: owned("LibSsh"),
            no_agent_auth: false,
            connect_automatically: false,
        }
    }
}

/// Where a domain entry comes from.
#[derive(Debug, Clone, Copy, PartialEq, Eq, Structural)]
pub enum DomainSource {
    /// Defined in the Lua config file (read-only).
    Lua,
    /// Managed by the overlay (editable).
    Overlay,
}

/// A domain entry with its source and display state.
#[derive(Debug)]
pub struct DomainEntry {
    pub config: SshDomainConfig,
    pub source: DomainSource,
    pub expanded: bool,
}

impl Clone for DomainEntry {
    fn clone(&self) -> (r: Self)
        ensures
            r == *self,
    {
        DomainEntry { config: self.config.clone(), source: self.source, expanded: self.expanded }
    }
}

/// A section grouping related fields in the overlay.
#[derive(Debug, Clone, Copy, PartialEq, Eq, Hash, Structural)]
pub enum Section {
    General,
    FontAndText,
    TabsAndPanes,
    CursorAndAnimation,
    Terminal,
    Input,
    SshAndDomains,
    Rendering,
    Monitors,
}

pub open spec fn section_name(s: Section) -> Seq<char> {
    match s {
        Section::General => "General"@,
        Section::FontAndText => "Font & Text"@,
        Section::TabsAndPanes => "Tabs & Panes"@,
        Section::CursorAndAnimation => "Cursor"@,
        Section::Terminal => "Terminal"@,
        Section::Input => "Input"@,
        Section::SshAndDomains => "Domains"@,
        Section::Rendering => "Rendering"@,
        Section::Monitors => "Monitors"@,
    }
}

impl Section {
    /// The label shown for the section.
    pub fn display_name(&self) -> (r: &'static str)
        ensures
            r@ == section_name(*self),
    {
        match self {
            Section::General => "General",
            Section::FontAndText => "Font & Text",
            Section::TabsAndPanes => "Tabs & Panes",
            Section::CursorAndAnimation => "Cursor",
            Section::Terminal => "Terminal",
            Section::Input => "Input",
            Section::SshAndDomains => "Domains",
            Section::Rendering => "Rendering",
            Section::Monitors => "Monitors",
        }
    }
}

/// All sections, in display order.
pub open spec fn sections_in_order() -> Seq<Section> {
    seq![
        Section::General,
        Section::FontAndText,
        Section::TabsAndPanes,
        Section::CursorAndAnimation,
        Section::Terminal,
        Section::Input,
        Section::SshAndDomains,
        Section::Rendering,
        Section::Monitors,
    ]
}

/// Returns all sections in display order.
pub fn get_sections() -> (r: Vec<Section>)
    ensures
        r@ == sections_in_order(),
{
    vec![
        Section::General,
        Section::FontAndText,
        Section::TabsAndPanes,
        Section::CursorAndAnimation,
        Section::Terminal,
        Section::Input,
        Section::SshAndDomains,
        Section::Rendering,
        Section::Monitors,
    ]
}

/// The kind of value a field holds, for editing purposes.
#[derive(Debug)]
pub enum FieldKind {
    Bool,
    Float,
    Integer,
    Text,
    /// Enum with (variant name, description) pairs.
    Enum(Vec<(String, String)>),
    /// Color scheme selector.
    ColorScheme,
}

/// The view of a `FieldKind`.
pub enum FieldKindView {
    Bool,
    Float,
    Integer,
    Text,
    Enum(Seq<(Seq<char>, Seq<char>)>),
    ColorScheme,
}

pub open spec fn pairs_view(v: Seq<(String, String)>) -> Seq<(Seq<char>, Seq<char>)> {
    v.map_values(|p: (String, String)| (p.0@, p.1@))
}

impl View for FieldKind {
    type V = FieldKindView;

    open spec fn view(&self) -> FieldKindView {
        match self {
            FieldKind::Bool => FieldKindView::Bool,
            FieldKind::Float => FieldKindView::Float,
            FieldKind::Integer => FieldKindView::Integer,
            FieldKind::Text => FieldKindView::Text,
            FieldKind::Enum(v) => FieldKindView::Enum(pairs_view(v@)),
            FieldKind::ColorScheme => FieldKindView::ColorScheme,
        }
    }
}

fn clone_pairs(v: &Vec<(String, String)>) -> (r: Vec<(String, String)>)
    ensures
        r@ == v@,
{
    let mut out: Vec<(String, String)> = Vec::new();
    let mut i: usize = 0;
    while i < v.len()
        invariant
            i <= v@.len(),
            out@ == v@.take(i as int),
        decreases v@.len() - i,
    {
        let (a, b) = &v[i];
        out.push((a.clone(), b.clone()));
        assert(out@ =~= v@.take(i + 1));
        i += 1;
    }
    assert(v@.take(v@.len() as int) =~= v@);
    out
}

impl Clone for FieldKind {
    fn clone(&self) -> (r: Self)
        ensures
            r@ == self@,
    {
        match self {
            FieldKind::Bool => FieldKind::Bool,
            FieldKind::Float => FieldKind::Float,
            FieldKind::Integer => FieldKind::Integer,
            FieldKind::Text => FieldKind::Text,
            FieldKind::Enum(v) => FieldKind::Enum(clone_pairs(v)),
            FieldKind::ColorScheme => FieldKind::ColorScheme,
        }
    }
}

/// Metadata for one config field shown in the overlay.
#[derive(Debug)]
pub struct FieldDef {
    pub name: &'static str,
    pub display_name: &'static str,
    pub section: Section,
    pub kind: FieldKind,
    pub doc: &'static str,
}

/// The view of a `FieldDef`.
pub struct FieldDefView {
    pub name: Seq<char>,
    pub display_name: Seq<char>,
    pub section: Section,
    pub kind: FieldKindView,
    pub doc: Seq<char>,
}

impl View for FieldDef {
    type V = FieldDefView;

    open spec fn view(&self) -> FieldDefView {
        FieldDefView {
            name: self.name@,
            display_name: self.display_name@,
            section: self.section,
            kind: self.kind@,
            doc: self.doc@,
        }
    }
}

pub open spec fn defs_view(v: Seq<FieldDef>) -> Seq<FieldDefView> {
    v.map_values(|d: FieldDef| d@)
}

pub open spec fn fdv(
    name: &str,
    display_name: &str,
    section: Section,
    kind: FieldKindView,
    doc: &str,
) -> FieldDefView {
    FieldDefView { name: name@, display_name: display_name@, section, kind, doc: doc@ }
}

pub open spec fn ev_view(items: Seq<(&str, &str)>) -> Seq<(Seq<char>, Seq<char>)> {
    items.map_values(|p: (&str, &str)| (p.0@, p.1@))
}

pub open spec fn sv_view(items: Seq<&str>) -> Seq<(Seq<char>, Seq<char>)> {
    items.map_values(|s: &str| (s@, Seq::<char>::empty()))
}

fn f(
    name: &'static str,
    display_name: &'static str,
    section: Section,
    kind: FieldKind,
    doc: &'static str,
) -> (r: FieldDef)
    ensures
        r == (FieldDef { name, display_name, section, kind, doc }),
{
    FieldDef { name, display_name, section, kind, doc }
}

/// Enum variants without descriptions.
fn sv(items: &[&str]) -> (r: Vec<(String, String)>)
    ensures
        pairs_view(r@) == sv_view(items@),
{
    let mut out: Vec<(String, String)> = Vec::new();
    let mut i: usize = 0;
    while i < items.len()
        invariant
            i <= items@.len(),
            out@.len() == i,
            pairs_view(out@) == sv_view(items@.take(i as int)),
        decreases items@.len() - i,
    {
        let s = items[i];
        let ghost old_out = out@;
        out.push((owned(s), String::new()));
        assert(items@.take(i + 1) =~= items@.take(i as int).push(items@[i as int]));
        assert(out@ == old_out.push(out@[i as int]));
        assert(pairs_view(out@) =~= pairs_view(old_out).push((s@, Seq::<char>::empty())));
        assert(sv_view(items@.take(i + 1)) =~= sv_view(items@.take(i as int)).push(
            (s@, Seq::<char>::empty()),
        ));
        i += 1;
    }
    assert(items@.take(items@.len() as int) =~= items@);
    out
}

/// Enum variants with descriptions.
fn ev(items: &[(&str, &str)]) -> (r: Vec<(String, String)>)
    ensures
        pairs_view(r@) == ev_view(items@),
{
    let mut out: Vec<(String, String)> = Vec::new();
    let mut i: usize = 0;
    while i < items.len()
        invariant
            i <= items@.len(),
            out@.len() == i,
            pairs_view(out@) == ev_view(items@.take(i as int)),
        decreases items@.len() - i,
    {
        let (v, d) = items[i];
        let ghost old_out = out@;
        out.push((owned(v), owned(d)));
        assert(items@.take(i + 1) =~= items@.take(i as int).push(items@[i as int]));
        assert(out@ == old_out.push(out@[i as int]));
        assert(pairs_view(out@) =~= pairs_view(old_out).push((v@, d@)));
        assert(ev_view(items@.take(i + 1)) =~= ev_view(items@.take(i as int)).push((v@, d@)));
        i += 1;
    }
    assert(items@.take(items@.len() as int) =~= items@);
    out
}

/// The metadata of every field the overlay exposes, in display order.
pub open spec fn field_defs_table() -> Seq<FieldDefView> {
    seq![
        fdv("color_scheme", "Color Scheme", Section::General, FieldKindView::ColorScheme, "Name of the color scheme to use"),
        fdv("window_background_opacity", "Window Opacity", Section::General, FieldKindView::Float, "Background opacity 0.0–1.0"),
        fdv("text_background_opacity", "Text Bg Opacity", Section::General, FieldKindView::Float, "Text background opacity 0.0–1.0"),
        fdv("window_decorations", "Window Decorations", Section::General, FieldKindView::Text, "Decoration flags (TITLE|RESIZE)"),
        fdv("win32_system_backdrop", "System Backdrop", Section::General, FieldKindView::Enum(ev_view(seq![("Auto", "System decides the effect"), ("Disable", "No backdrop effect"), ("Acrylic", "Translucent blurred background"), ("Mica", "Subtle tinted desktop wallpaper"), ("Tabbed", "Mica variant for tabbed windows")])), "Windows backdrop effect"),
        fdv("bold_brightens_ansi_colors", "Bold Brightens ANSI", Section::General, FieldKindView::Enum(ev_view(seq![("BrightAndBold", "Brighten color and use bold font"), ("BrightOnly", "Brighten color but keep normal weight"), ("No", "Do not brighten bold text")])), "Bold text color handling"),
        fdv("default_domain", "Default Domain", Section::General, FieldKindView::Text, "Default multiplexer domain"),
        fdv("default_workspace", "Default Workspace", Section::General, FieldKindView::Text, "Default workspace name"),
        fdv("automatically_reload_config", "Auto Reload Config", Section::General, FieldKindView::Bool, "Reload config on file change"),
        fdv("check_for_updates", "Check for Updates", Section::General, FieldKindView::Bool, "Periodically check for updates"),
        fdv("quit_when_all_windows_are_closed", "Quit When All Closed", Section::General, FieldKindView::Bool, "Exit when last window closes"),
        fdv("window_close_confirmation", "Close Confirmation", Section::General, FieldKindView::Enum(ev_view(seq![("AlwaysPrompt", "Always ask before closing"), ("NeverPrompt", "Close without asking")])), "Prompt before closing window"),
        fdv("font_size", "Font Size", Section::FontAndText, FieldKindView::Float, "Font size in points"),
        fdv("line_height", "Line Height", Section::FontAndText, FieldKindView::Float, "Line height multiplier (1.0 = normal)"),
        fdv("cell_width", "Cell Width", Section::FontAndText, FieldKindView::Float, "Cell width multiplier (1.0 = normal)"),
        fdv("command_palette_font_size", "Palette Font Size", Section::FontAndText, FieldKindView::Float, "Command palette font size"),
        fdv("char_select_font_size", "Char Select Font Size", Section::FontAndText, FieldKindView::Float, "Character selector font size"),
        fdv("warn_about_missing_glyphs", "Warn Missing Glyphs", Section::FontAndText, FieldKindView::Bool, "Log warnings for missing glyphs"),
        fdv("custom_block_glyphs", "Custom Block Glyphs", Section::FontAndText, FieldKindView::Bool, "Use built-in block/box glyphs"),
        fdv("anti_alias_custom_block_glyphs", "AA Block Glyphs", Section::FontAndText, FieldKindView::Bool, "Anti-alias custom block glyphs"),
        fdv("font_locator", "Font Locator", Section::FontAndText, FieldKindView::Enum(sv_view(seq!["ConfigDirsOnly"])), "How fonts are discovered"),
        fdv("font_shaper", "Font Shaper", Section::FontAndText, FieldKindView::Enum(sv_view(seq!["Harfbuzz", "Allsorts"])), "Text shaping engine"),
        fdv("freetype_load_target", "FreeType Target", Section::FontAndText, FieldKindView::Enum(sv_view(seq!["Normal", "Light", "Mono", "HorizontalLcd"])), "FreeType hinting mode"),
        fdv("display_pixel_geometry", "Pixel Geometry", Section::FontAndText, FieldKindView::Enum(sv_view(seq!["RGB", "BGR", "Horizontal", "Vertical"])), "Sub-pixel rendering order"),
        fdv("sort_fallback_fonts_by_coverage", "Sort Fallback Fonts", Section::FontAndText, FieldKindView::Bool, "Sort fallback fonts by glyph coverage"),
        fdv("enable_tab_bar", "Tab Bar", Section::TabsAndPanes, FieldKindView::Bool, "Show or hide the tab bar"),
        fdv("use_fancy_tab_bar", "Fancy Tab Bar", Section::TabsAndPanes, FieldKindView::Bool, "Use rendered tab bar vs retro text"),
        fdv("hide_tab_bar_if_only_one_tab", "Hide If One Tab", Section::TabsAndPanes, FieldKindView::Bool, "Auto-hide tab bar with one tab"),
        fdv("tab_bar_at_bottom", "Tab Bar at Bottom", Section::TabsAndPanes, FieldKindView::Bool, "Place tab bar at window bottom"),
        fdv("tab_max_width", "Tab Max Width", Section::TabsAndPanes, FieldKindView::Integer, "Maximum tab title width in cells"),
        fdv("show_tab_index_in_tab_bar", "Show Tab Index", Section::TabsAndPanes, FieldKindView::Bool, "Display tab index numbers"),
        fdv("show_tabs_in_tab_bar", "Show Tabs", Section::TabsAndPanes, FieldKindView::Bool, "Show tab entries in tab bar"),
        fdv("show_new_tab_button_in_tab_bar", "New Tab Button", Section::TabsAndPanes, FieldKindView::Bool, "Show + button in tab bar"),
        fdv("show_close_tab_button_in_tabs", "Close Tab Button", Section::TabsAndPanes, FieldKindView::Bool, "Show × button on tabs"),
        fdv("tab_and_split_indices_are_zero_based", "Zero-Based Indices", Section::TabsAndPanes, FieldKindView::Bool, "Use 0-based tab/pane indices"),
        fdv("switch_to_last_active_tab_when_closing_tab", "Switch to Last Tab", Section::TabsAndPanes, FieldKindView::Bool, "Go to previous tab on close"),
        fdv("unzoom_on_switch_pane", "Unzoom on Switch", Section::TabsAndPanes, FieldKindView::Bool, "Unzoom when switching panes"),
        fdv("pane_focus_follows_mouse", "Pane Focus Follows Mouse", Section::TabsAndPanes, FieldKindView::Bool, "Focus pane under mouse cursor"),
        fdv("default_cursor_style", "Cursor Style", Section::CursorAndAnimation, FieldKindView::Enum(ev_view(seq![("SteadyBlock", "Non-blinking filled block"), ("BlinkingBlock", "Blinking filled block"), ("SteadyUnderline", "Non-blinking underline"), ("BlinkingUnderline", "Blinking underline"), ("SteadyBar", "Non-blinking vertical bar"), ("BlinkingBar", "Blinking vertical bar")])), "Default cursor shape"),
        fdv("cursor_blink_rate", "Cursor Blink Rate", Section::CursorAndAnimation, FieldKindView::Integer, "Blink rate in ms (0 = no blink)"),
        fdv("force_reverse_video_cursor", "Reverse Video Cursor", Section::CursorAndAnimation, FieldKindView::Bool, "Force reverse-video cursor"),
        fdv("animation_fps", "Animation FPS", Section::CursorAndAnimation, FieldKindView::Integer, "Frames/sec for animations"),
        fdv("text_blink_rate", "Text Blink Rate", Section::CursorAndAnimation, FieldKindView::Integer, "Text blink rate in ms"),
        fdv("text_blink_rate_rapid", "Rapid Blink Rate", Section::CursorAndAnimation, FieldKindView::Integer, "Rapid text blink rate in ms"),
        fdv("term", "TERM Variable", Section::Terminal, FieldKindView::Text, "Value of $TERM environment variable"),
        fdv("scrollback_lines", "Scrollback Lines", Section::Terminal, FieldKindView::Integer, "Lines of scrollback to retain"),
        fdv("initial_cols", "Initial Columns", Section::Terminal, FieldKindView::Integer, "Columns in new windows"),
        fdv("initial_rows", "Initial Rows", Section::Terminal, FieldKindView::Integer, "Rows in new windows"),
        fdv("exit_behavior", "Exit Behavior", Section::Terminal, FieldKindView::Enum(ev_view(seq![("Close", "Close the pane immediately"), ("Hold", "Keep pane open after exit"), ("CloseOnCleanExit", "Close only on exit code 0")])), "What happens when shell exits"),
        fdv("scroll_to_bottom_on_input", "Scroll on Input", Section::Terminal, FieldKindView::Bool, "Scroll to bottom when typing"),
        fdv("detect_password_input", "Detect Passwords", Section::Terminal, FieldKindView::Bool, "Detect password prompts"),
        fdv("enable_kitty_graphics", "Kitty Graphics", Section::Terminal, FieldKindView::Bool, "Support Kitty image protocol"),
        fdv("enable_kitty_keyboard", "Kitty Keyboard", Section::Terminal, FieldKindView::Bool, "Support Kitty keyboard protocol"),
        fdv("enable_csi_u_key_encoding", "CSI-u Keys", Section::Terminal, FieldKindView::Bool, "Enable CSI-u key encoding"),
        fdv("use_ime", "Use IME", Section::Terminal, FieldKindView::Bool, "Enable input method editor"),
        fdv("use_dead_keys", "Use Dead Keys", Section::Terminal, FieldKindView::Bool, "Enable dead key composition"),
        fdv("normalize_output_to_unicode_nfc", "Normalize to NFC", Section::Terminal, FieldKindView::Bool, "Normalize terminal output to NFC"),
        fdv("enable_scroll_bar", "Scroll Bar", Section::Terminal, FieldKindView::Bool, "Show scrollbar"),
        fdv("alternate_buffer_wheel_scroll_speed", "Alt Buffer Scroll", Section::Terminal, FieldKindView::Integer, "Mouse wheel speed in alt buffer"),
        fdv("swap_backspace_and_delete", "Swap Backspace/Delete", Section::Input, FieldKindView::Bool, "Swap Backspace and Delete keys"),
        fdv("disable_default_key_bindings", "Disable Default Keys", Section::Input, FieldKindView::Bool, "Disable built-in key bindings"),
        fdv("disable_default_mouse_bindings", "Disable Default Mouse", Section::Input, FieldKindView::Bool, "Disable built-in mouse bindings"),
        fdv("hide_mouse_cursor_when_typing", "Hide Mouse on Type", Section::Input, FieldKindView::Bool, "Hide cursor while typing"),
        fdv("mouse_wheel_scrolls_tabs", "Wheel Scrolls Tabs", Section::Input, FieldKindView::Bool, "Mouse wheel switches tabs"),
        fdv("swallow_mouse_click_on_pane_focus", "Swallow Pane Click", Section::Input, FieldKindView::Bool, "Eat click that focuses a pane"),
        fdv("swallow_mouse_click_on_window_focus", "Swallow Window Click", Section::Input, FieldKindView::Bool, "Eat click that focuses window"),
        fdv("debug_key_events", "Debug Key Events", Section::Input, FieldKindView::Bool, "Log key events for debugging"),
        fdv("key_map_preference", "Key Map Preference", Section::Input, FieldKindView::Enum(ev_view(seq![("Mapped", "Use the OS keyboard layout mapping"), ("Physical", "Use raw physical key positions")])), "Use mapped or physical key layout"),
        fdv("ssh_backend", "SSH Backend", Section::SshAndDomains, FieldKindView::Enum(ev_view(seq![("Ssh2", "Use the libssh2 library"), ("LibSsh", "Use the libssh library (default)")])), "SSH implementation to use"),
        fdv("mux_enable_ssh_agent", "SSH Agent", Section::SshAndDomains, FieldKindView::Bool, "Enable SSH agent forwarding"),
        fdv("default_ssh_auth_sock", "SSH Auth Socket", Section::SshAndDomains, FieldKindView::Text, "Path to SSH auth socket"),
        fdv("default_mux_server_domain", "Mux Server Domain", Section::SshAndDomains, FieldKindView::Text, "Default mux server domain name"),
        fdv("front_end", "Front End", Section::Rendering, FieldKindView::Enum(ev_view(seq![("OpenGL", "Hardware-accelerated OpenGL rendering"), ("WebGpu", "Modern WebGPU rendering backend"), ("Software", "CPU-based software rendering")])), "GPU rendering backend"),
        fdv("webgpu_power_preference", "GPU Power Pref", Section::Rendering, FieldKindView::Enum(ev_view(seq![("LowPower", "Prefer battery life over performance"), ("HighPerformance", "Prefer performance over battery")])), "WebGPU power vs performance"),
        fdv("max_fps", "Max FPS", Section::Rendering, FieldKindView::Integer, "Maximum rendering frame rate"),
        fdv("prefer_egl", "Prefer EGL", Section::Rendering, FieldKindView::Bool, "Prefer EGL over other GL"),
        fdv("webgpu_force_fallback_adapter", "Force GPU Fallback", Section::Rendering, FieldKindView::Bool, "Force WebGPU software fallback"),
        fdv("adjust_window_size_when_changing_font_size", "Resize on Font Change", Section::Rendering, FieldKindView::Bool, "Resize window when font changes"),
        fdv("use_resize_increments", "Resize Increments", Section::Rendering, FieldKindView::Bool, "Snap window to cell boundaries"),
        fdv("experimental_pixel_positioning", "Pixel Positioning", Section::Rendering, FieldKindView::Bool, "Experimental sub-cell positioning"),
    ]
}

/// Returns the definitions of all supported settings.
pub fn get_field_defs() -> (r: Vec<FieldDef>)
    ensures
        defs_view(r@) == field_defs_table(),
{
    let locators = sv(&["ConfigDirsOnly"]);
    let ghost lv: Seq<&str> = seq!["ConfigDirsOnly"];
    assert(sv_view(lv) =~= seq![("ConfigDirsOnly"@, Seq::<char>::empty())]);
    assert(["ConfigDirsOnly"]@ =~= lv);
    let v = vec![
        f("color_scheme", "Color Scheme", Section::General, FieldKind::ColorScheme, "Name of the color scheme to use"),
        f("window_background_opacity", "Window Opacity", Section::General, FieldKind::Float, "Background opacity 0.0–1.0"),
        f("text_background_opacity", "Text Bg Opacity", Section::General, FieldKind::Float, "Text background opacity 0.0–1.0"),
        f("window_decorations", "Window Decorations", Section::General, FieldKind::Text, "Decoration flags (TITLE|RESIZE)"),
        f("win32_system_backdrop", "System Backdrop", Section::General, FieldKind::Enum(ev(&[("Auto", "System decides the effect"), ("Disable", "No backdrop effect"), ("Acrylic", "Translucent blurred background"), ("Mica", "Subtle tinted desktop wallpaper"), ("Tabbed", "Mica variant for tabbed windows")])), "Windows backdrop effect"),
        f("bold_brightens_ansi_colors", "Bold Brightens ANSI", Section::General, FieldKind::Enum(ev(&[("BrightAndBold", "Brighten color and use bold font"), ("BrightOnly", "Brighten color but keep normal weight"), ("No", "Do not brighten bold text")])), "Bold text color handling"),
        f("default_domain", "Default Domain", Section::General, FieldKind::Text, "Default multiplexer domain"),
        f("default_workspace", "Default Workspace", Section::General, FieldKind::Text, "Default workspace name"),
        f("automatically_reload_config", "Auto Reload Config", Section::General, FieldKind::Bool, "Reload config on file change"),
        f("check_for_updates", "Check for Updates", Section::General, FieldKind::Bool, "Periodically check for updates"),
        f("quit_when_all_windows_are_closed", "Quit When All Closed", Section::General, FieldKind::Bool, "Exit when last window closes"),
        f("window_close_confirmation", "Close Confirmation", Section::General, FieldKind::Enum(ev(&[("AlwaysPrompt", "Always ask before closing"), ("NeverPrompt", "Close without asking")])), "Prompt before closing window"),
        f("font_size", "Font Size", Section::FontAndText, FieldKind::Float, "Font size in points"),
        f("line_height", "Line Height", Section::FontAndText, FieldKind::Float, "Line height multiplier (1.0 = normal)"),
        f("cell_width", "Cell Width", Section::FontAndText, FieldKind::Float, "Cell width multiplier (1.0 = normal)"),
        f("command_palette_font_size", "Palette Font Size", Section::FontAndText, FieldKind::Float, "Command palette font size"),
        f("char_select_font_size", "Char Select Font Size", Section::FontAndText, FieldKind::Float, "Character selector font size"),
        f("warn_about_missing_glyphs", "Warn Missing Glyphs", Section::FontAndText, FieldKind::Bool, "Log warnings for missing glyphs"),
        f("custom_block_glyphs", "Custom Block Glyphs", Section::FontAndText, FieldKind::Bool, "Use built-in block/box glyphs"),
        f("anti_alias_custom_block_glyphs", "AA Block Glyphs", Section::FontAndText, FieldKind::Bool, "Anti-alias custom block glyphs"),
        f("font_locator", "Font Locator", Section::FontAndText, FieldKind::Enum(locators), "How fonts are discovered"),
        f("font_shaper", "Font Shaper", Section::FontAndText, FieldKind::Enum(sv(&["Harfbuzz", "Allsorts"])), "Text shaping engine"),
        f("freetype_load_target", "FreeType Target", Section::FontAndText, FieldKind::Enum(sv(&["Normal", "Light", "Mono", "HorizontalLcd"])), "FreeType hinting mode"),
        f("display_pixel_geometry", "Pixel Geometry", Section::FontAndText, FieldKind::Enum(sv(&["RGB", "BGR", "Horizontal", "Vertical"])), "Sub-pixel rendering order"),
        f("sort_fallback_fonts_by_coverage", "Sort Fallback Fonts", Section::FontAndText, FieldKind::Bool, "Sort fallback fonts by glyph coverage"),
        f("enable_tab_bar", "Tab Bar", Section::TabsAndPanes, FieldKind::Bool, "Show or hide the tab bar"),
        f("use_fancy_tab_bar", "Fancy Tab Bar", Section::TabsAndPanes, FieldKind::Bool, "Use rendered tab bar vs retro text"),
        f("hide_tab_bar_if_only_one_tab", "Hide If One Tab", Section::TabsAndPanes, FieldKind::Bool, "Auto-hide tab bar with one tab"),
        f("tab_bar_at_bottom", "Tab Bar at Bottom", Section::TabsAndPanes, FieldKind::Bool, "Place tab bar at window bottom"),
        f("tab_max_width", "Tab Max Width", Section::TabsAndPanes, FieldKind::Integer, "Maximum tab title width in cells"),
        f("show_tab_index_in_tab_bar", "Show Tab Index", Section::TabsAndPanes, FieldKind::Bool, "Display tab index numbers"),
        f("show_tabs_in_tab_bar", "Show Tabs", Section::TabsAndPanes, FieldKind::Bool, "Show tab entries in tab bar"),
        f("show_new_tab_button_in_tab_bar", "New Tab Button", Section::TabsAndPanes, FieldKind::Bool, "Show + button in tab bar"),
        f("show_close_tab_button_in_tabs", "Close Tab Button", Section::TabsAndPanes, FieldKind::Bool, "Show × button on tabs"),
        f("tab_and_split_indices_are_zero_based", "Zero-Based Indices", Section::TabsAndPanes, FieldKind::Bool, "Use 0-based tab/pane indices"),
        f("switch_to_last_active_tab_when_closing_tab", "Switch to Last Tab", Section::TabsAndPanes, FieldKind::Bool, "Go to previous tab on close"),
        f("unzoom_on_switch_pane", "Unzoom on Switch", Section::TabsAndPanes, FieldKind::Bool, "Unzoom when switching panes"),
        f("pane_focus_follows_mouse", "Pane Focus Follows Mouse", Section::TabsAndPanes, FieldKind::Bool, "Focus pane under mouse cursor"),
        f("default_cursor_style", "Cursor Style", Section::CursorAndAnimation, FieldKind::Enum(ev(&[("SteadyBlock", "Non-blinking filled block"), ("BlinkingBlock", "Blinking filled block"), ("SteadyUnderline", "Non-blinking underline"), ("BlinkingUnderline", "Blinking underline"), ("SteadyBar", "Non-blinking vertical bar"), ("BlinkingBar", "Blinking vertical bar")])), "Default cursor shape"),
        f("cursor_blink_rate", "Cursor Blink Rate", Section::CursorAndAnimation, FieldKind::Integer, "Blink rate in ms (0 = no blink)"),
        f("force_reverse_video_cursor", "Reverse Video Cursor", Section::CursorAndAnimation, FieldKind::Bool, "Force reverse-video cursor"),
        f("animation_fps", "Animation FPS", Section::CursorAndAnimation, FieldKind::Integer, "Frames/sec for animations"),
        f("text_blink_rate", "Text Blink Rate", Section::CursorAndAnimation, FieldKind::Integer, "Text blink rate in ms"),
        f("text_blink_rate_rapid", "Rapid Blink Rate", Section::CursorAndAnimation, FieldKind::Integer, "Rapid text blink rate in ms"),
        f("term", "TERM Variable", Section::Terminal, FieldKind::Text, "Value of $TERM environment variable"),
        f("scrollback_lines", "Scrollback Lines", Section::Terminal, FieldKind::Integer, "Lines of scrollback to retain"),
        f("initial_cols", "Initial Columns", Section::Terminal, FieldKind::Integer, "Columns in new windows"),
        f("initial_rows", "Initial Rows", Section::Terminal, FieldKind::Integer, "Rows in new windows"),
        f("exit_behavior", "Exit Behavior", Section::Terminal, FieldKind::Enum(ev(&[("Close", "Close the pane immediately"), ("Hold", "Keep pane open after exit"), ("CloseOnCleanExit", "Close only on exit code 0")])), "What happens when shell exits"),
        f("scroll_to_bottom_on_input", "Scroll on Input", Section::Terminal, FieldKind::Bool, "Scroll to bottom when typing"),
        f("detect_password_input", "Detect Passwords", Section::Terminal, FieldKind::Bool, "Detect password prompts"),
        f("enable_kitty_graphics", "Kitty Graphics", Section::Terminal, FieldKind::Bool, "Support Kitty image protocol"),
        f("enable_kitty_keyboard", "Kitty Keyboard", Section::Terminal, FieldKind::Bool, "Support Kitty keyboard protocol"),
        f("enable_csi_u_key_encoding", "CSI-u Keys", Section::Terminal, FieldKind::Bool, "Enable CSI-u key encoding"),
        f("use_ime", "Use IME", Section::Terminal, FieldKind::Bool, "Enable input method editor"),
        f("use_dead_keys", "Use Dead Keys", Section::Terminal, FieldKind::Bool, "Enable dead key composition"),
        f("normalize_output_to_unicode_nfc", "Normalize to NFC", Section::Terminal, FieldKind::Bool, "Normalize terminal output to NFC"),
        f("enable_scroll_bar", "Scroll Bar", Section::Terminal, FieldKind::Bool, "Show scrollbar"),
        f("alternate_buffer_wheel_scroll_speed", "Alt Buffer Scroll", Section::Terminal, FieldKind::Integer, "Mouse wheel speed in alt buffer"),
        f("swap_backspace_and_delete", "Swap Backspace/Delete", Section::Input, FieldKind::Bool, "Swap Backspace and Delete keys"),
        f("disable_default_key_bindings", "Disable Default Keys", Section::Input, FieldKind::Bool, "Disable built-in key bindings"),
        f("disable_default_mouse_bindings", "Disable Default Mouse", Section::Input, FieldKind::Bool, "Disable built-in mouse bindings"),
        f("hide_mouse_cursor_when_typing", "Hide Mouse on Type", Section::Input, FieldKind::Bool, "Hide cursor while typing"),
        f("mouse_wheel_scrolls_tabs", "Wheel Scrolls Tabs", Section::Input, FieldKind::Bool, "Mouse wheel switches tabs"),
        f("swallow_mouse_click_on_pane_focus", "Swallow Pane Click", Section::Input, FieldKind::Bool, "Eat click that focuses a pane"),
        f("swallow_mouse_click_on_window_focus", "Swallow Window Click", Section::Input, FieldKind::Bool, "Eat click that focuses window"),
        f("debug_key_events", "Debug Key Events", Section::Input, FieldKind::Bool, "Log key events for debugging"),
        f("key_map_preference", "Key Map Preference", Section::Input, FieldKind::Enum(ev(&[("Mapped", "Use the OS keyboard layout mapping"), ("Physical", "Use raw physical key positions")])), "Use mapped or physical key layout"),
        f("ssh_backend", "SSH Backend", Section::SshAndDomains, FieldKind::Enum(ev(&[("Ssh2", "Use the libssh2 library"), ("LibSsh", "Use the libssh library (default)")])), "SSH implementation to use"),
        f("mux_enable_ssh_agent", "SSH Agent", Section::SshAndDomains, FieldKind::Bool, "Enable SSH agent forwarding"),
        f("default_ssh_auth_sock", "SSH Auth Socket", Section::SshAndDomains, FieldKind::Text, "Path to SSH auth socket"),
        f("default_mux_server_domain", "Mux Server Domain", Section::SshAndDomains, FieldKind::Text, "Default mux server domain name"),
        f("front_end", "Front End", Section::Rendering, FieldKind::Enum(ev(&[("OpenGL", "Hardware-accelerated OpenGL rendering"), ("WebGpu", "Modern WebGPU rendering backend"), ("Software", "CPU-based software rendering")])), "GPU rendering backend"),
        f("webgpu_power_preference", "GPU Power Pref", Section::Rendering, FieldKind::Enum(ev(&[("LowPower", "Prefer battery life over performance"), ("HighPerformance", "Prefer performance over battery")])), "WebGPU power vs performance"),
        f("max_fps", "Max FPS", Section::Rendering, FieldKind::Integer, "Maximum rendering frame rate"),
        f("prefer_egl", "Prefer EGL", Section::Rendering, FieldKind::Bool, "Prefer EGL over other GL"),
        f("webgpu_force_fallback_adapter", "Force GPU Fallback", Section::Rendering, FieldKind::Bool, "Force WebGPU software fallback"),
        f("adjust_window_size_when_changing_font_size", "Resize on Font Change", Section::Rendering, FieldKind::Bool, "Resize window when font changes"),
        f("use_resize_increments", "Resize Increments", Section::Rendering, FieldKind::Bool, "Snap window to cell boundaries"),
        f("experimental_pixel_positioning", "Pixel Positioning", Section::Rendering, FieldKind::Bool, "Experimental sub-cell positioning"),
    ];
    assert(v@.len() == field_defs_table().len());
    assert(defs_view(v@) =~= field_defs_table());
    v
}

/// The view of an `SshDomainConfig`.
pub struct SshDomainView {
    pub name: Seq<char>,
    pub remote_address: Seq<char>,
    pub username: Seq<char>,
    pub multiplexing: Seq<char>,
    pub ssh_backend: Seq<char>,
    pub no_agent_auth: bool,
    pub connect_automatically: bool,
}

impl View for SshDomainConfig {
    type V = SshDomainView;

    open spec fn view(&self) -> SshDomainView {
        SshDomainView {
            name: self.name@,
            remote_address: self.remote_address@,
            username: self.username@,
            multiplexing: self.multiplexing@,
            ssh_backend: self.ssh_backend@,
            no_agent_auth: self.no_agent_auth,
            connect_automatically: self.connect_automatically,
        }
    }
}

/// The row tuple `(key, display name, kind, doc)` of a per-domain field.
pub open spec fn row_def_view(
    d: (&'static str, &'static str, FieldKind, &'static str),
) -> (Seq<char>, Seq<char>, FieldKindView, Seq<char>) {
    (d.0@, d.1@, d.2@, d.3@)
}

pub open spec fn row_defs_view(
    v: Seq<(&'static str, &'static str, FieldKind, &'static str)>,
) -> Seq<(Seq<char>, Seq<char>, FieldKindView, Seq<char>)> {
    v.map_values(|d: (&'static str, &'static str, FieldKind, &'static str)| row_def_view(d))
}

pub open spec fn rdv(key: &str, display: &str, kind: FieldKindView, doc: &str) -> (
    Seq<char>,
    Seq<char>,
    FieldKindView,
    Seq<char>,
) {
    (key@, display@, kind, doc@)
}

/// The per-domain fields, in display order.
pub open spec fn domain_field_table() -> Seq<(Seq<char>, Seq<char>, FieldKindView, Seq<char>)> {
    seq![
        rdv("remote_address", "Remote Address", FieldKindView::Text, "host:port of the remote server"),
        rdv("username", "Username", FieldKindView::Text, "SSH username"),
        rdv(
            "multiplexing",
            "Multiplexing",
            FieldKindView::Enum(
                ev_view(
                    seq![
                        ("None", "Direct SSH connection (no mux server)"),
                        ("WezTerm", "Use WezTerm mux server on remote"),
                    ],
                ),
            ),
            "SSH multiplexing mode",
        ),
        rdv(
            "ssh_backend",
            "SSH Backend",
            FieldKindView::Enum(
                ev_view(
                    seq![
                        ("LibSsh", "Use the libssh library (default)"),
                        ("Ssh2", "Use the libssh2 library"),
                    ],
                ),
            ),
            "SSH implementation to use",
        ),
        rdv("no_agent_auth", "Disable Agent Auth", FieldKindView::Bool, "Disable SSH agent authentication"),
        rdv("connect_automatically", "Auto Connect", FieldKindView::Bool, "Connect to this domain at startup"),
    ]
}

/// The per-domain fields shown when a domain group is expanded.
pub fn domain_field_defs() -> (r: Vec<(&'static str, &'static str, FieldKind, &'static str)>)
    ensures
        row_defs_view(r@) == domain_field_table(),
{
    let v = vec![
        ("remote_address", "Remote Address", FieldKind::Text, "host:port of the remote server"),
        ("username", "Username", FieldKind::Text, "SSH username"),
        (
            "multiplexing",
            "Multiplexing",
            FieldKind::Enum(
                ev(
                    &[
                        ("None", "Direct SSH connection (no mux server)"),
                        ("WezTerm", "Use WezTerm mux server on remote"),
                    ],
                ),
            ),
            "SSH multiplexing mode",
        ),
        (
            "ssh_backend",
            "SSH Backend",
            FieldKind::Enum(
                ev(
                    &[
                        ("LibSsh", "Use the libssh library (default)"),
                        ("Ssh2", "Use the libssh2 library"),
                    ],
                ),
            ),
            "SSH implementation to use",
        ),
        ("no_agent_auth", "Disable Agent Auth", FieldKind::Bool, "Disable SSH agent authentication"),
        ("connect_automatically", "Auto Connect", FieldKind::Bool, "Connect to this domain at startup"),
    ];
    assert(row_defs_view(v@) =~= domain_field_table());
    v
}

/// `"On"` or `"Off"`.
pub open spec fn on_off(b: bool) -> Seq<char> {
    if b {
        "On"@
    } else {
        "Off"@
    }
}

fn on_off_string(b: bool) -> (r: String)
    ensures
        r@ == on_off(b),
{
    if b {
        owned("On")
    } else {
        owned("Off")
    }
}

/// The text an edited boolean field is set from counts as "on".
pub open spec fn truthy(value: Seq<char>) -> bool {
    value == "On"@ || value == "true"@
}

/// The displayed value of field `field` of a domain; empty for unknown fields.
pub open spec fn spec_domain_field_value(c: SshDomainView, field: Seq<char>) -> Seq<char> {
    if field == "remote_address"@ {
        c.remote_address
    } else if field == "username"@ {
        c.username
    } else if field == "multiplexing"@ {
        c.multiplexing
    } else if field == "ssh_backend"@ {
        c.ssh_backend
    } else if field == "no_agent_auth"@ {
        on_off(c.no_agent_auth)
    } else if field == "connect_automatically"@ {
        on_off(c.connect_automatically)
    } else {
        Seq::empty()
    }
}

/// `c` with field `field` set from `value`; unknown fields change nothing.
pub open spec fn spec_set_domain_field(c: SshDomainView, field: Seq<char>, value: Seq<char>) -> SshDomainView {
    if field == "remote_address"@ {
        SshDomainView { remote_address: value, ..c }
    } else if field == "username"@ {
        SshDomainView { username: value, ..c }
    } else if field == "multiplexing"@ {
        SshDomainView { multiplexing: value, ..c }
    } else if field == "ssh_backend"@ {
        SshDomainView { ssh_backend: value, ..c }
    } else if field == "no_agent_auth"@ {
        SshDomainView { no_agent_auth: truthy(value), ..c }
    } else if field == "connect_automatically"@ {
        SshDomainView { connect_automatically: truthy(value), ..c }
    } else {
        c
    }
}

/// Reads a field value from a domain by field name.
pub fn domain_field_value(config: &SshDomainConfig, field: &str) -> (r: String)
    ensures
        r@ == spec_domain_field_value(config@, field@),
{
    if str_eq(field, "remote_address") {
        config.remote_address.clone()
    } else if str_eq(field, "username") {
        config.username.clone()
    } else if str_eq(field, "multiplexing") {
        config.multiplexing.clone()
    } else if str_eq(field, "ssh_backend") {
        config.ssh_backend.clone()
    } else if str_eq(field, "no_agent_auth") {
        on_off_string(config.no_agent_auth)
    } else if str_eq(field, "connect_automatically") {
        on_off_string(config.connect_automatically)
    } else {
        String::new()
    }
}

/// Writes a field value to a domain by field name.
pub fn set_domain_field(config: &mut SshDomainConfig, field: &str, value: &str)
    ensures
        final(config)@ == spec_set_domain_field(old(config)@, field@, value@),
{
    if str_eq(field, "remote_address") {
        config.remote_address = owned(value);
    } else if str_eq(field, "username") {
        config.username = owned(value);
    } else if str_eq(field, "multiplexing") {
        config.multiplexing = owned(value);
    } else if str_eq(field, "ssh_backend") {
        config.ssh_backend = owned(value);
    } else if str_eq(field, "no_agent_auth") {
        config.no_agent_auth = str_eq(value, "On") || str_eq(value, "true");
    } else if str_eq(field, "connect_automatically") {
        config.connect_automatically = str_eq(value, "On") || str_eq(value, "true");
    }
}

/// The keys of the per-domain text fields.
pub open spec fn is_domain_text_field(field: Seq<char>) -> bool {
    field == "remote_address"@ || field == "username"@ || field == "multiplexing"@
        || field == "ssh_backend"@
}

/// The keys of the per-domain boolean fields.
pub open spec fn is_domain_bool_field(field: Seq<char>) -> bool {
    field == "no_agent_auth"@ || field == "connect_automatically"@
}

/// Reading a domain field after writing it gives back what was written:
/// the text itself for text fields, and for boolean fields `On` exactly
/// when the written text was `On` or `true` (otherwise `Off`). Writing
/// an unknown field changes nothing.
pub proof fn lemma_domain_field_read_after_write(c: SshDomainView, field: Seq<char>, value: Seq<char>)
    ensures
        is_domain_text_field(field) ==> spec_domain_field_value(
            spec_set_domain_field(c, field, value),
            field,
        ) == value,
        is_domain_bool_field(field) ==> spec_domain_field_value(
            spec_set_domain_field(c, field, value),
            field,
        ) == on_off(truthy(value)),
        !is_domain_text_field(field) && !is_domain_bool_field(field) ==> spec_set_domain_field(
            c,
            field,
            value,
        ) == c,
{
    reveal_strlit("remote_address");
    reveal_strlit("username");
    reveal_strlit("multiplexing");
    reveal_strlit("ssh_backend");
    reveal_strlit("no_agent_auth");
    reveal_strlit("connect_automatically");
    assert("no_agent_auth"@.len() == 13);
    assert("remote_address"@.len() == 14);
    assert("username"@.len() == 8);
    assert("multiplexing"@.len() == 12);
    assert("ssh_backend"@.len() == 11);
    assert("connect_automatically"@.len() == 21);
    if field == "no_agent_auth"@ {
        assert(field != "remote_address"@ && field != "username"@ && field != "multiplexing"@
            && field != "ssh_backend"@);
    }
    if field == "connect_automatically"@ {
        assert(field != "remote_address"@ && field != "username"@ && field != "multiplexing"@
            && field != "ssh_backend"@ && field != "no_agent_auth"@);
    }
}

/// SSH multiplexing mode of a runtime SSH domain.
#[derive(Debug, Clone, Copy, PartialEq, Eq, Structural)]
pub enum SshMultiplexing {
    WezTerm,
    /// Direct SSH connection, no multiplexer server (`None` in the
    /// runtime configuration).
    Direct,
}

/// SSH implementation of a runtime SSH domain.
#[derive(Debug, Clone, Copy, PartialEq, Eq, Structural)]
pub enum SshBackend {
    Ssh2,
    LibSsh,
}

/// The fields of a runtime SSH domain that the overlay sets; every other
/// field of the runtime domain keeps its default.
#[derive(Debug)]
pub struct SshDomain {
    pub name: String,
    pub remote_address: String,
    pub username: Option<String>,
    pub multiplexing: SshMultiplexing,
    pub ssh_backend: Option<SshBackend>,
    pub no_agent_auth: bool,
    pub connect_automatically: bool,
}

/// `None` for an empty string, otherwise the string itself.
pub open spec fn non_empty(s: Seq<char>) -> Option<Seq<char>> {
    if s.len() == 0 {
        None
    } else {
        Some(s)
    }
}

pub open spec fn opt_view(s: Option<String>) -> Option<Seq<char>> {
    match s {
        Some(v) => Some(v@),
        None => None,
    }
}

fn non_empty_string(s: &String) -> (r: Option<String>)
    ensures
        opt_view(r) == non_empty(s@),
{
    if s.as_str().is_empty() {
        None
    } else {
        Some(s.clone())
    }
}

pub open spec fn spec_multiplexing(s: Seq<char>) -> SshMultiplexing {
    if s == "WezTerm"@ {
        SshMultiplexing::WezTerm
    } else {
        SshMultiplexing::Direct
    }
}

pub open spec fn spec_backend(s: Seq<char>) -> Option<SshBackend> {
    if s == "Ssh2"@ {
        Some(SshBackend::Ssh2)
    } else if s == "LibSsh"@ {
        Some(SshBackend::LibSsh)
    } else {
        None
    }
}

/// Converts an overlay domain to the runtime SSH domain registered with
/// the multiplexer: an empty user name becomes `None`, `"WezTerm"`
/// selects WezTerm multiplexing (anything else none), and `"Ssh2"` /
/// `"LibSsh"` select the backend (anything else leaves it unset).
pub fn to_config_ssh_domain(dom: &SshDomainConfig) -> (r: SshDomain)
    ensures
        r.name@ == dom.name@,
        r.remote_address@ == dom.remote_address@,
        opt_view(r.username) == non_empty(dom.username@),
        r.multiplexing == spec_multiplexing(dom.multiplexing@),
        r.ssh_backend == spec_backend(dom.ssh_backend@),
        r.no_agent_auth == dom.no_agent_auth,
        r.connect_automatically == dom.connect_automatically,
{
    let multiplexing = if str_eq(dom.multiplexing.as_str(), "WezTerm") {
        SshMultiplexing::WezTerm
    } else {
        SshMultiplexing::Direct
    };
    let ssh_backend = if str_eq(dom.ssh_backend.as_str(), "Ssh2") {
        Some(SshBackend::Ssh2)
    } else if str_eq(dom.ssh_backend.as_str(), "LibSsh") {
        Some(SshBackend::LibSsh)
    } else {
        None
    };
    SshDomain {
        name: dom.name.clone(),
        remote_address: dom.remote_address.clone(),
        username: non_empty_string(&dom.username),
        multiplexing,
        ssh_backend,
        no_agent_auth: dom.no_agent_auth,
        connect_automatically: dom.connect_automatically,
    }
}

/// A monitor override entry for the config overlay.
#[derive(Debug, PartialEq, Eq)]
pub struct MonitorOverrideEntry {
    /// The monitor name.
    pub monitor_name: String,
    /// The assigned color scheme, or `None` for the default.
    pub color_scheme: Option<String>,
    /// Whether the current window is on this monitor.
    pub is_current: bool,
    /// Whether this entry is expanded in the overlay.
    pub expanded: bool,
    /// Screen position and size in pixels, when connected.
    pub screen_rect: Option<MonitorRect>,
}

/// Screen rectangle of a monitor, for the layout diagram.
#[derive(Debug, Clone, Copy, PartialEq, Eq, Structural)]
pub struct MonitorRect {
    pub x: isize,
    pub y: isize,
    pub width: isize,
    pub height: isize,
}

/// A per-monitor configuration override.
#[derive(Debug, PartialEq, Eq)]
pub struct MonitorOverride {
    pub monitor: String,
    pub color_scheme: Option<String>,
}

fn clone_opt_string(s: &Option<String>) -> (r: Option<String>)
    ensures
        r == *s,
{
    match s {
        Some(v) => Some(v.clone()),
        None => None,
    }
}

/// The overrides of the entries that have a color scheme set, in order.
pub open spec fn spec_monitor_overrides(entries: Seq<MonitorOverrideEntry>) -> Seq<(Seq<char>, Option<Seq<char>>)>
    decreases entries.len(),
{
    if entries.len() == 0 {
        Seq::empty()
    } else {
        let rest = spec_monitor_overrides(entries.drop_last());
        let e = entries.last();
        if e.color_scheme is Some {
            rest.push((e.monitor_name@, opt_view(e.color_scheme)))
        } else {
            rest
        }
    }
}

pub open spec fn overrides_view(v: Seq<MonitorOverride>) -> Seq<(Seq<char>, Option<Seq<char>>)> {
    v.map_values(|o: MonitorOverride| (o.monitor@, opt_view(o.color_scheme)))
}

/// Converts overlay entries to config overrides, keeping only the entries
/// that set a color scheme.
pub fn to_config_monitor_overrides(entries: &[MonitorOverrideEntry]) -> (r: Vec<MonitorOverride>)
    ensures
        overrides_view(r@) == spec_monitor_overrides(entries@),
{
    let mut out: Vec<MonitorOverride> = Vec::new();
    let mut i: usize = 0;
    while i < entries.len()
        invariant
            i <= entries@.len(),
            overrides_view(out@) == spec_monitor_overrides(entries@.take(i as int)),
        decreases entries@.len() - i,
    {
        let e = &entries[i];
        assert(entries@.take(i + 1).drop_last() =~= entries@.take(i as int));
        let ghost before = out@;
        if e.color_scheme.is_some() {
            out.push(
                MonitorOverride {
                    monitor: e.monitor_name.clone(),
                    color_scheme: clone_opt_string(&e.color_scheme),
                },
            );
            assert(overrides_view(out@) =~= overrides_view(before).push(
                (e.monitor_name@, opt_view(e.color_scheme)),
            ));
        }
        i += 1;
    }
    assert(entries@.take(entries@.len() as int) =~= entries@);
    out
}

impl Clone for MonitorOverrideEntry {
    fn clone(&self) -> (r: Self)
        ensures
            r == *self,
    {
        MonitorOverrideEntry {
            monitor_name: self.monitor_name.clone(),
            color_scheme: clone_opt_string(&self.color_scheme),
            is_current: self.is_current,
            expanded: self.expanded,
            screen_rect: self.screen_rect,
        }
    }
}

/// The color scheme of the first override for monitor `name`; `None` when
/// no override names it or the first one sets no scheme.
pub open spec fn override_scheme(overrides: Seq<MonitorOverride>, name: Seq<char>) -> Option<Seq<char>>
    decreases overrides.len(),
{
    if overrides.len() == 0 {
        None
    } else if overrides[0].monitor@ == name {
        opt_view(overrides[0].color_scheme)
    } else {
        override_scheme(overrides.skip(1), name)
    }
}

pub open spec fn opt_str_view(s: Option<&str>) -> Option<Seq<char>> {
    match s {
        Some(v) => Some(v@),
        None => None,
    }
}

/// The entry of a connected monitor.
pub open spec fn screen_entry(
    name: Seq<char>,
    rect: MonitorRect,
    overrides: Seq<MonitorOverride>,
    current: Option<Seq<char>>,
) -> MonitorEntryView {
    (name, override_scheme(overrides, name), current == Some(name), false, Some(rect))
}

/// An entry as plain values: name, scheme, current, expanded, rectangle.
pub type MonitorEntryView = (Seq<char>, Option<Seq<char>>, bool, bool, Option<MonitorRect>);

pub open spec fn entry_view(e: MonitorOverrideEntry) -> MonitorEntryView {
    (e.monitor_name@, opt_view(e.color_scheme), e.is_current, e.expanded, e.screen_rect)
}

pub open spec fn entries_view(v: Seq<MonitorOverrideEntry>) -> Seq<MonitorEntryView> {
    v.map_values(|e: MonitorOverrideEntry| entry_view(e))
}

/// The entries of the connected monitors, in the order given.
pub open spec fn screen_entries(
    screens: Seq<(String, MonitorRect)>,
    overrides: Seq<MonitorOverride>,
    current: Option<Seq<char>>,
) -> Seq<MonitorEntryView> {
    Seq::new(screens.len(), |i: int| screen_entry(screens[i].0@, screens[i].1, overrides, current))
}

pub open spec fn has_entry_named(list: Seq<MonitorEntryView>, name: Seq<char>) -> bool {
    exists|k: int| 0 <= k < list.len() && (#[trigger] list[k]).0 == name
}

/// `list` followed by an entry for each override, in order, whose monitor
/// has no entry yet.
pub open spec fn with_missing(list: Seq<MonitorEntryView>, overrides: Seq<MonitorOverride>) -> Seq<MonitorEntryView>
    decreases overrides.len(),
{
    if overrides.len() == 0 {
        list
    } else {
        let prev = with_missing(list, overrides.drop_last());
        let o = overrides.last();
        if has_entry_named(prev, o.monitor@) {
            prev
        } else {
            prev.push((o.monitor@, opt_view(o.color_scheme), false, false, None))
        }
    }
}

/// The monitor names of a list of entries.
pub open spec fn entry_names(list: Seq<MonitorEntryView>) -> Seq<Seq<char>> {
    list.map_values(|e: MonitorEntryView| e.0)
}

/// The entries of the connected monitors, then those of the configured
/// monitors that are not connected, stably sorted by monitor name.
pub open spec fn monitor_entries(
    screens: Seq<(String, MonitorRect)>,
    overrides: Seq<MonitorOverride>,
    current: Option<Seq<char>>,
) -> Seq<MonitorEntryView> {
    let merged = with_missing(screen_entries(screens, overrides, current), overrides);
    let order = text_order_of(entry_names(merged));
    Seq::new(merged.len(), |p: int| merged[order[p] as int])
}

fn find_override_scheme(overrides: &Vec<MonitorOverride>, name: &str) -> (r: Option<String>)
    ensures
        opt_view(r) == override_scheme(overrides@, name@),
{
    let mut j: usize = 0;
    assert(overrides@.skip(0) =~= overrides@);
    while j < overrides.len()
        invariant
            j <= overrides@.len(),
            override_scheme(overrides@, name@) == override_scheme(overrides@.skip(j as int), name@),
        decreases overrides@.len() - j,
    {
        let ghost rest = overrides@.skip(j as int);
        assert(rest[0] == overrides@[j as int]);
        if str_eq(overrides[j].monitor.as_str(), name) {
            return clone_opt_string(&overrides[j].color_scheme);
        }
        assert(rest.skip(1) =~= overrides@.skip(j + 1));
        j += 1;
    }
    None
}

fn entry_named(entries: &Vec<MonitorOverrideEntry>, name: &str) -> (r: bool)
    ensures
        r == has_entry_named(entries_view(entries@), name@),
{
    let mut k: usize = 0;
    while k < entries.len()
        invariant
            k <= entries@.len(),
            forall|q: int| 0 <= q < k ==> (#[trigger] entries@[q]).monitor_name@ != name@,
        decreases entries@.len() - k,
    {
        if str_eq(entries[k].monitor_name.as_str(), name) {
            assert(entries_view(entries@)[k as int].0 == name@);
            return true;
        }
        k += 1;
    }
    assert forall|q: int| 0 <= q < entries_view(entries@).len() implies (#[trigger] entries_view(entries@)[q]).0 != name@ by {
        assert(entries_view(entries@)[q] == entry_view(entries@[q]));
    }
    false
}

/// The monitor entries for the overlay: one per connected monitor, with
/// the color scheme of the first override that names it and whether the
/// current window is on it, then one per configured monitor that is not
/// connected, sorted by monitor name.
pub fn monitors_from_config_with_screens(
    screens: &Vec<(String, MonitorRect)>,
    overrides: &Vec<MonitorOverride>,
    current_screen: Option<&str>,
) -> (r: Vec<MonitorOverrideEntry>)
    ensures
        entries_view(r@) == monitor_entries(screens@, overrides@, opt_str_view(current_screen)),
{
    let ghost cur = opt_str_view(current_screen);
    let ghost first = screen_entries(screens@, overrides@, cur);
    let mut entries: Vec<MonitorOverrideEntry> = Vec::new();
    let mut i: usize = 0;
    while i < screens.len()
        invariant
            i <= screens@.len(),
            cur == opt_str_view(current_screen),
            first == screen_entries(screens@, overrides@, cur),
            entries@.len() == i,
            entries_view(entries@) == first.take(i as int),
        decreases screens@.len() - i,
    {
        let name = &screens[i].0;
        let is_current = match current_screen {
            Some(c) => str_eq(c, name.as_str()),
            None => false,
        };
        let ghost before = entries@;
        entries.push(
            MonitorOverrideEntry {
                monitor_name: name.clone(),
                color_scheme: find_override_scheme(overrides, name.as_str()),
                is_current,
                expanded: false,
                screen_rect: Some(screens[i].1),
            },
        );
        assert(entry_view(entries@[i as int]) == first[i as int]);
        assert(entries_view(entries@) =~= first.take(i + 1)) by {
            assert(entries@ =~= before.push(entries@[i as int]));
            assert forall|q: int| 0 <= q < i implies entries_view(entries@)[q] == first[q] by {
                assert(entries_view(before)[q] == first.take(i as int)[q]);
            }
        }
        i += 1;
    }
    assert(first.take(screens@.len() as int) =~= first);
    let mut j: usize = 0;
    while j < overrides.len()
        invariant
            j <= overrides@.len(),
            entries_view(entries@) == with_missing(first, overrides@.take(j as int)),
        decreases overrides@.len() - j,
    {
        let mo = &overrides[j];
        assert(overrides@.take(j + 1).drop_last() =~= overrides@.take(j as int));
        if !entry_named(&entries, mo.monitor.as_str()) {
            let ghost before = entries@;
            entries.push(
                MonitorOverrideEntry {
                    monitor_name: mo.monitor.clone(),
                    color_scheme: clone_opt_string(&mo.color_scheme),
                    is_current: false,
                    expanded: false,
                    screen_rect: None,
                },
            );
            assert(entries_view(entries@) =~= entries_view(before).push(
                (mo.monitor@, opt_view(mo.color_scheme), false, false, None),
            ));
        }
        j += 1;
    }
    assert(overrides@.take(overrides@.len() as int) =~= overrides@);
    let ghost merged = entries_view(entries@);
    let mut names: Vec<String> = Vec::new();
    let mut k: usize = 0;
    while k < entries.len()
        invariant
            k <= entries@.len(),
            merged == entries_view(entries@),
            names@.len() == k,
            forall|q: int| 0 <= q < k ==> (#[trigger] names@[q])@ == merged[q].0,
        decreases entries@.len() - k,
    {
        names.push(entries[k].monitor_name.clone());
        k += 1;
    }
    assert(texts(names@) =~= entry_names(merged));
    let order = text_order(&names);
    let mut r: Vec<MonitorOverrideEntry> = Vec::new();
    let mut p: usize = 0;
    while p < order.len()
        invariant
            p <= order@.len(),
            order@.len() == entries@.len(),
            merged == entries_view(entries@),
            order@ == text_order_of(entry_names(merged)),
            forall|q: int| 0 <= q < order@.len() ==> (#[trigger] order@[q]) < entries@.len(),
            r@.len() == p,
            forall|q: int| 0 <= q < p ==> entry_view(#[trigger] r@[q]) == merged[order@[q] as int],
        decreases order@.len() - p,
    {
        let e = entries[order[p]].clone();
        r.push(e);
        p += 1;
    }
    assert(entries_view(r@) =~= monitor_entries(screens@, overrides@, opt_str_view(current_screen)));
    r
}

/// `names` followed by each of `extra`, in order, that is not already in
/// the list.
pub open spec fn with_missing_names(names: Seq<Seq<char>>, extra: Seq<Seq<char>>) -> Seq<Seq<char>>
    decreases extra.len(),
{
    if extra.len() == 0 {
        names
    } else {
        let prev = with_missing_names(names, extra.drop_last());
        if prev.contains(extra.last()) {
            prev
        } else {
            prev.push(extra.last())
        }
    }
}

/// The color scheme names: the built-in ones, then each user-defined one
/// not among them, stably sorted by their lower-case form.
pub open spec fn color_scheme_names(builtin: Seq<Seq<char>>, user: Seq<Seq<char>>) -> Seq<Seq<char>> {
    let merged = with_missing_names(builtin, user);
    let order = text_order_of(merged.map_values(|n: Seq<char>| lowercase(n)));
    Seq::new(merged.len(), |p: int| merged[order[p] as int])
}

fn contains_name(names: &Vec<String>, name: &str) -> (r: bool)
    ensures
        r == texts(names@).contains(name@),
{
    let mut k: usize = 0;
    while k < names.len()
        invariant
            k <= names@.len(),
            forall|q: int| 0 <= q < k ==> (#[trigger] names@[q])@ != name@,
        decreases names@.len() - k,
    {
        if str_eq(names[k].as_str(), name) {
            assert(texts(names@)[k as int] == name@);
            return true;
        }
        k += 1;
    }
    assert forall|q: int| 0 <= q < texts(names@).len() implies (#[trigger] texts(names@)[q]) != name@ by {
        assert(texts(names@)[q] == names@[q]@);
    }
    false
}

/// The color scheme names for the picker: the built-in schemes, then the
/// user-defined schemes whose names are not taken yet, sorted by name
/// without regard to case.
pub fn get_color_schemes(builtin: &Vec<String>, user: &Vec<String>) -> (r: Vec<String>)
    ensures
        texts(r@) == color_scheme_names(texts(builtin@), texts(user@)),
{
    let mut merged: Vec<String> = Vec::new();
    let mut i: usize = 0;
    while i < builtin.len()
        invariant
            i <= builtin@.len(),
            merged@.len() == i,
            texts(merged@) == texts(builtin@).take(i as int),
        decreases builtin@.len() - i,
    {
        let ghost before = merged@;
        merged.push(builtin[i].clone());
        assert(texts(merged@) =~= texts(builtin@).take(i + 1)) by {
            assert forall|q: int| 0 <= q < i implies texts(merged@)[q] == texts(builtin@)[q] by {
                assert(texts(before)[q] == texts(builtin@).take(i as int)[q]);
            }
        }
        i += 1;
    }
    assert(texts(builtin@).take(builtin@.len() as int) =~= texts(builtin@));
    let mut j: usize = 0;
    while j < user.len()
        invariant
            j <= user@.len(),
            texts(merged@) == with_missing_names(texts(builtin@), texts(user@).take(j as int)),
        decreases user@.len() - j,
    {
        assert(texts(user@).take(j + 1).drop_last() =~= texts(user@).take(j as int));
        if !contains_name(&merged, user[j].as_str()) {
            let ghost before = merged@;
            merged.push(user[j].clone());
            assert(texts(merged@) =~= texts(before).push(user@[j as int]@));
        }
        j += 1;
    }
    assert(texts(user@).take(user@.len() as int) =~= texts(user@));
    let ghost m = texts(merged@);
    let mut keys: Vec<String> = Vec::new();
    let mut k: usize = 0;
    while k < merged.len()
        invariant
            k <= merged@.len(),
            m == texts(merged@),
            keys@.len() == k,
            forall|q: int| 0 <= q < k ==> (#[trigger] keys@[q])@ == lowercase(m[q]),
        decreases merged@.len() - k,
    {
        keys.push(to_lowercase(merged[k].as_str()));
        k += 1;
    }
    assert(texts(keys@) =~= m.map_values(|n: Seq<char>| lowercase(n)));
    let order = text_order(&keys);
    let mut r: Vec<String> = Vec::new();
    let mut p: usize = 0;
    while p < order.len()
        invariant
            p <= order@.len(),
            order@.len() == merged@.len(),
            m == texts(merged@),
            order@ == text_order_of(m.map_values(|n: Seq<char>| lowercase(n))),
            forall|q: int| 0 <= q < order@.len() ==> (#[trigger] order@[q]) < merged@.len(),
            r@.len() == p,
            forall|q: int| 0 <= q < p ==> (#[trigger] r@[q])@ == m[order@[q] as int],
        decreases order@.len() - p,
    {
        r.push(merged[order[p]].clone());
        p += 1;
    }
    assert(texts(r@) =~= color_scheme_names(texts(builtin@), texts(user@)));
    r
}

/// A DevContainer domain as edited in the overlay. Its SSH settings use the
/// same record, field definitions and accessors as SSH domains.
#[derive(Debug, PartialEq, Eq)]
pub struct DevContainerOverlayConfig {
    pub name: String,
    /// SSH settings; when the remote address is empty the domain uses the
    /// local Docker.
    pub ssh: SshDomainConfig,
    pub default_workspace_folder: String,
    pub default_container: String,
    pub docker_command: String,
    pub devcontainer_command: String,
    pub default_shell: String,
    pub override_user: String,
    pub poll_interval_secs: String,
    pub auto_discover: bool,
}

/// The view of a `DevContainerOverlayConfig`.
pub struct DevContainerView {
    pub name: Seq<char>,
    pub ssh: SshDomainView,
    pub default_workspace_folder: Seq<char>,
    pub default_container: Seq<char>,
    pub docker_command: Seq<char>,
    pub devcontainer_command: Seq<char>,
    pub default_shell: Seq<char>,
    pub override_user: Seq<char>,
    pub poll_interval_secs: Seq<char>,
    pub auto_discover: bool,
}

impl View for DevContainerOverlayConfig {
    type V = DevContainerView;

    open spec fn view(&self) -> DevContainerView {
        DevContainerView {
            name: self.name@,
            ssh: self.ssh@,
            default_workspace_folder: self.default_workspace_folder@,
            default_container: self.default_container@,
            docker_command: self.docker_command@,
            devcontainer_command: self.devcontainer_command@,
            default_shell: self.default_shell@,
            override_user: self.override_user@,
            poll_interval_secs: self.poll_interval_secs@,
            auto_discover: self.auto_discover,
        }
    }
}

impl Clone for DevContainerOverlayConfig {
    fn clone(&self) -> (r: Self)
        ensures
            r == *self,
    {
        DevContainerOverlayConfig {
            name: self.name.clone(),
            ssh: self.ssh.clone(),
            default_workspace_folder: self.default_workspace_folder.clone(),
            default_container: self.default_container.clone(),
            docker_command: self.docker_command.clone(),
            devcontainer_command: self.devcontainer_command.clone(),
            default_shell: self.default_shell.clone(),
            override_user: self.override_user.clone(),
            poll_interval_secs: self.poll_interval_secs.clone(),
            auto_discover: self.auto_discover,
        }
    }
}

impl Default for DevContainerOverlayConfig {
    /// Empty names and paths, the default SSH settings, `docker` and
    /// `devcontainer` as commands, a 10 second poll interval and
    /// auto-discovery on.
    fn default() -> (r: Self)
        ensures
            r.name@ == Seq::<char>::empty(),
            r.ssh.name@ == Seq::<char>::empty(),
            r.ssh.remote_address@ == Seq::<char>::empty(),
            r.ssh.username@ == Seq::<char>::empty(),
            r.ssh.multiplexing@ == "None"@,
            r.ssh.ssh_backend@ == "LibSsh"@,
            !r.ssh.no_agent_auth,
            !r.ssh.connect_automatically,
            r.default_workspace_folder@ == Seq::<char>::empty(),
            r.default_container@ == Seq::<char>::empty(),
            r.docker_command@ == "docker"@,
            r.devcontainer_command@ == "devcontainer"@,
            r.default_shell@ == Seq::<char>::empty(),
            r.override_user@ == Seq::<char>::empty(),
            r.poll_interval_secs@ == "10"@,
            r.auto_discover,
    {
        DevContainerOverlayConfig {
            name: String::new(),
            ssh: SshDomainConfig::default(),
            default_workspace_folder: String::new(),
            default_container: String::new(),
            docker_command: owned("docker"),
            devcontainer_command: owned("devcontainer"),
            default_shell: String::new(),
            override_user: String::new(),
            poll_interval_secs: owned("10"),
            auto_discover: true,
        }
    }
}

/// A DevContainer domain entry with its source.
#[derive(Debug)]
pub struct DevContainerEntry {
    pub config: DevContainerOverlayConfig,
    pub source: DomainSource,
    pub expanded: bool,
}

/// The DevContainer-specific fields, in display order.
pub open spec fn devcontainer_own_field_table() -> Seq<(Seq<char>, Seq<char>, FieldKindView, Seq<char>)> {
    seq![
        rdv("default_workspace_folder", "DevContainer Workspace", FieldKindView::Text, "Workspace folder on host to auto-match"),
        rdv("default_container", "DevContainer Default", FieldKindView::Text, "Container name/ID to auto-connect to"),
        rdv("docker_command", "DevContainer Docker Cmd", FieldKindView::Text, "Path to the Docker CLI"),
        rdv("devcontainer_command", "DevContainer CLI", FieldKindView::Text, "Path to the devcontainer CLI"),
        rdv("default_shell", "DevContainer Shell", FieldKindView::Text, "Shell inside containers (empty = auto-detect)"),
        rdv("override_user", "DevContainer User", FieldKindView::Text, "Override container default user (empty = use container default)"),
        rdv("poll_interval_secs", "DevContainer Poll (s)", FieldKindView::Integer, "Seconds between container discovery polls"),
        rdv("auto_discover", "DevContainer Auto Discover", FieldKindView::Bool, "Discover running devcontainers on domain attach"),
    ]
}

/// Field definitions of the DevContainer-specific settings (the SSH
/// sub-fields come from `domain_field_defs`).
pub fn devcontainer_own_field_defs() -> (r: Vec<(&'static str, &'static str, FieldKind, &'static str)>)
    ensures
        row_defs_view(r@) == devcontainer_own_field_table(),
{
    let v = vec![
        ("default_workspace_folder", "DevContainer Workspace", FieldKind::Text, "Workspace folder on host to auto-match"),
        ("default_container", "DevContainer Default", FieldKind::Text, "Container name/ID to auto-connect to"),
        ("docker_command", "DevContainer Docker Cmd", FieldKind::Text, "Path to the Docker CLI"),
        ("devcontainer_command", "DevContainer CLI", FieldKind::Text, "Path to the devcontainer CLI"),
        ("default_shell", "DevContainer Shell", FieldKind::Text, "Shell inside containers (empty = auto-detect)"),
        ("override_user", "DevContainer User", FieldKind::Text, "Override container default user (empty = use container default)"),
        ("poll_interval_secs", "DevContainer Poll (s)", FieldKind::Integer, "Seconds between container discovery polls"),
        ("auto_discover", "DevContainer Auto Discover", FieldKind::Bool, "Discover running devcontainers on domain attach"),
    ];
    assert(row_defs_view(v@) =~= devcontainer_own_field_table());
    v
}

/// All field definitions of a DevContainer domain: its own fields, then the
/// SSH domain fields.
pub fn devcontainer_all_field_defs() -> (r: Vec<(&'static str, &'static str, FieldKind, &'static str)>)
    ensures
        row_defs_view(r@) == devcontainer_own_field_table() + domain_field_table(),
{
    let mut fields = devcontainer_own_field_defs();
    let mut ssh = domain_field_defs();
    let ghost a = fields@;
    let ghost b = ssh@;
    fields.append(&mut ssh);
    assert(fields@ =~= a + b);
    assert(row_defs_view(fields@) =~= row_defs_view(a) + row_defs_view(b));
    fields
}

/// The displayed value of a DevContainer field; SSH fields are read from
/// the embedded SSH settings.
pub open spec fn spec_devcontainer_field_value(c: DevContainerView, field: Seq<char>) -> Seq<char> {
    if field == "default_workspace_folder"@ {
        c.default_workspace_folder
    } else if field == "default_container"@ {
        c.default_container
    } else if field == "docker_command"@ {
        c.docker_command
    } else if field == "devcontainer_command"@ {
        c.devcontainer_command
    } else if field == "default_shell"@ {
        c.default_shell
    } else if field == "override_user"@ {
        c.override_user
    } else if field == "poll_interval_secs"@ {
        c.poll_interval_secs
    } else if field == "auto_discover"@ {
        on_off(c.auto_discover)
    } else {
        spec_domain_field_value(c.ssh, field)
    }
}

/// `c` with field `field` set from `value`; SSH fields are written to the
/// embedded SSH settings.
pub open spec fn spec_set_devcontainer_field(c: DevContainerView, field: Seq<char>, value: Seq<char>) -> DevContainerView {
    if field == "default_workspace_folder"@ {
        DevContainerView { default_workspace_folder: value, ..c }
    } else if field == "default_container"@ {
        DevContainerView { default_container: value, ..c }
    } else if field == "docker_command"@ {
        DevContainerView { docker_command: value, ..c }
    } else if field == "devcontainer_command"@ {
        DevContainerView { devcontainer_command: value, ..c }
    } else if field == "default_shell"@ {
        DevContainerView { default_shell: value, ..c }
    } else if field == "override_user"@ {
        DevContainerView { override_user: value, ..c }
    } else if field == "poll_interval_secs"@ {
        DevContainerView { poll_interval_secs: value, ..c }
    } else if field == "auto_discover"@ {
        DevContainerView { auto_discover: truthy(value), ..c }
    } else {
        DevContainerView { ssh: spec_set_domain_field(c.ssh, field, value), ..c }
    }
}

/// Reads a DevContainer field value by name.
pub fn devcontainer_field_value(config: &DevContainerOverlayConfig, field: &str) -> (r: String)
    ensures
        r@ == spec_devcontainer_field_value(config@, field@),
{
    if str_eq(field, "default_workspace_folder") {
        config.default_workspace_folder.clone()
    } else if str_eq(field, "default_container") {
        config.default_container.clone()
    } else if str_eq(field, "docker_command") {
        config.docker_command.clone()
    } else if str_eq(field, "devcontainer_command") {
        config.devcontainer_command.clone()
    } else if str_eq(field, "default_shell") {
        config.default_shell.clone()
    } else if str_eq(field, "override_user") {
        config.override_user.clone()
    } else if str_eq(field, "poll_interval_secs") {
        config.poll_interval_secs.clone()
    } else if str_eq(field, "auto_discover") {
        on_off_string(config.auto_discover)
    } else {
        domain_field_value(&config.ssh, field)
    }
}

/// Writes a DevContainer field value by name.
pub fn set_devcontainer_field(config: &mut DevContainerOverlayConfig, field: &str, value: &str)
    ensures
        final(config)@ == spec_set_devcontainer_field(old(config)@, field@, value@),
{
    if str_eq(field, "default_workspace_folder") {
        config.default_workspace_folder = owned(value);
    } else if str_eq(field, "default_container") {
        config.default_container = owned(value);
    } else if str_eq(field, "docker_command") {
        config.docker_command = owned(value);
    } else if str_eq(field, "devcontainer_command") {
        config.devcontainer_command = owned(value);
    } else if str_eq(field, "default_shell") {
        config.default_shell = owned(value);
    } else if str_eq(field, "override_user") {
        config.override_user = owned(value);
    } else if str_eq(field, "poll_interval_secs") {
        config.poll_interval_secs = owned(value);
    } else if str_eq(field, "auto_discover") {
        config.auto_discover = str_eq(value, "On") || str_eq(value, "true");
    } else {
        set_domain_field(&mut config.ssh, field, value);
    }
}

/// The runtime configuration of a DevContainer domain.
#[derive(Debug)]
pub struct DevContainerDomainConfig {
    pub name: String,
    pub ssh: Option<SshDomain>,
    pub default_workspace_folder: Option<String>,
    pub default_container: Option<String>,
    pub docker_command: String,
    pub devcontainer_command: String,
    pub default_shell: Option<String>,
    pub override_user: Option<String>,
    pub poll_interval_secs: u64,
    pub auto_discover: bool,
}

/// The poll interval an edited text gives: its value when it parses as a
/// `u64`, otherwise 10 seconds.
pub open spec fn spec_poll_interval(s: Seq<char>) -> int {
    match crate::text::parse_unsigned(s, u64::MAX as int) {
        Some(v) => v,
        None => 10,
    }
}

/// Converts an overlay DevContainer domain to its runtime configuration.
/// The SSH settings are used only when a remote address is set (and then
/// carry the DevContainer domain's name); empty optional texts become
/// `None`; an unparsable poll interval becomes 10 seconds.
pub fn to_config_devcontainer_domain(dc: &DevContainerOverlayConfig) -> (r: DevContainerDomainConfig)
    ensures
        r.name@ == dc.name@,
        dc.ssh.remote_address@.len() == 0 <==> r.ssh is None,
        r.ssh matches Some(s) ==> {
            &&& s.name@ == dc.name@
            &&& s.remote_address@ == dc.ssh.remote_address@
            &&& opt_view(s.username) == non_empty(dc.ssh.username@)
            &&& s.multiplexing == spec_multiplexing(dc.ssh.multiplexing@)
            &&& s.ssh_backend == spec_backend(dc.ssh.ssh_backend@)
            &&& s.no_agent_auth == dc.ssh.no_agent_auth
            &&& s.connect_automatically == dc.ssh.connect_automatically
        },
        opt_view(r.default_workspace_folder) == non_empty(dc.default_workspace_folder@),
        opt_view(r.default_container) == non_empty(dc.default_container@),
        r.docker_command@ == dc.docker_command@,
        r.devcontainer_command@ == dc.devcontainer_command@,
        opt_view(r.default_shell) == non_empty(dc.default_shell@),
        opt_view(r.override_user) == non_empty(dc.override_user@),
        r.poll_interval_secs == spec_poll_interval(dc.poll_interval_secs@),
        r.auto_discover == dc.auto_discover,
{
    let ssh = if dc.ssh.remote_address.as_str().is_empty() {
        None
    } else {
        let mut ssh_dom = to_config_ssh_domain(&dc.ssh);
        ssh_dom.name = dc.name.clone();
        Some(ssh_dom)
    };
    let poll_chars = crate::text::chars_of(dc.poll_interval_secs.as_str());
    let poll = match crate::text::parse_unsigned_exec(&poll_chars, 0, poll_chars.len(), u64::MAX) {
        Some(v) => v,
        None => 10,
    };
    assert(poll_chars@.subrange(0, poll_chars@.len() as int) =~= dc.poll_interval_secs@);
    DevContainerDomainConfig {
        name: dc.name.clone(),
        ssh,
        default_workspace_folder: non_empty_string(&dc.default_workspace_folder),
        default_container: non_empty_string(&dc.default_container),
        docker_command: dc.docker_command.clone(),
        devcontainer_command: dc.devcontainer_command.clone(),
        default_shell: non_empty_string(&dc.default_shell),
        override_user: non_empty_string(&dc.override_user),
        poll_interval_secs: poll,
        auto_discover: dc.auto_discover,
    }
}


/// The name the overlay shows for a multiplexing mode.
pub open spec fn multiplexing_text(m: SshMultiplexing) -> Seq<char> {
    match m {
        SshMultiplexing::WezTerm => "WezTerm"@,
        SshMultiplexing::Direct => "None"@,
    }
}

/// The name the overlay shows for a backend; an unset backend shows as
/// the default, libssh.
pub open spec fn backend_text(b: Option<SshBackend>) -> Seq<char> {
    match b {
        Some(SshBackend::Ssh2) => "Ssh2"@,
        _ => "LibSsh"@,
    }
}

/// The text of an optional string, empty when unset.
pub open spec fn text_or_empty(s: Option<Seq<char>>) -> Seq<char> {
    match s {
        Some(v) => v,
        None => Seq::empty(),
    }
}

/// The overlay form of a runtime SSH domain: the same names, address and
/// flags, the user name or an empty one, and the names of the
/// multiplexing mode and backend.
pub open spec fn overlay_domain_of(d: SshDomain) -> SshDomainView {
    SshDomainView {
        name: d.name@,
        remote_address: d.remote_address@,
        username: text_or_empty(opt_view(d.username)),
        multiplexing: multiplexing_text(d.multiplexing),
        ssh_backend: backend_text(d.ssh_backend),
        no_agent_auth: d.no_agent_auth,
        connect_automatically: d.connect_automatically,
    }
}

fn string_or_empty(s: &Option<String>) -> (r: String)
    ensures
        r@ == text_or_empty(opt_view(*s)),
{
    match s {
        Some(v) => v.clone(),
        None => String::new(),
    }
}

/// The overlay form of one runtime SSH domain.
fn overlay_domain_from_runtime(d: &SshDomain) -> (r: SshDomainConfig)
    ensures
        r@ == overlay_domain_of(*d),
{
    proof {
        reveal_strlit("WezTerm");
        reveal_strlit("None");
        reveal_strlit("Ssh2");
        reveal_strlit("LibSsh");
    }
    let multiplexing = match d.multiplexing {
        SshMultiplexing::WezTerm => owned("WezTerm"),
        SshMultiplexing::Direct => owned("None"),
    };
    let ssh_backend = match d.ssh_backend {
        Some(SshBackend::Ssh2) => owned("Ssh2"),
        Some(SshBackend::LibSsh) => owned("LibSsh"),
        None => owned("LibSsh"),
    };
    SshDomainConfig {
        name: d.name.clone(),
        remote_address: d.remote_address.clone(),
        username: string_or_empty(&d.username),
        multiplexing,
        ssh_backend,
        no_agent_auth: d.no_agent_auth,
        connect_automatically: d.connect_automatically,
    }
}

/// The domain entries of the SSH domains that the configuration file
/// defines, in order: each in its overlay form, read-only and collapsed.
pub fn domains_from_config(ssh_domains: &Vec<SshDomain>) -> (r: Vec<DomainEntry>)
    ensures
        r.len() == ssh_domains.len(),
        forall|i: int|
            0 <= i < r.len() ==> {
                &&& (#[trigger] r[i]).config@ == overlay_domain_of(ssh_domains[i])
                &&& r[i].source == DomainSource::Lua
                &&& !r[i].expanded
            },
{
    let mut out: Vec<DomainEntry> = Vec::new();
    for k in 0..ssh_domains.len()
        invariant
            out.len() == k,
            forall|i: int|
                0 <= i < k ==> {
                    &&& (#[trigger] out[i]).config@ == overlay_domain_of(ssh_domains[i])
                    &&& out[i].source == DomainSource::Lua
                    &&& !out[i].expanded
                },
    {
        let config = overlay_domain_from_runtime(&ssh_domains[k]);
        out.push(DomainEntry { config, source: DomainSource::Lua, expanded: false });
    }
    out
}

/// The overlay form of a runtime DevContainer domain: its SSH settings in
/// overlay form (the default ones when it has none), unset optional
/// texts as empty ones, and the poll interval in decimal.
pub open spec fn overlay_devcontainer_of(dc: DevContainerDomainConfig) -> DevContainerView {
    DevContainerView {
        name: dc.name@,
        ssh: match dc.ssh {
            Some(s) => overlay_domain_of(s),
            None => SshDomainView {
                name: Seq::empty(),
                remote_address: Seq::empty(),
                username: Seq::empty(),
                multiplexing: "None"@,
                ssh_backend: "LibSsh"@,
                no_agent_auth: false,
                connect_automatically: false,
            },
        },
        default_workspace_folder: text_or_empty(opt_view(dc.default_workspace_folder)),
        default_container: text_or_empty(opt_view(dc.default_container)),
        docker_command: dc.docker_command@,
        devcontainer_command: dc.devcontainer_command@,
        default_shell: text_or_empty(opt_view(dc.default_shell)),
        override_user: text_or_empty(opt_view(dc.override_user)),
        poll_interval_secs: crate::text::decimal_of(dc.poll_interval_secs as nat),
        auto_discover: dc.auto_discover,
    }
}

fn overlay_devcontainer_from_runtime(dc: &DevContainerDomainConfig) -> (r: DevContainerOverlayConfig)
    ensures
        r@ == overlay_devcontainer_of(*dc),
{
    let ssh = match &dc.ssh {
        Some(s) => overlay_domain_from_runtime(s),
        None => SshDomainConfig::default(),
    };
    let mut poll = String::new();
    crate::text::push_decimal(&mut poll, dc.poll_interval_secs);
    assert(poll@ =~= crate::text::decimal_of(dc.poll_interval_secs as nat));
    DevContainerOverlayConfig {
        name: dc.name.clone(),
        ssh,
        default_workspace_folder: string_or_empty(&dc.default_workspace_folder),
        default_container: string_or_empty(&dc.default_container),
        docker_command: dc.docker_command.clone(),
        devcontainer_command: dc.devcontainer_command.clone(),
        default_shell: string_or_empty(&dc.default_shell),
        override_user: string_or_empty(&dc.override_user),
        poll_interval_secs: poll,
        auto_discover: dc.auto_discover,
    }
}

/// The DevContainer entries of the domains that the configuration file
/// defines, in order: each in its overlay form, read-only and collapsed.
pub fn devcontainers_from_config(domains: &Vec<DevContainerDomainConfig>) -> (r: Vec<DevContainerEntry>)
    ensures
        r.len() == domains.len(),
        forall|i: int|
            0 <= i < r.len() ==> {
                &&& (#[trigger] r[i]).config@ == overlay_devcontainer_of(domains[i])
                &&& r[i].source == DomainSource::Lua
                &&& !r[i].expanded
            },
{
    let mut out: Vec<DevContainerEntry> = Vec::new();
    for k in 0..domains.len()
        invariant
            out.len() == k,
            forall|i: int|
                0 <= i < k ==> {
                    &&& (#[trigger] out[i]).config@ == overlay_devcontainer_of(domains[i])
                    &&& out[i].source == DomainSource::Lua
                    &&& !out[i].expanded
                },
    {
        let config = overlay_devcontainer_from_runtime(&domains[k]);
        out.push(DevContainerEntry { config, source: DomainSource::Lua, expanded: false });
    }
    out
}

/// An overlay domain whose multiplexing and backend are ones that the
/// runtime configuration names.
pub open spec fn domain_is_canonical(d: SshDomainView) -> bool {
    &&& (d.multiplexing == "WezTerm"@ || d.multiplexing == "None"@)
    &&& (d.ssh_backend == "Ssh2"@ || d.ssh_backend == "LibSsh"@)
}

/// Registering an overlay domain with the runtime configuration and
/// reading it back gives the same overlay domain, for every domain whose
/// multiplexing and backend are ones the runtime configuration names.
pub proof fn lemma_runtime_domain_round_trip(c: SshDomainConfig, r: SshDomain)
    requires
        domain_is_canonical(c@),
        r.name@ == c.name@,
        r.remote_address@ == c.remote_address@,
        opt_view(r.username) == non_empty(c.username@),
        r.multiplexing == spec_multiplexing(c.multiplexing@),
        r.ssh_backend == spec_backend(c.ssh_backend@),
        r.no_agent_auth == c.no_agent_auth,
        r.connect_automatically == c.connect_automatically,
    ensures
        overlay_domain_of(r) == c@,
{
    reveal_strlit("WezTerm");
    reveal_strlit("None");
    reveal_strlit("Ssh2");
    reveal_strlit("LibSsh");
    if c.username@.len() == 0 {
        assert(c.username@ =~= Seq::<char>::empty());
    }
}

} // verus!
