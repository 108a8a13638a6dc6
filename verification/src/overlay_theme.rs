//! The config overlay's theme: which color of the user's palette (or which
//! ANSI fallback) each style of the overlay takes.
use vstd::prelude::*;

use crate::overlay_colors::TuiColor;
use crate::overlay_view::Style;
use crate::fancy_tab_bar::Rgb;

verus! {

/// The palette colors the theme reads, each as 8-bit RGB where the user's
/// palette sets it.
#[derive(Debug, Clone, Copy, PartialEq, Eq)]
pub struct PaletteColors {
    pub foreground: Option<Rgb>,
    pub background: Option<Rgb>,
    pub selection_fg: Option<Rgb>,
    pub selection_bg: Option<Rgb>,
    pub split: Option<Rgb>,
    pub ansi: Option<[Rgb; 8]>,
    pub brights: Option<[Rgb; 8]>,
}

/// A style: a foreground, a background, and whether it is bold.
#[derive(Debug, Clone, Copy, PartialEq, Eq, Structural)]
pub struct ThemeStyle {
    pub fg: Option<TuiColor>,
    pub bg: Option<TuiColor>,
    pub bold: bool,
}

/// All the styles of the overlay.
#[derive(Debug, Clone, Copy, PartialEq, Eq, Structural)]
pub struct Theme {
    pub text: ThemeStyle,
    pub text_dim: ThemeStyle,
    pub selected: ThemeStyle,
    pub section_active: ThemeStyle,
    pub section_inactive: ThemeStyle,
    pub value: ThemeStyle,
    pub value_proposed: ThemeStyle,
    pub dots: ThemeStyle,
    pub badge_inherited: ThemeStyle,
    pub badge_editable: ThemeStyle,
    pub badge_fixed: ThemeStyle,
    pub border: ThemeStyle,
    pub header: ThemeStyle,
    pub footer: ThemeStyle,
    pub footer_key: ThemeStyle,
    pub selection_bg: TuiColor,
    pub detail: ThemeStyle,
    pub detail_title: ThemeStyle,
}

/// A palette color, or the fallback when the palette sets none.
pub open spec fn or_color(c: Option<Rgb>, fallback: TuiColor) -> TuiColor {
    match c {
        Some(c) => TuiColor::Rgb(c.r, c.g, c.b),
        None => fallback,
    }
}

/// Entry `i` of a palette's color table, or the fallback.
pub open spec fn table_color(t: Option<[Rgb; 8]>, i: int, fallback: TuiColor) -> TuiColor {
    match t {
        Some(a) => {
            let c = a@[i];
            TuiColor::Rgb(c.r, c.g, c.b)
        },
        None => fallback,
    }
}

/// The RGB value a color is blended with: its own for an RGB color, and a
/// stand-in for the named ones.
pub open spec fn spec_color_to_rgb(c: TuiColor) -> Rgb {
    match c {
        TuiColor::Rgb(r, g, b) => Rgb { r, g, b },
        TuiColor::Black => Rgb { r: 0, g: 0, b: 0 },
        TuiColor::White => Rgb { r: 255, g: 255, b: 255 },
        TuiColor::DarkGray => Rgb { r: 128, g: 128, b: 128 },
        TuiColor::Gray => Rgb { r: 192, g: 192, b: 192 },
        _ => Rgb { r: 128, g: 128, b: 128 },
    }
}

pub fn color_to_rgb(c: TuiColor) -> (r: Rgb)
    ensures
        r == spec_color_to_rgb(c),
{
    match c {
        TuiColor::Rgb(r, g, b) => Rgb { r, g, b },
        TuiColor::Black => Rgb { r: 0, g: 0, b: 0 },
        TuiColor::White => Rgb { r: 255, g: 255, b: 255 },
        TuiColor::DarkGray => Rgb { r: 128, g: 128, b: 128 },
        TuiColor::Gray => Rgb { r: 192, g: 192, b: 192 },
        _ => Rgb { r: 128, g: 128, b: 128 },
    }
}

pub open spec fn style(fg: Option<TuiColor>, bg: Option<TuiColor>, bold: bool) -> ThemeStyle {
    ThemeStyle { fg, bg, bold }
}

/// The theme for a palette. The header and footer bars take `header_bg`,
/// the background blended slightly towards the foreground (the two colors
/// `blend_endpoints` gives).
pub open spec fn spec_theme(p: PaletteColors, header_bg: TuiColor) -> Theme {
    let fg = or_color(p.foreground, TuiColor::White);
    let sel_fg = or_color(p.selection_fg, TuiColor::Black);
    let sel_bg = or_color(p.selection_bg, TuiColor::LightCyan);
    let border = or_color(p.split, TuiColor::DarkGray);
    let dim_fg = table_color(p.ansi, 7, TuiColor::Gray);
    let green = table_color(p.ansi, 2, TuiColor::Green);
    let yellow = table_color(p.ansi, 3, TuiColor::Yellow);
    let cyan = table_color(p.brights, 6, TuiColor::LightCyan);
    let bright_yellow = table_color(p.brights, 3, TuiColor::LightYellow);
    Theme {
        text: style(Some(fg), None, false),
        text_dim: style(Some(dim_fg), None, false),
        selected: style(Some(sel_fg), Some(sel_bg), true),
        section_active: style(Some(sel_fg), Some(sel_bg), true),
        section_inactive: style(Some(dim_fg), None, false),
        value: style(Some(cyan), None, false),
        value_proposed: style(Some(bright_yellow), None, true),
        dots: style(Some(TuiColor::DarkGray), None, false),
        badge_inherited: style(Some(dim_fg), None, false),
        badge_editable: style(Some(green), None, false),
        badge_fixed: style(Some(yellow), None, false),
        border: style(Some(border), None, false),
        header: style(Some(fg), Some(header_bg), true),
        footer: style(Some(fg), Some(header_bg), false),
        footer_key: style(Some(fg), Some(header_bg), true),
        selection_bg: sel_bg,
        detail: style(Some(dim_fg), None, false),
        detail_title: style(Some(fg), None, true),
    }
}

fn or_color_exec(c: Option<Rgb>, fallback: TuiColor) -> (r: TuiColor)
    ensures
        r == or_color(c, fallback),
{
    match c {
        Some(c) => TuiColor::Rgb(c.r, c.g, c.b),
        None => fallback,
    }
}

fn table_color_exec(t: Option<[Rgb; 8]>, i: usize, fallback: TuiColor) -> (r: TuiColor)
    requires
        i < 8,
    ensures
        r == table_color(t, i as int, fallback),
{
    match t {
        Some(a) => {
            let c = a[i];
            TuiColor::Rgb(c.r, c.g, c.b)
        },
        None => fallback,
    }
}

/// The two colors the header background blends: the background and the
/// foreground (after their fallbacks), as RGB.
pub fn blend_endpoints(p: &PaletteColors) -> (r: (Rgb, Rgb))
    ensures
        r.0 == spec_color_to_rgb(or_color(p.background, TuiColor::Black)),
        r.1 == spec_color_to_rgb(or_color(p.foreground, TuiColor::White)),
{
    (
        color_to_rgb(or_color_exec(p.background, TuiColor::Black)),
        color_to_rgb(or_color_exec(p.foreground, TuiColor::White)),
    )
}

impl Theme {
    /// The theme for the user's palette, with the blended header
    /// background.
    pub fn from_palette(p: &PaletteColors, header_bg: TuiColor) -> (r: Theme)
        ensures
            r == spec_theme(*p, header_bg),
    {
        let fg = or_color_exec(p.foreground, TuiColor::White);
        let sel_fg = or_color_exec(p.selection_fg, TuiColor::Black);
        let sel_bg = or_color_exec(p.selection_bg, TuiColor::LightCyan);
        let border = or_color_exec(p.split, TuiColor::DarkGray);
        let dim_fg = table_color_exec(p.ansi, 7, TuiColor::Gray);
        let green = table_color_exec(p.ansi, 2, TuiColor::Green);
        let yellow = table_color_exec(p.ansi, 3, TuiColor::Yellow);
        let cyan = table_color_exec(p.brights, 6, TuiColor::LightCyan);
        let bright_yellow = table_color_exec(p.brights, 3, TuiColor::LightYellow);
        Theme {
            text: ThemeStyle { fg: Some(fg), bg: None, bold: false },
            text_dim: ThemeStyle { fg: Some(dim_fg), bg: None, bold: false },
            selected: ThemeStyle { fg: Some(sel_fg), bg: Some(sel_bg), bold: true },
            section_active: ThemeStyle { fg: Some(sel_fg), bg: Some(sel_bg), bold: true },
            section_inactive: ThemeStyle { fg: Some(dim_fg), bg: None, bold: false },
            value: ThemeStyle { fg: Some(cyan), bg: None, bold: false },
            value_proposed: ThemeStyle { fg: Some(bright_yellow), bg: None, bold: true },
            dots: ThemeStyle { fg: Some(TuiColor::DarkGray), bg: None, bold: false },
            badge_inherited: ThemeStyle { fg: Some(dim_fg), bg: None, bold: false },
            badge_editable: ThemeStyle { fg: Some(green), bg: None, bold: false },
            badge_fixed: ThemeStyle { fg: Some(yellow), bg: None, bold: false },
            border: ThemeStyle { fg: Some(border), bg: None, bold: false },
            header: ThemeStyle { fg: Some(fg), bg: Some(header_bg), bold: true },
            footer: ThemeStyle { fg: Some(fg), bg: Some(header_bg), bold: false },
            footer_key: ThemeStyle { fg: Some(fg), bg: Some(header_bg), bold: true },
            selection_bg: sel_bg,
            detail: ThemeStyle { fg: Some(dim_fg), bg: None, bold: false },
            detail_title: ThemeStyle { fg: Some(fg), bg: None, bold: true },
        }
    }

    /// The style a piece of the overlay drawn in `role` takes: bold text is
    /// the text style made bold, and dots on the selected row take the
    /// selection background.
    pub fn style_for(&self, role: Style) -> (r: ThemeStyle)
        ensures
            r == (match role {
                Style::Plain => style(None, None, false),
                Style::Header => self.header,
                Style::Border => self.border,
                Style::Text => self.text,
                Style::TextBold => ThemeStyle { bold: true, ..self.text },
                Style::TextDim => self.text_dim,
                Style::Value => self.value,
                Style::ValueProposed => self.value_proposed,
                Style::BadgeFixed => self.badge_fixed,
                Style::BadgeInherited => self.badge_inherited,
                Style::BadgeEditable => self.badge_editable,
                Style::SectionActive => self.section_active,
                Style::SectionInactive => self.section_inactive,
                Style::Selected => self.selected,
                Style::SelectedValue => self.selected,
                Style::SelectedBadge => self.selected,
                Style::Dots => self.dots,
                Style::DotsSelected => ThemeStyle { bg: Some(self.selection_bg), ..self.dots },
                Style::Detail => self.detail,
                Style::DetailTitle => self.detail_title,
                Style::Footer => self.footer,
                Style::FooterKey => self.footer_key,
            }),
    {
        match role {
            Style::Plain => ThemeStyle { fg: None, bg: None, bold: false },
            Style::Header => self.header,
            Style::Border => self.border,
            Style::Text => self.text,
            Style::TextBold => ThemeStyle { bold: true, ..self.text },
            Style::TextDim => self.text_dim,
            Style::Value => self.value,
            Style::ValueProposed => self.value_proposed,
            Style::BadgeFixed => self.badge_fixed,
            Style::BadgeInherited => self.badge_inherited,
            Style::BadgeEditable => self.badge_editable,
            Style::SectionActive => self.section_active,
            Style::SectionInactive => self.section_inactive,
            Style::Selected => self.selected,
            Style::SelectedValue => self.selected,
            Style::SelectedBadge => self.selected,
            Style::Dots => self.dots,
            Style::DotsSelected => ThemeStyle { bg: Some(self.selection_bg), ..self.dots },
            Style::Detail => self.detail,
            Style::DetailTitle => self.detail_title,
            Style::Footer => self.footer,
            Style::FooterKey => self.footer_key,
        }
    }
}

} // verus!
