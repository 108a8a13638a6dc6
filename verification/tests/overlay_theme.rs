use weezterm::fancy_tab_bar::Rgb;
use weezterm::overlay_colors::TuiColor;
use weezterm::overlay_theme::{blend_endpoints, PaletteColors, Theme, ThemeStyle};
use weezterm::overlay_view::Style;

fn empty_palette() -> PaletteColors {
    PaletteColors {
        foreground: None,
        background: None,
        selection_fg: None,
        selection_bg: None,
        split: None,
        ansi: None,
        brights: None,
    }
}

fn rgb(r: u8, g: u8, b: u8) -> Rgb {
    Rgb { r, g, b }
}

fn header_bg(p: &PaletteColors) -> TuiColor {
    let (a, b) = blend_endpoints(p);
    let mix = |x: u8, y: u8| -> u8 { (x as f32 * 0.85 + y as f32 * 0.15).round().clamp(0.0, 255.0) as u8 };
    TuiColor::Rgb(mix(a.r, b.r), mix(a.g, b.g), mix(a.b, b.b))
}

#[test]
fn test_theme_from_empty_palette() {
    let palette = empty_palette();
    let theme = Theme::from_palette(&palette, header_bg(&palette));
    assert_eq!(theme.text.fg, Some(TuiColor::White));
    assert_eq!(theme.border.fg, Some(TuiColor::DarkGray));
}

#[test]
fn test_theme_from_palette_with_colors() {
    let mut palette = empty_palette();
    palette.foreground = Some(rgb(200, 200, 200));
    palette.background = Some(rgb(30, 30, 46));
    palette.selection_fg = Some(rgb(0, 0, 0));
    palette.selection_bg = Some(rgb(100, 180, 255));
    let theme = Theme::from_palette(&palette, header_bg(&palette));
    assert_eq!(theme.text.fg, Some(TuiColor::Rgb(200, 200, 200)));
    assert_eq!(theme.selected.fg, Some(TuiColor::Rgb(0, 0, 0)));
    assert_eq!(theme.selected.bg, Some(TuiColor::Rgb(100, 180, 255)));
}

#[test]
fn theme_fallbacks_and_tables() {
    let mut palette = empty_palette();
    let mut ansi = [rgb(0, 0, 0); 8];
    ansi[2] = rgb(1, 2, 3);
    ansi[7] = rgb(7, 7, 7);
    palette.ansi = Some(ansi);
    let theme = Theme::from_palette(&palette, TuiColor::Blue);
    assert_eq!(theme.text_dim.fg, Some(TuiColor::Rgb(7, 7, 7)));
    assert_eq!(theme.badge_editable.fg, Some(TuiColor::Rgb(1, 2, 3)));
    assert_eq!(theme.badge_fixed.fg, Some(TuiColor::Rgb(0, 0, 0)));
    assert_eq!(theme.value.fg, Some(TuiColor::LightCyan));
    assert_eq!(theme.value_proposed, ThemeStyle { fg: Some(TuiColor::LightYellow), bg: None, bold: true });
    assert_eq!(theme.header, ThemeStyle { fg: Some(TuiColor::White), bg: Some(TuiColor::Blue), bold: true });
    assert_eq!(theme.footer.bold, false);
    assert_eq!(theme.selection_bg, TuiColor::LightCyan);
    assert_eq!(blend_endpoints(&palette), (rgb(0, 0, 0), rgb(255, 255, 255)));
}

#[test]
fn styles_for_roles() {
    let theme = Theme::from_palette(&empty_palette(), TuiColor::Blue);
    assert_eq!(theme.style_for(Style::TextBold), ThemeStyle { fg: Some(TuiColor::White), bg: None, bold: true });
    assert_eq!(
        theme.style_for(Style::DotsSelected),
        ThemeStyle { fg: Some(TuiColor::DarkGray), bg: Some(TuiColor::LightCyan), bold: false }
    );
    assert_eq!(theme.style_for(Style::Plain), ThemeStyle { fg: None, bg: None, bold: false });
    assert_eq!(theme.style_for(Style::FooterKey), theme.footer_key);
}
