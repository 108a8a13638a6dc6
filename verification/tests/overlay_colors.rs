use weezterm::overlay_colors::{draw_changes, ratatui_color_to_termwiz, CellChange, DrawCell, Intensity, Modifiers, TermColor, TuiColor};

#[test]
fn test_ratatui_color_to_termwiz_ansi() {
    assert_eq!(ratatui_color_to_termwiz(TuiColor::Reset), TermColor::Default);
    assert_eq!(ratatui_color_to_termwiz(TuiColor::Black), TermColor::PaletteIndex(0));
    assert_eq!(ratatui_color_to_termwiz(TuiColor::White), TermColor::PaletteIndex(15));
    assert_eq!(ratatui_color_to_termwiz(TuiColor::Indexed(42)), TermColor::PaletteIndex(42));
}

#[test]
fn test_ratatui_color_to_termwiz_rgb() {
    match ratatui_color_to_termwiz(TuiColor::Rgb(255, 128, 0)) {
        TermColor::TrueColorWithDefaultFallback { red, green, blue } => {
            let c = (red as f32 / 255.0, green as f32 / 255.0, blue as f32 / 255.0);
            assert!((c.0 - 1.0).abs() < 0.01);
            assert!((c.1 - 0.502).abs() < 0.01);
            assert!((c.2 - 0.0).abs() < 0.01);
        }
        other => panic!("Expected TrueColor, got {:?}", other),
    }
}

#[test]
fn bright_colors_follow_the_dark_ones() {
    assert_eq!(ratatui_color_to_termwiz(TuiColor::DarkGray), TermColor::PaletteIndex(8));
    assert_eq!(ratatui_color_to_termwiz(TuiColor::LightCyan), TermColor::PaletteIndex(14));
    assert_eq!(ratatui_color_to_termwiz(TuiColor::Magenta), TermColor::PaletteIndex(5));
}

fn cell(x: u16, y: u16, symbol: &str, bold: bool, dim: bool) -> DrawCell {
    DrawCell {
        x,
        y,
        symbol: symbol.to_string(),
        fg: TuiColor::Red,
        bg: TuiColor::Reset,
        modifier: Modifiers { bold, dim, italic: false, underlined: true, reversed: false },
    }
}

#[test]
fn draw_moves_only_for_non_contiguous_cells() {
    let cells = vec![cell(3, 1, "a", true, true), cell(4, 1, "b", false, true), cell(0, 2, "c", false, false)];
    let ch = draw_changes(&cells);
    assert_eq!(ch.len(), 3 * 7 + 2);
    assert_eq!(ch[0], CellChange::MoveTo { x: 3, y: 1 });
    assert_eq!(ch[1], CellChange::Foreground(TermColor::PaletteIndex(1)));
    assert_eq!(ch[2], CellChange::Background(TermColor::Default));
    assert_eq!(ch[3], CellChange::Intensity(Intensity::Bold));
    assert_eq!(ch[4], CellChange::Italic(false));
    assert_eq!(ch[5], CellChange::Underline(true));
    assert_eq!(ch[6], CellChange::Reverse(false));
    assert_eq!(ch[7], CellChange::Text("a".to_string()));
    assert_eq!(ch[8], CellChange::Foreground(TermColor::PaletteIndex(1)));
    assert_eq!(ch[10], CellChange::Intensity(Intensity::Half));
    assert_eq!(ch[14], CellChange::Text("b".to_string()));
    assert_eq!(ch[15], CellChange::MoveTo { x: 0, y: 2 });
    assert_eq!(ch[18], CellChange::Intensity(Intensity::Normal));
    assert_eq!(ch[22], CellChange::Text("c".to_string()));
}
