use timon::selection::{
    snapshot_from_grid, underline_style, GridCell, TerminalCell, TerminalColor,
    TerminalCursorShape, TerminalUnderlineStyle, UnderlineFlags,
};
use timon::theme::{fallback_named_color, TerminalColors, TerminalNamedColor, TerminalTheme};

fn rgba(red: u8, green: u8, blue: u8, alpha: u8) -> TerminalColor {
    TerminalColor {
        red,
        green,
        blue,
        alpha,
    }
}

fn light_theme() -> TerminalTheme {
    TerminalTheme::from_settings(&TerminalColors::atom_one_light())
}

fn grid_cell(text: &str, grid_line: i32, column: usize, width: usize, spacer: bool) -> GridCell {
    GridCell {
        grid_line,
        spacer,
        cell: TerminalCell {
            text: text.to_string(),
            fg: rgba(1, 2, 3, 255),
            bg: rgba(4, 5, 6, 255),
            underline: None,
            underline_color: rgba(1, 2, 3, 255),
            width,
            bold: false,
            italic: false,
            strikeout: false,
            dim: false,
            hidden: false,
            line: 999,
            column,
        },
    }
}

#[test]
fn snapshot_keeps_visible_cells_on_their_view_lines() {
    let theme = light_theme();
    let grid = vec![
        grid_cell("a", -1, 0, 1, false),
        grid_cell("b", 0, 0, 1, false),
        grid_cell("中", 0, 1, 2, false),
        grid_cell(" ", 0, 2, 1, true),
        grid_cell("c", 0, 5, 1, false),
        grid_cell("d", 3, 0, 1, false),
    ];
    let snapshot = snapshot_from_grid(grid, 1, 0, 1, TerminalCursorShape::Block, true, 4, 2, &theme);

    let drawn: Vec<(String, usize, usize)> = snapshot
        .cells
        .iter()
        .map(|cell| (cell.text.clone(), cell.line, cell.column))
        .collect();
    assert_eq!(
        drawn,
        vec![
            ("a".to_string(), 0, 0),
            ("b".to_string(), 1, 0),
            ("中".to_string(), 1, 1),
        ]
    );
    assert_eq!(snapshot.cursor_line, 0);
    assert_eq!(snapshot.cursor_column, 1);
    assert_eq!(snapshot.cursor_width, 1);
    assert!(!snapshot.show_cursor);
    assert!(snapshot.cursor_blinking);
    assert_eq!(snapshot.background, theme.background);
    assert_eq!(snapshot.selection_background, theme.selection_background);
}

#[test]
fn snapshot_cursor_takes_the_width_of_the_cell_under_it_and_stays_in_view() {
    let theme = light_theme();
    let grid = vec![grid_cell("中", 0, 3, 2, false), grid_cell("x", 1, 0, 1, false)];
    let wide = snapshot_from_grid(
        grid.clone(),
        0,
        0,
        4,
        TerminalCursorShape::Beam,
        false,
        10,
        5,
        &theme,
    );
    assert_eq!(wide.cursor_width, 2);
    assert!(wide.show_cursor);
    assert_eq!(wide.cursor_shape, TerminalCursorShape::Beam);

    let clamped = snapshot_from_grid(grid, 0, 9, 30, TerminalCursorShape::Hidden, false, 10, 5, &theme);
    assert_eq!(clamped.cursor_line, 4);
    assert_eq!(clamped.cursor_column, 9);
    assert_eq!(clamped.cursor_width, 1);
    assert!(!clamped.show_cursor);

    let above = snapshot_from_grid(Vec::new(), 0, -3, 0, TerminalCursorShape::Block, false, 10, 5, &theme);
    assert_eq!(above.cursor_line, 0);
    assert!(above.cells.is_empty());
}

#[test]
fn named_colors_fall_back_on_the_theme() {
    let theme = light_theme();
    assert_eq!(fallback_named_color(TerminalNamedColor::Background, &theme), rgba(0xfa, 0xfa, 0xfa, 255));
    assert_eq!(fallback_named_color(TerminalNamedColor::Foreground, &theme), rgba(0x38, 0x3a, 0x42, 255));
    assert_eq!(fallback_named_color(TerminalNamedColor::DimForeground, &theme), rgba(0x38, 0x3a, 0x42, 255));
    assert_eq!(fallback_named_color(TerminalNamedColor::Cursor, &theme), rgba(0x52, 0x6f, 0xff, 255));
    assert_eq!(fallback_named_color(TerminalNamedColor::Red, &theme), rgba(0xe4, 0x56, 0x49, 255));
    assert_eq!(fallback_named_color(TerminalNamedColor::DimRed, &theme), rgba(0xe4, 0x56, 0x49, 255));
    assert_eq!(fallback_named_color(TerminalNamedColor::BrightWhite, &theme), rgba(0xff, 0xff, 0xff, 255));
}

#[test]
fn underline_style_prefers_the_fancier_underline() {
    let none = UnderlineFlags::default();
    assert_eq!(underline_style(none), None);
    assert_eq!(
        underline_style(UnderlineFlags { single: true, ..none }),
        Some(TerminalUnderlineStyle::Single)
    );
    assert_eq!(
        underline_style(UnderlineFlags { single: true, dashed: true, ..none }),
        Some(TerminalUnderlineStyle::Dashed)
    );
    assert_eq!(
        underline_style(UnderlineFlags { dotted: true, curly: true, ..none }),
        Some(TerminalUnderlineStyle::Curly)
    );
    assert_eq!(
        underline_style(UnderlineFlags { double: true, curly: true, single: true, ..none }),
        Some(TerminalUnderlineStyle::Double)
    );
}
