use timon::selection::{TerminalColor, TerminalCursorShape};
use timon::theme::{
    builtin_terminal_theme_by_id, builtin_terminal_themes, cursor_shape_for_setting,
    fallback_indexed_color, parse_hex_color, scrollback_history, slint_terminal_colors,
    slint_terminal_colors_for_connection, sort_themes_by_id, CursorSettings, ShortcutSettings,
    TerminalAnsiGroup, TerminalColors, TerminalTheme, TerminalThemeEntry,
};

fn rgb(red: u8, green: u8, blue: u8) -> TerminalColor {
    TerminalColor {
        red,
        green,
        blue,
        alpha: 255,
    }
}

#[test]
fn hex_colors_read_as_three_byte_pairs() {
    assert_eq!(parse_hex_color("#1e2127"), Some(rgb(0x1e, 0x21, 0x27)));
    assert_eq!(parse_hex_color("  ##ABCDEF \n"), Some(rgb(0xab, 0xcd, 0xef)));
    assert_eq!(parse_hex_color("+f+f+f"), Some(rgb(15, 15, 15)));
}

#[test]
fn hex_colors_of_the_wrong_shape_denote_nothing() {
    assert_eq!(parse_hex_color("#12345"), None);
    assert_eq!(parse_hex_color("#1234567"), None);
    assert_eq!(parse_hex_color("zzzzzz"), None);
    assert_eq!(parse_hex_color(""), None);
    assert_eq!(parse_hex_color("-1-1-1"), None);
    // a two-byte character at the start of six bytes fails without cutting it
    assert_eq!(parse_hex_color("é1234"), None);
}

#[test]
fn light_and_dark_schemes_have_their_documented_colours() {
    let light = TerminalColors::atom_one_light();
    assert_eq!(light.primary.background, "#fafafa");
    assert_eq!(light.cursor.cursor, "#526fff");
    assert_eq!(light.bright.white, "#ffffff");
    let dark = TerminalColors::atom_one_dark();
    assert_eq!(dark.primary.background, "#1e2127");
    assert_eq!(dark.selection.background, "#3e4451");
    assert_eq!(dark.normal.red, "#e06c75");
}

#[test]
fn ansi_groups_convert_to_and_from_arrays() {
    let group = TerminalColors::atom_one_dark().normal;
    let array = group.as_array();
    assert_eq!(array[0], "#1e2127");
    assert_eq!(array[7], "#abb2bf");
    let back = TerminalAnsiGroup::from_array(array);
    assert_eq!(back.red, group.red);
    assert_eq!(back.white, group.white);
}

#[test]
fn theme_falls_back_to_light_scheme_for_unreadable_colours() {
    let mut colors = TerminalColors::atom_one_dark();
    colors.primary.background = "not a colour".into();
    colors.normal.red = "#123".into();
    let theme = TerminalTheme::from_settings(&colors);

    assert_eq!(theme.background, rgb(0xfa, 0xfa, 0xfa));
    assert_eq!(theme.foreground, rgb(0xab, 0xb2, 0xbf));
    assert_eq!(theme.ansi[1], rgb(0xe4, 0x56, 0x49));
    assert_eq!(theme.ansi[9], rgb(0xe0, 0x6c, 0x75));
    assert_eq!(theme.ansi[15], rgb(0xff, 0xff, 0xff));
}

#[test]
fn palette_indexes_use_theme_cube_and_grey_ramp() {
    let theme = TerminalTheme::from_settings(&TerminalColors::atom_one_dark());
    assert_eq!(fallback_indexed_color(1, &theme), theme.ansi[1]);
    assert_eq!(fallback_indexed_color(16, &theme), rgb(0, 0, 0));
    assert_eq!(fallback_indexed_color(21, &theme), rgb(0, 0, 255));
    assert_eq!(fallback_indexed_color(196, &theme), rgb(255, 0, 0));
    assert_eq!(fallback_indexed_color(110, &theme), rgb(135, 175, 215));
    assert_eq!(fallback_indexed_color(232, &theme), rgb(8, 8, 8));
    assert_eq!(fallback_indexed_color(255, &theme), rgb(238, 238, 238));
}

#[test]
fn builtin_themes_are_light_then_dark() {
    let themes = builtin_terminal_themes();
    assert_eq!(themes.len(), 2);
    assert_eq!(themes[0].id, "atom-one-light");
    assert_eq!(themes[0].path, "assets/themes/atom-one-light.toml");
    assert_eq!(themes[1].id, "atom-one-dark");
    assert_eq!(
        builtin_terminal_theme_by_id("atom-one-dark").map(|t| t.colors.primary.background),
        Some("#1e2127".to_string())
    );
    assert!(builtin_terminal_theme_by_id("solarized").is_none());
}

#[test]
fn unknown_theme_falls_back_to_light_scheme() {
    let colors = TerminalColors::atom_one_dark();
    let chosen = slint_terminal_colors("atom-one-dark", &colors, &vec![], "no-such-theme");
    assert_eq!(chosen.primary.background, "#fafafa");

    let mut custom_light = TerminalColors::atom_one_light();
    custom_light.primary.background = "#eeeeee".into();
    let themes = vec![TerminalThemeEntry {
        id: "atom-one-light".into(),
        path: "custom/atom-one-light.toml".into(),
        colors: custom_light,
    }];
    let chosen = slint_terminal_colors("atom-one-dark", &colors, &themes, "no-such-theme");
    assert_eq!(chosen.primary.background, "#eeeeee");
}

#[test]
fn shell_tab_colours_prefer_builtin_then_custom_then_settings() {
    let mut settings_colors = TerminalColors::atom_one_light();
    settings_colors.primary.background = "#000001".into();
    let mut custom = TerminalColors::atom_one_light();
    custom.primary.background = "#000002".into();
    let themes = vec![
        TerminalThemeEntry {
            id: "atom-one-dark".into(),
            path: "custom/atom-one-dark.toml".into(),
            colors: custom.clone(),
        },
        TerminalThemeEntry {
            id: "mine".into(),
            path: "custom/mine.toml".into(),
            colors: custom,
        },
    ];

    let dark = slint_terminal_colors_for_connection("x", &settings_colors, &themes, "atom-one-dark");
    assert_eq!(dark.primary.background, "#1e2127");
    let mine = slint_terminal_colors_for_connection("x", &settings_colors, &themes, "mine");
    assert_eq!(mine.primary.background, "#000002");
    let other = slint_terminal_colors_for_connection("x", &settings_colors, &themes, "other");
    assert_eq!(other.primary.background, "#000001");
    let by_default = slint_terminal_colors_for_connection("mine", &settings_colors, &themes, "");
    assert_eq!(by_default.primary.background, "#000002");
}

#[test]
fn custom_themes_sort_by_identifier() {
    let entry = |id: &str| TerminalThemeEntry {
        id: id.into(),
        path: format!("{id}.toml"),
        colors: TerminalColors::atom_one_light(),
    };
    let sorted = sort_themes_by_id(vec![entry("zenburn"), entry("Dracula"), entry("atom"), entry("b")]);
    let ids: Vec<&str> = sorted.iter().map(|t| t.id.as_str()).collect();
    assert_eq!(ids, vec!["Dracula", "atom", "b", "zenburn"]);
}

#[test]
fn default_shortcut_and_cursor_settings() {
    let shortcuts = ShortcutSettings::default();
    assert_eq!(shortcuts.close_tab, "Command+W");
    assert_eq!(shortcuts.tab_switches[8], "Command+9");
    assert_eq!(shortcuts.previous_tab, "Command+Shift+[");
    assert_eq!(shortcuts.open_settings, "Command+,");
    let cursor = CursorSettings::default();
    assert_eq!(cursor.shape, "block");
    assert!(!cursor.blinking);
}

#[test]
fn cursor_settings_map_to_shapes_and_scrollback() {
    assert_eq!(cursor_shape_for_setting("beam"), TerminalCursorShape::Beam);
    assert_eq!(cursor_shape_for_setting("underline"), TerminalCursorShape::Underline);
    assert_eq!(cursor_shape_for_setting("Beam"), TerminalCursorShape::Block);
    assert_eq!(scrollback_history(0), 1);
    assert_eq!(scrollback_history(10_000), 10_000);
}
