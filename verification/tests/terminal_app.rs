use std::time::Duration;

use timon::models::{Connection, ConnectionType, Identity, Key};
use timon::shell::WorkspaceData;
use timon::terminal::{
    cursor_visible_for_elapsed, requested_connection_id, slint_connection_selection,
    slint_ui_mode, terminal_window_title, SlintUiMode, SLINT_TERMINAL_MODE_ARG,
};
use timon::theme::{slint_terminal_colors, TerminalColors, TerminalThemeEntry};

#[test]
fn slint_ui_mode_defaults_to_shell() {
    assert_eq!(slint_ui_mode(Vec::new()), SlintUiMode::Shell);
}

#[test]
fn slint_ui_mode_strips_internal_terminal_arg() {
    assert_eq!(
        slint_ui_mode(vec![
            SLINT_TERMINAL_MODE_ARG.into(),
            "--connection-id".into(),
            "42".into()
        ]),
        SlintUiMode::Terminal(vec!["--connection-id".into(), "42".into()])
    );
}

#[test]
fn cursor_blink_visibility_alternates_by_interval() {
    assert!(cursor_visible_for_elapsed(Duration::from_millis(0).as_millis()));
    assert!(cursor_visible_for_elapsed(Duration::from_millis(599).as_millis()));
    assert!(!cursor_visible_for_elapsed(Duration::from_millis(600).as_millis()));
    assert!(!cursor_visible_for_elapsed(Duration::from_millis(1199).as_millis()));
    assert!(cursor_visible_for_elapsed(Duration::from_millis(1200).as_millis()));
}

#[test]
fn terminal_window_title_sanitizes_control_characters() {
    assert_eq!(
        terminal_window_title("vim\tproject\n\u{1b}]0;bad", "Fallback"),
        "vim project ]0;bad"
    );
}

#[test]
fn terminal_window_title_uses_fallback_for_empty_titles() {
    assert_eq!(terminal_window_title("\n\t", "Fallback"), "Fallback");
}

#[test]
fn requested_connection_id_accepts_space_and_equals_forms() {
    assert_eq!(
        requested_connection_id(&vec!["--connection-id".into(), "42".into()]),
        Some(42)
    );
    assert_eq!(
        requested_connection_id(&vec!["--connection-id=7".into()]),
        Some(7)
    );
    assert_eq!(
        requested_connection_id(&vec!["--connection-id".into(), "bad".into()]),
        None
    );
}

/// The default terminal settings' theme and colours.
fn default_terminal_settings() -> (String, TerminalColors) {
    ("atom-one-light".to_string(), TerminalColors::atom_one_light())
}

#[test]
fn slint_terminal_colors_uses_settings_for_default_theme_aliases() {
    let (mut default_theme_id, mut colors) = default_terminal_settings();
    default_theme_id = "custom-default".into();
    colors.primary.background = "#123456".into();

    assert_eq!(
        slint_terminal_colors(&default_theme_id, &colors, &vec![], "default")
            .primary
            .background,
        "#123456"
    );
    assert_eq!(
        slint_terminal_colors(&default_theme_id, &colors, &vec![], "custom-default")
            .primary
            .background,
        "#123456"
    );
}

#[test]
fn slint_terminal_colors_resolves_builtin_theme() {
    let (default_theme_id, colors) = default_terminal_settings();

    assert_eq!(
        slint_terminal_colors(&default_theme_id, &colors, &vec![], "atom-one-dark")
            .primary
            .background,
        TerminalColors::atom_one_dark().primary.background
    );
}

#[test]
fn slint_terminal_colors_prefers_custom_theme_over_builtin() {
    let (default_theme_id, colors) = default_terminal_settings();
    let mut custom_colors = TerminalColors::atom_one_light();
    custom_colors.primary.background = "#010203".into();
    let themes = vec![TerminalThemeEntry {
        id: "atom-one-dark".into(),
        path: "custom/atom-one-dark.toml".into(),
        colors: custom_colors,
    }];

    assert_eq!(
        slint_terminal_colors(&default_theme_id, &colors, &themes, "atom-one-dark")
            .primary
            .background,
        "#010203"
    );
}

#[test]
fn slint_connection_selection_uses_requested_connection_and_credentials() {
    let workspace = WorkspaceData {
        connections: vec![
            Connection {
                id: 1,
                name: "Local".into(),
                connection_type: ConnectionType::Local,
                ..Connection::default()
            },
            Connection {
                id: 2,
                name: "Remote".into(),
                effective_key_id: Some(10),
                identity_id: Some(20),
                connection_type: ConnectionType::Ssh,
                ..Connection::default()
            },
        ],
        keys: vec![Key {
            id: 10,
            name: "prod".into(),
            ..Key::default()
        }],
        identities: vec![Identity {
            id: 20,
            name: "deploy".into(),
            ..Identity::default()
        }],
        ..WorkspaceData::default()
    };

    let selection = slint_connection_selection(&workspace, Some(2), "default");

    assert_eq!(selection.connection.id, 2);
    assert_eq!(
        selection.key.as_ref().map(|key| key.name.as_str()),
        Some("prod")
    );
    assert_eq!(
        selection
            .identity
            .as_ref()
            .map(|identity| identity.name.as_str()),
        Some("deploy")
    );
    assert_eq!(selection.fallback_title, "Remote");
}

#[test]
fn slint_connection_selection_falls_back_to_local_connection() {
    let workspace = WorkspaceData {
        connections: vec![Connection {
            id: 1,
            name: "Local Shell".into(),
            connection_type: ConnectionType::Local,
            ..Connection::default()
        }],
        ..WorkspaceData::default()
    };

    let selection = slint_connection_selection(&workspace, Some(999), "default");

    assert_eq!(selection.connection.id, 1);
    assert_eq!(selection.fallback_title, "Local Shell");
}
