use timon::keys::{KeyPlatform, TerminalKeyModifiers};
use timon::models::{Connection, ConnectionType, Identity, Key};
use timon::selection::{
    cursor_cell_width, selection_contents, slint_cursor_covers_cell, TerminalCell, TerminalColor,
    TerminalCursorShape, TerminalPoint, TerminalSelection, TerminalSnapshot,
};
use timon::shell::WorkspaceData;
use timon::terminal::{
    alternate_scroll_reports, clamped_grid_size, encode_text_input, focus_report, is_copy_shortcut,
    is_paste_shortcut, mouse_button_report, mouse_wheel_reports, requested_connection_id,
    scroll_action, shell_tab_target, shortcut_matches, slint_local_connection,
    terminal_fallback_title, terminal_window_title, ScrollAction, ScrollModes,
};

fn modifiers(alt: bool, control: bool, shift: bool, meta: bool) -> TerminalKeyModifiers {
    TerminalKeyModifiers {
        alt,
        control,
        shift,
        meta,
    }
}

#[test]
fn paste_keeps_single_lines_and_turns_lone_returns_into_line_breaks() {
    assert_eq!(encode_text_input("ls -la", true), b"ls -la".to_vec());
    assert_eq!(encode_text_input("a\rb", false), b"a\rb".to_vec());
    assert_eq!(encode_text_input("a\rb", true), b"\x1b[200~a\nb\x1b[201~".to_vec());
    assert_eq!(encode_text_input("\r\r\n", false), b"\r\r".to_vec());
    assert_eq!(encode_text_input("é\n", false), "é\r".as_bytes().to_vec());
}

#[test]
fn focus_reports_in_and_out() {
    assert_eq!(focus_report(true), b"\x1b[I".to_vec());
    assert_eq!(focus_report(false), b"\x1b[O".to_vec());
}

#[test]
fn mouse_reports_in_sgr_and_legacy_form() {
    let p = TerminalPoint { line: 1, column: 2 };
    assert_eq!(mouse_button_report(0, p, true, true), b"\x1b[<0;3;2M".to_vec());
    assert_eq!(
        mouse_button_report(32, TerminalPoint { line: 2, column: 4 }, true, true),
        b"\x1b[<32;5;3M".to_vec()
    );
    assert_eq!(
        mouse_button_report(0, TerminalPoint { line: 2, column: 4 }, false, true),
        b"\x1b[<0;5;3m".to_vec()
    );
    let origin = TerminalPoint { line: 0, column: 0 };
    assert_eq!(mouse_button_report(0, origin, true, false), vec![0x1b, b'[', b'M', 32, 33, 33]);
    assert_eq!(mouse_button_report(0, origin, false, false), vec![0x1b, b'[', b'M', 35, 33, 33]);
    let far = TerminalPoint { line: 500, column: 300 };
    assert_eq!(mouse_button_report(0, far, true, false), vec![0x1b, b'[', b'M', 32, 255, 255]);
    assert_eq!(mouse_button_report(0, far, true, true), b"\x1b[<0;301;501M".to_vec());
}

#[test]
fn wheel_reports_one_press_per_step() {
    let p = TerminalPoint { line: 0, column: 0 };
    let up = mouse_wheel_reports(2, p, true);
    assert_eq!(up, vec![b"\x1b[<64;1;1M".to_vec(), b"\x1b[<64;1;1M".to_vec()]);
    let down = mouse_wheel_reports(-1, p, false);
    assert_eq!(down, vec![vec![0x1b, b'[', b'M', 97, 33, 33]]);
    assert!(mouse_wheel_reports(0, p, true).is_empty());
}

#[test]
fn alternate_scroll_sends_cursor_keys() {
    assert_eq!(
        alternate_scroll_reports(1, false, KeyPlatform::Other),
        vec![b"\x1b[A".to_vec()]
    );
    assert_eq!(
        alternate_scroll_reports(-2, true, KeyPlatform::MacOs),
        vec![b"\x1bOB".to_vec(), b"\x1bOB".to_vec()]
    );
}

#[test]
fn wheel_goes_to_program_alternate_keys_or_scrollback() {
    let modes = |alt_screen, mouse_mode, alternate_scroll| ScrollModes {
        alt_screen,
        mouse_mode,
        sgr_mouse: true,
        alternate_scroll,
        app_cursor: false,
    };
    assert_eq!(scroll_action(0, modes(false, false, false)), ScrollAction::Ignore);
    assert_eq!(scroll_action(3, modes(false, false, false)), ScrollAction::ScrollDisplay(3));
    assert_eq!(
        scroll_action(3, modes(false, true, false)),
        ScrollAction::MouseWheel { sgr: true }
    );
    assert_eq!(
        scroll_action(-1, modes(true, false, true)),
        ScrollAction::ArrowKeys { app_cursor: false }
    );
    assert_eq!(scroll_action(-1, modes(true, false, false)), ScrollAction::Ignore);
    assert_eq!(
        scroll_action(1, modes(true, true, true)),
        ScrollAction::MouseWheel { sgr: true }
    );
}

#[test]
fn grid_keeps_two_columns_and_lines() {
    assert_eq!(clamped_grid_size(0, 1), (2, 2));
    assert_eq!(clamped_grid_size(80, 24), (80, 24));
}

#[test]
fn clipboard_shortcuts_follow_platform_conventions() {
    let control_shift = modifiers(false, true, true, false);
    let meta = modifiers(false, false, false, true);
    let control = modifiers(false, true, false, false);
    assert!(is_copy_shortcut("C", control_shift, KeyPlatform::Other));
    assert!(is_paste_shortcut("v", meta, KeyPlatform::Other));
    assert!(!is_copy_shortcut("c", control, KeyPlatform::Other));
    assert!(is_copy_shortcut("c", control, KeyPlatform::MacOs));
    assert!(!is_copy_shortcut("c", modifiers(false, true, false, true), KeyPlatform::MacOs));
    assert!(!shortcut_matches("cv", control, 'c', KeyPlatform::MacOs));
    assert!(!shortcut_matches("", control, 'c', KeyPlatform::MacOs));
}

#[test]
fn long_titles_are_cut_at_256_characters() {
    let long = "x".repeat(300);
    assert_eq!(terminal_window_title(&long, "Fallback").chars().count(), 256);
    assert_eq!(terminal_window_title("  a \u{7} b  ", "F"), "a b");
}

#[test]
fn connection_id_argument_edge_cases() {
    assert_eq!(requested_connection_id(&vec!["--connection-id".into()]), None);
    assert_eq!(
        requested_connection_id(&vec!["--other".into(), "--connection-id=-5".into()]),
        Some(-5)
    );
    assert_eq!(requested_connection_id(&vec![]), None);
}

#[test]
fn fallback_titles_by_connection_type() {
    let local = Connection {
        name: "  ".into(),
        connection_type: ConnectionType::Local,
        ..Connection::default()
    };
    assert_eq!(terminal_fallback_title(&local), "Local Shell");
    let ssh = Connection {
        name: "".into(),
        ..Connection::default()
    };
    assert_eq!(terminal_fallback_title(&ssh), "Timon Slint Terminal");
    let named = Connection {
        name: " box ".into(),
        ..Connection::default()
    };
    assert_eq!(terminal_fallback_title(&named), " box ");
}

#[test]
fn local_connection_placeholder_uses_default_theme() {
    let workspace = WorkspaceData::default();
    let c = slint_local_connection(&workspace, "atom-one-dark");
    assert_eq!(c.name, "Local Shell");
    assert_eq!(c.connection_type, ConnectionType::Local);
    assert_eq!(c.theme_id, "atom-one-dark");
}

#[test]
fn shell_tab_target_reports_bad_and_missing_identifiers() {
    let workspace = WorkspaceData {
        connections: vec![Connection {
            id: 3,
            key_id: Some(5),
            identity_id: Some(6),
            ..Connection::default()
        }],
        keys: vec![Key {
            id: 5,
            ..Key::default()
        }],
        identities: vec![Identity {
            id: 6,
            ..Identity::default()
        }],
        ..WorkspaceData::default()
    };
    assert_eq!(shell_tab_target(&workspace, "x").err(), Some("Invalid connection ID".to_string()));
    assert_eq!(shell_tab_target(&workspace, "4").err(), Some("Connection not found".to_string()));
    let (c, k, i) = shell_tab_target(&workspace, "3").unwrap();
    assert_eq!(c.id, 3);
    assert_eq!(k.map(|k| k.id), Some(5));
    assert_eq!(i.map(|i| i.id), Some(6));
}

fn color() -> TerminalColor {
    TerminalColor {
        red: 1,
        green: 2,
        blue: 3,
        alpha: 255,
    }
}

fn cell(text: &str, line: usize, column: usize, width: usize, hidden: bool) -> TerminalCell {
    TerminalCell {
        text: text.into(),
        fg: color(),
        bg: color(),
        underline: None,
        underline_color: color(),
        width,
        bold: false,
        italic: false,
        strikeout: false,
        dim: false,
        hidden,
        line,
        column,
    }
}

fn snapshot(cells: Vec<TerminalCell>) -> TerminalSnapshot {
    TerminalSnapshot {
        cells,
        cursor_line: 0,
        cursor_column: 1,
        cursor_width: 2,
        cursor_shape: TerminalCursorShape::Block,
        show_cursor: true,
        cursor_blinking: false,
        background: color(),
        cursor_color: color(),
        cursor_text: color(),
        selection_background: color(),
        selection_foreground: color(),
    }
}

#[test]
fn selection_text_sorts_cells_hides_hidden_and_trims_line_ends() {
    let s = snapshot(vec![
        cell("b", 0, 3, 1, false),
        cell("a", 0, 1, 1, false),
        cell("x", 0, 2, 1, true),
        cell(" ", 0, 4, 1, false),
        cell("界", 2, 0, 2, false),
        cell("z", 2, 2, 1, false),
    ]);
    let selection = TerminalSelection {
        start: TerminalPoint { line: 0, column: 0 },
        end: TerminalPoint { line: 2, column: 9 },
    };
    assert_eq!(selection_contents(&s, Some(&selection)), Some(" ab\n\n界z".into()));
    assert_eq!(selection_contents(&s, None), None);
    let empty = TerminalSelection {
        start: TerminalPoint { line: 5, column: 0 },
        end: TerminalPoint { line: 6, column: 0 },
    };
    assert_eq!(selection_contents(&s, Some(&empty)), None);
}

#[test]
fn cursor_width_and_coverage() {
    let s = snapshot(vec![cell("界", 0, 1, 2, false), cell("a", 0, 3, 1, false)]);
    assert_eq!(cursor_cell_width(&s.cells, TerminalPoint { line: 0, column: 2 }), 2);
    assert_eq!(cursor_cell_width(&s.cells, TerminalPoint { line: 0, column: 9 }), 1);
    assert!(slint_cursor_covers_cell(&s, &s.cells[0]));
    assert!(!slint_cursor_covers_cell(&s, &s.cells[1]));
}
