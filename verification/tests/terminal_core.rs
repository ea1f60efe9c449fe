use timon::keys::{
    ctrl_sequence, encode_key_text, special_key_sequence, KeyPlatform, TerminalKeyModifiers,
};
use timon::selection::{
    selection_at, selection_contents, SelectionGranularity, TerminalCell, TerminalColor,
    TerminalCursorShape, TerminalPoint, TerminalSelection, TerminalSnapshot,
};
use timon::terminal::encode_text_input;

/// The tests run on a host whose key conventions are the non-macOS ones.
const HOST: KeyPlatform = KeyPlatform::Other;

fn modifiers(alt: bool, control: bool, shift: bool, meta: bool) -> TerminalKeyModifiers {
    TerminalKeyModifiers {
        alt,
        control,
        shift,
        meta,
    }
}

fn platform_terminal_control_modifiers() -> TerminalKeyModifiers {
    modifiers(false, true, false, false)
}

#[test]
fn ctrl_sequence_encodes_letters() {
    assert_eq!(ctrl_sequence("c"), Some(vec![0x03]));
    assert_eq!(ctrl_sequence("C"), Some(vec![0x03]));
}

#[test]
fn special_key_sequence_encodes_shift_alt_arrow() {
    assert_eq!(
        special_key_sequence("\u{F700}", modifiers(true, false, true, false), false, HOST),
        Some(b"\x1b[1;4A".to_vec())
    );
}

#[test]
fn special_key_sequence_encodes_basic_named_keys() {
    let none = TerminalKeyModifiers::default();

    assert_eq!(special_key_sequence("\u{000a}", none, false, HOST), Some(b"\r".to_vec()));
    assert_eq!(special_key_sequence("\u{0008}", none, false, HOST), Some(vec![0x7f]));
    assert_eq!(special_key_sequence("\u{001b}", none, false, HOST), Some(vec![0x1b]));
    assert_eq!(special_key_sequence("\u{F729}", none, false, HOST), Some(b"\x1b[H".to_vec()));
    assert_eq!(special_key_sequence("\u{F72B}", none, false, HOST), Some(b"\x1b[F".to_vec()));
    assert_eq!(special_key_sequence("\u{F727}", none, false, HOST), Some(b"\x1b[2~".to_vec()));
    assert_eq!(special_key_sequence("\u{007f}", none, false, HOST), Some(b"\x1b[3~".to_vec()));
    assert_eq!(special_key_sequence("\u{F72C}", none, false, HOST), Some(b"\x1b[5~".to_vec()));
    assert_eq!(special_key_sequence("\u{F72D}", none, false, HOST), Some(b"\x1b[6~".to_vec()));
}

#[test]
fn special_key_sequence_encodes_tab_variants() {
    let none = TerminalKeyModifiers::default();

    assert_eq!(special_key_sequence("\u{0009}", none, false, HOST), Some(b"\t".to_vec()));
    assert_eq!(
        special_key_sequence("\u{0009}", modifiers(false, false, true, false), false, HOST),
        Some(b"\x1b[Z".to_vec())
    );
    assert_eq!(special_key_sequence("\u{0019}", none, false, HOST), Some(b"\x1b[Z".to_vec()));
}

#[test]
fn special_key_sequence_respects_application_cursor_mode() {
    let none = TerminalKeyModifiers::default();

    assert_eq!(special_key_sequence("\u{F700}", none, false, HOST), Some(b"\x1b[A".to_vec()));
    assert_eq!(special_key_sequence("\u{F700}", none, true, HOST), Some(b"\x1bOA".to_vec()));
    assert_eq!(
        special_key_sequence("\u{F700}", modifiers(false, false, true, false), true, HOST),
        Some(b"\x1b[1;2A".to_vec())
    );
}

#[test]
fn special_key_sequence_encodes_control_arrow() {
    assert_eq!(
        special_key_sequence("\u{F702}", platform_terminal_control_modifiers(), false, HOST),
        Some(b"\x1b[1;5D".to_vec())
    );
}

#[test]
fn special_key_sequence_encodes_control_delete() {
    assert_eq!(
        special_key_sequence("\u{007f}", platform_terminal_control_modifiers(), false, HOST),
        Some(b"\x1b[3;5~".to_vec())
    );
}

#[test]
fn special_key_sequence_encodes_function_keys() {
    assert_eq!(
        special_key_sequence("\u{F708}", TerminalKeyModifiers::default(), false, HOST),
        Some(b"\x1b[15~".to_vec())
    );
}

#[test]
fn special_key_sequence_encodes_modified_function_keys() {
    assert_eq!(
        special_key_sequence("\u{F704}", modifiers(true, false, true, false), false, HOST),
        Some(b"\x1b[1;4P".to_vec())
    );
    assert_eq!(
        special_key_sequence("\u{F708}", platform_terminal_control_modifiers(), false, HOST),
        Some(b"\x1b[15;5~".to_vec())
    );
}

#[test]
fn encode_key_text_falls_through_from_control_to_special_keys() {
    assert_eq!(
        encode_key_text("\u{F702}", platform_terminal_control_modifiers(), false, HOST),
        Some(b"\x1b[1;5D".to_vec())
    );
}

#[test]
fn encode_key_text_keeps_control_characters_for_text() {
    assert_eq!(
        encode_key_text("c", platform_terminal_control_modifiers(), false, HOST),
        Some(vec![0x03])
    );
}

#[test]
fn command_modifier_is_not_terminal_control() {
    let command = modifiers(false, false, false, true);

    assert!(command.command_modifier(HOST));
    assert!(!command.terminal_control(HOST));
}

#[test]
fn platform_terminal_control_is_distinct_from_command() {
    let control = platform_terminal_control_modifiers();

    assert!(control.terminal_control(HOST));
    assert!(!control.command_modifier(HOST));
}

fn test_color() -> TerminalColor {
    TerminalColor {
        red: 0,
        green: 0,
        blue: 0,
        alpha: 255,
    }
}

fn test_cell(text: &str, line: usize, column: usize) -> TerminalCell {
    TerminalCell {
        text: text.into(),
        fg: test_color(),
        bg: test_color(),
        underline: None,
        underline_color: test_color(),
        width: 1,
        bold: false,
        italic: false,
        strikeout: false,
        dim: false,
        hidden: false,
        line,
        column,
    }
}

fn test_snapshot(cells: Vec<TerminalCell>) -> TerminalSnapshot {
    TerminalSnapshot {
        cells,
        cursor_line: 0,
        cursor_column: 0,
        cursor_width: 1,
        cursor_shape: TerminalCursorShape::Block,
        show_cursor: false,
        cursor_blinking: false,
        background: test_color(),
        cursor_color: test_color(),
        cursor_text: test_color(),
        selection_background: test_color(),
        selection_foreground: test_color(),
    }
}

fn test_cells_from_line(text: &str, line: usize) -> Vec<TerminalCell> {
    text.chars()
        .enumerate()
        .map(|(column, ch)| test_cell(&ch.to_string(), line, column))
        .collect()
}

#[test]
fn selection_contents_preserves_rows_and_gaps() {
    let snapshot = test_snapshot(vec![
        test_cell("a", 0, 0),
        test_cell("b", 0, 2),
        test_cell("c", 1, 1),
    ]);
    let selection = TerminalSelection {
        start: TerminalPoint { line: 0, column: 0 },
        end: TerminalPoint { line: 1, column: 1 },
    };

    assert_eq!(
        selection_contents(&snapshot, Some(&selection)),
        Some("a b\n c".into())
    );
}

#[test]
fn paste_text_normalizes_newlines_without_bracketed_mode() {
    assert_eq!(encode_text_input("a\r\nb\nc", false), b"a\rb\rc".to_vec());
}

#[test]
fn paste_text_uses_bracketed_paste_for_multiline_content() {
    assert_eq!(
        encode_text_input("a\r\nb", true),
        b"\x1b[200~a\nb\x1b[201~".to_vec()
    );
}

#[test]
fn word_selection_stops_at_terminal_token_symbols() {
    let snapshot = test_snapshot(test_cells_from_line("admin@10.0.1.10:/tmp", 0));

    assert_eq!(
        selection_at(
            &snapshot.cells,
            TerminalPoint { line: 0, column: 6 },
            SelectionGranularity::Word
        ),
        TerminalSelection {
            start: TerminalPoint { line: 0, column: 6 },
            end: TerminalPoint { line: 0, column: 7 },
        }
    );
}

#[test]
fn token_selection_keeps_terminal_paths_together() {
    let snapshot = test_snapshot(test_cells_from_line("admin@10.0.1.10:/tmp", 0));

    assert_eq!(
        selection_at(
            &snapshot.cells,
            TerminalPoint { line: 0, column: 6 },
            SelectionGranularity::Token
        ),
        TerminalSelection {
            start: TerminalPoint { line: 0, column: 0 },
            end: TerminalPoint {
                line: 0,
                column: "admin@10.0.1.10:/tmp".len() - 1,
            },
        }
    );
}

#[test]
fn selection_at_missing_cell_returns_point_selection() {
    let snapshot = test_snapshot(vec![test_cell("a", 0, 0)]);

    assert_eq!(
        selection_at(
            &snapshot.cells,
            TerminalPoint { line: 0, column: 5 },
            SelectionGranularity::Word
        ),
        TerminalSelection {
            start: TerminalPoint { line: 0, column: 5 },
            end: TerminalPoint { line: 0, column: 5 },
        }
    );
}
