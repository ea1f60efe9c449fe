use timon::interaction::{
    cursor_blink_key, resize_command, session_event_effect, title_after_event, CursorBlink,
    PointerMove, PointerState, SessionEventEffect,
};
use timon::keys::KeyPlatform;
use timon::selection::{
    TerminalCell, TerminalColor, TerminalCursorShape, TerminalPoint, TerminalSelection,
    TerminalSnapshot,
};
use timon::session::{SessionCommand, SessionEvent};
use timon::shortcuts::{
    shortcut_text_matches, ShortcutKey, ShortcutKeyPress, ShortcutModifiers, ShortcutPattern,
    ShortcutPhysicalKey,
};
use timon::terminal::TerminalEvent;
use timon::theme::ShortcutSettings;

fn color() -> TerminalColor {
    TerminalColor {
        red: 0,
        green: 0,
        blue: 0,
        alpha: 255,
    }
}

fn cells_of(text: &str) -> Vec<TerminalCell> {
    text.chars()
        .enumerate()
        .map(|(column, ch)| TerminalCell {
            text: ch.to_string(),
            fg: color(),
            bg: color(),
            underline: None,
            underline_color: color(),
            width: 1,
            bold: false,
            italic: false,
            strikeout: false,
            dim: false,
            hidden: false,
            line: 0,
            column,
        })
        .collect()
}

#[test]
fn clicks_select_a_point_then_a_word_then_a_token() {
    let cells = cells_of("admin@10.0.1.10:/tmp");
    let p = TerminalPoint { line: 0, column: 6 };
    let mut state = PointerState::new();

    assert!(state.pointer_down(Some(p), false, 1000, &cells));
    assert_eq!(state.selection, Some(TerminalSelection { start: p, end: p }));
    assert!(state.dragging_selection);

    assert!(state.pointer_down(Some(p), false, 1300, &cells));
    assert_eq!(state.click_count, 2);
    assert_eq!(
        state.selection,
        Some(TerminalSelection {
            start: TerminalPoint { line: 0, column: 6 },
            end: TerminalPoint { line: 0, column: 7 },
        })
    );

    assert!(state.pointer_down(Some(p), false, 1700, &cells));
    assert_eq!(state.click_count, 3);
    assert_eq!(
        state.selection,
        Some(TerminalSelection {
            start: TerminalPoint { line: 0, column: 0 },
            end: TerminalPoint { line: 0, column: 19 },
        })
    );

    // too late for a repeated click
    assert!(state.pointer_down(Some(p), false, 2300, &cells));
    assert_eq!(state.click_count, 1);
}

#[test]
fn dragging_extends_the_selection_and_release_ends_it() {
    let cells = cells_of("hello");
    let mut state = PointerState::new();
    let a = TerminalPoint { line: 1, column: 4 };
    assert!(state.pointer_down(Some(a), false, 0, &cells));
    let b = TerminalPoint { line: 0, column: 2 };
    assert_eq!(state.pointer_moved(b), PointerMove::SelectionChanged);
    assert_eq!(state.selection, Some(TerminalSelection { start: b, end: a }));
    assert_eq!(state.pointer_moved(b), PointerMove::Unchanged);
    assert!(!state.pointer_up());
    assert_eq!(state.pointer_moved(a), PointerMove::Unchanged);
    assert!(state.clear_selection());
    assert!(!state.clear_selection());
}

#[test]
fn a_program_that_reports_the_mouse_takes_the_press() {
    let cells = cells_of("hello");
    let mut state = PointerState::new();
    let p = TerminalPoint { line: 0, column: 0 };
    assert!(state.pointer_down(Some(p), false, 0, &cells));
    assert!(state.pointer_down(Some(p), true, 5000, &cells));
    assert_eq!(state.selection, None);
    assert_eq!(state.pointer_moved(p), PointerMove::ReportDrag);
    assert!(state.pointer_up());
    assert!(!state.pointer_down(None, false, 6000, &cells));
}

#[test]
fn the_cursor_blinks_only_when_shown_and_blinking() {
    let snapshot = TerminalSnapshot {
        cells: Vec::new(),
        cursor_line: 0,
        cursor_column: 0,
        cursor_width: 1,
        cursor_shape: TerminalCursorShape::Block,
        show_cursor: true,
        cursor_blinking: true,
        background: color(),
        cursor_color: color(),
        cursor_text: color(),
        selection_background: color(),
        selection_foreground: color(),
    };
    let key = cursor_blink_key(&snapshot);
    let mut blink = CursorBlink::new(0);
    assert!(blink.update(key, 100));
    assert!(blink.visible);
    assert!(!blink.update(key, 500));
    assert!(blink.update(key, 700));
    assert!(!blink.visible);
    assert!(blink.update(key, 1300));
    assert!(blink.visible);
    blink.reset(2000);
    assert!(blink.visible);
    let steady = cursor_blink_key(&TerminalSnapshot {
        cursor_blinking: false,
        ..snapshot
    });
    assert!(blink.update(steady, 2700));
    assert!(!blink.update(steady, 3400));
    assert!(blink.visible);
}

#[test]
fn sessions_hear_of_resizes_capped_to_sixteen_bits() {
    match resize_command(80, 70000) {
        SessionCommand::Resize { cols, rows } => {
            assert_eq!(cols, 80);
            assert_eq!(rows, 65535);
        }
        other => panic!("expected a resize, got {other:?}"),
    }
}

#[test]
fn session_and_emulator_events_reach_the_window() {
    match session_event_effect(SessionEvent::Error("boom".into())) {
        SessionEventEffect::LocalLine(line) => assert_eq!(line, "Disconnected: boom"),
        other => panic!("unexpected {other:?}"),
    }
    match session_event_effect(SessionEvent::Output(vec![1, 2])) {
        SessionEventEffect::Feed(bytes) => assert_eq!(bytes, vec![1, 2]),
        other => panic!("unexpected {other:?}"),
    }
    assert!(matches!(
        session_event_effect(SessionEvent::Status("x".into())),
        SessionEventEffect::Nothing
    ));
    assert_eq!(
        title_after_event(&TerminalEvent::Title("vim\tx".into()), "Default"),
        "vim x"
    );
    assert_eq!(title_after_event(&TerminalEvent::ResetTitle, "Default"), "Default");
}

#[test]
fn default_shortcuts_parse() {
    let shortcuts = ShortcutSettings::default();
    let close = ShortcutPattern::parse(&shortcuts.close_tab).unwrap();
    assert!(close.command);
    assert_eq!(close.key, Some(ShortcutKey::Latin('w')));
    let previous = ShortcutPattern::parse(&shortcuts.previous_tab).unwrap();
    assert!(previous.shift);
    assert_eq!(previous.key, Some(ShortcutKey::BracketLeft));
    let third = ShortcutPattern::parse(&shortcuts.tab_switches[2]).unwrap();
    assert_eq!(third.key, Some(ShortcutKey::Digit(3)));
    let settings = ShortcutPattern::parse(&shortcuts.open_settings).unwrap();
    assert_eq!(settings.key, Some(ShortcutKey::Comma));
}

#[test]
fn malformed_shortcuts_do_not_parse() {
    assert_eq!(ShortcutPattern::parse("Command+Shift"), None);
    assert_eq!(ShortcutPattern::parse("Command+Hyper+K"), None);
    assert_eq!(ShortcutPattern::parse(""), None);
    let spaced = ShortcutPattern::parse(" ctrl + + K ").unwrap();
    assert!(spaced.control);
    assert_eq!(spaced.key, Some(ShortcutKey::Latin('k')));
}

#[test]
fn shortcuts_match_keys_and_modifiers() {
    let command = ShortcutModifiers {
        command: true,
        shift: false,
        alt: false,
        control: false,
        logo: false,
    };
    let w = ShortcutKeyPress {
        latin: Some('W'),
        physical: ShortcutPhysicalKey::Other,
        typed: Some('W'),
    };
    assert!(shortcut_text_matches("Command+W", w, command, KeyPlatform::MacOs));
    assert!(!shortcut_text_matches("Command+Shift+W", w, command, KeyPlatform::MacOs));
    let comma = ShortcutKeyPress {
        latin: None,
        physical: ShortcutPhysicalKey::Comma,
        typed: None,
    };
    assert!(shortcut_text_matches("Command+,", comma, command, KeyPlatform::Other));
    let with_control = ShortcutModifiers {
        control: true,
        ..command
    };
    assert!(shortcut_text_matches("Command+,", comma, with_control, KeyPlatform::Other));
    assert!(!shortcut_text_matches("Command+,", comma, with_control, KeyPlatform::MacOs));
    let digit = ShortcutKeyPress {
        latin: Some('3'),
        physical: ShortcutPhysicalKey::Other,
        typed: Some('3'),
    };
    assert!(shortcut_text_matches("Command+3", digit, command, KeyPlatform::MacOs));
    assert!(!shortcut_text_matches("Command+4", digit, command, KeyPlatform::MacOs));
}
