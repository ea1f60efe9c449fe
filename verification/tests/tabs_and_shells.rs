use timon::keys::KeyPlatform;
use timon::models::{Connection, ConnectionType, Group};
use timon::persistence::{available_local_shells, available_windows_shells};
use timon::shell::{filtered_connections, group_display_name, search_matches};
use timon::shortcuts::{
    tab_switch_shortcut_index, ShortcutKeyPress, ShortcutModifiers, ShortcutPhysicalKey,
};
use timon::tabs::{ActiveTab, TabStrip};
use timon::text::eq_ignore_ascii_case;
use timon::theme::ShortcutSettings;

fn strip_with(ids: &[u64]) -> TabStrip {
    let mut strip = TabStrip::new();
    for id in ids {
        strip.open_tab(*id);
    }
    strip
}

#[test]
fn opening_a_tab_shows_and_focuses_it() {
    let strip = strip_with(&[7, 9]);
    assert_eq!(strip.tab_ids, vec![7, 9]);
    assert_eq!(strip.active_tab, ActiveTab::Terminal(9));
    assert_eq!(strip.terminal_focus, Some(9));
    assert_eq!(strip.active_tab_index(), 2);
}

#[test]
fn tabs_are_activated_by_strip_position() {
    let mut strip = strip_with(&[7, 9, 11]);
    assert!(strip.activate_tab_index(0));
    assert_eq!(strip.active_tab, ActiveTab::Manage);
    assert_eq!(strip.terminal_focus, None);
    assert!(strip.activate_tab_index(2));
    assert_eq!(strip.active_tab, ActiveTab::Terminal(9));
    assert_eq!(strip.terminal_focus, Some(9));
    assert_eq!(strip.active_tab_index(), 2);
    assert!(!strip.activate_tab_index(4));
    assert_eq!(strip.active_tab, ActiveTab::Terminal(9));
}

#[test]
fn adjacent_tabs_wrap_around_and_undo_each_other() {
    let mut strip = strip_with(&[7, 9]);
    assert!(strip.activate_adjacent_tab(1));
    assert_eq!(strip.active_tab, ActiveTab::Manage);
    assert!(strip.activate_adjacent_tab(-1));
    assert_eq!(strip.active_tab, ActiveTab::Terminal(9));
    assert!(strip.activate_adjacent_tab(-1));
    assert!(strip.activate_adjacent_tab(-1));
    assert_eq!(strip.active_tab, ActiveTab::Manage);

    let mut lone = TabStrip::new();
    assert!(!lone.activate_adjacent_tab(1));
    assert_eq!(lone.active_tab, ActiveTab::Manage);
}

#[test]
fn closing_the_shown_tab_shows_its_neighbour() {
    let mut strip = strip_with(&[7, 9, 11]);
    strip.activate_terminal(9);
    assert_eq!(strip.close_terminal_tab(9), Some(1));
    assert_eq!(strip.tab_ids, vec![7, 11]);
    assert_eq!(strip.active_tab, ActiveTab::Terminal(11));
    assert_eq!(strip.terminal_focus, Some(11));

    assert_eq!(strip.close_terminal_tab(11), Some(1));
    assert_eq!(strip.active_tab, ActiveTab::Terminal(7));

    assert_eq!(strip.close_terminal_tab(42), None);
    assert!(strip.close_active_terminal_tab());
    assert!(strip.tab_ids.is_empty());
    assert_eq!(strip.active_tab, ActiveTab::Manage);
    assert_eq!(strip.terminal_focus, None);
    assert!(!strip.close_active_terminal_tab());
}

#[test]
fn closing_the_focused_background_tab_moves_focus_to_the_last_tab() {
    let mut strip = strip_with(&[7, 9, 11]);
    strip.activate_manage();
    strip.terminal_focus = Some(7);
    assert_eq!(strip.close_terminal_tab(7), Some(0));
    assert_eq!(strip.active_tab, ActiveTab::Manage);
    assert_eq!(strip.terminal_focus, Some(11));
}

#[test]
fn tab_switch_shortcuts_name_their_tab() {
    let settings = ShortcutSettings::default();
    let command = ShortcutModifiers {
        command: true,
        shift: false,
        alt: false,
        control: false,
        logo: false,
    };
    let press = |c: char| ShortcutKeyPress {
        latin: Some(c),
        physical: ShortcutPhysicalKey::Other,
        typed: Some(c),
    };
    assert_eq!(
        tab_switch_shortcut_index(&settings, press('1'), command, KeyPlatform::MacOs),
        Some(0)
    );
    assert_eq!(
        tab_switch_shortcut_index(&settings, press('9'), command, KeyPlatform::MacOs),
        Some(8)
    );
    assert_eq!(
        tab_switch_shortcut_index(&settings, press('0'), command, KeyPlatform::MacOs),
        None
    );
    let plain = ShortcutModifiers {
        command: false,
        ..command
    };
    assert_eq!(
        tab_switch_shortcut_index(&settings, press('1'), plain, KeyPlatform::MacOs),
        None
    );
}

#[test]
fn groups_are_listed_under_their_parent() {
    let groups = vec![
        Group {
            id: 1,
            name: "Prod".into(),
            parent_id: None,
        },
        Group {
            id: 2,
            name: "Web".into(),
            parent_id: Some(1),
        },
        Group {
            id: 3,
            name: "Orphan".into(),
            parent_id: Some(99),
        },
    ];
    assert_eq!(group_display_name(&groups, &groups[0]), "Prod");
    assert_eq!(group_display_name(&groups, &groups[1]), "Prod / Web");
    assert_eq!(group_display_name(&groups, &groups[2]), "Orphan");
}

#[test]
fn unix_shells_come_from_the_shells_file_and_the_login_shell() {
    let file = "# List of acceptable shells\n/bin/sh\n  /bin/bash  \r\n\nnologin\n/usr/bin/fish";
    assert_eq!(
        available_local_shells(Some(file.into()), Some("/bin/bash".into())),
        vec!["/bin/sh", "/bin/bash", "/usr/bin/fish"]
    );
    assert_eq!(
        available_local_shells(Some(file.into()), Some("/bin/zsh".into())),
        vec!["/bin/zsh", "/bin/sh", "/bin/bash", "/usr/bin/fish"]
    );
    assert_eq!(
        available_local_shells(None, None),
        vec!["/bin/zsh", "/bin/bash", "/bin/sh", "/opt/homebrew/bin/fish"]
    );
    assert_eq!(
        available_local_shells(Some("# nothing\n".into()), Some("/bin/ksh".into())),
        vec!["/bin/ksh"]
    );
}

#[test]
fn windows_shells_put_an_unknown_command_interpreter_first() {
    assert_eq!(
        available_windows_shells(None),
        vec!["pwsh.exe", "powershell.exe", "cmd.exe"]
    );
    assert_eq!(
        available_windows_shells(Some("CMD.EXE".into())),
        vec!["pwsh.exe", "powershell.exe", "cmd.exe"]
    );
    assert_eq!(
        available_windows_shells(Some("C:\\Windows\\system32\\cmd.exe".into())),
        vec!["C:\\Windows\\system32\\cmd.exe", "pwsh.exe", "powershell.exe", "cmd.exe"]
    );
}

#[test]
fn ascii_case_is_ignored_only_for_ascii_letters() {
    assert!(eq_ignore_ascii_case("PwSh.EXE", "pwsh.exe"));
    assert!(!eq_ignore_ascii_case("pwsh", "pwsh.exe"));
    assert!(!eq_ignore_ascii_case("Ä", "ä"));
}

#[test]
fn a_blank_search_keeps_every_connection() {
    let groups = Vec::new();
    let connections = vec![
        Connection {
            id: 1,
            name: "Local Shell".into(),
            connection_type: ConnectionType::Local,
            ..Connection::default()
        },
        Connection {
            id: 2,
            name: "Web".into(),
            host: "10.0.0.2".into(),
            connection_type: ConnectionType::Ssh,
            ..Connection::default()
        },
    ];
    let all: Vec<i64> = filtered_connections(&groups, &connections, "  \t ")
        .iter()
        .map(|c| c.id)
        .collect();
    assert_eq!(all, vec![1, 2]);
    assert!(search_matches("", &Vec::new()));
    assert!(!search_matches("x", &Vec::new()));
}

#[test]
fn previews_of_valid_text_are_the_text() {
    let text = "héllo, 世界\n";
    assert_eq!(timon::session::sftp_preview_text(&text.as_bytes().to_vec()), text);
}
