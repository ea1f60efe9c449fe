use timon::keys::KeyPlatform;
use timon::models::{Connection, ConnectionType, ManageMenu, SftpEntry};
use timon::selection::{TerminalPoint, TerminalSelection};
use timon::session::SessionEvent;
use timon::shortcuts::{ShortcutKeyPress, ShortcutModifiers, ShortcutPhysicalKey};
use timon::tabs::{ActiveTab, TabStrip};
use timon::theme::ShortcutSettings;
use timon::workspace::{
    update, AppAction, AppEvent, ConnectionField, Drawer, LocalUser, RecordKind, RecordToSave,
    WorkspaceModel,
};

fn model(connections: Vec<Connection>) -> WorkspaceModel {
    WorkspaceModel {
        connections,
        groups: Vec::new(),
        keys: Vec::new(),
        identities: Vec::new(),
        port_forwards: Vec::new(),
        selected_menu: ManageMenu::Connections,
        tabs: TabStrip::new(),
        tab_infos: Vec::new(),
        next_terminal_id: 1,
        composer_focus: None,
        drawer: None,
        context_menu: None,
        active_group_context: None,
        active_port_forward_context: None,
        logs: Vec::new(),
        settings_window_open: false,
        shortcuts: ShortcutSettings::default(),
        platform: KeyPlatform::Other,
        known_hosts_path: "/tmp/known_hosts".to_string(),
    }
}

fn web() -> Connection {
    Connection { id: 4, name: "web".into(), host: "10.0.0.4".into(), ..Connection::default() }
}

fn local_user() -> LocalUser {
    LocalUser { user: "ann".into(), host: "box".into(), home: Some("/home/ann".into()) }
}

fn command_key(c: char) -> (ShortcutKeyPress, ShortcutModifiers) {
    (
        ShortcutKeyPress { latin: Some(c), physical: ShortcutPhysicalKey::Other, typed: Some(c) },
        ShortcutModifiers { command: true, shift: false, alt: false, control: true, logo: false },
    )
}

fn plain_key(c: char) -> (ShortcutKeyPress, ShortcutModifiers) {
    (
        ShortcutKeyPress { latin: Some(c), physical: ShortcutPhysicalKey::Other, typed: Some(c) },
        ShortcutModifiers { command: false, shift: false, alt: false, control: false, logo: false },
    )
}

fn press(state: &mut WorkspaceModel, settings: bool, key: (ShortcutKeyPress, ShortcutModifiers)) -> AppAction {
    let named = key.0.typed;
    update(state, AppEvent::KeyPressed(settings, key.0, key.1, named))
}

#[test]
fn choosing_the_settings_page_opens_the_settings_window() {
    let mut state = model(Vec::new());
    let action = update(&mut state, AppEvent::SelectMenu(ManageMenu::Settings));
    assert!(matches!(action, AppAction::OpenSettingsWindow));
    assert_eq!(state.selected_menu, ManageMenu::Settings);
    let action = update(&mut state, AppEvent::SelectMenu(ManageMenu::Logs));
    assert!(matches!(action, AppAction::Nothing));
}

#[test]
fn the_settings_window_opens_once() {
    let mut state = model(Vec::new());
    update(&mut state, AppEvent::SettingsWindowReady);
    assert!(matches!(update(&mut state, AppEvent::OpenSettingsWindow), AppAction::Nothing));
    assert!(matches!(update(&mut state, AppEvent::SelectMenu(ManageMenu::Settings)), AppAction::Nothing));
    update(&mut state, AppEvent::WindowClosed(true));
    assert!(matches!(update(&mut state, AppEvent::OpenSettingsWindow), AppAction::OpenSettingsWindow));
    assert!(matches!(update(&mut state, AppEvent::WindowClosed(false)), AppAction::Exit));
}

#[test]
fn connecting_opens_a_focused_tab_and_asks_for_a_session() {
    let mut state = model(vec![web()]);
    let action = update(&mut state, AppEvent::ConnectConnection(4, 80, 24, local_user()));
    match action {
        AppAction::ConnectTerminal(id, target) => {
            assert_eq!(id, 1);
            assert_eq!(target.connection.name, "web");
            assert_eq!(target.known_hosts_path, "/tmp/known_hosts");
            assert_eq!((target.cols, target.rows), (80, 24));
        }
        other => panic!("unexpected {other:?}"),
    }
    assert_eq!(state.next_terminal_id, 2);
    assert_eq!(state.tabs.tab_ids, vec![1]);
    assert_eq!(state.tabs.active_tab, ActiveTab::Terminal(1));
    assert_eq!(state.tab_infos[0].title, "web");
    assert_eq!(state.tab_infos[0].status, "Connecting");
    assert_eq!(state.logs.last().unwrap(), "开始连接 connection: web");
}

#[test]
fn connecting_to_an_unknown_connection_only_logs() {
    let mut state = model(vec![web()]);
    let action = update(&mut state, AppEvent::ConnectConnection(7, 80, 24, local_user()));
    assert!(matches!(action, AppAction::Nothing));
    assert!(state.tab_infos.is_empty());
    assert_eq!(state.logs, vec!["未找到 connection #7".to_string()]);
}

#[test]
fn a_local_tab_is_titled_user_at_host_and_directory() {
    let shell = Connection {
        id: 2,
        name: "shell".into(),
        connection_type: ConnectionType::Local,
        work_dir: "/home/ann/src".into(),
        ..Connection::default()
    };
    let mut state = model(vec![shell]);
    update(&mut state, AppEvent::ConnectConnection(2, 80, 24, local_user()));
    assert_eq!(state.tab_infos[0].title, "ann@box:~/src");
}

#[test]
fn session_events_update_the_tab_and_the_log() {
    let mut state = model(vec![web()]);
    update(&mut state, AppEvent::ConnectConnection(4, 80, 24, local_user()));
    let action = update(&mut state, AppEvent::TerminalConnected(1, Ok(())));
    assert!(matches!(action, AppAction::Nothing));
    assert_eq!(state.tab_infos[0].status, "Connected");
    assert!(state.tab_infos[0].connected);

    let action = update(&mut state, AppEvent::TerminalSessionEvent(1, SessionEvent::Output(b"hi".to_vec())));
    assert!(matches!(action, AppAction::FeedTerminal(1, ref bytes) if bytes == b"hi"));

    let action = update(&mut state, AppEvent::TerminalSessionEvent(1, SessionEvent::Error("boom".into())));
    assert!(matches!(action, AppAction::TerminalLine(1, ref line) if line == "Error: boom"));
    assert_eq!(state.tab_infos[0].status, "boom");
    assert_eq!(state.logs.last().unwrap(), "web: boom");

    let action = update(
        &mut state,
        AppEvent::TerminalSessionEvent(1, SessionEvent::Disconnected("bye".into())),
    );
    assert!(matches!(action, AppAction::TerminalLine(1, ref line) if line == "Disconnected: bye"));
    assert!(!state.tab_infos[0].connected);
}

#[test]
fn a_failed_connection_is_shown_in_the_tab() {
    let mut state = model(vec![web()]);
    update(&mut state, AppEvent::ConnectConnection(4, 80, 24, local_user()));
    let action = update(&mut state, AppEvent::TerminalConnected(1, Err("refused".into())));
    assert!(matches!(action, AppAction::TerminalLine(1, ref line) if line == "Connection error: refused"));
    assert_eq!(state.tab_infos[0].status, "refused");
    assert_eq!(state.logs.last().unwrap(), "web: refused");
}

#[test]
fn closing_a_connected_tab_disconnects_it() {
    let mut state = model(vec![web()]);
    update(&mut state, AppEvent::ConnectConnection(4, 80, 24, local_user()));
    update(&mut state, AppEvent::TerminalConnected(1, Ok(())));
    let action = update(&mut state, AppEvent::CloseTerminal(1));
    assert!(matches!(action, AppAction::DisconnectTab(1)));
    assert!(state.tab_infos.is_empty());
    assert_eq!(state.tabs.active_tab, ActiveTab::Manage);
}

#[test]
fn opening_then_closing_a_tab_restores_the_strip() {
    let mut state = model(vec![web()]);
    update(&mut state, AppEvent::ConnectConnection(4, 80, 24, local_user()));
    let action = update(&mut state, AppEvent::CloseTerminal(1));
    assert!(matches!(action, AppAction::Nothing));
    assert!(state.tabs.tab_ids.is_empty());
    assert!(state.tab_infos.is_empty());
}

#[test]
fn terminal_titles_follow_the_program_and_fall_back() {
    let mut state = model(vec![web()]);
    update(&mut state, AppEvent::ConnectConnection(4, 80, 24, local_user()));
    update(&mut state, AppEvent::TerminalRetitled(1, Some("  vim  ".into())));
    assert_eq!(state.tab_infos[0].title, "vim");
    update(&mut state, AppEvent::TerminalRetitled(1, Some("   ".into())));
    assert_eq!(state.tab_infos[0].title, "vim");
    update(&mut state, AppEvent::TerminalRetitled(1, None));
    assert_eq!(state.tab_infos[0].title, "web");
}

#[test]
fn close_tab_shortcut_closes_a_window_on_the_management_tab() {
    let mut state = model(Vec::new());
    assert!(matches!(press(&mut state, false, command_key('w')), AppAction::CloseMainWindow));
    assert!(matches!(press(&mut state, true, command_key('w')), AppAction::CloseSettingsWindow));
    assert!(matches!(press(&mut state, true, plain_key('x')), AppAction::Nothing));
}

#[test]
fn tab_shortcuts_switch_tabs() {
    let mut state = model(vec![web()]);
    update(&mut state, AppEvent::ConnectConnection(4, 80, 24, local_user()));
    update(&mut state, AppEvent::ConnectConnection(4, 80, 24, local_user()));
    assert_eq!(state.tabs.active_tab, ActiveTab::Terminal(2));
    press(&mut state, false, command_key('1'));
    assert_eq!(state.tabs.active_tab, ActiveTab::Manage);
    assert_eq!(state.tabs.terminal_focus, None);
    press(&mut state, false, command_key('2'));
    assert_eq!(state.tabs.active_tab, ActiveTab::Terminal(1));
    assert_eq!(state.tabs.terminal_focus, Some(1));
}

#[test]
fn copy_paste_and_typing_go_to_the_focused_terminal() {
    let mut state = model(vec![web()]);
    update(&mut state, AppEvent::ConnectConnection(4, 80, 24, local_user()));
    assert!(matches!(press(&mut state, false, command_key('c')), AppAction::Nothing));
    let at = TerminalPoint { line: 0, column: 3 };
    update(&mut state, AppEvent::TerminalSelectionStarted(1, at));
    match press(&mut state, false, command_key('c')) {
        AppAction::CopySelection(1, sel) => assert_eq!(sel, TerminalSelection { start: at, end: at }),
        other => panic!("unexpected {other:?}"),
    }
    assert!(matches!(press(&mut state, false, command_key('v')), AppAction::PasteClipboard(1)));
    assert!(matches!(press(&mut state, false, plain_key('a')), AppAction::SendKey(1)));
    update(&mut state, AppEvent::ComposerFocused(9));
    assert_eq!(state.composer_focus, None);
    update(&mut state, AppEvent::ComposerFocused(1));
    assert_eq!(state.composer_focus, Some(1));
    assert!(matches!(press(&mut state, false, command_key('v')), AppAction::Nothing));
    assert!(matches!(press(&mut state, false, plain_key('a')), AppAction::Nothing));
}

#[test]
fn saving_a_connection_form_checks_it_first() {
    let mut state = model(Vec::new());
    update(&mut state, AppEvent::NewConnection);
    assert!(matches!(state.drawer, Some(Drawer::Connection(_))));
    update(&mut state, AppEvent::ConnectionFieldChanged(ConnectionField::Name, "  ".into()));
    let action = update(&mut state, AppEvent::SaveConnection);
    assert!(matches!(action, AppAction::Nothing));
    assert_eq!(state.logs.last().unwrap(), "Connection 名称不能为空");

    update(&mut state, AppEvent::ConnectionFieldChanged(ConnectionField::Name, " db ".into()));
    match update(&mut state, AppEvent::SaveConnection) {
        AppAction::SaveRecord(RecordToSave::Connection(c)) => assert_eq!(c.name, "db"),
        other => panic!("unexpected {other:?}"),
    }
    let action = update(&mut state, AppEvent::RecordSaved(RecordKind::Connection, Ok("db".into())));
    assert!(matches!(action, AppAction::ReloadData));
    assert!(state.drawer.is_none());
    assert_eq!(state.logs.last().unwrap(), "已保存 connection: db");
}

#[test]
fn duplicating_and_deleting_connections_name_the_record() {
    let mut state = model(vec![web()]);
    match update(&mut state, AppEvent::DuplicateConnection(4)) {
        AppAction::SaveDuplicate(c) => {
            assert_eq!(c.id, 0);
            assert_eq!(c.name, "web Copy");
            assert_eq!(c.host, "10.0.0.4");
        }
        other => panic!("unexpected {other:?}"),
    }
    assert!(matches!(update(&mut state, AppEvent::DuplicateConnection(9)), AppAction::Nothing));
    match update(&mut state, AppEvent::DeleteConnection(4)) {
        AppAction::DeleteConnection(4, name) => assert_eq!(name, "web"),
        other => panic!("unexpected {other:?}"),
    }
}

#[test]
fn an_sftp_tab_lists_and_previews_remote_files() {
    let mut state = model(vec![web()]);
    let action = update(&mut state, AppEvent::OpenSftpConnection(4, 80, 24));
    assert!(matches!(action, AppAction::ConnectSftp(1, _)));
    assert_eq!(state.tab_infos[0].title, "web SFTP");
    // not connected yet: navigation does nothing
    assert!(matches!(update(&mut state, AppEvent::SftpRefresh(1)), AppAction::Nothing));

    let action = update(&mut state, AppEvent::SftpConnected(1, Ok(())));
    assert!(matches!(action, AppAction::ListSftpDir(1, ref p) if p == "."));
    assert_eq!(state.tab_infos[0].status, "Connected");

    let entries = vec![SftpEntry { path: "/srv/a.txt".into(), name: "a.txt".into(), is_dir: false, size: 3 }];
    update(&mut state, AppEvent::SftpDirectoryLoaded(1, "/srv".into(), Ok(entries)));
    let view = state.tab_infos[0].sftp.as_ref().unwrap();
    assert_eq!(view.current_path, "/srv");
    assert_eq!(view.entries.len(), 1);
    assert!(!view.loading);
    assert_eq!(state.tab_infos[0].title, "web SFTP · /srv");

    let action = update(&mut state, AppEvent::SftpOpenEntry(1, "/srv/a.txt".into(), false));
    assert!(matches!(action, AppAction::ReadSftpFile(1, ref p) if p == "/srv/a.txt"));
    update(&mut state, AppEvent::SftpFileLoaded(1, "/srv/a.txt".into(), Ok("abc".into())));
    let view = state.tab_infos[0].sftp.as_ref().unwrap();
    assert_eq!(view.selected_file.as_deref(), Some("/srv/a.txt"));
    assert_eq!(view.preview, "abc");

    let action = update(&mut state, AppEvent::SftpOpenParent(1));
    assert!(matches!(action, AppAction::ListSftpDir(1, ref p) if p == "/"));

    update(&mut state, AppEvent::SftpDirectoryLoaded(1, "/".into(), Err("denied".into())));
    assert_eq!(state.tab_infos[0].status, "denied");
    assert_eq!(state.logs.last().unwrap(), "denied");
}

#[test]
fn sftp_needs_an_ssh_connection() {
    let serial = Connection { id: 5, connection_type: ConnectionType::Serial, ..Connection::default() };
    let mut state = model(vec![serial]);
    assert!(matches!(update(&mut state, AppEvent::OpenSftpConnection(5, 80, 24)), AppAction::Nothing));
    assert_eq!(state.logs, vec!["未找到可用的 SSH connection #5".to_string()]);
}

#[test]
fn dragging_selects_from_the_anchor_in_reading_order() {
    let mut state = model(vec![web()]);
    update(&mut state, AppEvent::ConnectConnection(4, 80, 24, local_user()));
    state.composer_focus = Some(1);
    update(&mut state, AppEvent::ActivateManageTab);
    let anchor = TerminalPoint { line: 5, column: 2 };
    update(&mut state, AppEvent::TerminalSelectionStarted(1, anchor));
    assert_eq!(state.tabs.active_tab, ActiveTab::Terminal(1));
    assert_eq!(state.composer_focus, None);
    let head = TerminalPoint { line: 1, column: 7 };
    update(&mut state, AppEvent::TerminalSelectionUpdated(1, head));
    assert_eq!(state.tab_infos[0].selection, Some(TerminalSelection { start: head, end: anchor }));
    assert_eq!(state.tab_infos[0].selection_anchor, Some(anchor));
    let word = TerminalSelection { start: TerminalPoint { line: 2, column: 0 }, end: TerminalPoint { line: 2, column: 4 } };
    update(&mut state, AppEvent::TerminalSelectionWord(1, word));
    assert_eq!(state.tab_infos[0].selection, Some(word));
    assert_eq!(state.tab_infos[0].selection_anchor, Some(word.start));
}

#[test]
fn resizing_keeps_two_cells_and_tells_a_live_session() {
    let mut state = model(vec![web()]);
    update(&mut state, AppEvent::ConnectConnection(4, 80, 24, local_user()));
    assert!(matches!(update(&mut state, AppEvent::TerminalResized(1, 80, 24)), AppAction::Nothing));
    assert!(matches!(
        update(&mut state, AppEvent::TerminalResized(1, 1, 30)),
        AppAction::ResizeTerminal(1, 2, 30, None)
    ));
    update(&mut state, AppEvent::TerminalConnected(1, Ok(())));
    assert!(matches!(
        update(&mut state, AppEvent::TerminalResized(1, 100, 40)),
        AppAction::ResizeTerminal(1, 100, 40, Some((100, 40)))
    ));
    assert_eq!((state.tab_infos[0].cols, state.tab_infos[0].rows), (100, 40));
}

#[test]
fn pasted_and_committed_text_goes_to_a_live_session() {
    let mut state = model(vec![web()]);
    update(&mut state, AppEvent::ConnectConnection(4, 80, 24, local_user()));
    assert!(matches!(update(&mut state, AppEvent::TerminalPaste(1, Some("ls".into()))), AppAction::Nothing));
    update(&mut state, AppEvent::TerminalConnected(1, Ok(())));
    assert!(matches!(
        update(&mut state, AppEvent::TerminalPaste(1, Some("ls".into()))),
        AppAction::PasteText(1, ref t) if t == "ls"
    ));
    assert!(matches!(update(&mut state, AppEvent::TerminalPaste(1, None)), AppAction::Nothing));
    assert!(matches!(
        update(&mut state, AppEvent::InputCommitted(true, "é".into())),
        AppAction::SendInput(1, ref b) if b == "é".as_bytes()
    ));
    assert!(matches!(
        update(&mut state, AppEvent::InputCommitted(true, "a\nb".into())),
        AppAction::PasteText(1, ref t) if t == "a\nb"
    ));
    assert!(matches!(update(&mut state, AppEvent::InputCommitted(false, "x".into())), AppAction::Nothing));
    state.composer_focus = Some(1);
    assert!(matches!(update(&mut state, AppEvent::InputCommitted(true, "x".into())), AppAction::Nothing));
}
