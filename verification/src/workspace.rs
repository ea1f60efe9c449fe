//! The main window as a state machine: what each user action or finished piece of outside
//! work does to the window's state, and which outside work comes next. The program performs
//! the work an `AppAction` names (the database, sessions, the clipboard, windows) and hands
//! the outcome back as the next `AppEvent`.

use vstd::prelude::*;

use crate::editors::{
    connection_form_error, connection_form_of, connection_from_form, id_text,
    parse_optional_i64_spec, port_forward_form_error, same_id, ConnectionEditor, GroupEditor, IdentityEditor, KeyEditor, PortForwardEditor,
};
use crate::keys::KeyPlatform;
use crate::labels::{local_terminal_tab_title, work_dir_label_spec};
use crate::models::{
    Connection, ConnectionType, Group, Identity, Key, ManageMenu, PortForward, PortForwardType,
    SftpEntry,
};
use crate::session::{sftp_parent_path, sftp_parent_spec, ConnectionTarget, SessionEvent};
use crate::selection::{normalize_selection, normalize_selection_spec, TerminalPoint, TerminalSelection};
use crate::shell::{
    duplicate_connection_name, duplicate_name_spec, find_group, find_group_index,
    record_shell_log, record_shell_log_spec,
};
use crate::shortcuts::{
    shortcut_text_matches, tab_switch_shortcut_index, tab_switch_spec, text_matches_spec,
    ShortcutKeyPress, ShortcutModifiers,
};
use crate::tabs::{
    adjacent_activated, index_activated, position_from, position_of, tab_closed, ActiveTab, TabStrip,
};
use crate::terminal::{
    connection_index_by_id, find_connection_id, find_identity, find_key, identity_by_id,
    identity_for, key_by_id, key_for, port_forward_target, port_forward_target_spec,
};
use crate::text::{
    chars_of,
    i64_to_string, int_to_decimal, is_blank, is_blank_spec, owned, parse_i64_spec, trim, trim_spec,
};
use crate::theme::ShortcutSettings;

verus! {

// ---------------------------------------------------------------------------
// The state
// ---------------------------------------------------------------------------

/// The side drawer, holding the form being edited.
#[derive(Debug, Clone)]
pub enum Drawer {
    Connection(ConnectionEditor),
    Group(GroupEditor),
    Key(KeyEditor),
    Identity(IdentityEditor),
    PortForward(PortForwardEditor),
}

/// The record a context menu was opened on.
#[derive(Debug, Clone, Copy, PartialEq, Eq, Structural)]
pub enum ContextTarget {
    Connection(i64),
    Key(i64),
    Identity(i64),
}

/// What an SFTP tab shows: whether its session is up, the remote directory and its
/// listing, the file chosen for preview, and whether a request is under way.
#[derive(Debug, Clone)]
pub struct SftpView {
    pub connected: bool,
    pub current_path: String,
    pub entries: Vec<SftpEntry>,
    pub selected_file: Option<String>,
    pub preview: String,
    pub loading: bool,
}

/// A terminal tab as the window lists it: its titles and status, whether its session is up,
/// the size of its terminal, its selection and where the selection started; an SFTP tab
/// carries its browser.
#[derive(Debug, Clone)]
pub struct TabInfo {
    pub id: u64,
    pub title: String,
    pub fallback_title: String,
    pub status: String,
    pub connected: bool,
    pub cols: usize,
    pub rows: usize,
    pub selection_anchor: Option<TerminalPoint>,
    pub selection: Option<TerminalSelection>,
    pub sftp: Option<SftpView>,
}

/// Everything the main window decides on.
#[derive(Debug, Clone)]
pub struct WorkspaceModel {
    pub connections: Vec<Connection>,
    pub groups: Vec<Group>,
    pub keys: Vec<Key>,
    pub identities: Vec<Identity>,
    pub port_forwards: Vec<PortForward>,
    pub selected_menu: ManageMenu,
    pub tabs: TabStrip,
    pub tab_infos: Vec<TabInfo>,
    pub next_terminal_id: u64,
    pub composer_focus: Option<u64>,
    pub drawer: Option<Drawer>,
    pub context_menu: Option<ContextTarget>,
    pub active_group_context: Option<i64>,
    pub active_port_forward_context: Option<i64>,
    pub logs: Vec<String>,
    pub settings_window_open: bool,
    pub shortcuts: ShortcutSettings,
    pub platform: KeyPlatform,
    pub known_hosts_path: String,
}

pub open spec fn info_ids(infos: Seq<TabInfo>) -> Seq<u64> {
    infos.map_values(|t: TabInfo| t.id)
}

impl WorkspaceModel {
    /// The tabs listed are the strip's, in order.
    pub open spec fn wf(&self) -> bool {
        info_ids(self.tab_infos@) == self.tabs.tab_ids@
    }
}

/// Whether `new_logs` is `old_logs` with the message `msg` recorded.
pub open spec fn logged(old_logs: Seq<String>, new_logs: Seq<String>, msg: Seq<char>) -> bool {
    &&& new_logs.len() > 0
    &&& new_logs.last()@ == msg
    &&& new_logs == record_shell_log_spec(old_logs, new_logs.last())
}

// ---------------------------------------------------------------------------
// Events and actions
// ---------------------------------------------------------------------------

/// A field of the connection form.
#[derive(Debug, Clone, Copy, PartialEq, Eq, Structural)]
pub enum ConnectionField {
    Name,
    GroupId,
    KeyId,
    IdentityId,
    Host,
    Port,
    Username,
    Password,
    ThemeId,
    ShellPath,
    WorkDir,
    StartupCommand,
    SerialPort,
    BaudRate,
}

/// A field of the group form.
#[derive(Debug, Clone, Copy, PartialEq, Eq, Structural)]
pub enum GroupField {
    Name,
    ParentId,
}

/// A field of the key form.
#[derive(Debug, Clone, Copy, PartialEq, Eq, Structural)]
pub enum KeyField {
    Name,
    PrivateKey,
    PublicKey,
    Certificate,
}

/// A field of the identity form.
#[derive(Debug, Clone, Copy, PartialEq, Eq, Structural)]
pub enum IdentityField {
    Name,
    Username,
    Password,
    KeyId,
}

/// A field of the port-forward form.
#[derive(Debug, Clone, Copy, PartialEq, Eq, Structural)]
pub enum PortForwardField {
    Label,
    BindAddress,
    BindPort,
    ConnectionId,
    DestinationHost,
    DestinationPort,
}

/// The kinds of record a form saves.
#[derive(Debug, Clone, Copy, PartialEq, Eq, Structural)]
pub enum RecordKind {
    Connection,
    Group,
    Key,
    Identity,
    PortForward,
}

/// A record to write to the database.
#[derive(Debug, Clone)]
pub enum RecordToSave {
    Connection(Connection),
    Group(Group),
    Key(Key),
    Identity(Identity),
    PortForward(PortForward),
}

/// The records read back from the database.
#[derive(Debug, Clone)]
pub struct WorkspaceRecords {
    pub connections: Vec<Connection>,
    pub groups: Vec<Group>,
    pub keys: Vec<Key>,
    pub identities: Vec<Identity>,
    pub port_forwards: Vec<PortForward>,
}

/// Who is running the program and on which machine, for the title of a local terminal.
#[derive(Debug, Clone)]
pub struct LocalUser {
    pub user: String,
    pub host: String,
    pub home: Option<String>,
}

/// What happened: a user action in the main window, or the outcome of outside work.
#[derive(Debug)]
pub enum AppEvent {
    SelectMenu(ManageMenu),
    OpenSettingsWindow,
    /// The settings window came up.
    SettingsWindowReady,
    /// The settings window (`true`) or the main window was closed.
    WindowClosed(bool),
    /// The composer under this terminal was edited or browsed, and so has the keyboard.
    ComposerFocused(u64),
    ActivateManageTab,
    ActivateTerminal(u64),
    CloseTerminal(u64),
    OpenContext(ContextTarget),
    CloseDrawer,
    NewConnection,
    NewSerialConnection,
    EditConnection(i64),
    ConnectionFieldChanged(ConnectionField, String),
    ConnectionTypeChanged(String),
    SaveConnection,
    NewGroup,
    EditGroup(i64),
    GroupFieldChanged(GroupField, String),
    SaveGroup,
    NewKey,
    EditKey(i64),
    KeyFieldChanged(KeyField, String),
    SaveKey,
    NewIdentity,
    EditIdentity(i64),
    IdentityFieldChanged(IdentityField, String),
    SaveIdentity,
    NewPortForward,
    EditPortForward(i64),
    PortForwardFieldChanged(PortForwardField, String),
    PortForwardTypeChanged(String),
    SavePortForward,
    DuplicateConnection(i64),
    DeleteConnection(i64),
    DeletePortForward(i64),
    TogglePortForward(i64, bool),
    /// A record was written (its name or label), or why it was not.
    RecordSaved(RecordKind, Result<String, String>),
    /// The connection with this name was deleted, or why it was not.
    ConnectionDeleted(String, Result<(), String>),
    /// The copy with this name was written, or why it was not.
    ConnectionDuplicated(Result<String, String>),
    PortForwardDeleted(Result<(), String>),
    /// A forward that was switched off was written back, or why it was not.
    PortForwardDisabled(Result<(), String>),
    /// A forward's new state was written back after it started or failed to.
    PortForwardStateSaved,
    PortForwardStarted(i64, Result<(), String>),
    WorkspaceLoaded(WorkspaceRecords),
    /// Open a terminal on a connection, `cols` by `rows`.
    ConnectConnection(i64, u16, u16, LocalUser),
    TerminalConnected(u64, Result<(), String>),
    TerminalSessionEvent(u64, SessionEvent),
    /// The terminal program set its title (`Some`) or reset it (`None`).
    TerminalRetitled(u64, Option<String>),
    /// Open an SFTP browser on an SSH connection, `cols` by `rows`.
    OpenSftpConnection(i64, u16, u16),
    SftpConnected(u64, Result<(), String>),
    /// The listing of a remote directory, or why it could not be read.
    SftpDirectoryLoaded(u64, String, Result<Vec<SftpEntry>, String>),
    /// The preview of a remote file, or why it could not be read.
    SftpFileLoaded(u64, String, Result<String, String>),
    SftpNavigate(u64, String),
    /// A listed entry was opened: a directory (`true`) or a file.
    SftpOpenEntry(u64, String, bool),
    SftpOpenParent(u64),
    SftpRefresh(u64),
    /// A drag started at this cell of a terminal.
    TerminalSelectionStarted(u64, TerminalPoint),
    /// The drag moved to this cell.
    TerminalSelectionUpdated(u64, TerminalPoint),
    /// A double click chose this word.
    TerminalSelectionWord(u64, TerminalSelection),
    /// A triple click chose this token.
    TerminalSelectionToken(u64, TerminalSelection),
    /// The terminal area now fits this many columns and rows.
    TerminalResized(u64, usize, usize),
    /// The clipboard's text, when it had some, to paste into this tab.
    TerminalPaste(u64, Option<String>),
    /// Text an input method committed in the main window (`true`) or another one.
    InputCommitted(bool, String),
    /// A key press in the settings window (`true`) or the main window, with the character
    /// the key names when it names exactly one.
    KeyPressed(bool, ShortcutKeyPress, ShortcutModifiers, Option<char>),
}

/// The outside work an event calls for.
#[derive(Debug, Clone)]
pub enum AppAction {
    Nothing,
    OpenSettingsWindow,
    /// Quit the program.
    Exit,
    /// Minimize the settings window (`true`) or the main window.
    MinimizeWindow(bool),
    CloseSettingsWindow,
    CloseMainWindow,
    /// Tell the session of this tab to disconnect, as the tab closes.
    DisconnectTab(u64),
    SaveRecord(RecordToSave),
    /// Delete the connection with this id (and name, for the log).
    DeleteConnection(i64, String),
    /// Write this copy of a connection as a new connection.
    SaveDuplicate(Connection),
    /// Stop the forward with this id if it runs, and delete it.
    DeletePortForward(i64),
    /// Stop the forward if it runs, and write it back switched off.
    DisablePortForward(PortForward),
    /// Start a forward through the target's connection.
    StartPortForward(i64, ConnectionTarget, PortForward),
    /// Write back a forward's state.
    SavePortForwardState(PortForward),
    /// Read the records again.
    ReloadData,
    /// Open a terminal session for this tab.
    ConnectTerminal(u64, ConnectionTarget),
    /// Open an SFTP session for this tab.
    ConnectSftp(u64, ConnectionTarget),
    /// List this remote directory for this tab.
    ListSftpDir(u64, String),
    /// Read the preview of this remote file for this tab.
    ReadSftpFile(u64, String),
    /// Feed program output to this tab's emulator.
    FeedTerminal(u64, Vec<u8>),
    /// Show a line of the window's own in this tab.
    TerminalLine(u64, String),
    /// Copy the text of this selection of this tab to the clipboard.
    CopySelection(u64, TerminalSelection),
    /// Read the clipboard and paste it into this tab.
    PasteClipboard(u64),
    /// Encode the key press and send it to this tab's session.
    SendKey(u64),
    /// Encode this text as a paste and send it to this tab's session.
    PasteText(u64, String),
    /// Send these bytes to this tab's session.
    SendInput(u64, Vec<u8>),
    /// Resize this tab's terminal to this many columns and rows, and tell its session the
    /// size when it has one.
    ResizeTerminal(u64, usize, usize, Option<(u16, u16)>),
}


// ---------------------------------------------------------------------------
// Pages, tabs and menus
// ---------------------------------------------------------------------------

/// Closing tab `id`: the strip closes it, its entry goes with it, and its session is told to
/// disconnect when it has one.
pub open spec fn tab_close_step(old: WorkspaceModel, id: u64, new: WorkspaceModel, a: AppAction) -> bool {
    let r = match position_of(old.tabs.tab_ids@, id) {
        Some(k) => Some(k as usize),
        None => None,
    };
    tab_closed(old.tabs, id, new.tabs, r) && match r {
        None => new == old && a is Nothing,
        Some(k) => {
            &&& new == WorkspaceModel { tabs: new.tabs, tab_infos: new.tab_infos, ..old }
            &&& new.tab_infos@ == old.tab_infos@.remove(k as int)
            &&& a == if old.tab_infos@[k as int].connected {
                AppAction::DisconnectTab(id)
            } else {
                AppAction::Nothing
            }
        },
    }
}

/// What the page and tab events do.
pub open spec fn navigation_step(old: WorkspaceModel, ev: AppEvent, new: WorkspaceModel, a: AppAction) -> bool {
    match ev {
        AppEvent::SelectMenu(m) => {
            &&& new == WorkspaceModel {
                selected_menu: m,
                context_menu: None,
                active_group_context: None,
                active_port_forward_context: None,
                ..old
            }
            &&& a == if m == ManageMenu::Settings {
                settings_opening(old)
            } else {
                AppAction::Nothing
            }
        },
        AppEvent::OpenSettingsWindow => new == old && a == settings_opening(old),
        AppEvent::SettingsWindowReady => new == WorkspaceModel { settings_window_open: true, ..old }
            && a is Nothing,
        AppEvent::WindowClosed(settings) => if settings {
            new == WorkspaceModel { settings_window_open: false, ..old } && a is Nothing
        } else {
            new == old && a is Exit
        },
        AppEvent::ComposerFocused(id) => a is Nothing && if find_info(old.tab_infos@, id, 0) is Some {
            new == WorkspaceModel { composer_focus: Some(id), ..old }
        } else {
            new == old
        },
        AppEvent::ActivateManageTab => {
            &&& new == WorkspaceModel {
                tabs: new.tabs,
                composer_focus: None,
                context_menu: None,
                ..old
            }
            &&& new.tabs.tab_ids@ == old.tabs.tab_ids@
            &&& new.tabs.active_tab == ActiveTab::Manage
            &&& new.tabs.terminal_focus is None
            &&& a is Nothing
        },
        AppEvent::ActivateTerminal(id) => {
            &&& new == WorkspaceModel {
                tabs: new.tabs,
                composer_focus: None,
                context_menu: None,
                ..old
            }
            &&& new.tabs.tab_ids@ == old.tabs.tab_ids@
            &&& new.tabs.active_tab == ActiveTab::Terminal(id)
            &&& new.tabs.terminal_focus == Some(id)
            &&& a is Nothing
        },
        AppEvent::CloseTerminal(id) => tab_close_step(old, id, new, a),
        AppEvent::OpenContext(t) => {
            &&& new == WorkspaceModel {
                context_menu: Some(t),
                active_group_context: None,
                active_port_forward_context: None,
                ..old
            }
            &&& a is Nothing
        },
        AppEvent::CloseDrawer => {
            &&& new == WorkspaceModel {
                drawer: None,
                context_menu: None,
                active_group_context: None,
                active_port_forward_context: None,
                ..old
            }
            &&& a is Nothing
        },
        _ => false,
    }
}

/// Opening the settings window, unless it is open already.
pub open spec fn settings_opening(old: WorkspaceModel) -> AppAction {
    if old.settings_window_open {
        AppAction::Nothing
    } else {
        AppAction::OpenSettingsWindow
    }
}

pub open spec fn is_navigation(ev: AppEvent) -> bool {
    ||| ev is SelectMenu
    ||| ev is OpenSettingsWindow
    ||| ev is SettingsWindowReady
    ||| ev is WindowClosed
    ||| ev is ComposerFocused
    ||| ev is ActivateManageTab
    ||| ev is ActivateTerminal
    ||| ev is CloseTerminal
    ||| ev is OpenContext
    ||| ev is CloseDrawer
}

impl WorkspaceModel {
    fn settings_window_action(&self) -> (a: AppAction)
        ensures
            a == settings_opening(*self),
    {
        if self.settings_window_open {
            AppAction::Nothing
        } else {
            AppAction::OpenSettingsWindow
        }
    }

    fn close_tab(&mut self, id: u64) -> (a: AppAction)
        requires
            old(self).wf(),
        ensures
            tab_close_step(*old(self), id, *final(self), a),
            final(self).wf(),
    {
        let n = self.tabs.tab_ids.len();
        let r = self.tabs.close_terminal_tab(id);
        match r {
            None => AppAction::Nothing,
            Some(k) => {
                proof {
                    assert(info_ids(self.tab_infos@).len() == old(self).tabs.tab_ids@.len());
                    let k0 = position_of(old(self).tabs.tab_ids@, id)->0;
                    assert(k0 < n);
                    assert(self.tabs.tab_ids@ == old(self).tabs.tab_ids@.remove(k as int));
                }
                let connected = self.tab_infos[k].connected;
                let ghost before = self.tab_infos@;
                self.tab_infos.remove(k);
                assert(info_ids(self.tab_infos@) =~= info_ids(before).remove(k as int));
                if connected {
                    AppAction::DisconnectTab(id)
                } else {
                    AppAction::Nothing
                }
            },
        }
    }

    fn navigate(&mut self, ev: AppEvent) -> (a: AppAction)
        requires
            old(self).wf(),
            is_navigation(ev),
        ensures
            navigation_step(*old(self), ev, *final(self), a),
            final(self).wf(),
    {
        match ev {
            AppEvent::SelectMenu(m) => {
                self.selected_menu = m;
                self.context_menu = None;
                self.active_group_context = None;
                self.active_port_forward_context = None;
                if m == ManageMenu::Settings {
                    self.settings_window_action()
                } else {
                    AppAction::Nothing
                }
            },
            AppEvent::OpenSettingsWindow => self.settings_window_action(),
            AppEvent::SettingsWindowReady => {
                self.settings_window_open = true;
                AppAction::Nothing
            },
            AppEvent::WindowClosed(settings) => if settings {
                self.settings_window_open = false;
                AppAction::Nothing
            } else {
                AppAction::Exit
            },
            AppEvent::ComposerFocused(id) => {
                if info_index(&self.tab_infos, id).is_some() {
                    self.composer_focus = Some(id);
                }
                AppAction::Nothing
            },
            AppEvent::ActivateManageTab => {
                self.tabs.activate_manage();
                self.composer_focus = None;
                self.context_menu = None;
                AppAction::Nothing
            },
            AppEvent::ActivateTerminal(id) => {
                self.tabs.activate_terminal(id);
                self.composer_focus = None;
                self.context_menu = None;
                AppAction::Nothing
            },
            AppEvent::CloseTerminal(id) => self.close_tab(id),
            AppEvent::OpenContext(t) => {
                self.context_menu = Some(t);
                self.active_group_context = None;
                self.active_port_forward_context = None;
                AppAction::Nothing
            },
            AppEvent::CloseDrawer => {
                self.drawer = None;
                self.context_menu = None;
                self.active_group_context = None;
                self.active_port_forward_context = None;
                AppAction::Nothing
            },
            _ => AppAction::Nothing,
        }
    }
}


// ---------------------------------------------------------------------------
// Forms in the drawer
// ---------------------------------------------------------------------------

/// The form for a new connection: the form of the default connection.
pub open spec fn new_connection_form(e: ConnectionEditor) -> bool {
    exists|c: Connection| c.is_default() && connection_form_of(e, c)
}

/// The form for a new serial connection: the new-connection form, named `Serial`, of the
/// serial type, at 115200 baud.
pub open spec fn new_serial_form(e: ConnectionEditor) -> bool {
    exists|b: ConnectionEditor|
        new_connection_form(b) && e == ConnectionEditor {
            name: e.name,
            connection_type: ConnectionType::Serial,
            baud_rate: e.baud_rate,
            ..b
        } && e.name@ == "Serial"@ && e.baud_rate@ == "115200"@
}

pub open spec fn group_form_of(e: GroupEditor, g: Group) -> bool {
    e.id == Some(g.id) && e.name == g.name && e.parent_id@ == id_text(g.parent_id, "None"@)
}

pub open spec fn new_group_form(e: GroupEditor) -> bool {
    e.id == Some(0i64) && e.name@ == "New Group"@ && e.parent_id@ == "None"@
}

pub open spec fn key_form_of(e: KeyEditor, k: Key) -> bool {
    &&& e.id == Some(k.id)
    &&& e.name == k.name
    &&& e.private_key == k.private_key
    &&& e.public_key == k.public_key
    &&& e.certificate == k.certificate
}

pub open spec fn new_key_form(e: KeyEditor) -> bool {
    &&& e.id == Some(0i64)
    &&& e.name@ == "New Key"@
    &&& e.private_key@.len() == 0
    &&& e.public_key@.len() == 0
    &&& e.certificate@.len() == 0
}

pub open spec fn identity_form_of(e: IdentityEditor, i: Identity) -> bool {
    &&& e.id == Some(i.id)
    &&& e.name == i.name
    &&& e.username == i.username
    &&& e.password == i.password
    &&& e.key_id@ == id_text(i.key_id, "None"@)
}

pub open spec fn new_identity_form(e: IdentityEditor) -> bool {
    &&& e.id == Some(0i64)
    &&& e.name@ == "New Identity"@
    &&& e.username@.len() == 0
    &&& e.password@.len() == 0
    &&& e.key_id@ == "None"@
}

pub open spec fn port_forward_form_of(e: PortForwardEditor, f: PortForward) -> bool {
    &&& e.id == Some(f.id)
    &&& e.label == f.label
    &&& e.forward_type == f.forward_type
    &&& e.enabled == f.enabled
    &&& e.bind_address == f.bind_address
    &&& e.bind_port@ == int_to_decimal(f.bind_port as int)
    &&& e.connection_id@ == id_text(f.connection_id, "None"@)
    &&& e.destination_host == f.destination_host
    &&& e.destination_port@ == int_to_decimal(f.destination_port as int)
}

pub open spec fn new_port_forward_form(e: PortForwardEditor) -> bool {
    &&& e.id == Some(0i64)
    &&& e.label@ == "New Forward"@
    &&& e.forward_type == PortForwardType::Local
    &&& !e.enabled
    &&& e.bind_address@ == "127.0.0.1"@
    &&& e.bind_port@ == int_to_decimal(0)
    &&& e.connection_id@ == "None"@
    &&& e.destination_host@.len() == 0
    &&& e.destination_port@ == int_to_decimal(0)
}

/// The first port forward, from `i` on, with identifier `id`.
pub open spec fn find_forward(fs: Seq<PortForward>, id: i64, i: int) -> Option<int>
    decreases fs.len() - i,
{
    if i < 0 || i >= fs.len() {
        None
    } else if fs[i].id == id {
        Some(i)
    } else {
        find_forward(fs, id, i + 1)
    }
}

proof fn lemma_find_forward_bounds(fs: Seq<PortForward>, id: i64, i: int)
    requires
        0 <= i,
    ensures
        find_forward(fs, id, i) matches Some(k) ==> i <= k < fs.len() && fs[k].id == id,
    decreases fs.len() - i,
{
    if i < fs.len() && fs[i].id != id {
        lemma_find_forward_bounds(fs, id, i + 1);
    }
}

fn forward_index_by_id(fs: &Vec<PortForward>, id: i64) -> (r: Option<usize>)
    ensures
        r matches Some(j) ==> find_forward(fs@, id, 0) == Some(j as int) && j < fs@.len(),
        r is None ==> find_forward(fs@, id, 0) is None,
{
    proof {
        lemma_find_forward_bounds(fs@, id, 0);
    }
    let mut i: usize = 0;
    while i < fs.len()
        invariant
            i <= fs@.len(),
            find_forward(fs@, id, 0) == find_forward(fs@, id, i as int),
        decreases fs.len() - i,
    {
        if fs[i].id == id {
            return Some(i);
        }
        i = i + 1;
    }
    None
}

/// Typing `v` into field `f` of the connection form; choosing `Login Shell` as the shell
/// leaves the shell path empty.
pub open spec fn connection_field_set(e: ConnectionEditor, f: ConnectionField, v: String, e2: ConnectionEditor) -> bool {
    match f {
        ConnectionField::Name => e2 == ConnectionEditor { name: v, ..e },
        ConnectionField::GroupId => e2 == ConnectionEditor { group_id: v, ..e },
        ConnectionField::KeyId => e2 == ConnectionEditor { key_id: v, ..e },
        ConnectionField::IdentityId => e2 == ConnectionEditor { identity_id: v, ..e },
        ConnectionField::Host => e2 == ConnectionEditor { host: v, ..e },
        ConnectionField::Port => e2 == ConnectionEditor { port: v, ..e },
        ConnectionField::Username => e2 == ConnectionEditor { username: v, ..e },
        ConnectionField::Password => e2 == ConnectionEditor { password: v, ..e },
        ConnectionField::ThemeId => e2 == ConnectionEditor { theme_id: v, ..e },
        ConnectionField::ShellPath => {
            &&& e2 == ConnectionEditor { shell_path: e2.shell_path, ..e }
            &&& e2.shell_path@ == if v@ == "Login Shell"@ {
                Seq::<char>::empty()
            } else {
                v@
            }
        },
        ConnectionField::WorkDir => e2 == ConnectionEditor { work_dir: v, ..e },
        ConnectionField::StartupCommand => e2 == ConnectionEditor { startup_command: v, ..e },
        ConnectionField::SerialPort => e2 == ConnectionEditor { serial_port: v, ..e },
        ConnectionField::BaudRate => e2 == ConnectionEditor { baud_rate: v, ..e },
    }
}

/// Choosing the connection type named `v`: a local connection drops the serial device,
/// resets the baud rate and gives a blank port `0`; an SSH connection drops the local and
/// serial fields, resets the baud rate and turns port `0` into `22`; a serial connection
/// drops host, port, credentials and local fields and gives a blank or zero baud rate
/// 115200.
pub open spec fn connection_type_set(e: ConnectionEditor, v: Seq<char>, e2: ConnectionEditor) -> bool {
    let t = if v == "local"@ {
        ConnectionType::Local
    } else if v == "serial"@ {
        ConnectionType::Serial
    } else {
        ConnectionType::Ssh
    };
    &&& e2.id == e.id
    &&& e2.name == e.name
    &&& e2.group_id == e.group_id
    &&& e2.theme_id == e.theme_id
    &&& e2.startup_command == e.startup_command
    &&& e2.connection_type == t
    &&& match t {
        ConnectionType::Local => {
            &&& e2.key_id == e.key_id && e2.identity_id == e.identity_id && e2.host == e.host
            &&& e2.username == e.username && e2.password == e.password
            &&& e2.shell_path == e.shell_path && e2.work_dir == e.work_dir
            &&& e2.serial_port@.len() == 0
            &&& e2.baud_rate@ == "115200"@
            &&& if trim_spec(e.port@).len() == 0 { e2.port@ == "0"@ } else { e2.port == e.port }
        },
        ConnectionType::Ssh => {
            &&& e2.key_id == e.key_id && e2.identity_id == e.identity_id && e2.host == e.host
            &&& e2.username == e.username && e2.password == e.password
            &&& e2.shell_path@.len() == 0 && e2.work_dir@.len() == 0
            &&& e2.serial_port@.len() == 0
            &&& e2.baud_rate@ == "115200"@
            &&& if trim_spec(e.port@) == "0"@ { e2.port@ == "22"@ } else { e2.port == e.port }
        },
        ConnectionType::Serial => {
            &&& e2.shell_path@.len() == 0 && e2.work_dir@.len() == 0 && e2.host@.len() == 0
            &&& e2.port@ == "0"@
            &&& e2.key_id@ == "None"@ && e2.identity_id@ == "None"@
            &&& e2.username@.len() == 0 && e2.password@.len() == 0
            &&& e2.serial_port == e.serial_port
            &&& if trim_spec(e.baud_rate@).len() == 0 || trim_spec(e.baud_rate@) == "0"@ {
                e2.baud_rate@ == "115200"@
            } else {
                e2.baud_rate == e.baud_rate
            }
        },
    }
}

pub open spec fn group_field_set(e: GroupEditor, f: GroupField, v: String) -> GroupEditor {
    match f {
        GroupField::Name => GroupEditor { name: v, ..e },
        GroupField::ParentId => GroupEditor { parent_id: v, ..e },
    }
}

pub open spec fn key_field_set(e: KeyEditor, f: KeyField, v: String) -> KeyEditor {
    match f {
        KeyField::Name => KeyEditor { name: v, ..e },
        KeyField::PrivateKey => KeyEditor { private_key: v, ..e },
        KeyField::PublicKey => KeyEditor { public_key: v, ..e },
        KeyField::Certificate => KeyEditor { certificate: v, ..e },
    }
}

pub open spec fn identity_field_set(e: IdentityEditor, f: IdentityField, v: String) -> IdentityEditor {
    match f {
        IdentityField::Name => IdentityEditor { name: v, ..e },
        IdentityField::Username => IdentityEditor { username: v, ..e },
        IdentityField::Password => IdentityEditor { password: v, ..e },
        IdentityField::KeyId => IdentityEditor { key_id: v, ..e },
    }
}

pub open spec fn port_forward_field_set(e: PortForwardEditor, f: PortForwardField, v: String) -> PortForwardEditor {
    match f {
        PortForwardField::Label => PortForwardEditor { label: v, ..e },
        PortForwardField::BindAddress => PortForwardEditor { bind_address: v, ..e },
        PortForwardField::BindPort => PortForwardEditor { bind_port: v, ..e },
        PortForwardField::ConnectionId => PortForwardEditor { connection_id: v, ..e },
        PortForwardField::DestinationHost => PortForwardEditor { destination_host: v, ..e },
        PortForwardField::DestinationPort => PortForwardEditor { destination_port: v, ..e },
    }
}

/// The state with only the drawer changed, and the form the drawer now holds.
pub open spec fn drawer_only(old: WorkspaceModel, new: WorkspaceModel) -> bool {
    new == WorkspaceModel { drawer: new.drawer, ..old }
}

/// What opening and editing a form does. Opening a form closes the context menu (for
/// groups the group menu, for forwards the forward menu); editing a record that does not
/// exist, or typing into a form that is not open, changes nothing.
pub open spec fn form_step(old: WorkspaceModel, ev: AppEvent, new: WorkspaceModel, a: AppAction) -> bool {
    &&& a is Nothing
    &&& match ev {
        AppEvent::NewConnection => new == WorkspaceModel { drawer: new.drawer, context_menu: None, ..old }
            && (new.drawer matches Some(Drawer::Connection(e)) && new_connection_form(e)),
        AppEvent::NewSerialConnection => new == WorkspaceModel { drawer: new.drawer, context_menu: None, ..old }
            && (new.drawer matches Some(Drawer::Connection(e)) && new_serial_form(e)),
        AppEvent::EditConnection(id) => match find_connection_id(old.connections@, id, 0) {
            None => new == old,
            Some(j) => new == WorkspaceModel { drawer: new.drawer, context_menu: None, ..old }
                && (new.drawer matches Some(Drawer::Connection(e)) && connection_form_of(e, old.connections@[j])),
        },
        AppEvent::ConnectionFieldChanged(f, v) => match old.drawer {
            Some(Drawer::Connection(e)) => drawer_only(old, new) && (new.drawer matches Some(Drawer::Connection(e2))
                && connection_field_set(e, f, v, e2)),
            _ => new == old,
        },
        AppEvent::ConnectionTypeChanged(v) => match old.drawer {
            Some(Drawer::Connection(e)) => drawer_only(old, new) && (new.drawer matches Some(Drawer::Connection(e2))
                && connection_type_set(e, v@, e2)),
            _ => new == old,
        },
        AppEvent::NewGroup => new == WorkspaceModel { drawer: new.drawer, active_group_context: None, ..old }
            && (new.drawer matches Some(Drawer::Group(e)) && new_group_form(e)),
        AppEvent::EditGroup(id) => match find_group(old.groups@, id, 0) {
            None => new == old,
            Some(j) => new == WorkspaceModel { drawer: new.drawer, active_group_context: None, ..old }
                && (new.drawer matches Some(Drawer::Group(e)) && group_form_of(e, old.groups@[j])),
        },
        AppEvent::GroupFieldChanged(f, v) => match old.drawer {
            Some(Drawer::Group(e)) => new == WorkspaceModel { drawer: Some(Drawer::Group(group_field_set(e, f, v))), ..old },
            _ => new == old,
        },
        AppEvent::NewKey => new == WorkspaceModel { drawer: new.drawer, context_menu: None, ..old }
            && (new.drawer matches Some(Drawer::Key(e)) && new_key_form(e)),
        AppEvent::EditKey(id) => match find_key(old.keys@, id, 0) {
            None => new == old,
            Some(j) => new == WorkspaceModel { drawer: new.drawer, context_menu: None, ..old }
                && (new.drawer matches Some(Drawer::Key(e)) && key_form_of(e, old.keys@[j])),
        },
        AppEvent::KeyFieldChanged(f, v) => match old.drawer {
            Some(Drawer::Key(e)) => new == WorkspaceModel { drawer: Some(Drawer::Key(key_field_set(e, f, v))), ..old },
            _ => new == old,
        },
        AppEvent::NewIdentity => new == WorkspaceModel { drawer: new.drawer, context_menu: None, ..old }
            && (new.drawer matches Some(Drawer::Identity(e)) && new_identity_form(e)),
        AppEvent::EditIdentity(id) => match find_identity(old.identities@, id, 0) {
            None => new == old,
            Some(j) => new == WorkspaceModel { drawer: new.drawer, context_menu: None, ..old }
                && (new.drawer matches Some(Drawer::Identity(e)) && identity_form_of(e, old.identities@[j])),
        },
        AppEvent::IdentityFieldChanged(f, v) => match old.drawer {
            Some(Drawer::Identity(e)) => new == WorkspaceModel { drawer: Some(Drawer::Identity(identity_field_set(e, f, v))), ..old },
            _ => new == old,
        },
        AppEvent::NewPortForward => new == WorkspaceModel { drawer: new.drawer, active_port_forward_context: None, ..old }
            && (new.drawer matches Some(Drawer::PortForward(e)) && new_port_forward_form(e)),
        AppEvent::EditPortForward(id) => match find_forward(old.port_forwards@, id, 0) {
            None => new == old,
            Some(j) => new == WorkspaceModel { drawer: new.drawer, active_port_forward_context: None, ..old }
                && (new.drawer matches Some(Drawer::PortForward(e)) && port_forward_form_of(e, old.port_forwards@[j])),
        },
        AppEvent::PortForwardFieldChanged(f, v) => match old.drawer {
            Some(Drawer::PortForward(e)) => new == WorkspaceModel {
                drawer: Some(Drawer::PortForward(port_forward_field_set(e, f, v))),
                ..old
            },
            _ => new == old,
        },
        AppEvent::PortForwardTypeChanged(v) => match old.drawer {
            Some(Drawer::PortForward(e)) => new == WorkspaceModel {
                drawer: Some(Drawer::PortForward(PortForwardEditor {
                    forward_type: PortForwardType::spec_from_name(v@),
                    ..e
                })),
                ..old
            },
            _ => new == old,
        },
        _ => false,
    }
}

pub open spec fn is_form_event(ev: AppEvent) -> bool {
    ||| ev is NewConnection
    ||| ev is NewSerialConnection
    ||| ev is EditConnection
    ||| ev is ConnectionFieldChanged
    ||| ev is ConnectionTypeChanged
    ||| ev is NewGroup
    ||| ev is EditGroup
    ||| ev is GroupFieldChanged
    ||| ev is NewKey
    ||| ev is EditKey
    ||| ev is KeyFieldChanged
    ||| ev is NewIdentity
    ||| ev is EditIdentity
    ||| ev is IdentityFieldChanged
    ||| ev is NewPortForward
    ||| ev is EditPortForward
    ||| ev is PortForwardFieldChanged
    ||| ev is PortForwardTypeChanged
}

fn set_connection_field(e: &mut ConnectionEditor, f: ConnectionField, v: String)
    ensures
        connection_field_set(*old(e), f, v, *final(e)),
{
    match f {
        ConnectionField::Name => e.name = v,
        ConnectionField::GroupId => e.group_id = v,
        ConnectionField::KeyId => e.key_id = v,
        ConnectionField::IdentityId => e.identity_id = v,
        ConnectionField::Host => e.host = v,
        ConnectionField::Port => e.port = v,
        ConnectionField::Username => e.username = v,
        ConnectionField::Password => e.password = v,
        ConnectionField::ThemeId => e.theme_id = v,
        ConnectionField::ShellPath => {
            if crate::text::str_eq(v.as_str(), "Login Shell") {
                e.shell_path = String::new();
            } else {
                e.shell_path = v;
            }
        },
        ConnectionField::WorkDir => e.work_dir = v,
        ConnectionField::StartupCommand => e.startup_command = v,
        ConnectionField::SerialPort => e.serial_port = v,
        ConnectionField::BaudRate => e.baud_rate = v,
    }
}

fn set_connection_type(e: &mut ConnectionEditor, v: &str)
    ensures
        connection_type_set(*old(e), v@, *final(e)),
{
    let t = ConnectionType::from_name(v);
    e.connection_type = t;
    match t {
        ConnectionType::Local => {
            e.serial_port = String::new();
            e.baud_rate = owned("115200");
            if is_blank(e.port.as_str()) {
                e.port = owned("0");
            }
        },
        ConnectionType::Ssh => {
            e.shell_path = String::new();
            e.work_dir = String::new();
            e.serial_port = String::new();
            e.baud_rate = owned("115200");
            let p = trim(e.port.as_str());
            if crate::text::str_eq(p.as_str(), "0") {
                e.port = owned("22");
            }
        },
        ConnectionType::Serial => {
            e.shell_path = String::new();
            e.work_dir = String::new();
            e.host = String::new();
            e.port = owned("0");
            e.key_id = owned("None");
            e.identity_id = owned("None");
            e.username = String::new();
            e.password = String::new();
            let b = trim(e.baud_rate.as_str());
            if b.as_str().is_empty() || crate::text::str_eq(b.as_str(), "0") {
                e.baud_rate = owned("115200");
            }
        },
    }
}

impl WorkspaceModel {
    fn edit_form(&mut self, ev: AppEvent) -> (a: AppAction)
        requires
            old(self).wf(),
            is_form_event(ev),
        ensures
            form_step(*old(self), ev, *final(self), a),
            final(self).wf(),
    {
        match ev {
            AppEvent::NewConnection => {
                self.drawer = Some(Drawer::Connection(ConnectionEditor::new()));
                self.context_menu = None;
            },
            AppEvent::NewSerialConnection => {
                let base = ConnectionEditor::new();
                let ghost b = base;
                let e = ConnectionEditor {
                    name: owned("Serial"),
                    connection_type: ConnectionType::Serial,
                    baud_rate: owned("115200"),
                    ..base
                };
                assert(e == ConnectionEditor {
                    name: e.name,
                    connection_type: ConnectionType::Serial,
                    baud_rate: e.baud_rate,
                    ..b
                });
                assert(new_connection_form(b));
                assert(new_serial_form(e));
                self.drawer = Some(Drawer::Connection(e));
                self.context_menu = None;
            },
            AppEvent::EditConnection(id) => {
                if let Some(j) = connection_index_by_id(&self.connections, id) {
                    let e = ConnectionEditor::from_connection(&self.connections[j]);
                    self.drawer = Some(Drawer::Connection(e));
                    self.context_menu = None;
                }
            },
            AppEvent::ConnectionFieldChanged(f, v) => {
                let d = self.drawer.take();
                match d {
                    Some(Drawer::Connection(mut e)) => {
                        set_connection_field(&mut e, f, v);
                        self.drawer = Some(Drawer::Connection(e));
                    },
                    other => {
                        self.drawer = other;
                    },
                }
            },
            AppEvent::ConnectionTypeChanged(v) => {
                let d = self.drawer.take();
                match d {
                    Some(Drawer::Connection(mut e)) => {
                        set_connection_type(&mut e, v.as_str());
                        self.drawer = Some(Drawer::Connection(e));
                    },
                    other => {
                        self.drawer = other;
                    },
                }
            },
            AppEvent::NewGroup => {
                self.drawer = Some(Drawer::Group(GroupEditor::new()));
                self.active_group_context = None;
            },
            AppEvent::EditGroup(id) => {
                if let Some(j) = find_group_index(&self.groups, id) {
                    let e = GroupEditor::from_group(&self.groups[j]);
                    self.drawer = Some(Drawer::Group(e));
                    self.active_group_context = None;
                }
            },
            AppEvent::GroupFieldChanged(f, v) => {
                let d = self.drawer.take();
                match d {
                    Some(Drawer::Group(mut e)) => {
                        match f {
                            GroupField::Name => e.name = v,
                            GroupField::ParentId => e.parent_id = v,
                        }
                        self.drawer = Some(Drawer::Group(e));
                    },
                    other => {
                        self.drawer = other;
                    },
                }
            },
            AppEvent::NewKey => {
                self.drawer = Some(Drawer::Key(KeyEditor::new()));
                self.context_menu = None;
            },
            AppEvent::EditKey(id) => {
                if let Some(k) = key_by_id(&self.keys, id) {
                    self.drawer = Some(Drawer::Key(KeyEditor::from_key(&k)));
                    self.context_menu = None;
                }
            },
            AppEvent::KeyFieldChanged(f, v) => {
                let d = self.drawer.take();
                match d {
                    Some(Drawer::Key(mut e)) => {
                        match f {
                            KeyField::Name => e.name = v,
                            KeyField::PrivateKey => e.private_key = v,
                            KeyField::PublicKey => e.public_key = v,
                            KeyField::Certificate => e.certificate = v,
                        }
                        self.drawer = Some(Drawer::Key(e));
                    },
                    other => {
                        self.drawer = other;
                    },
                }
            },
            AppEvent::NewIdentity => {
                self.drawer = Some(Drawer::Identity(IdentityEditor::new()));
                self.context_menu = None;
            },
            AppEvent::EditIdentity(id) => {
                if let Some(i) = identity_by_id(&self.identities, id) {
                    self.drawer = Some(Drawer::Identity(IdentityEditor::from_identity(&i)));
                    self.context_menu = None;
                }
            },
            AppEvent::IdentityFieldChanged(f, v) => {
                let d = self.drawer.take();
                match d {
                    Some(Drawer::Identity(mut e)) => {
                        match f {
                            IdentityField::Name => e.name = v,
                            IdentityField::Username => e.username = v,
                            IdentityField::Password => e.password = v,
                            IdentityField::KeyId => e.key_id = v,
                        }
                        self.drawer = Some(Drawer::Identity(e));
                    },
                    other => {
                        self.drawer = other;
                    },
                }
            },
            AppEvent::NewPortForward => {
                self.drawer = Some(Drawer::PortForward(PortForwardEditor::new()));
                self.active_port_forward_context = None;
            },
            AppEvent::EditPortForward(id) => {
                if let Some(j) = forward_index_by_id(&self.port_forwards, id) {
                    let e = PortForwardEditor::from_port_forward(&self.port_forwards[j]);
                    self.drawer = Some(Drawer::PortForward(e));
                    self.active_port_forward_context = None;
                }
            },
            AppEvent::PortForwardFieldChanged(f, v) => {
                let d = self.drawer.take();
                match d {
                    Some(Drawer::PortForward(mut e)) => {
                        match f {
                            PortForwardField::Label => e.label = v,
                            PortForwardField::BindAddress => e.bind_address = v,
                            PortForwardField::BindPort => e.bind_port = v,
                            PortForwardField::ConnectionId => e.connection_id = v,
                            PortForwardField::DestinationHost => e.destination_host = v,
                            PortForwardField::DestinationPort => e.destination_port = v,
                        }
                        self.drawer = Some(Drawer::PortForward(e));
                    },
                    other => {
                        self.drawer = other;
                    },
                }
            },
            AppEvent::PortForwardTypeChanged(v) => {
                let d = self.drawer.take();
                match d {
                    Some(Drawer::PortForward(mut e)) => {
                        e.forward_type = PortForwardType::from_name(v.as_str());
                        self.drawer = Some(Drawer::PortForward(e));
                    },
                    other => {
                        self.drawer = other;
                    },
                }
            },
            _ => {},
        }
        AppAction::Nothing
    }
}


// ---------------------------------------------------------------------------
// Saving and deleting records
// ---------------------------------------------------------------------------

/// Only the log changed, by recording `msg`.
pub open spec fn log_only(old: WorkspaceModel, new: WorkspaceModel, msg: Seq<char>) -> bool {
    new == WorkspaceModel { logs: new.logs, ..old } && logged(old.logs@, new.logs@, msg)
}

pub open spec fn form_id(id: Option<i64>) -> i64 {
    match id {
        Some(v) => v,
        None => 0,
    }
}

pub open spec fn group_saved(e: GroupEditor, g: Group) -> bool {
    &&& g.id == form_id(e.id)
    &&& g.name@ == trim_spec(e.name@)
    &&& same_id(g.parent_id, parse_optional_i64_spec(e.parent_id@))
}

pub open spec fn key_saved(e: KeyEditor, k: Key) -> bool {
    &&& k.id == form_id(e.id)
    &&& k.name@ == trim_spec(e.name@)
    &&& k.private_key == e.private_key
    &&& k.public_key == e.public_key
    &&& k.certificate == e.certificate
}

pub open spec fn identity_saved(e: IdentityEditor, i: Identity) -> bool {
    &&& i.id == form_id(e.id)
    &&& i.name@ == trim_spec(e.name@)
    &&& i.username == e.username
    &&& i.password == e.password
    &&& same_id(i.key_id, parse_optional_i64_spec(e.key_id@))
}

pub open spec fn forward_saved(e: PortForwardEditor, f: PortForward) -> bool {
    &&& f.id == form_id(e.id)
    &&& f.label@ == trim_spec(e.label@)
    &&& f.forward_type == e.forward_type
    &&& f.enabled == e.enabled
    &&& f.bind_address@ == trim_spec(e.bind_address@)
    &&& f.bind_port == parse_i64_spec(trim_spec(e.bind_port@))->0
    &&& same_id(f.connection_id, parse_optional_i64_spec(e.connection_id@))
    &&& f.connection_name@.len() == 0
    &&& f.destination_host@ == trim_spec(e.destination_host@)
    &&& f.destination_port == (if e.forward_type == PortForwardType::Dynamic {
        0
    } else {
        parse_i64_spec(trim_spec(e.destination_port@))->0
    })
}

/// Saving the open form: when it does not check, its error is logged; otherwise the record
/// it describes goes to the database. Without that form open nothing happens.
pub open spec fn save_step(old: WorkspaceModel, ev: AppEvent, new: WorkspaceModel, a: AppAction) -> bool {
    match (ev, old.drawer) {
        (AppEvent::SaveConnection, Some(Drawer::Connection(e))) => match connection_form_error(e) {
            Some(m) => log_only(old, new, m) && a is Nothing,
            None => new == old && (a matches AppAction::SaveRecord(RecordToSave::Connection(c))
                && connection_from_form(c, e)),
        },
        (AppEvent::SaveGroup, Some(Drawer::Group(e))) => if is_blank_spec(e.name@) {
            log_only(old, new, "Group 名称不能为空"@) && a is Nothing
        } else {
            new == old && (a matches AppAction::SaveRecord(RecordToSave::Group(g)) && group_saved(e, g))
        },
        (AppEvent::SaveKey, Some(Drawer::Key(e))) => if is_blank_spec(e.name@) {
            log_only(old, new, "Key 名称不能为空"@) && a is Nothing
        } else {
            new == old && (a matches AppAction::SaveRecord(RecordToSave::Key(k)) && key_saved(e, k))
        },
        (AppEvent::SaveIdentity, Some(Drawer::Identity(e))) => if is_blank_spec(e.name@) {
            log_only(old, new, "Identity 名称不能为空"@) && a is Nothing
        } else {
            new == old && (a matches AppAction::SaveRecord(RecordToSave::Identity(i)) && identity_saved(e, i))
        },
        (AppEvent::SavePortForward, Some(Drawer::PortForward(e))) => match port_forward_form_error(e) {
            Some(m) => log_only(old, new, m) && a is Nothing,
            None => new == old && (a matches AppAction::SaveRecord(RecordToSave::PortForward(f))
                && forward_saved(e, f)),
        },
        _ => new == old && a is Nothing,
    }
}

pub open spec fn is_save_event(ev: AppEvent) -> bool {
    ||| ev is SaveConnection
    ||| ev is SaveGroup
    ||| ev is SaveKey
    ||| ev is SaveIdentity
    ||| ev is SavePortForward
}

/// The name a connection is deleted under in the log: its name, or `Connection #id` when
/// it is not in the list.
pub open spec fn deleted_name_spec(cs: Seq<Connection>, id: i64) -> Seq<char> {
    match find_connection_id(cs, id, 0) {
        Some(j) => cs[j].name@,
        None => "Connection #"@ + int_to_decimal(id as int),
    }
}

/// Duplicating, deleting and switching records: duplicating writes a copy with id 0 and a
/// copy's name; deleting names the connection for the log; switching a forward off marks
/// it off and writes it back, switching it on starts it through its connection (or logs why
/// it cannot).
pub open spec fn record_step(old: WorkspaceModel, ev: AppEvent, new: WorkspaceModel, a: AppAction) -> bool {
    match ev {
        AppEvent::DuplicateConnection(id) => new == old && match find_connection_id(old.connections@, id, 0) {
            None => a is Nothing,
            Some(j) => a matches AppAction::SaveDuplicate(c) && c == Connection {
                id: 0,
                name: c.name,
                ..old.connections@[j]
            } && c.name@ == duplicate_name_spec(old.connections@[j].name@),
        },
        AppEvent::DeleteConnection(id) => new == old && (a matches AppAction::DeleteConnection(i, n)
            && i == id && n@ == deleted_name_spec(old.connections@, id)),
        AppEvent::DeletePortForward(id) => new == old && a == AppAction::DeletePortForward(id),
        AppEvent::TogglePortForward(id, enabled) => match find_forward(old.port_forwards@, id, 0) {
            None => new == old && a is Nothing,
            Some(j) => {
                let f = old.port_forwards@[j];
                if !enabled {
                    let off = PortForward { enabled: false, ..f };
                    &&& new == WorkspaceModel { port_forwards: new.port_forwards, ..old }
                    &&& new.port_forwards@ == old.port_forwards@.update(j, off)
                    &&& a == AppAction::DisablePortForward(off)
                } else {
                    exists|r: Result<ConnectionTarget, String>|
                        #![trigger port_forward_target_spec(old.connections@, old.keys@, old.identities@, f, old.known_hosts_path@, r)]
                        port_forward_target_spec(
                            old.connections@,
                            old.keys@,
                            old.identities@,
                            f,
                            old.known_hosts_path@,
                            r,
                        ) && match r {
                            Err(m) => log_only(old, new, m@) && a is Nothing,
                            Ok(t) => new == old && a == AppAction::StartPortForward(id, t, f),
                        }
                }
            },
        },
        _ => false,
    }
}

pub open spec fn is_record_event(ev: AppEvent) -> bool {
    ||| ev is DuplicateConnection
    ||| ev is DeleteConnection
    ||| ev is DeletePortForward
    ||| ev is TogglePortForward
}

fn concat(a: &str, b: &str) -> (s: String)
    ensures
        s@ == a@ + b@,
{
    let mut s = owned(a);
    s.append(b);
    s
}

impl WorkspaceModel {
    fn log(&mut self, msg: String)
        ensures
            log_only(*old(self), *final(self), msg@),
    {
        let ghost m = msg;
        record_shell_log(&mut self.logs, msg);
        proof {
            let all = old(self).logs@.push(m);
            if all.len() > crate::shell::SHELL_LOG_LIMIT {
                assert(self.logs@.last() == all.last());
            }
        }
    }

    fn save_form(&mut self, ev: AppEvent) -> (a: AppAction)
        requires
            old(self).wf(),
            is_save_event(ev),
        ensures
            save_step(*old(self), ev, *final(self), a),
            final(self).wf(),
    {
        match (&ev, &self.drawer) {
            (AppEvent::SaveConnection, Some(Drawer::Connection(e))) => match e.to_connection() {
                Ok(c) => AppAction::SaveRecord(RecordToSave::Connection(c)),
                Err(m) => {
                    self.log(m);
                    AppAction::Nothing
                },
            },
            (AppEvent::SaveGroup, Some(Drawer::Group(e))) => match e.to_group() {
                Ok(g) => AppAction::SaveRecord(RecordToSave::Group(g)),
                Err(m) => {
                    self.log(m);
                    AppAction::Nothing
                },
            },
            (AppEvent::SaveKey, Some(Drawer::Key(e))) => match e.to_key() {
                Ok(k) => AppAction::SaveRecord(RecordToSave::Key(k)),
                Err(m) => {
                    self.log(m);
                    AppAction::Nothing
                },
            },
            (AppEvent::SaveIdentity, Some(Drawer::Identity(e))) => match e.to_identity() {
                Ok(i) => AppAction::SaveRecord(RecordToSave::Identity(i)),
                Err(m) => {
                    self.log(m);
                    AppAction::Nothing
                },
            },
            (AppEvent::SavePortForward, Some(Drawer::PortForward(e))) => match e.to_port_forward() {
                Ok(f) => AppAction::SaveRecord(RecordToSave::PortForward(f)),
                Err(m) => {
                    self.log(m);
                    AppAction::Nothing
                },
            },
            _ => AppAction::Nothing,
        }
    }

    fn change_record(&mut self, ev: AppEvent) -> (a: AppAction)
        requires
            old(self).wf(),
            is_record_event(ev),
        ensures
            record_step(*old(self), ev, *final(self), a),
            final(self).wf(),
    {
        match ev {
            AppEvent::DuplicateConnection(id) => match connection_index_by_id(&self.connections, id) {
                None => AppAction::Nothing,
                Some(j) => {
                    let c = self.connections[j].duplicate();
                    let name = duplicate_connection_name(c.name.as_str());
                    AppAction::SaveDuplicate(Connection { id: 0, name, ..c })
                },
            },
            AppEvent::DeleteConnection(id) => {
                let name = match connection_index_by_id(&self.connections, id) {
                    Some(j) => self.connections[j].name.clone(),
                    None => {
                        let n = i64_to_string(id);
                        concat("Connection #", n.as_str())
                    },
                };
                AppAction::DeleteConnection(id, name)
            },
            AppEvent::DeletePortForward(id) => AppAction::DeletePortForward(id),
            AppEvent::TogglePortForward(id, enabled) => match forward_index_by_id(&self.port_forwards, id) {
                None => AppAction::Nothing,
                Some(j) => {
                    if !enabled {
                        let f = self.port_forwards[j].duplicate();
                        let off = PortForward { enabled: false, ..f };
                        self.port_forwards.set(j, off.duplicate());
                        AppAction::DisablePortForward(off)
                    } else {
                        let f = self.port_forwards[j].duplicate();
                        let r = port_forward_target(
                            &self.connections,
                            &self.keys,
                            &self.identities,
                            &f,
                            self.known_hosts_path.as_str(),
                        );
                        match r {
                            Ok(t) => AppAction::StartPortForward(id, t, f),
                            Err(m) => {
                                self.log(m);
                                AppAction::Nothing
                            },
                        }
                    }
                }
            },
            _ => AppAction::Nothing,
        }
    }
}


// ---------------------------------------------------------------------------
// Outcomes of database work
// ---------------------------------------------------------------------------

/// The word a record kind is logged under.
pub open spec fn kind_word(k: RecordKind) -> Seq<char> {
    match k {
        RecordKind::Connection => "connection"@,
        RecordKind::Group => "group"@,
        RecordKind::Key => "key"@,
        RecordKind::Identity => "identity"@,
        RecordKind::PortForward => "端口转发"@,
    }
}

/// The log line for a record written under `name`.
pub open spec fn saved_message(k: RecordKind, name: Seq<char>) -> Seq<char> {
    match k {
        RecordKind::PortForward => "已保存端口转发: "@ + name,
        _ => "已保存 "@ + kind_word(k) + ": "@ + name,
    }
}

/// The log line for a record that could not be written.
pub open spec fn save_failed_message(k: RecordKind, error: Seq<char>) -> Seq<char> {
    match k {
        RecordKind::PortForward => "保存端口转发失败: "@ + error,
        _ => "保存 "@ + kind_word(k) + " 失败: "@ + error,
    }
}

/// The port forwards with forward `j` marked on or off.
pub open spec fn forward_marked(fs: Seq<PortForward>, j: int, on: bool) -> Seq<PortForward> {
    fs.update(j, PortForward { enabled: on, ..fs[j] })
}

/// What the outcome of database and forward work does: a written record closes the form,
/// is logged and the records are read again; a deleted or duplicated connection closes the
/// context menu, is logged and the records are read again; failures are logged; a forward
/// that started (or failed to) is marked on (or off) and written back; records read back
/// replace the lists.
pub open spec fn outcome_step(old: WorkspaceModel, ev: AppEvent, new: WorkspaceModel, a: AppAction) -> bool {
    match ev {
        AppEvent::RecordSaved(k, Ok(name)) => {
            &&& new == WorkspaceModel { drawer: None, logs: new.logs, ..old }
            &&& logged(old.logs@, new.logs@, saved_message(k, name@))
            &&& a is ReloadData
        },
        AppEvent::RecordSaved(k, Err(e)) => log_only(old, new, save_failed_message(k, e@)) && a is Nothing,
        AppEvent::ConnectionDeleted(name, Ok(())) => {
            &&& new == WorkspaceModel { context_menu: None, logs: new.logs, ..old }
            &&& logged(old.logs@, new.logs@, "Deleted connection: "@ + name@)
            &&& a is ReloadData
        },
        AppEvent::ConnectionDeleted(_, Err(e)) => log_only(old, new, "Failed to delete connection: "@ + e@)
            && a is Nothing,
        AppEvent::ConnectionDuplicated(Ok(name)) => {
            &&& new == WorkspaceModel { context_menu: None, logs: new.logs, ..old }
            &&& logged(old.logs@, new.logs@, "Duplicated connection: "@ + name@)
            &&& a is ReloadData
        },
        AppEvent::ConnectionDuplicated(Err(e)) => log_only(old, new, "Failed to duplicate connection: "@ + e@)
            && a is Nothing,
        AppEvent::PortForwardDeleted(Ok(())) => new == WorkspaceModel {
            active_port_forward_context: None,
            ..old
        } && a is ReloadData,
        AppEvent::PortForwardDeleted(Err(e)) => log_only(old, new, "删除端口转发失败: "@ + e@) && a is Nothing,
        AppEvent::PortForwardDisabled(Ok(())) => new == old && a is ReloadData,
        AppEvent::PortForwardDisabled(Err(e)) => log_only(old, new, "更新端口转发状态失败: "@ + e@)
            && a is ReloadData,
        AppEvent::PortForwardStateSaved => new == old && a is ReloadData,
        AppEvent::PortForwardStarted(id, r) => {
            let logs_ok = match r {
                Ok(()) => new.logs == old.logs,
                Err(e) => logged(old.logs@, new.logs@, "端口转发启动失败: "@ + e@),
            };
            &&& logs_ok
            &&& match find_forward(old.port_forwards@, id, 0) {
                None => new == WorkspaceModel { logs: new.logs, ..old } && a is ReloadData,
                Some(j) => {
                    &&& new == WorkspaceModel { logs: new.logs, port_forwards: new.port_forwards, ..old }
                    &&& new.port_forwards@ == forward_marked(old.port_forwards@, j, r is Ok)
                    &&& a == AppAction::SavePortForwardState(new.port_forwards@[j])
                },
            }
        },
        AppEvent::WorkspaceLoaded(rs) => new == WorkspaceModel {
            connections: rs.connections,
            groups: rs.groups,
            keys: rs.keys,
            identities: rs.identities,
            port_forwards: rs.port_forwards,
            ..old
        } && a is Nothing,
        _ => false,
    }
}

pub open spec fn is_outcome_event(ev: AppEvent) -> bool {
    ||| ev is RecordSaved
    ||| ev is ConnectionDeleted
    ||| ev is ConnectionDuplicated
    ||| ev is PortForwardDeleted
    ||| ev is PortForwardDisabled
    ||| ev is PortForwardStateSaved
    ||| ev is PortForwardStarted
    ||| ev is WorkspaceLoaded
}

fn kind_word_of(k: RecordKind) -> (s: &'static str)
    ensures
        s@ == kind_word(k),
{
    match k {
        RecordKind::Connection => "connection",
        RecordKind::Group => "group",
        RecordKind::Key => "key",
        RecordKind::Identity => "identity",
        RecordKind::PortForward => "端口转发",
    }
}

fn saved_message_of(k: RecordKind, name: &str) -> (s: String)
    ensures
        s@ == saved_message(k, name@),
{
    match k {
        RecordKind::PortForward => concat("已保存端口转发: ", name),
        _ => {
            let mut s = concat("已保存 ", kind_word_of(k));
            s.append(": ");
            s.append(name);
            s
        },
    }
}

fn save_failed_message_of(k: RecordKind, error: &str) -> (s: String)
    ensures
        s@ == save_failed_message(k, error@),
{
    match k {
        RecordKind::PortForward => concat("保存端口转发失败: ", error),
        _ => {
            let mut s = concat("保存 ", kind_word_of(k));
            s.append(" 失败: ");
            s.append(error);
            s
        },
    }
}

impl WorkspaceModel {
    fn apply_outcome(&mut self, ev: AppEvent) -> (a: AppAction)
        requires
            old(self).wf(),
            is_outcome_event(ev),
        ensures
            outcome_step(*old(self), ev, *final(self), a),
            final(self).wf(),
    {
        match ev {
            AppEvent::RecordSaved(k, Ok(name)) => {
                self.drawer = None;
                self.log(saved_message_of(k, name.as_str()));
                AppAction::ReloadData
            },
            AppEvent::RecordSaved(k, Err(e)) => {
                self.log(save_failed_message_of(k, e.as_str()));
                AppAction::Nothing
            },
            AppEvent::ConnectionDeleted(name, Ok(())) => {
                self.context_menu = None;
                self.log(concat("Deleted connection: ", name.as_str()));
                AppAction::ReloadData
            },
            AppEvent::ConnectionDeleted(_, Err(e)) => {
                self.log(concat("Failed to delete connection: ", e.as_str()));
                AppAction::Nothing
            },
            AppEvent::ConnectionDuplicated(Ok(name)) => {
                self.context_menu = None;
                self.log(concat("Duplicated connection: ", name.as_str()));
                AppAction::ReloadData
            },
            AppEvent::ConnectionDuplicated(Err(e)) => {
                self.log(concat("Failed to duplicate connection: ", e.as_str()));
                AppAction::Nothing
            },
            AppEvent::PortForwardDeleted(Ok(())) => {
                self.active_port_forward_context = None;
                AppAction::ReloadData
            },
            AppEvent::PortForwardDeleted(Err(e)) => {
                self.log(concat("删除端口转发失败: ", e.as_str()));
                AppAction::Nothing
            },
            AppEvent::PortForwardDisabled(Ok(())) => AppAction::ReloadData,
            AppEvent::PortForwardDisabled(Err(e)) => {
                self.log(concat("更新端口转发状态失败: ", e.as_str()));
                AppAction::ReloadData
            },
            AppEvent::PortForwardStateSaved => AppAction::ReloadData,
            AppEvent::PortForwardStarted(id, r) => {
                let on = r.is_ok();
                if let Err(e) = r {
                    self.log(concat("端口转发启动失败: ", e.as_str()));
                }
                match forward_index_by_id(&self.port_forwards, id) {
                    None => AppAction::ReloadData,
                    Some(j) => {
                        let f = self.port_forwards[j].duplicate();
                        let marked = PortForward { enabled: on, ..f };
                        self.port_forwards.set(j, marked.duplicate());
                        AppAction::SavePortForwardState(marked)
                    },
                }
            },
            AppEvent::WorkspaceLoaded(rs) => {
                self.connections = rs.connections;
                self.groups = rs.groups;
                self.keys = rs.keys;
                self.identities = rs.identities;
                self.port_forwards = rs.port_forwards;
                AppAction::Nothing
            },
            _ => AppAction::Nothing,
        }
    }
}


// ---------------------------------------------------------------------------
// Terminal tabs and their sessions
// ---------------------------------------------------------------------------

/// The first tab entry, from `i` on, with identifier `id`.
pub open spec fn find_info(infos: Seq<TabInfo>, id: u64, i: int) -> Option<int>
    decreases infos.len() - i,
{
    if i < 0 || i >= infos.len() {
        None
    } else if infos[i].id == id {
        Some(i)
    } else {
        find_info(infos, id, i + 1)
    }
}

proof fn lemma_find_info_bounds(infos: Seq<TabInfo>, id: u64, i: int)
    requires
        0 <= i,
    ensures
        find_info(infos, id, i) matches Some(k) ==> i <= k < infos.len() && infos[k].id == id,
    decreases infos.len() - i,
{
    if i < infos.len() && infos[i].id != id {
        lemma_find_info_bounds(infos, id, i + 1);
    }
}

fn info_index(infos: &Vec<TabInfo>, id: u64) -> (r: Option<usize>)
    ensures
        r matches Some(j) ==> find_info(infos@, id, 0) == Some(j as int) && j < infos@.len(),
        r is None ==> find_info(infos@, id, 0) is None,
{
    proof {
        lemma_find_info_bounds(infos@, id, 0);
    }
    let mut i: usize = 0;
    while i < infos.len()
        invariant
            i <= infos@.len(),
            find_info(infos@, id, 0) == find_info(infos@, id, i as int),
        decreases infos.len() - i,
    {
        if infos[i].id == id {
            return Some(i);
        }
        i = i + 1;
    }
    None
}

/// The title a terminal tab starts with: for a local shell `user@host:dir`, otherwise the
/// connection's name.
pub open spec fn tab_title_spec(c: Connection, local: LocalUser) -> Seq<char> {
    if c.connection_type == ConnectionType::Local {
        local.user@ + seq!['@'] + local.host@ + seq![':'] + work_dir_label_spec(
            c.work_dir@,
            match local.home {
                Some(h) => Some(h@),
                None => None,
            },
        )
    } else {
        c.name@
    }
}

/// The entry of tab `k` changed to `info`, and the log possibly extended; nothing else.
pub open spec fn info_changed(old: WorkspaceModel, new: WorkspaceModel, k: int, info: TabInfo) -> bool {
    &&& new == WorkspaceModel { tab_infos: new.tab_infos, logs: new.logs, ..old }
    &&& new.tab_infos@ == old.tab_infos@.update(k, info)
}

/// What opening, connecting and running terminals does.
pub open spec fn terminal_step(old: WorkspaceModel, ev: AppEvent, new: WorkspaceModel, a: AppAction) -> bool {
    match ev {
        AppEvent::ConnectConnection(id, cols, rows, local) => match find_connection_id(old.connections@, id, 0) {
            None => log_only(old, new, "未找到 connection #"@ + int_to_decimal(id as int)) && a is Nothing,
            Some(j) => {
                let c = old.connections@[j];
                let tid = old.next_terminal_id;
                let title = tab_title_spec(c, local);
                &&& new == WorkspaceModel {
                    next_terminal_id: (tid + 1) as u64,
                    tab_infos: new.tab_infos,
                    tabs: new.tabs,
                    context_menu: None,
                    logs: new.logs,
                    ..old
                }
                &&& new.tab_infos@.len() == old.tab_infos@.len() + 1
                &&& new.tab_infos@.drop_last() == old.tab_infos@
                &&& new.tab_infos@.last().id == tid
                &&& new.tab_infos@.last().title@ == title
                &&& new.tab_infos@.last().fallback_title@ == title
                &&& new.tab_infos@.last().status@ == "Connecting"@
                &&& !new.tab_infos@.last().connected
                &&& new.tab_infos@.last().sftp is None
                &&& new.tab_infos@.last().cols == cols && new.tab_infos@.last().rows == rows
                &&& new.tab_infos@.last().selection_anchor is None
                &&& new.tab_infos@.last().selection is None
                &&& new.tabs.tab_ids@ == old.tabs.tab_ids@.push(tid)
                &&& new.tabs.active_tab == ActiveTab::Terminal(tid)
                &&& new.tabs.terminal_focus == Some(tid)
                &&& logged(old.logs@, new.logs@, "开始连接 connection: "@ + c.name@)
                &&& a matches AppAction::ConnectTerminal(t, target) && t == tid
                    && target.connection == c
                    && target.key == key_for(old.keys@, c.effective_key_id)
                    && target.identity == identity_for(old.identities@, c.identity_id)
                    && target.known_hosts_path@ == old.known_hosts_path@
                    && target.cols == cols && target.rows == rows
            },
        },
        AppEvent::TerminalConnected(id, r) => match find_info(old.tab_infos@, id, 0) {
            None => new == old && a is Nothing,
            Some(k) => {
                let t = old.tab_infos@[k];
                match r {
                    Ok(()) => info_changed(old, new, k, TabInfo {
                        connected: true,
                        status: new.tab_infos@[k].status,
                        ..t
                    }) && new.logs == old.logs && new.tab_infos@[k].status@ == "Connected"@
                        && a is Nothing,
                    Err(e) => info_changed(old, new, k, TabInfo { status: e, ..t })
                        && logged(old.logs@, new.logs@, t.title@ + ": "@ + e@)
                        && (a matches AppAction::TerminalLine(i, l) && i == id
                        && l@ == "Connection error: "@ + e@),
                }
            },
        },
        AppEvent::TerminalSessionEvent(id, sev) => match find_info(old.tab_infos@, id, 0) {
            None => new == old && a is Nothing,
            Some(k) => {
                let t = old.tab_infos@[k];
                match sev {
                    SessionEvent::Connected { description } => info_changed(old, new, k, TabInfo {
                        status: description,
                        ..t
                    }) && logged(old.logs@, new.logs@, t.title@ + ": "@ + description@) && a is Nothing,
                    SessionEvent::Output(bytes) => new == old && a == AppAction::FeedTerminal(id, bytes),
                    SessionEvent::Status(st) => info_changed(old, new, k, TabInfo { status: st, ..t })
                        && logged(old.logs@, new.logs@, t.title@ + ": "@ + st@) && a is Nothing,
                    SessionEvent::Error(e) => info_changed(old, new, k, TabInfo { status: e, ..t })
                        && logged(old.logs@, new.logs@, t.title@ + ": "@ + e@)
                        && (a matches AppAction::TerminalLine(i, l) && i == id && l@ == "Error: "@ + e@),
                    SessionEvent::Disconnected(reason) => info_changed(old, new, k, TabInfo {
                        status: reason,
                        connected: false,
                        ..t
                    }) && logged(old.logs@, new.logs@, t.title@ + ": "@ + reason@)
                        && (a matches AppAction::TerminalLine(i, l) && i == id
                        && l@ == "Disconnected: "@ + reason@),
                }
            },
        },
        AppEvent::TerminalRetitled(id, title) => a is Nothing && match find_info(old.tab_infos@, id, 0) {
            None => new == old,
            Some(k) => {
                let t = old.tab_infos@[k];
                match title {
                    None => info_changed(old, new, k, TabInfo { title: t.fallback_title, ..t })
                        && new.logs == old.logs,
                    Some(s) => if trim_spec(s@).len() == 0 {
                        new == old
                    } else {
                        info_changed(old, new, k, TabInfo { title: new.tab_infos@[k].title, ..t })
                            && new.logs == old.logs && new.tab_infos@[k].title@ == trim_spec(s@)
                    },
                }
            },
        },
        _ => false,
    }
}

pub open spec fn is_terminal_event(ev: AppEvent) -> bool {
    ||| ev is ConnectConnection
    ||| ev is TerminalConnected
    ||| ev is TerminalSessionEvent
    ||| ev is TerminalRetitled
}

fn colon_line(title: &str, detail: &str) -> (s: String)
    ensures
        s@ == title@ + ": "@ + detail@,
{
    let mut s = concat(title, ": ");
    s.append(detail);
    s
}

impl WorkspaceModel {
    /// Takes the entry of tab `k` out, leaving an empty entry with the same id in its place.
    fn take_info(&mut self, k: usize) -> (t: TabInfo)
        requires
            k < old(self).tab_infos@.len(),
            old(self).wf(),
        ensures
            t == old(self).tab_infos@[k as int],
            *final(self) == (WorkspaceModel { tab_infos: final(self).tab_infos, ..*old(self) }),
            final(self).tab_infos@ == old(self).tab_infos@.update(
                k as int,
                final(self).tab_infos@[k as int],
            ),
            final(self).tab_infos@[k as int].id == t.id,
            final(self).wf(),
    {
        let t = self.tab_infos.remove(k);
        let blank = TabInfo {
            id: t.id,
            title: owned(""),
            fallback_title: owned(""),
            status: owned(""),
            connected: false,
            cols: 0,
            rows: 0,
            selection_anchor: None,
            selection: None,
            sftp: None,
        };
        self.tab_infos.insert(k, blank);
        assert(self.tab_infos@ =~= old(self).tab_infos@.update(k as int, self.tab_infos@[k as int]));
        assert(info_ids(self.tab_infos@) =~= info_ids(old(self).tab_infos@));
        t
    }

    /// Puts `info` in place of the entry of tab `k`; `before` is the list as it was when the
    /// entry was taken out.
    fn set_info(&mut self, k: usize, info: TabInfo, Ghost(before): Ghost<Seq<TabInfo>>)
        requires
            k < before.len(),
            old(self).tab_infos@ == before.update(k as int, old(self).tab_infos@[k as int]),
            info.id == before[k as int].id,
            info_ids(before) == old(self).tabs.tab_ids@,
        ensures
            *final(self) == (WorkspaceModel { tab_infos: final(self).tab_infos, ..*old(self) }),
            final(self).tab_infos@ == before.update(k as int, info),
            final(self).wf(),
    {
        self.tab_infos.set(k, info);
        assert(self.tab_infos@ =~= before.update(k as int, info));
        assert(info_ids(self.tab_infos@) =~= info_ids(before));
    }

    fn run_terminal(&mut self, ev: AppEvent) -> (a: AppAction)
        requires
            old(self).wf(),
            is_terminal_event(ev),
            old(self).next_terminal_id < u64::MAX,
        ensures
            terminal_step(*old(self), ev, *final(self), a),
            final(self).wf(),
    {
        match ev {
            AppEvent::ConnectConnection(id, cols, rows, local) => {
                match connection_index_by_id(&self.connections, id) {
                    None => {
                        let n = i64_to_string(id);
                        self.log(concat("未找到 connection #", n.as_str()));
                        AppAction::Nothing
                    },
                    Some(j) => {
                        let c = self.connections[j].duplicate();
                        let key = match c.effective_key_id {
                            Some(kid) => key_by_id(&self.keys, kid),
                            None => None,
                        };
                        let identity = match c.identity_id {
                            Some(iid) => identity_by_id(&self.identities, iid),
                            None => None,
                        };
                        let tid = self.next_terminal_id;
                        self.next_terminal_id = tid + 1;
                        let title = match c.connection_type {
                            ConnectionType::Local => local_terminal_tab_title(
                                local.user.as_str(),
                                local.host.as_str(),
                                c.work_dir.as_str(),
                                match &local.home {
                                    Some(h) => Some(h.as_str()),
                                    None => None,
                                },
                            ),
                            _ => c.name.clone(),
                        };
                        let info = TabInfo {
                            id: tid,
                            title: title.clone(),
                            fallback_title: title,
                            status: owned("Connecting"),
                            connected: false,
                            cols: cols as usize,
                            rows: rows as usize,
                            selection_anchor: None,
                            selection: None,
                            sftp: None,
                        };
                        let ghost before = self.tab_infos@;
                        self.tab_infos.push(info);
                        assert(info_ids(self.tab_infos@) =~= info_ids(before).push(tid));
                        self.tabs.open_tab(tid);
                        self.context_menu = None;
                        let line = concat("开始连接 connection: ", c.name.as_str());
                        self.log(line);
                        assert(self.tab_infos@.drop_last() =~= before);
                        AppAction::ConnectTerminal(
                            tid,
                            ConnectionTarget {
                                connection: c,
                                key,
                                identity,
                                known_hosts_path: self.known_hosts_path.clone(),
                                cols,
                                rows,
                            },
                        )
                    },
                }
            },
            AppEvent::TerminalConnected(id, r) => match info_index(&self.tab_infos, id) {
                None => AppAction::Nothing,
                Some(k) => {
                    let ghost before = self.tab_infos@;
                    let t = self.take_info(k);
                    match r {
                        Ok(()) => {
                            let info = TabInfo { status: owned("Connected"), connected: true, ..t };
                            self.set_info(k, info, Ghost(before));
                            AppAction::Nothing
                        },
                        Err(e) => {
                            let line = colon_line(t.title.as_str(), e.as_str());
                            let shown = concat("Connection error: ", e.as_str());
                            let info = TabInfo { status: e, ..t };
                            self.set_info(k, info, Ghost(before));
                            self.log(line);
                            AppAction::TerminalLine(id, shown)
                        },
                    }
                },
            },
            AppEvent::TerminalSessionEvent(id, sev) => match info_index(&self.tab_infos, id) {
                None => AppAction::Nothing,
                Some(k) => {
                    let ghost before = self.tab_infos@;
                    match sev {
                        SessionEvent::Connected { description } => {
                            let t = self.take_info(k);
                            let line = colon_line(t.title.as_str(), description.as_str());
                            self.set_info(k, TabInfo { status: description, ..t }, Ghost(before));
                            self.log(line);
                            AppAction::Nothing
                        },
                        SessionEvent::Output(bytes) => AppAction::FeedTerminal(id, bytes),
                        SessionEvent::Status(st) => {
                            let t = self.take_info(k);
                            let line = colon_line(t.title.as_str(), st.as_str());
                            self.set_info(k, TabInfo { status: st, ..t }, Ghost(before));
                            self.log(line);
                            AppAction::Nothing
                        },
                        SessionEvent::Error(e) => {
                            let t = self.take_info(k);
                            let line = colon_line(t.title.as_str(), e.as_str());
                            let shown = concat("Error: ", e.as_str());
                            self.set_info(k, TabInfo { status: e, ..t }, Ghost(before));
                            self.log(line);
                            AppAction::TerminalLine(id, shown)
                        },
                        SessionEvent::Disconnected(reason) => {
                            let t = self.take_info(k);
                            let line = colon_line(t.title.as_str(), reason.as_str());
                            let shown = concat("Disconnected: ", reason.as_str());
                            self.set_info(
                                k,
                                TabInfo { status: reason, connected: false, ..t },
                                Ghost(before),
                            );
                            self.log(line);
                            AppAction::TerminalLine(id, shown)
                        },
                    }
                },
            },
            AppEvent::TerminalRetitled(id, title) => match info_index(&self.tab_infos, id) {
                None => AppAction::Nothing,
                Some(k) => {
                    let ghost before = self.tab_infos@;
                    match title {
                        None => {
                            let t = self.take_info(k);
                            let fallback = t.fallback_title.clone();
                            self.set_info(k, TabInfo { title: fallback, ..t }, Ghost(before));
                            AppAction::Nothing
                        },
                        Some(s) => {
                            if is_blank(s.as_str()) {
                                AppAction::Nothing
                            } else {
                                let t = self.take_info(k);
                                self.set_info(k, TabInfo { title: trim(s.as_str()), ..t }, Ghost(before));
                                AppAction::Nothing
                            }
                        },
                    }
                },
            },
            _ => AppAction::Nothing,
        }
    }
}



// ---------------------------------------------------------------------------
// SFTP tabs
// ---------------------------------------------------------------------------

/// The first SSH connection, from `i` on, with identifier `id`.
pub open spec fn find_ssh_connection(cs: Seq<Connection>, id: i64, i: int) -> Option<int>
    decreases cs.len() - i,
{
    if i < 0 || i >= cs.len() {
        None
    } else if cs[i].id == id && cs[i].connection_type == ConnectionType::Ssh {
        Some(i)
    } else {
        find_ssh_connection(cs, id, i + 1)
    }
}

proof fn lemma_find_ssh_connection_bounds(cs: Seq<Connection>, id: i64, i: int)
    requires
        0 <= i,
    ensures
        find_ssh_connection(cs, id, i) matches Some(k) ==> i <= k < cs.len(),
    decreases cs.len() - i,
{
    if i < cs.len() && !(cs[i].id == id && cs[i].connection_type == ConnectionType::Ssh) {
        lemma_find_ssh_connection_bounds(cs, id, i + 1);
    }
}

fn ssh_connection_index(cs: &Vec<Connection>, id: i64) -> (r: Option<usize>)
    ensures
        r matches Some(j) ==> find_ssh_connection(cs@, id, 0) == Some(j as int) && j < cs@.len(),
        r is None ==> find_ssh_connection(cs@, id, 0) is None,
{
    proof {
        lemma_find_ssh_connection_bounds(cs@, id, 0);
    }
    let mut i: usize = 0;
    while i < cs.len()
        invariant
            i <= cs@.len(),
            find_ssh_connection(cs@, id, 0) == find_ssh_connection(cs@, id, i as int),
        decreases cs.len() - i,
    {
        if cs[i].id == id && cs[i].connection_type == ConnectionType::Ssh {
            return Some(i);
        }
        i = i + 1;
    }
    None
}

/// Asking tab `id` to list the remote directory `path`: done when the tab is an SFTP tab
/// whose session is up, which then waits for the listing; otherwise nothing happens.
pub open spec fn sftp_request(
    old: WorkspaceModel,
    id: u64,
    path: Seq<char>,
    dir: bool,
    new: WorkspaceModel,
    a: AppAction,
) -> bool {
    match find_info(old.tab_infos@, id, 0) {
        None => new == old && a is Nothing,
        Some(k) => {
            let t = old.tab_infos@[k];
            match t.sftp {
                Some(v) => if v.connected {
                    &&& info_changed(old, new, k, TabInfo {
                        sftp: Some(SftpView { loading: true, ..v }),
                        ..t
                    })
                    &&& new.logs == old.logs
                    &&& if dir {
                        a matches AppAction::ListSftpDir(i, p) && i == id && p@ == path
                    } else {
                        a matches AppAction::ReadSftpFile(i, p) && i == id && p@ == path
                    }
                } else {
                    new == old && a is Nothing
                },
                None => new == old && a is Nothing,
            }
        },
    }
}

/// An outside result for SFTP tab `id` came back (`loaded` on success): the tab stops
/// waiting and changes as `loaded` says; a failure becomes the tab's status and is logged.
pub open spec fn sftp_result(
    old: WorkspaceModel,
    id: u64,
    r: Result<SftpView, Seq<char>>,
    title: Option<Seq<char>>,
    new: WorkspaceModel,
) -> bool {
    match find_info(old.tab_infos@, id, 0) {
        None => new == old,
        Some(k) => {
            let t = old.tab_infos@[k];
            match t.sftp {
                None => new == old,
                Some(v) => match r {
                    Ok(loaded) => {
                        let n = new.tab_infos@[k];
                        &&& info_changed(old, new, k, TabInfo {
                            title: n.title,
                            sftp: Some(loaded),
                            ..t
                        })
                        &&& new.logs == old.logs
                        &&& match title {
                            Some(tt) => n.title@ == tt,
                            None => n.title == t.title,
                        }
                    },
                    Err(e) => {
                        let n = new.tab_infos@[k];
                        &&& info_changed(old, new, k, TabInfo {
                            status: n.status,
                            sftp: Some(SftpView { loading: false, ..v }),
                            ..t
                        })
                        &&& n.status@ == e
                        &&& logged(old.logs@, new.logs@, e)
                    },
                },
            }
        },
    }
}

/// What a new SFTP tab shows before its session is up: the current directory, nothing
/// listed or chosen, and a request under way.
pub open spec fn fresh_sftp_view(v: SftpView) -> bool {
    &&& !v.connected
    &&& v.current_path@ == "."@
    &&& v.entries@.len() == 0
    &&& v.selected_file is None
    &&& v.preview@.len() == 0
    &&& v.loading
}

/// What SFTP events do.
pub open spec fn sftp_step(old: WorkspaceModel, ev: AppEvent, new: WorkspaceModel, a: AppAction) -> bool {
    match ev {
        AppEvent::OpenSftpConnection(id, cols, rows) => match find_ssh_connection(old.connections@, id, 0) {
            None => log_only(old, new, "未找到可用的 SSH connection #"@ + int_to_decimal(id as int))
                && a is Nothing,
            Some(j) => {
                let c = old.connections@[j];
                let tid = old.next_terminal_id;
                let tab = new.tab_infos@.last();
                &&& new == WorkspaceModel {
                    next_terminal_id: (tid + 1) as u64,
                    tab_infos: new.tab_infos,
                    tabs: new.tabs,
                    context_menu: None,
                    ..old
                }
                &&& new.tab_infos@.len() == old.tab_infos@.len() + 1
                &&& new.tab_infos@.drop_last() == old.tab_infos@
                &&& tab.id == tid
                &&& tab.title@ == c.name@ + " SFTP"@
                &&& tab.fallback_title@ == c.name@ + " SFTP"@
                &&& tab.status@ == "Connecting"@
                &&& !tab.connected
                &&& tab.sftp matches Some(v) && fresh_sftp_view(v)
                &&& tab.cols == cols && tab.rows == rows
                &&& tab.selection_anchor is None && tab.selection is None
                &&& new.tabs.tab_ids@ == old.tabs.tab_ids@.push(tid)
                &&& new.tabs.active_tab == ActiveTab::Terminal(tid)
                &&& new.tabs.terminal_focus == Some(tid)
                &&& a matches AppAction::ConnectSftp(t, target) && t == tid
                    && target.connection == c
                    && target.key == key_for(old.keys@, c.effective_key_id)
                    && target.identity == identity_for(old.identities@, c.identity_id)
                    && target.known_hosts_path@ == old.known_hosts_path@
                    && target.cols == cols && target.rows == rows
            },
        },
        AppEvent::SftpConnected(id, r) => match r {
            Ok(()) => match find_info(old.tab_infos@, id, 0) {
                None => new == old && a is Nothing,
                Some(k) => {
                    let t = old.tab_infos@[k];
                    match t.sftp {
                        None => new == old && a is Nothing,
                        Some(v) => {
                            let n = new.tab_infos@[k];
                            &&& info_changed(old, new, k, TabInfo {
                                status: n.status,
                                sftp: Some(SftpView { connected: true, loading: true, ..v }),
                                ..t
                            })
                            &&& n.status@ == "Connected"@
                            &&& new.logs == old.logs
                            &&& a matches AppAction::ListSftpDir(i, p) && i == id && p == v.current_path
                        },
                    }
                },
            },
            Err(e) => sftp_result(old, id, Err(e@), None, new) && a is Nothing,
        },
        AppEvent::SftpDirectoryLoaded(id, path, r) => a is Nothing && match r {
            Ok(entries) => match find_info(old.tab_infos@, id, 0) {
                None => new == old,
                Some(k) => match old.tab_infos@[k].sftp {
                    None => new == old,
                    Some(v) => {
                        let loaded = new.tab_infos@[k].sftp->0;
                        &&& loaded == SftpView {
                            current_path: loaded.current_path,
                            entries: loaded.entries,
                            selected_file: None,
                            preview: loaded.preview,
                            loading: false,
                            ..v
                        }
                        &&& loaded.current_path@ == path@
                        &&& loaded.entries@ == entries@
                        &&& loaded.preview@.len() == 0
                        &&& sftp_result(old, id, Ok(loaded), Some(
                            old.tab_infos@[k].fallback_title@ + " · "@ + path@,
                        ), new)
                    },
                },
            },
            Err(e) => sftp_result(old, id, Err(e@), None, new),
        },
        AppEvent::SftpFileLoaded(id, path, r) => a is Nothing && match r {
            Ok(preview) => match find_info(old.tab_infos@, id, 0) {
                None => new == old,
                Some(k) => match old.tab_infos@[k].sftp {
                    None => new == old,
                    Some(v) => {
                        let loaded = new.tab_infos@[k].sftp->0;
                        &&& loaded == SftpView {
                            selected_file: loaded.selected_file,
                            preview: loaded.preview,
                            loading: false,
                            ..v
                        }
                        &&& loaded.selected_file matches Some(f) && f@ == path@
                        &&& loaded.preview@ == preview@
                        &&& sftp_result(old, id, Ok(loaded), None, new)
                    },
                },
            },
            Err(e) => sftp_result(old, id, Err(e@), None, new),
        },
        AppEvent::SftpNavigate(id, path) => sftp_request(old, id, path@, true, new, a),
        AppEvent::SftpOpenEntry(id, path, is_dir) => sftp_request(old, id, path@, is_dir, new, a),
        AppEvent::SftpOpenParent(id) => match find_info(old.tab_infos@, id, 0) {
            Some(k) => match old.tab_infos@[k].sftp {
                Some(v) => sftp_request(old, id, sftp_parent_spec(v.current_path@), true, new, a),
                None => new == old && a is Nothing,
            },
            None => new == old && a is Nothing,
        },
        AppEvent::SftpRefresh(id) => match find_info(old.tab_infos@, id, 0) {
            Some(k) => match old.tab_infos@[k].sftp {
                Some(v) => sftp_request(old, id, v.current_path@, true, new, a),
                None => new == old && a is Nothing,
            },
            None => new == old && a is Nothing,
        },
        _ => false,
    }
}

pub open spec fn is_sftp_event(ev: AppEvent) -> bool {
    ||| ev is OpenSftpConnection
    ||| ev is SftpConnected
    ||| ev is SftpDirectoryLoaded
    ||| ev is SftpFileLoaded
    ||| ev is SftpNavigate
    ||| ev is SftpOpenEntry
    ||| ev is SftpOpenParent
    ||| ev is SftpRefresh
}

impl WorkspaceModel {
    /// See `sftp_request`.
    fn request_sftp(&mut self, id: u64, path: String, dir: bool) -> (a: AppAction)
        requires
            old(self).wf(),
        ensures
            sftp_request(*old(self), id, path@, dir, *final(self), a),
            final(self).wf(),
    {
        match info_index(&self.tab_infos, id) {
            None => AppAction::Nothing,
            Some(k) => {
                let up = match &self.tab_infos[k].sftp {
                    Some(v) => v.connected,
                    None => false,
                };
                if !up {
                    return AppAction::Nothing;
                }
                let ghost before = self.tab_infos@;
                let t = self.take_info(k);
                match t.sftp {
                    Some(v) => {
                        let view = SftpView { loading: true, ..v };
                        self.set_info(k, TabInfo { sftp: Some(view), ..t }, Ghost(before));
                    },
                    None => {},
                }
                if dir {
                    AppAction::ListSftpDir(id, path)
                } else {
                    AppAction::ReadSftpFile(id, path)
                }
            },
        }
    }

    /// A failed SFTP request for the SFTP tab `id` at `k`: see the `Err` case of `sftp_result`.
    fn sftp_failed(&mut self, id: u64, k: usize, e: String)
        requires
            old(self).wf(),
            find_info(old(self).tab_infos@, id, 0) == Some(k as int),
            k < old(self).tab_infos@.len(),
        ensures
            sftp_result(*old(self), id, Err(e@), None, *final(self)),
            final(self).wf(),
    {
        if self.tab_infos[k].sftp.is_none() {
            return;
        }
        let ghost before = self.tab_infos@;
        let t = self.take_info(k);
        match t.sftp {
            Some(v) => {
                let line = e.clone();
                let view = SftpView { loading: false, ..v };
                self.set_info(k, TabInfo { status: e, sftp: Some(view), ..t }, Ghost(before));
                self.log(line);
            },
            None => {},
        }
    }

    fn open_sftp(&mut self, ev: AppEvent) -> (a: AppAction)
        requires
            old(self).wf(),
            ev is OpenSftpConnection,
            old(self).next_terminal_id < u64::MAX,
        ensures
            sftp_step(*old(self), ev, *final(self), a),
            final(self).wf(),
    {
        match ev {
            AppEvent::OpenSftpConnection(id, cols, rows) => match ssh_connection_index(&self.connections, id) {
                None => {
                    let n = i64_to_string(id);
                    self.log(concat("未找到可用的 SSH connection #", n.as_str()));
                    AppAction::Nothing
                },
                Some(j) => {
                    let c = self.connections[j].duplicate();
                    let key = match c.effective_key_id {
                        Some(kid) => key_by_id(&self.keys, kid),
                        None => None,
                    };
                    let identity = match c.identity_id {
                        Some(iid) => identity_by_id(&self.identities, iid),
                        None => None,
                    };
                    let tid = self.next_terminal_id;
                    self.next_terminal_id = tid + 1;
                    let title = concat(c.name.as_str(), " SFTP");
                    let view = SftpView {
                        connected: false,
                        current_path: owned("."),
                        entries: Vec::new(),
                        selected_file: None,
                        preview: String::new(),
                        loading: true,
                    };
                    let info = TabInfo {
                        id: tid,
                        title: title.clone(),
                        fallback_title: title,
                        status: owned("Connecting"),
                        connected: false,
                        cols: cols as usize,
                        rows: rows as usize,
                        selection_anchor: None,
                        selection: None,
                        sftp: Some(view),
                    };
                    let ghost before = self.tab_infos@;
                    self.tab_infos.push(info);
                    assert(info_ids(self.tab_infos@) =~= info_ids(before).push(tid));
                    assert(self.tab_infos@.drop_last() =~= before);
                    self.tabs.open_tab(tid);
                    self.context_menu = None;
                    AppAction::ConnectSftp(
                        tid,
                        ConnectionTarget {
                            connection: c,
                            key,
                            identity,
                            known_hosts_path: self.known_hosts_path.clone(),
                            cols,
                            rows,
                        },
                    )
                },
            },
            _ => AppAction::Nothing,
        }
    }

    fn sftp_connected(&mut self, ev: AppEvent) -> (a: AppAction)
        requires
            old(self).wf(),
            ev is SftpConnected,
            old(self).next_terminal_id < u64::MAX,
        ensures
            sftp_step(*old(self), ev, *final(self), a),
            final(self).wf(),
    {
        match ev {
            AppEvent::SftpConnected(id, r) => match info_index(&self.tab_infos, id) {
                None => AppAction::Nothing,
                Some(k) => match r {
                    Ok(()) => {
                        if self.tab_infos[k].sftp.is_none() {
                            return AppAction::Nothing;
                        }
                        let ghost before = self.tab_infos@;
                        let t = self.take_info(k);
                        match t.sftp {
                            Some(v) => {
                                let path = v.current_path.clone();
                                let view = SftpView { connected: true, loading: true, ..v };
                                self.set_info(
                                    k,
                                    TabInfo { status: owned("Connected"), sftp: Some(view), ..t },
                                    Ghost(before),
                                );
                                AppAction::ListSftpDir(id, path)
                            },
                            None => AppAction::Nothing,
                        }
                    },
                    Err(e) => {
                        self.sftp_failed(id, k, e);
                        AppAction::Nothing
                    },
                },
            },
            _ => AppAction::Nothing,
        }
    }

    fn sftp_dir_loaded(&mut self, ev: AppEvent) -> (a: AppAction)
        requires
            old(self).wf(),
            ev is SftpDirectoryLoaded,
            old(self).next_terminal_id < u64::MAX,
        ensures
            sftp_step(*old(self), ev, *final(self), a),
            final(self).wf(),
    {
        match ev {
            AppEvent::SftpDirectoryLoaded(id, path, r) => {
                match info_index(&self.tab_infos, id) {
                    None => {},
                    Some(k) => match r {
                        Ok(entries) => if self.tab_infos[k].sftp.is_some() {
                            let ghost before = self.tab_infos@;
                            let t = self.take_info(k);
                            let title = concat3(t.fallback_title.as_str(), " · ", path.as_str());
                            match t.sftp {
                                Some(v) => {
                                    let view = SftpView {
                                        current_path: path,
                                        entries,
                                        selected_file: None,
                                        preview: String::new(),
                                        loading: false,
                                        ..v
                                    };
                                    self.set_info(k, TabInfo { title, sftp: Some(view), ..t }, Ghost(before));
                                },
                                None => {},
                            }
                        },
                        Err(e) => self.sftp_failed(id, k, e),
                    },
                }
                AppAction::Nothing
            },
            _ => AppAction::Nothing,
        }
    }

    fn sftp_file_loaded(&mut self, ev: AppEvent) -> (a: AppAction)
        requires
            old(self).wf(),
            ev is SftpFileLoaded,
            old(self).next_terminal_id < u64::MAX,
        ensures
            sftp_step(*old(self), ev, *final(self), a),
            final(self).wf(),
    {
        match ev {
            AppEvent::SftpFileLoaded(id, path, r) => {
                match info_index(&self.tab_infos, id) {
                    None => {},
                    Some(k) => match r {
                        Ok(preview) => if self.tab_infos[k].sftp.is_some() {
                            let ghost before = self.tab_infos@;
                            let t = self.take_info(k);
                            match t.sftp {
                                Some(v) => {
                                    let view = SftpView {
                                        selected_file: Some(path),
                                        preview,
                                        loading: false,
                                        ..v
                                    };
                                    self.set_info(k, TabInfo { sftp: Some(view), ..t }, Ghost(before));
                                },
                                None => {},
                            }
                        },
                        Err(e) => self.sftp_failed(id, k, e),
                    },
                }
                AppAction::Nothing
            },
            _ => AppAction::Nothing,
        }
    }

    fn run_sftp(&mut self, ev: AppEvent) -> (a: AppAction)
        requires
            old(self).wf(),
            is_sftp_event(ev),
            old(self).next_terminal_id < u64::MAX,
        ensures
            sftp_step(*old(self), ev, *final(self), a),
            final(self).wf(),
    {
        match ev {
            AppEvent::OpenSftpConnection(..) => self.open_sftp(ev),
            AppEvent::SftpConnected(..) => self.sftp_connected(ev),
            AppEvent::SftpDirectoryLoaded(..) => self.sftp_dir_loaded(ev),
            AppEvent::SftpFileLoaded(..) => self.sftp_file_loaded(ev),
            AppEvent::SftpNavigate(id, path) => self.request_sftp(id, path, true),
            AppEvent::SftpOpenEntry(id, path, is_dir) => self.request_sftp(id, path, is_dir),
            AppEvent::SftpOpenParent(id) => match info_index(&self.tab_infos, id) {
                None => AppAction::Nothing,
                Some(k) => {
                    let parent = match &self.tab_infos[k].sftp {
                        Some(v) => Some(sftp_parent_path(v.current_path.as_str())),
                        None => None,
                    };
                    match parent {
                        Some(p) => self.request_sftp(id, p, true),
                        None => AppAction::Nothing,
                    }
                },
            },
            AppEvent::SftpRefresh(id) => match info_index(&self.tab_infos, id) {
                None => AppAction::Nothing,
                Some(k) => {
                    let current = match &self.tab_infos[k].sftp {
                        Some(v) => Some(v.current_path.clone()),
                        None => None,
                    };
                    match current {
                        Some(p) => self.request_sftp(id, p, true),
                        None => AppAction::Nothing,
                    }
                },
            },
            _ => AppAction::Nothing,
        }
    }
}

fn concat3(a: &str, b: &str, c: &str) -> (s: String)
    ensures
        s@ == a@ + b@ + c@,
{
    let mut s = concat(a, b);
    s.append(c);
    s
}

// ---------------------------------------------------------------------------
// Selections, pasting, typed text and sizes
// ---------------------------------------------------------------------------

/// Tab `id` gets the selection `sel` started at `anchor`; with `focus` it is also shown and
/// focused and the composer loses the keyboard. Nothing else changes.
pub open spec fn selected(
    old: WorkspaceModel,
    id: u64,
    anchor: TerminalPoint,
    sel: TerminalSelection,
    focus: bool,
    new: WorkspaceModel,
) -> bool {
    &&& new == WorkspaceModel {
        tabs: new.tabs,
        composer_focus: if focus {
            None
        } else {
            old.composer_focus
        },
        tab_infos: new.tab_infos,
        ..old
    }
    &&& focus ==> new.tabs.tab_ids@ == old.tabs.tab_ids@ && new.tabs.active_tab == ActiveTab::Terminal(id)
        && new.tabs.terminal_focus == Some(id)
    &&& !focus ==> new.tabs == old.tabs
    &&& match find_info(old.tab_infos@, id, 0) {
        None => new.tab_infos == old.tab_infos,
        Some(k) => new.tab_infos@ == old.tab_infos@.update(k, TabInfo {
            selection_anchor: Some(anchor),
            selection: Some(sel),
            ..old.tab_infos@[k]
        }),
    }
}

/// Whether a tab with identifier `id` is listed and its session is up.
pub open spec fn live_tab(old: WorkspaceModel, id: u64) -> bool {
    find_info(old.tab_infos@, id, 0) matches Some(k) && old.tab_infos@[k].connected
}

/// What selecting, pasting, committed text and resizing do.
pub open spec fn pointer_step(old: WorkspaceModel, ev: AppEvent, new: WorkspaceModel, a: AppAction) -> bool {
    match ev {
        AppEvent::TerminalSelectionStarted(id, p) => a is Nothing && selected(
            old,
            id,
            p,
            TerminalSelection { start: p, end: p },
            true,
            new,
        ),
        AppEvent::TerminalSelectionUpdated(id, p) => a is Nothing && match find_info(old.tab_infos@, id, 0) {
            None => new == old,
            Some(k) => {
                let anchor = match old.tab_infos@[k].selection_anchor {
                    Some(q) => q,
                    None => p,
                };
                selected(old, id, anchor, normalize_selection_spec(anchor, p), false, new)
            },
        },
        AppEvent::TerminalSelectionWord(id, sel) => a is Nothing && selected(old, id, sel.start, sel, true, new),
        AppEvent::TerminalSelectionToken(id, sel) => a is Nothing && selected(old, id, sel.start, sel, true, new),
        AppEvent::TerminalResized(id, cols, rows) => match find_info(old.tab_infos@, id, 0) {
            None => new == old && a is Nothing,
            Some(k) => {
                let t = old.tab_infos@[k];
                let c = if cols < 2 {
                    2
                } else {
                    cols
                };
                let r = if rows < 2 {
                    2
                } else {
                    rows
                };
                if t.cols == c && t.rows == r {
                    new == old && a is Nothing
                } else {
                    &&& info_changed(old, new, k, TabInfo { cols: c, rows: r, ..t })
                    &&& new.logs == old.logs
                    &&& a == AppAction::ResizeTerminal(
                        id,
                        c,
                        r,
                        if t.connected {
                            Some((c as u16, r as u16))
                        } else {
                            None
                        },
                    )
                }
            },
        },
        AppEvent::TerminalPaste(id, content) => new == old && match content {
            Some(text) => if live_tab(old, id) {
                a == AppAction::PasteText(id, text)
            } else {
                a is Nothing
            },
            None => a is Nothing,
        },
        AppEvent::InputCommitted(main, text) => new == old && match old.tabs.terminal_focus {
            Some(t) => if main && old.composer_focus != Some(t) && live_tab(old, t) {
                if text@.contains('\n') || text@.contains('\r') {
                    a == AppAction::PasteText(t, text)
                } else {
                    a matches AppAction::SendInput(i, b) && i == t && b@ == vstd::utf8::encode_utf8(text@)
                }
            } else {
                a is Nothing
            },
            None => a is Nothing,
        },
        _ => false,
    }
}

pub open spec fn is_pointer_event(ev: AppEvent) -> bool {
    ||| ev is TerminalSelectionStarted
    ||| ev is TerminalSelectionUpdated
    ||| ev is TerminalSelectionWord
    ||| ev is TerminalSelectionToken
    ||| ev is TerminalResized
    ||| ev is TerminalPaste
    ||| ev is InputCommitted
}

/// Whether `s` holds a line break.
fn has_line_break(s: &str) -> (b: bool)
    ensures
        b == (s@.contains('\n') || s@.contains('\r')),
{
    let v = chars_of(s);
    let mut i: usize = 0;
    while i < v.len()
        invariant
            v@ == s@,
            i <= v@.len(),
            forall|j: int| 0 <= j < i ==> v@[j] != '\n' && v@[j] != '\r',
        decreases v.len() - i,
    {
        if v[i] == '\n' || v[i] == '\r' {
            assert(v@[i as int] == '\n' ==> s@.contains('\n'));
            assert(v@[i as int] == '\r' ==> s@.contains('\r'));
            return true;
        }
        i = i + 1;
    }
    false
}

/// The UTF-8 bytes of `s`.
fn utf8_bytes(s: &str) -> (b: Vec<u8>)
    ensures
        b@ == vstd::utf8::encode_utf8(s@),
{
    let raw = s.as_bytes();
    let mut bytes: Vec<u8> = Vec::new();
    let mut i: usize = 0;
    while i < raw.len()
        invariant
            raw@ == vstd::utf8::encode_utf8(s@),
            i <= raw@.len(),
            bytes@ == raw@.take(i as int),
        decreases raw.len() - i,
    {
        bytes.push(raw[i]);
        assert(raw@.take(i + 1) =~= raw@.take(i as int).push(raw@[i as int]));
        i = i + 1;
    }
    assert(raw@.take(raw@.len() as int) =~= raw@);
    bytes
}

impl WorkspaceModel {
    /// See `selected`.
    fn select(&mut self, id: u64, anchor: TerminalPoint, sel: TerminalSelection, focus: bool)
        requires
            old(self).wf(),
        ensures
            selected(*old(self), id, anchor, sel, focus, *final(self)),
            final(self).wf(),
    {
        if focus {
            self.tabs.activate_terminal(id);
            self.composer_focus = None;
        }
        match info_index(&self.tab_infos, id) {
            None => {},
            Some(k) => {
                let ghost before = self.tab_infos@;
                let t = self.take_info(k);
                self.set_info(
                    k,
                    TabInfo { selection_anchor: Some(anchor), selection: Some(sel), ..t },
                    Ghost(before),
                );
            },
        }
    }

    fn is_live(&self, id: u64) -> (b: bool)
        ensures
            b == live_tab(*self, id),
    {
        match info_index(&self.tab_infos, id) {
            Some(k) => self.tab_infos[k].connected,
            None => false,
        }
    }

    fn run_pointer(&mut self, ev: AppEvent) -> (a: AppAction)
        requires
            old(self).wf(),
            is_pointer_event(ev),
        ensures
            pointer_step(*old(self), ev, *final(self), a),
            final(self).wf(),
    {
        match ev {
            AppEvent::TerminalSelectionStarted(id, p) => {
                self.select(id, p, TerminalSelection { start: p, end: p }, true);
                AppAction::Nothing
            },
            AppEvent::TerminalSelectionUpdated(id, p) => {
                match info_index(&self.tab_infos, id) {
                    None => {},
                    Some(k) => {
                        let anchor = match self.tab_infos[k].selection_anchor {
                            Some(q) => q,
                            None => p,
                        };
                        self.select(id, anchor, normalize_selection(anchor, p), false);
                    },
                }
                AppAction::Nothing
            },
            AppEvent::TerminalSelectionWord(id, sel) => {
                self.select(id, sel.start, sel, true);
                AppAction::Nothing
            },
            AppEvent::TerminalSelectionToken(id, sel) => {
                self.select(id, sel.start, sel, true);
                AppAction::Nothing
            },
            AppEvent::TerminalResized(id, cols, rows) => match info_index(&self.tab_infos, id) {
                None => AppAction::Nothing,
                Some(k) => {
                    let c = if cols < 2 {
                        2
                    } else {
                        cols
                    };
                    let r = if rows < 2 {
                        2
                    } else {
                        rows
                    };
                    if self.tab_infos[k].cols == c && self.tab_infos[k].rows == r {
                        return AppAction::Nothing;
                    }
                    let ghost before = self.tab_infos@;
                    let t = self.take_info(k);
                    let session = if t.connected {
                        Some((c as u16, r as u16))
                    } else {
                        None
                    };
                    self.set_info(k, TabInfo { cols: c, rows: r, ..t }, Ghost(before));
                    AppAction::ResizeTerminal(id, c, r, session)
                },
            },
            AppEvent::TerminalPaste(id, content) => match content {
                Some(text) => if self.is_live(id) {
                    AppAction::PasteText(id, text)
                } else {
                    AppAction::Nothing
                },
                None => AppAction::Nothing,
            },
            AppEvent::InputCommitted(main, text) => match self.tabs.terminal_focus {
                Some(t) => if main && self.composer_focus != Some(t) && self.is_live(t) {
                    if has_line_break(text.as_str()) {
                        AppAction::PasteText(t, text)
                    } else {
                        AppAction::SendInput(t, utf8_bytes(text.as_str()))
                    }
                } else {
                    AppAction::Nothing
                },
                None => AppAction::Nothing,
            },
            _ => AppAction::Nothing,
        }
    }
}

// ---------------------------------------------------------------------------
// The keyboard
// ---------------------------------------------------------------------------

/// Whether the key names `lower` or `upper` and Command, or Control with Shift, is held.
pub open spec fn clipboard_chord(m: ShortcutModifiers, key: Option<char>, lower: char, upper: char) -> bool {
    (key == Some(lower) || key == Some(upper)) && (m.command || (m.control && m.shift))
}

/// The tab-switching shortcut a key press is, if it is one.
pub open spec fn switch_index(s: ShortcutSettings, press: ShortcutKeyPress, m: ShortcutModifiers, p: KeyPlatform) -> usize {
    choose|k: usize| tab_switch_spec(s, press, m, p, Some(k))
}

/// What a key press does. Opening the settings and minimizing come first in either window;
/// the settings window then only closes on the close-tab shortcut. In the main window the
/// close-tab shortcut closes the shown terminal tab, or the window when the management tab is
/// shown; the tab shortcuts show a tab; Command+C copies the focused terminal's selection and
/// Command+V pastes into it unless its composer has the focus; any other key goes to the
/// focused terminal unless its composer has the focus.
pub open spec fn key_step(
    old: WorkspaceModel,
    settings: bool,
    press: ShortcutKeyPress,
    m: ShortcutModifiers,
    key: Option<char>,
    new: WorkspaceModel,
    a: AppAction,
) -> bool {
    let sc = old.shortcuts;
    let p = old.platform;
    let only_tabs = new == WorkspaceModel { tabs: new.tabs, ..old } && a is Nothing;
    if text_matches_spec(sc.open_settings@, press, m, p) {
        new == old && a == settings_opening(old)
    } else if text_matches_spec(sc.minimize_window@, press, m, p) {
        new == old && a == AppAction::MinimizeWindow(settings)
    } else if settings {
        new == old && a == if text_matches_spec(sc.close_tab@, press, m, p) {
            AppAction::CloseSettingsWindow
        } else {
            AppAction::Nothing
        }
    } else if text_matches_spec(sc.close_tab@, press, m, p) {
        match old.tabs.active_tab {
            ActiveTab::Manage => new == old && a == AppAction::CloseMainWindow,
            ActiveTab::Terminal(id) => tab_close_step(old, id, new, a),
        }
    } else if !tab_switch_spec(sc, press, m, p, None) {
        let k = switch_index(sc, press, m, p);
        only_tabs && index_activated(old.tabs, k, new.tabs, k <= old.tabs.tab_ids@.len())
    } else if text_matches_spec(sc.previous_tab@, press, m, p) {
        only_tabs && adjacent_activated(old.tabs, -1isize, new.tabs, old.tabs.tab_ids@.len() > 0)
    } else if text_matches_spec(sc.next_tab@, press, m, p) {
        only_tabs && adjacent_activated(old.tabs, 1isize, new.tabs, old.tabs.tab_ids@.len() > 0)
    } else {
        new == old && a == match old.tabs.terminal_focus {
            None => AppAction::Nothing,
            Some(t) => if clipboard_chord(m, key, 'c', 'C') {
                match find_info(old.tab_infos@, t, 0) {
                    Some(k) => match old.tab_infos@[k].selection {
                        Some(sel) => AppAction::CopySelection(t, sel),
                        None => AppAction::Nothing,
                    },
                    None => AppAction::Nothing,
                }
            } else if clipboard_chord(m, key, 'v', 'V') {
                if old.composer_focus == Some(t) {
                    AppAction::Nothing
                } else {
                    AppAction::PasteClipboard(t)
                }
            } else if old.composer_focus == Some(t) || find_info(old.tab_infos@, t, 0) is None {
                AppAction::Nothing
            } else {
                AppAction::SendKey(t)
            },
        }
    }
}

proof fn lemma_switch_index_unique(
    s: ShortcutSettings,
    press: ShortcutKeyPress,
    m: ShortcutModifiers,
    p: KeyPlatform,
    k: usize,
)
    requires
        tab_switch_spec(s, press, m, p, Some(k)),
    ensures
        switch_index(s, press, m, p) == k,
        !tab_switch_spec(s, press, m, p, None),
{
    let c = switch_index(s, press, m, p);
    assert(tab_switch_spec(s, press, m, p, Some(c)));
    if c < k {
        assert(text_matches_spec(s.tab_switches@[c as int]@, press, m, p));
    } else if k < c {
        assert(text_matches_spec(s.tab_switches@[k as int]@, press, m, p));
    }
    assert(text_matches_spec(s.tab_switches@[k as int]@, press, m, p));
}

fn clipboard_chord_of(m: ShortcutModifiers, key: Option<char>, lower: char, upper: char) -> (b: bool)
    ensures
        b == clipboard_chord(m, key, lower, upper),
{
    (key == Some(lower) || key == Some(upper)) && (m.command || (m.control && m.shift))
}

impl WorkspaceModel {
    fn press_key(
        &mut self,
        settings: bool,
        press: ShortcutKeyPress,
        m: ShortcutModifiers,
        key: Option<char>,
    ) -> (a: AppAction)
        requires
            old(self).wf(),
            old(self).tabs.tab_ids@.len() < usize::MAX,
        ensures
            key_step(*old(self), settings, press, m, key, *final(self), a),
            final(self).wf(),
    {
        let p = self.platform;
        if shortcut_text_matches(self.shortcuts.open_settings.as_str(), press, m, p) {
            return self.settings_window_action();
        }
        if shortcut_text_matches(self.shortcuts.minimize_window.as_str(), press, m, p) {
            return AppAction::MinimizeWindow(settings);
        }
        let close = shortcut_text_matches(self.shortcuts.close_tab.as_str(), press, m, p);
        if settings {
            return if close {
                AppAction::CloseSettingsWindow
            } else {
                AppAction::Nothing
            };
        }
        if close {
            return match self.tabs.active_tab {
                ActiveTab::Manage => AppAction::CloseMainWindow,
                ActiveTab::Terminal(id) => self.close_tab(id),
            };
        }
        match tab_switch_shortcut_index(&self.shortcuts, press, m, p) {
            Some(k) => {
                proof {
                    lemma_switch_index_unique(self.shortcuts, press, m, p, k);
                }
                self.tabs.activate_tab_index(k);
                return AppAction::Nothing;
            },
            None => {},
        }
        if shortcut_text_matches(self.shortcuts.previous_tab.as_str(), press, m, p) {
            self.tabs.activate_adjacent_tab(-1);
            return AppAction::Nothing;
        }
        if shortcut_text_matches(self.shortcuts.next_tab.as_str(), press, m, p) {
            self.tabs.activate_adjacent_tab(1);
            return AppAction::Nothing;
        }
        match self.tabs.terminal_focus {
            None => AppAction::Nothing,
            Some(t) => {
                let found = info_index(&self.tab_infos, t);
                let known = found.is_some();
                if clipboard_chord_of(m, key, 'c', 'C') {
                    match found {
                        Some(k) => match self.tab_infos[k].selection {
                            Some(sel) => AppAction::CopySelection(t, sel),
                            None => AppAction::Nothing,
                        },
                        None => AppAction::Nothing,
                    }
                } else if clipboard_chord_of(m, key, 'v', 'V') {
                    if self.composer_focus == Some(t) {
                        AppAction::Nothing
                    } else {
                        AppAction::PasteClipboard(t)
                    }
                } else if self.composer_focus == Some(t) || !known {
                    AppAction::Nothing
                } else {
                    AppAction::SendKey(t)
                }
            },
        }
    }
}


// ---------------------------------------------------------------------------
// The whole step
// ---------------------------------------------------------------------------

/// What any event does to the window's state, and the outside work it asks for.
pub open spec fn update_step(old: WorkspaceModel, ev: AppEvent, new: WorkspaceModel, a: AppAction) -> bool {
    if is_navigation(ev) {
        navigation_step(old, ev, new, a)
    } else if is_form_event(ev) {
        form_step(old, ev, new, a)
    } else if is_save_event(ev) {
        save_step(old, ev, new, a)
    } else if is_record_event(ev) {
        record_step(old, ev, new, a)
    } else if is_outcome_event(ev) {
        outcome_step(old, ev, new, a)
    } else if is_terminal_event(ev) {
        terminal_step(old, ev, new, a)
    } else if is_sftp_event(ev) {
        sftp_step(old, ev, new, a)
    } else if is_pointer_event(ev) {
        pointer_step(old, ev, new, a)
    } else {
        match ev {
            AppEvent::KeyPressed(settings, press, m, key) => key_step(old, settings, press, m, key, new, a),
            _ => false,
        }
    }
}

/// Handles one event: changes the window's state as `update_step` says and returns the
/// outside work to do next. The caller performs it and hands its outcome back as an event.
pub fn update(state: &mut WorkspaceModel, event: AppEvent) -> (action: AppAction)
    requires
        old(state).wf(),
        old(state).next_terminal_id < u64::MAX,
        old(state).tabs.tab_ids@.len() < usize::MAX,
    ensures
        final(state).wf(),
        update_step(*old(state), event, *final(state), action),
{
    match event {
        AppEvent::SelectMenu(_) | AppEvent::OpenSettingsWindow | AppEvent::SettingsWindowReady
        | AppEvent::WindowClosed(_) | AppEvent::ComposerFocused(_) | AppEvent::ActivateManageTab
        | AppEvent::ActivateTerminal(_) | AppEvent::CloseTerminal(_) | AppEvent::OpenContext(_)
        | AppEvent::CloseDrawer => state.navigate(event),
        AppEvent::NewConnection | AppEvent::NewSerialConnection | AppEvent::EditConnection(_)
        | AppEvent::ConnectionFieldChanged(_, _) | AppEvent::ConnectionTypeChanged(_)
        | AppEvent::NewGroup | AppEvent::EditGroup(_) | AppEvent::GroupFieldChanged(_, _)
        | AppEvent::NewKey | AppEvent::EditKey(_) | AppEvent::KeyFieldChanged(_, _)
        | AppEvent::NewIdentity | AppEvent::EditIdentity(_) | AppEvent::IdentityFieldChanged(_, _)
        | AppEvent::NewPortForward | AppEvent::EditPortForward(_)
        | AppEvent::PortForwardFieldChanged(_, _)
        | AppEvent::PortForwardTypeChanged(_) => state.edit_form(event),
        AppEvent::SaveConnection | AppEvent::SaveGroup | AppEvent::SaveKey | AppEvent::SaveIdentity
        | AppEvent::SavePortForward => state.save_form(event),
        AppEvent::DuplicateConnection(_) | AppEvent::DeleteConnection(_)
        | AppEvent::DeletePortForward(_)
        | AppEvent::TogglePortForward(_, _) => state.change_record(event),
        AppEvent::RecordSaved(_, _) | AppEvent::ConnectionDeleted(_, _)
        | AppEvent::ConnectionDuplicated(_) | AppEvent::PortForwardDeleted(_)
        | AppEvent::PortForwardDisabled(_) | AppEvent::PortForwardStateSaved
        | AppEvent::PortForwardStarted(_, _)
        | AppEvent::WorkspaceLoaded(_) => state.apply_outcome(event),
        AppEvent::ConnectConnection(_, _, _, _) | AppEvent::TerminalConnected(_, _)
        | AppEvent::TerminalSessionEvent(_, _)
        | AppEvent::TerminalRetitled(_, _) => state.run_terminal(event),
        AppEvent::OpenSftpConnection(_, _, _) | AppEvent::SftpConnected(_, _)
        | AppEvent::SftpDirectoryLoaded(_, _, _) | AppEvent::SftpFileLoaded(_, _, _)
        | AppEvent::SftpNavigate(_, _) | AppEvent::SftpOpenEntry(_, _, _)
        | AppEvent::SftpOpenParent(_) | AppEvent::SftpRefresh(_) => state.run_sftp(event),
        AppEvent::TerminalSelectionStarted(_, _) | AppEvent::TerminalSelectionUpdated(_, _)
        | AppEvent::TerminalSelectionWord(_, _) | AppEvent::TerminalSelectionToken(_, _)
        | AppEvent::TerminalResized(_, _, _) | AppEvent::TerminalPaste(_, _)
        | AppEvent::InputCommitted(_, _) => state.run_pointer(event),
        AppEvent::KeyPressed(settings, press, m, key) => state.press_key(settings, press, m, key),
    }
}


// ---------------------------------------------------------------------------
// Laws of the window
// ---------------------------------------------------------------------------

proof fn lemma_position_of_pushed(ids: Seq<u64>, x: u64, i: int)
    requires
        0 <= i <= ids.len(),
        !ids.contains(x),
    ensures
        position_from(ids.push(x), x, i) == Some(ids.len() as int),
    decreases ids.len() - i,
{
    if i < ids.len() {
        assert(ids.push(x)[i] == ids[i]);
        lemma_position_of_pushed(ids, x, i + 1);
    }
}

/// Opening a terminal on a connection and then closing its tab leaves the tab list as it
/// was, and closing it asks for no disconnect (the session had not come up), as long as
/// the new tab's id was not in use.
pub proof fn lemma_open_then_close_restores_tabs(
    s: WorkspaceModel,
    id: i64,
    cols: u16,
    rows: u16,
    local: LocalUser,
    s1: WorkspaceModel,
    a1: AppAction,
    s2: WorkspaceModel,
    a2: AppAction,
)
    requires
        s.wf(),
        find_connection_id(s.connections@, id, 0) is Some,
        !s.tabs.tab_ids@.contains(s.next_terminal_id),
        update_step(s, AppEvent::ConnectConnection(id, cols, rows, local), s1, a1),
        update_step(s1, AppEvent::CloseTerminal(s.next_terminal_id), s2, a2),
    ensures
        s2.tabs.tab_ids@ == s.tabs.tab_ids@,
        s2.tab_infos@ == s.tab_infos@,
        s2.connections == s.connections,
        a2 is Nothing,
{
    let tid = s.next_terminal_id;
    assert(is_terminal_event(AppEvent::ConnectConnection(id, cols, rows, local)));
    assert(is_navigation(AppEvent::CloseTerminal(tid)));
    lemma_position_of_pushed(s.tabs.tab_ids@, tid, 0);
    assert(position_of(s1.tabs.tab_ids@, tid) == Some(s.tabs.tab_ids@.len() as int));
    let k = s.tabs.tab_ids@.len();
    assert(info_ids(s.tab_infos@).len() == s.tab_infos@.len());
    assert(s1.tab_infos@.len() == k + 1);
    assert(s1.tab_infos@[k as int] == s1.tab_infos@.last());
    assert(s1.tab_infos@.drop_last() == s.tab_infos@);
    assert(s1.tabs.tab_ids.len() == s1.tabs.tab_ids@.len());
    assert(k < s1.tabs.tab_ids@.len() <= usize::MAX);
    assert(s2.tab_infos@ == s1.tab_infos@.remove(k as int));
    assert(s1.tab_infos@.remove(k as int) =~= s1.tab_infos@.drop_last());
    assert(s2.tabs.tab_ids@ =~= s.tabs.tab_ids@);
}

/// In the settings window a key press changes nothing in the main window's state.
pub proof fn lemma_settings_keys_leave_state(
    s: WorkspaceModel,
    press: ShortcutKeyPress,
    m: ShortcutModifiers,
    key: Option<char>,
    s1: WorkspaceModel,
    a: AppAction,
)
    requires
        update_step(s, AppEvent::KeyPressed(true, press, m, key), s1, a),
    ensures
        s1 == s,
        a is OpenSettingsWindow || a is MinimizeWindow || a is CloseSettingsWindow || a is Nothing,
{
}

/// A key press never changes the stored records, the log, the open form or the count of
/// terminals opened.
pub proof fn lemma_keys_keep_records(
    s: WorkspaceModel,
    settings: bool,
    press: ShortcutKeyPress,
    m: ShortcutModifiers,
    key: Option<char>,
    s1: WorkspaceModel,
    a: AppAction,
)
    requires
        update_step(s, AppEvent::KeyPressed(settings, press, m, key), s1, a),
    ensures
        s1.connections == s.connections,
        s1.groups == s.groups,
        s1.keys == s.keys,
        s1.identities == s.identities,
        s1.port_forwards == s.port_forwards,
        s1.logs == s.logs,
        s1.drawer == s.drawer,
        s1.next_terminal_id == s.next_terminal_id,
{
    assert(!is_navigation(AppEvent::KeyPressed(settings, press, m, key)));
}

/// When a port forward reports whether it started, the forward with that id is marked
/// enabled exactly when it started, the same forward is handed back to be written with that
/// state, and a failure is logged; the other forwards are untouched.
pub proof fn lemma_forward_start_marks_outcome(
    s: WorkspaceModel,
    id: i64,
    r: Result<(), String>,
    j: int,
    s1: WorkspaceModel,
    a: AppAction,
)
    requires
        update_step(s, AppEvent::PortForwardStarted(id, r), s1, a),
        find_forward(s.port_forwards@, id, 0) == Some(j),
    ensures
        0 <= j < s.port_forwards@.len(),
        s1.port_forwards@.len() == s.port_forwards@.len(),
        s1.port_forwards@[j].id == id,
        s1.port_forwards@[j].enabled == (r is Ok),
        forall|k: int| 0 <= k < s.port_forwards@.len() && k != j ==> s1.port_forwards@[k] == s.port_forwards@[k],
        a matches AppAction::SavePortForwardState(f) && f.id == id && f.enabled == (r is Ok),
        r is Err ==> s1.logs@.len() > 0 && s1.logs@.last()@ == "端口转发启动失败: "@ + r->Err_0@,
{
    lemma_find_forward_bounds(s.port_forwards@, id, 0);
    assert(is_outcome_event(AppEvent::PortForwardStarted(id, r)));
}

} // verus!
