use vstd::prelude::*;

use crate::models::{
    Connection, ConnectionType, Group, Identity, Key, KnownHostEntry, ManageMenu, PortForward,
    Snippet, MANAGE_MENU_COUNT,
};
use crate::text::{
    char_is_alphanumeric, char_to_uppercase, chars_of, i64_to_string, int_to_decimal, is_blank,
    is_blank_spec, nat_to_decimal, owned, str_contains, str_eq, to_lowercase, trim, trim_or,
    trim_or_spec, trim_spec, unicode_alphanumeric, unicode_lowercase, unicode_uppercase,
    text_lowercase, all_ascii, ascii_lowercase, lemma_trim_lowercase, lemma_ascii_lowercase_idempotent,
    usize_to_string, contains_seq, string_views,
};

verus! {

/// How many log lines the shell keeps in memory.
pub const SHELL_LOG_LIMIT: usize = 200;

// ---------------------------------------------------------------------------
// Connection descriptions
// ---------------------------------------------------------------------------

/// How a connection is shown in lists: the shell and working directory of a local shell, the
/// device and speed of a serial line, `user@host:port` of an SSH target; blank parts are
/// replaced by placeholders.
pub open spec fn connection_endpoint_spec(c: Connection) -> Seq<char> {
    match c.connection_type {
        ConnectionType::Local => trim_or_spec(c.shell_path@, "Login Shell"@) + " / "@
            + trim_or_spec(c.work_dir@, "Home"@),
        ConnectionType::Serial => trim_or_spec(c.serial_port@, "Serial Port"@) + " / "@
            + int_to_decimal(c.baud_rate as int),
        ConnectionType::Ssh => trim_or_spec(c.display_username@, "ssh"@) + "@"@ + trim_or_spec(
            c.host@,
            "hostname"@,
        ) + ":"@ + int_to_decimal(c.port as int),
    }
}

/// How a connection is shown in lists.
pub fn connection_endpoint(c: &Connection) -> (s: String)
    ensures
        s@ == connection_endpoint_spec(*c),
{
    match c.connection_type {
        ConnectionType::Local => {
            let mut s = trim_or(c.shell_path.as_str(), "Login Shell");
            s.append(" / ");
            let w = trim_or(c.work_dir.as_str(), "Home");
            s.append(w.as_str());
            s
        },
        ConnectionType::Serial => {
            let mut s = trim_or(c.serial_port.as_str(), "Serial Port");
            s.append(" / ");
            let b = i64_to_string(c.baud_rate);
            s.append(b.as_str());
            s
        },
        ConnectionType::Ssh => {
            let mut s = trim_or(c.display_username.as_str(), "ssh");
            s.append("@");
            let h = trim_or(c.host.as_str(), "hostname");
            s.append(h.as_str());
            s.append(":");
            let p = i64_to_string(c.port);
            s.append(p.as_str());
            s
        },
    }
}

pub open spec fn connection_type_label_spec(t: ConnectionType) -> Seq<char> {
    match t {
        ConnectionType::Ssh => "SSH"@,
        ConnectionType::Local => "LOCAL"@,
        ConnectionType::Serial => "SERIAL"@,
    }
}

/// The badge text of a connection type.
pub fn connection_type_label(t: ConnectionType) -> (s: &'static str)
    ensures
        s@ == connection_type_label_spec(t),
{
    match t {
        ConnectionType::Ssh => "SSH",
        ConnectionType::Local => "LOCAL",
        ConnectionType::Serial => "SERIAL",
    }
}

/// The first alphanumeric character of `s` at or after `i`.
pub open spec fn first_alphanumeric(s: Seq<char>, i: int) -> Option<char>
    decreases s.len() - i,
{
    if i < 0 || i >= s.len() {
        None
    } else if unicode_alphanumeric(s[i]) {
        Some(s[i])
    } else {
        first_alphanumeric(s, i + 1)
    }
}

/// The avatar letter of a name: its first alphanumeric character in upper case, or `T`.
pub open spec fn connection_initial_spec(name: Seq<char>) -> Seq<char> {
    match first_alphanumeric(trim_spec(name), 0) {
        Some(c) => unicode_uppercase(c),
        None => "T"@,
    }
}

/// The avatar letter of a name.
pub fn connection_initial(name: &str) -> (s: String)
    ensures
        s@ == connection_initial_spec(name@),
{
    let t = trim(name);
    let v = chars_of(t.as_str());
    let mut i: usize = 0;
    while i < v.len()
        invariant
            v@ == trim_spec(name@),
            i <= v@.len(),
            first_alphanumeric(v@, 0) == first_alphanumeric(v@, i as int),
        decreases v.len() - i,
    {
        if char_is_alphanumeric(v[i]) {
            return char_to_uppercase(v[i]);
        }
        i = i + 1;
    }
    owned("T")
}

/// The index of the first group, from `i` on, with identifier `id`.
pub open spec fn find_group(groups: Seq<Group>, id: i64, i: int) -> Option<int>
    decreases groups.len() - i,
{
    if i < 0 || i >= groups.len() {
        None
    } else if groups[i].id == id {
        Some(i)
    } else {
        find_group(groups, id, i + 1)
    }
}

proof fn lemma_find_group_bounds(groups: Seq<Group>, id: i64, i: int)
    requires
        0 <= i,
    ensures
        find_group(groups, id, i) matches Some(k) ==> i <= k < groups.len() && groups[k].id == id,
    decreases groups.len() - i,
{
    if i < groups.len() && groups[i].id != id {
        lemma_find_group_bounds(groups, id, i + 1);
    }
}

/// The index of the first group with identifier `id`.
pub(crate) fn find_group_index(groups: &Vec<Group>, id: i64) -> (r: Option<usize>)
    ensures
        r matches Some(k) ==> find_group(groups@, id, 0) == Some(k as int) && k < groups@.len(),
        r is None ==> find_group(groups@, id, 0) is None,
{
    let mut i: usize = 0;
    while i < groups.len()
        invariant
            i <= groups@.len(),
            find_group(groups@, id, 0) == find_group(groups@, id, i as int),
        decreases groups.len() - i,
    {
        if groups[i].id == id {
            return Some(i);
        }
        i = i + 1;
    }
    None
}

/// The name of the group a connection belongs to, when that group exists.
pub open spec fn connection_group_name_spec(c: Connection, groups: Seq<Group>) -> Option<Seq<char>> {
    match c.group_id {
        None => None,
        Some(id) => match find_group(groups, id, 0) {
            None => None,
            Some(k) => Some(groups[k].name@),
        },
    }
}

/// The name of the group a connection belongs to.
pub fn connection_group_name(c: &Connection, groups: &Vec<Group>) -> (r: Option<String>)
    ensures
        match connection_group_name_spec(*c, groups@) {
            Some(n) => r matches Some(s) && s@ == n,
            None => r is None,
        },
{
    match c.group_id {
        None => None,
        Some(id) => match find_group_index(groups, id) {
            None => None,
            Some(k) => {
                let name = groups[k].name.clone();
                assert(name@ == groups@[k as int].name@);
                Some(name)
            },
        },
    }
}

/// The list line of a connection: its endpoint, followed by its group when it has one.
pub open spec fn connection_summary_spec(c: Connection, groups: Seq<Group>) -> Seq<char> {
    match connection_group_name_spec(c, groups) {
        Some(g) => connection_endpoint_spec(c) + " / group "@ + g,
        None => connection_endpoint_spec(c),
    }
}

/// The list line of a connection.
pub fn connection_summary(c: &Connection, groups: &Vec<Group>) -> (s: String)
    ensures
        s@ == connection_summary_spec(*c, groups@),
{
    let mut endpoint = connection_endpoint(c);
    match connection_group_name(c, groups) {
        Some(g) => {
            endpoint.append(" / group ");
            endpoint.append(g.as_str());
            endpoint
        },
        None => endpoint,
    }
}

/// The name a group is listed under: `parent / group` when its parent group exists, else
/// its own name.
pub open spec fn group_display_name_spec(g: Group, groups: Seq<Group>) -> Seq<char> {
    match g.parent_id {
        None => g.name@,
        Some(id) => match find_group(groups, id, 0) {
            None => g.name@,
            Some(k) => groups[k].name@ + " / "@ + g.name@,
        },
    }
}

/// The name a group is listed under (see `group_display_name_spec`).
pub fn group_display_name(groups: &Vec<Group>, group: &Group) -> (s: String)
    ensures
        s@ == group_display_name_spec(*group, groups@),
{
    if let Some(parent_id) = group.parent_id {
        if let Some(k) = find_group_index(groups, parent_id) {
            let mut s = groups[k].name.clone();
            s.append(" / ");
            s.append(group.name.as_str());
            return s;
        }
    }
    group.name.clone()
}

// ---------------------------------------------------------------------------
// Navigation
// ---------------------------------------------------------------------------

/// One entry of the sidebar.
#[derive(Debug, Clone)]
pub struct ShellNavItem {
    pub index: i32,
    pub title: String,
    pub active: bool,
}

/// Sidebar entry `k` for the page at position `k`, marked when that page is the active one.
pub open spec fn nav_item_ok(item: ShellNavItem, k: int, active: ManageMenu) -> bool {
    &&& item.index == k
    &&& item.title@ == ManageMenu::spec_at(k as nat).spec_title()
    &&& item.active == (ManageMenu::spec_at(k as nat) == active)
}

/// The sidebar: every page in order, with the active one marked.
pub fn nav_items(active: ManageMenu) -> (items: Vec<ShellNavItem>)
    ensures
        items@.len() == MANAGE_MENU_COUNT,
        forall|k: int| 0 <= k < MANAGE_MENU_COUNT ==> nav_item_ok(#[trigger] items@[k], k, active),
{
    let mut items: Vec<ShellNavItem> = Vec::new();
    let mut i: usize = 0;
    while i < MANAGE_MENU_COUNT
        invariant
            i <= MANAGE_MENU_COUNT,
            items@.len() == i,
            forall|k: int| 0 <= k < i ==> nav_item_ok(#[trigger] items@[k], k, active),
        decreases MANAGE_MENU_COUNT - i,
    {
        let menu = ManageMenu::at(i);
        let item = ShellNavItem { index: i as i32, title: owned(menu.title()), active: menu == active };
        assert(nav_item_ok(item, i as int, active));
        items.push(item);
        i = i + 1;
    }
    items
}

/// The page a sidebar index selects; out-of-range indices select Connections.
pub open spec fn manage_menu_from_index_spec(index: i32) -> ManageMenu {
    if 0 <= index < MANAGE_MENU_COUNT {
        ManageMenu::spec_at(index as nat)
    } else {
        ManageMenu::Connections
    }
}

/// The page a sidebar index selects.
pub fn manage_menu_from_index(index: i32) -> (m: ManageMenu)
    ensures
        m == manage_menu_from_index_spec(index),
{
    if 0 <= index && (index as usize) < MANAGE_MENU_COUNT {
        ManageMenu::at(index as usize)
    } else {
        ManageMenu::Connections
    }
}

pub open spec fn page_subtitle_spec(m: ManageMenu) -> Seq<char> {
    match m {
        ManageMenu::Connections => "Saved SSH targets, local shells, and serial sessions."@,
        ManageMenu::Keychain => "Keys and identities available to connection profiles."@,
        ManageMenu::PortForwarding => "Local, remote, and dynamic forwarding rules."@,
        ManageMenu::Snippets => "Reusable commands and operational playbook shortcuts."@,
        ManageMenu::KnownHosts => "Hosts trusted by the SSH known_hosts store."@,
        ManageMenu::Logs => "Connection and system events will be collected here."@,
        ManageMenu::Settings => "Workspace-level preferences and runtime configuration."@,
    }
}

/// The line under a page title.
pub fn page_subtitle(m: ManageMenu) -> (s: &'static str)
    ensures
        s@ == page_subtitle_spec(m),
{
    match m {
        ManageMenu::Connections => "Saved SSH targets, local shells, and serial sessions.",
        ManageMenu::Keychain => "Keys and identities available to connection profiles.",
        ManageMenu::PortForwarding => "Local, remote, and dynamic forwarding rules.",
        ManageMenu::Snippets => "Reusable commands and operational playbook shortcuts.",
        ManageMenu::KnownHosts => "Hosts trusted by the SSH known_hosts store.",
        ManageMenu::Logs => "Connection and system events will be collected here.",
        ManageMenu::Settings => "Workspace-level preferences and runtime configuration.",
    }
}

/// The status shown when a terminal is requested: terminals open from the Connections page
/// only.
pub fn launch_status_for_active_menu(active: ManageMenu, _selected_connection_id: &str) -> (s:
    String)
    ensures
        s@ == (if active != ManageMenu::Connections {
            "Switch to Connections to open a terminal"@
        } else {
            "Opening terminal..."@
        }),
{
    if active != ManageMenu::Connections {
        owned("Switch to Connections to open a terminal")
    } else {
        owned("Opening terminal...")
    }
}

// ---------------------------------------------------------------------------
// The in-memory log
// ---------------------------------------------------------------------------

/// The log after a message is added: the message goes last and only the newest
/// `SHELL_LOG_LIMIT` lines stay.
pub open spec fn record_shell_log_spec(logs: Seq<String>, message: String) -> Seq<String> {
    let all = logs.push(message);
    if all.len() > SHELL_LOG_LIMIT {
        all.skip(all.len() - SHELL_LOG_LIMIT)
    } else {
        all
    }
}

/// Adds a message to the in-memory log, dropping the oldest lines beyond the limit.
pub fn record_shell_log(logs: &mut Vec<String>, message: String)
    ensures
        final(logs)@ == record_shell_log_spec(old(logs)@, message),
{
    let ghost all = old(logs)@.push(message);
    logs.push(message);
    if logs.len() > SHELL_LOG_LIMIT {
        let overflow = logs.len() - SHELL_LOG_LIMIT;
        let mut kept: Vec<String> = Vec::new();
        let mut i: usize = overflow;
        while i < logs.len()
            invariant
                logs@ == all,
                overflow == all.len() - SHELL_LOG_LIMIT,
                overflow <= i <= all.len(),
                kept@ == all.subrange(overflow as int, i as int),
            decreases logs.len() - i,
        {
            kept.push(logs[i].clone());
            assert(all.subrange(overflow as int, i + 1) =~= all.subrange(
                overflow as int,
                i as int,
            ).push(all[i as int]));
            i = i + 1;
        }
        assert(all.subrange(overflow as int, all.len() as int) =~= all.skip(overflow as int));
        *logs = kept;
    }
}

/// A log within the limit stays within it after a message is added: it grows by one line
/// until it is full and then keeps its length; the newest message is last; and the lines
/// kept are the newest ones, in order.
pub proof fn lemma_record_shell_log_bounded(logs: Seq<String>, message: String)
    requires
        logs.len() <= SHELL_LOG_LIMIT,
    ensures
        record_shell_log_spec(logs, message).len() == (if logs.len() < SHELL_LOG_LIMIT {
            logs.len() + 1
        } else {
            SHELL_LOG_LIMIT as nat
        }),
        record_shell_log_spec(logs, message).last() == message,
        record_shell_log_spec(logs, message) == logs.push(message).skip(
            logs.len() + 1 - record_shell_log_spec(logs, message).len(),
        ),
{
    let all = logs.push(message);
    if all.len() > SHELL_LOG_LIMIT {
        assert(all.skip(all.len() - SHELL_LOG_LIMIT).last() == all.last());
    } else {
        assert(all.skip(0) =~= all);
    }
}

// ---------------------------------------------------------------------------
// Selected connection
// ---------------------------------------------------------------------------

/// The identifier of the first connection, or an empty string when there is none.
pub open spec fn initial_selected_connection_id_spec(connections: Seq<Connection>) -> Seq<char> {
    if connections.len() > 0 {
        int_to_decimal(connections[0].id as int)
    } else {
        Seq::empty()
    }
}

/// The connection selected before the user picks one: the first.
pub fn initial_selected_connection_id(connections: &Vec<Connection>) -> (s: String)
    ensures
        s@ == initial_selected_connection_id_spec(connections@),
{
    if connections.len() > 0 {
        i64_to_string(connections[0].id)
    } else {
        String::new()
    }
}

/// The index of the first connection, from `i` on, whose identifier is written `id`.
pub open spec fn find_connection_by_text_id(connections: Seq<Connection>, id: Seq<char>, i: int) -> Option<
    int,
>
    decreases connections.len() - i,
{
    if i < 0 || i >= connections.len() {
        None
    } else if int_to_decimal(connections[i].id as int) == id {
        Some(i)
    } else {
        find_connection_by_text_id(connections, id, i + 1)
    }
}

proof fn lemma_find_connection_bounds(connections: Seq<Connection>, id: Seq<char>, i: int)
    requires
        0 <= i,
    ensures
        find_connection_by_text_id(connections, id, i) matches Some(k) ==> i <= k
            < connections.len() && int_to_decimal(connections[k].id as int) == id,
    decreases connections.len() - i,
{
    if i < connections.len() && int_to_decimal(connections[i].id as int) != id {
        lemma_find_connection_bounds(connections, id, i + 1);
    }
}

fn find_connection_index(connections: &Vec<Connection>, id: &str) -> (r: Option<usize>)
    ensures
        r matches Some(k) ==> find_connection_by_text_id(connections@, id@, 0) == Some(k as int)
            && k < connections@.len(),
        r is None ==> find_connection_by_text_id(connections@, id@, 0) is None,
{
    let mut i: usize = 0;
    while i < connections.len()
        invariant
            i <= connections@.len(),
            find_connection_by_text_id(connections@, id@, 0) == find_connection_by_text_id(
                connections@,
                id@,
                i as int,
            ),
        decreases connections.len() - i,
    {
        let text = i64_to_string(connections[i].id);
        if str_eq(text.as_str(), id) {
            return Some(i);
        }
        i = i + 1;
    }
    None
}

/// What the detail pane shows about the selected connection.
#[derive(Debug, Clone, PartialEq, Eq)]
pub struct SelectedConnectionDetails {
    pub id: String,
    pub name: String,
    pub endpoint: String,
    pub connection_type: String,
}

/// The details shown for a connection.
pub open spec fn details_of(d: SelectedConnectionDetails, c: Connection) -> bool {
    &&& d.id@ == int_to_decimal(c.id as int)
    &&& d.name@ == c.name@
    &&& d.endpoint@ == connection_endpoint_spec(c)
    &&& d.connection_type@ == connection_type_label_spec(c.connection_type)
}

/// The details of the connection whose identifier is `selected_id`, or of the first connection
/// when none has it; a placeholder when there are no connections.
pub fn selected_connection_details(connections: &Vec<Connection>, selected_id: &str) -> (d:
    SelectedConnectionDetails)
    ensures
        match find_connection_by_text_id(connections@, selected_id@, 0) {
            Some(k) => details_of(d, connections@[k]),
            None => if connections@.len() > 0 {
                details_of(d, connections@[0])
            } else {
                &&& d.id@.len() == 0
                &&& d.name@ == "No Connection"@
                &&& d.endpoint@ == "Create or import a connection to get started."@
                &&& d.connection_type@ == "EMPTY"@
            },
        },
{
    proof {
        lemma_find_connection_bounds(connections@, selected_id@, 0);
    }
    let selected = match find_connection_index(connections, selected_id) {
        Some(k) => Some(k),
        None => if connections.len() > 0 {
            Some(0)
        } else {
            None
        },
    };
    match selected {
        Some(k) => {
            let c = &connections[k];
            assert(*c == connections@[k as int]);
            let d = SelectedConnectionDetails {
                id: i64_to_string(c.id),
                name: c.name.clone(),
                endpoint: connection_endpoint(c),
                connection_type: owned(connection_type_label(c.connection_type)),
            };
            assert(details_of(d, *c));
            d
        },
        None => SelectedConnectionDetails {
            id: String::new(),
            name: owned("No Connection"),
            endpoint: owned("Create or import a connection to get started."),
            connection_type: owned("EMPTY"),
        },
    }
}

} // verus!

verus! {

// ---------------------------------------------------------------------------
// Searching
// ---------------------------------------------------------------------------

/// Whether a search query matches a record: an empty query (after trimming) matches
/// everything, otherwise the lower-cased query must occur in one of the record's lower-cased
/// fields.
pub open spec fn search_matches_spec(query: Seq<char>, values: Seq<Seq<char>>) -> bool {
    let q = unicode_lowercase(trim_spec(query));
    q.len() == 0 || exists|i: int|
        0 <= i < values.len() && contains_seq(#[trigger] unicode_lowercase(values[i]), q)
}

/// The same match with case folded as `text_lowercase` states it: ASCII letters compare
/// without regard to case.
pub open spec fn search_folded(query: Seq<char>, values: Seq<Seq<char>>) -> bool {
    let q = text_lowercase(trim_spec(query));
    q.len() == 0 || exists|i: int|
        0 <= i < values.len() && contains_seq(#[trigger] text_lowercase(values[i]), q)
}

/// Whether a search query matches one of `values`.
pub fn search_matches(query: &str, values: &Vec<String>) -> (b: bool)
    ensures
        b == search_matches_spec(query@, string_views(values@)),
        b == search_folded(query@, string_views(values@)),
        trim_spec(query@).len() == 0 ==> b,
{
    let t = trim(query);
    let q = to_lowercase(t.as_str());
    if q.as_str().is_empty() {
        return true;
    }
    let ghost vs = string_views(values@);
    let mut i: usize = 0;
    while i < values.len()
        invariant
            vs == string_views(values@),
            q@ == unicode_lowercase(trim_spec(query@)),
            q@ == text_lowercase(trim_spec(query@)),
            q@.len() > 0,
            i <= values@.len(),
            forall|k: int| 0 <= k < i ==> !contains_seq(#[trigger] unicode_lowercase(vs[k]), q@),
            forall|k: int| 0 <= k < i ==> !contains_seq(#[trigger] text_lowercase(vs[k]), q@),
        decreases values.len() - i,
    {
        let lowered = to_lowercase(values[i].as_str());
        assert(vs[i as int] == values@[i as int]@);
        assert(lowered@ == text_lowercase(vs[i as int]));
        if str_contains(lowered.as_str(), q.as_str()) {
            return true;
        }
        i = i + 1;
    }
    false
}

/// Search ignores the case of ASCII letters in the query: a query and its lower-case form
/// match the same records.
pub proof fn lemma_search_ignores_query_case(query: Seq<char>, values: Seq<Seq<char>>)
    requires
        all_ascii(query),
    ensures
        search_folded(query, values) == search_folded(ascii_lowercase(query), values),
{
    lemma_trim_lowercase(query);
    let t = trim_spec(query);
    lemma_ascii_lowercase_idempotent(t);
    assert(text_lowercase(trim_spec(ascii_lowercase(query))) == text_lowercase(t));
}

/// A record matches when the query, trimmed, occurs in one of its fields with ASCII case
/// ignored: `Prod` finds `Production web`.
pub proof fn lemma_search_finds_field_ignoring_case(query: Seq<char>, values: Seq<Seq<char>>, i: int)
    requires
        0 <= i < values.len(),
        all_ascii(query),
        all_ascii(values[i]),
        contains_seq(ascii_lowercase(values[i]), ascii_lowercase(trim_spec(query))),
    ensures
        search_folded(query, values),
{
    lemma_trim_lowercase(query);
    assert(contains_seq(text_lowercase(values[i]), text_lowercase(trim_spec(query))));
}

// ---------------------------------------------------------------------------
// Connections page
// ---------------------------------------------------------------------------

/// The fields of a connection that the search box looks at.
pub open spec fn connection_search_fields(c: Connection, groups: Seq<Group>) -> Seq<Seq<char>> {
    seq![
        c.name@,
        c.host@,
        c.display_username@,
        c.username@,
        c.serial_port@,
        connection_endpoint_spec(c),
        match connection_group_name_spec(c, groups) {
            Some(g) => g,
            None => Seq::empty(),
        },
    ]
}

pub open spec fn connection_matches(groups: Seq<Group>, query: Seq<char>, c: Connection) -> bool {
    search_matches_spec(query, connection_search_fields(c, groups))
}

/// `connection_matches` with case folded as `search_folded` states it.
pub open spec fn connection_matches_folded(groups: Seq<Group>, query: Seq<char>, c: Connection) -> bool {
    search_folded(query, connection_search_fields(c, groups))
}

fn connection_search_values(c: &Connection, groups: &Vec<Group>) -> (v: Vec<String>)
    ensures
        string_views(v@) == connection_search_fields(*c, groups@),
{
    let mut v: Vec<String> = Vec::new();
    v.push(c.name.clone());
    v.push(c.host.clone());
    v.push(c.display_username.clone());
    v.push(c.username.clone());
    v.push(c.serial_port.clone());
    v.push(connection_endpoint(c));
    v.push(
        match connection_group_name(c, groups) {
            Some(g) => g,
            None => String::new(),
        },
    );
    assert(string_views(v@) =~= connection_search_fields(*c, groups@));
    v
}

/// The connections that match the search box, in their order.
pub fn filtered_connections(groups: &Vec<Group>, connections: &Vec<Connection>, query: &str) -> (r:
    Vec<Connection>)
    ensures
        r@ == connections@.filter(|c: Connection| connection_matches(groups@, query@, c)),
        r@ == connections@.filter(|c: Connection| connection_matches_folded(groups@, query@, c)),
        trim_spec(query@).len() == 0 ==> r@ == connections@,
{
    let ghost pred = |c: Connection| connection_matches(groups@, query@, c);
    let ghost folded = |c: Connection| connection_matches_folded(groups@, query@, c);
    let mut r: Vec<Connection> = Vec::new();
    let mut i: usize = 0;
    while i < connections.len()
        invariant
            i <= connections@.len(),
            pred == (|c: Connection| connection_matches(groups@, query@, c)),
            folded == (|c: Connection| connection_matches_folded(groups@, query@, c)),
            r@ == connections@.take(i as int).filter(pred),
            r@ == connections@.take(i as int).filter(folded),
            trim_spec(query@).len() == 0 ==> r@ == connections@.take(i as int),
        decreases connections.len() - i,
    {
        let c = &connections[i];
        let values = connection_search_values(c, groups);
        let keep = search_matches(query, &values);
        proof {
            assert(connections@.take(i + 1) =~= connections@.take(i as int).push(connections@[i as int]));
            connections@.take(i as int).lemma_filter_push(connections@[i as int], pred);
            connections@.take(i as int).lemma_filter_push(connections@[i as int], folded);
        }
        if keep {
            r.push(c.duplicate());
        }
        i = i + 1;
    }
    assert(connections@.take(connections@.len() as int) =~= connections@);
    r
}

/// The connection to keep selected after the search changes: the current one while it is still
/// listed, else the first listed one (or none).
pub fn filtered_selected_connection_id(
    groups: &Vec<Group>,
    connections: &Vec<Connection>,
    query: &str,
    current_selected_id: &str,
) -> (s: String)
    ensures
        ({
            let listed = connections@.filter(|c: Connection| connection_matches(groups@, query@, c));
            s@ == if find_connection_by_text_id(listed, current_selected_id@, 0) is Some {
                current_selected_id@
            } else {
                initial_selected_connection_id_spec(listed)
            }
        }),
{
    let filtered = filtered_connections(groups, connections, query);
    match find_connection_index(&filtered, current_selected_id) {
        Some(_) => owned(current_selected_id),
        None => initial_selected_connection_id(&filtered),
    }
}

/// A color given by its red, green and blue channels.
#[derive(Debug, Clone, Copy, PartialEq, Eq, Structural)]
pub struct ShellColor {
    pub red: u8,
    pub green: u8,
    pub blue: u8,
}

pub open spec fn rgb(red: u8, green: u8, blue: u8) -> ShellColor {
    ShellColor { red, green, blue }
}

/// The accent color of a connection type.
pub open spec fn connection_accent_spec(t: ConnectionType) -> ShellColor {
    match t {
        ConnectionType::Ssh => rgb(55, 204, 143),
        ConnectionType::Local => rgb(37, 99, 235),
        ConnectionType::Serial => rgb(244, 94, 52),
    }
}

/// The accent color of a connection type.
pub fn connection_accent(t: ConnectionType) -> (c: ShellColor)
    ensures
        c == connection_accent_spec(t),
{
    match t {
        ConnectionType::Ssh => ShellColor { red: 55, green: 204, blue: 143 },
        ConnectionType::Local => ShellColor { red: 37, green: 99, blue: 235 },
        ConnectionType::Serial => ShellColor { red: 244, green: 94, blue: 52 },
    }
}

/// One card on the Connections page.
#[derive(Debug, Clone)]
pub struct ShellConnectionItem {
    pub id: String,
    pub name: String,
    pub endpoint: String,
    pub badge: String,
    pub initial: String,
    pub accent: ShellColor,
}

pub open spec fn connection_item_ok(item: ShellConnectionItem, c: Connection, groups: Seq<Group>) -> bool {
    &&& item.id@ == int_to_decimal(c.id as int)
    &&& item.name@ == c.name@
    &&& item.endpoint@ == connection_summary_spec(c, groups)
    &&& item.badge@ == connection_type_label_spec(c.connection_type)
    &&& item.initial@ == connection_initial_spec(c.name@)
    &&& item.accent == connection_accent_spec(c.connection_type)
}

/// The cards of the Connections page, one per connection, in order.
pub fn connection_items(connections: &Vec<Connection>, groups: &Vec<Group>) -> (items: Vec<
    ShellConnectionItem,
>)
    ensures
        items@.len() == connections@.len(),
        forall|i: int|
            0 <= i < connections@.len() ==> connection_item_ok(
                #[trigger] items@[i],
                connections@[i],
                groups@,
            ),
{
    let mut items: Vec<ShellConnectionItem> = Vec::new();
    let mut i: usize = 0;
    while i < connections.len()
        invariant
            i <= connections@.len(),
            items@.len() == i,
            forall|k: int|
                0 <= k < i ==> connection_item_ok(#[trigger] items@[k], connections@[k], groups@),
        decreases connections.len() - i,
    {
        let c = &connections[i];
        let item = ShellConnectionItem {
            id: i64_to_string(c.id),
            name: c.name.clone(),
            endpoint: connection_summary(c, groups),
            badge: owned(connection_type_label(c.connection_type)),
            initial: connection_initial(c.name.as_str()),
            accent: connection_accent(c.connection_type),
        };
        assert(connection_item_ok(item, connections@[i as int], groups@));
        items.push(item);
        i = i + 1;
    }
    items
}

} // verus!

verus! {

// ---------------------------------------------------------------------------
// List pages
// ---------------------------------------------------------------------------

/// One row of a list page.
#[derive(Debug, Clone)]
pub struct ShellListItem {
    pub id: String,
    pub title: String,
    pub subtitle: String,
    pub badge: String,
    pub initial: String,
    pub accent: ShellColor,
}

/// The content of a list row.
pub struct ListItemView {
    pub id: Seq<char>,
    pub title: Seq<char>,
    pub subtitle: Seq<char>,
    pub badge: Seq<char>,
    pub initial: Seq<char>,
    pub accent: ShellColor,
}

impl View for ShellListItem {
    type V = ListItemView;

    open spec fn view(&self) -> ListItemView {
        ListItemView {
            id: self.id@,
            title: self.title@,
            subtitle: self.subtitle@,
            badge: self.badge@,
            initial: self.initial@,
            accent: self.accent,
        }
    }
}

pub open spec fn item_views(items: Seq<ShellListItem>) -> Seq<ListItemView> {
    items.map_values(|i: ShellListItem| i@)
}

/// A row whose avatar letter comes from `initial_of`.
pub open spec fn list_item_view(
    id: Seq<char>,
    title: Seq<char>,
    subtitle: Seq<char>,
    badge: Seq<char>,
    initial_of: Seq<char>,
    accent: ShellColor,
) -> ListItemView {
    ListItemView {
        id,
        title,
        subtitle,
        badge,
        initial: connection_initial_spec(initial_of),
        accent,
    }
}

fn list_item(
    id: String,
    title: String,
    subtitle: String,
    badge: &str,
    initial_of: &str,
    accent: ShellColor,
) -> (item: ShellListItem)
    ensures
        item@ == list_item_view(id@, title@, subtitle@, badge@, initial_of@, accent),
{
    ShellListItem {
        id,
        title,
        subtitle,
        badge: owned(badge),
        initial: connection_initial(initial_of),
        accent,
    }
}

/// Appends an item to a list, keeping the view relation.
proof fn lemma_views_push(items: Seq<ShellListItem>, item: ShellListItem)
    ensures
        item_views(items.push(item)) == item_views(items).push(item@),
{
    assert(item_views(items.push(item)) =~= item_views(items).push(item@));
}

/// The placeholder row of an empty page.
pub open spec fn placeholder_view(title: Seq<char>, subtitle: Seq<char>) -> ListItemView {
    list_item_view("placeholder"@, title, subtitle, "EMPTY"@, title, rgb(127, 138, 150))
}

/// A page with a single placeholder row.
pub fn placeholder_items(title: &str, subtitle: &str) -> (items: Vec<ShellListItem>)
    ensures
        item_views(items@) == seq![placeholder_view(title@, subtitle@)],
{
    let mut items: Vec<ShellListItem> = Vec::new();
    let item = list_item(
        owned("placeholder"),
        owned(title),
        owned(subtitle),
        "EMPTY",
        title,
        ShellColor { red: 127, green: 138, blue: 150 },
    );
    items.push(item);
    assert(item_views(items@) =~= seq![placeholder_view(title@, subtitle@)]);
    items
}

/// `prefix` followed by `n` in decimal.
fn prefixed_id(prefix: &str, n: i64) -> (s: String)
    ensures
        s@ == prefix@ + int_to_decimal(n as int),
{
    let mut s = owned(prefix);
    let d = i64_to_string(n);
    s.append(d.as_str());
    s
}

/// Whether a row matches the search box, by its title, subtitle and badge.
pub open spec fn list_item_matches(query: Seq<char>, v: ListItemView) -> bool {
    search_matches_spec(query, seq![v.title, v.subtitle, v.badge])
}

/// The rows that match the search box, in order.
pub fn filter_list_items(items: Vec<ShellListItem>, query: &str) -> (r: Vec<ShellListItem>)
    ensures
        item_views(r@) == item_views(items@).filter(|v: ListItemView| list_item_matches(query@, v)),
        trim_spec(query@).len() == 0 ==> item_views(r@) == item_views(items@),
{
    let ghost pred = |v: ListItemView| list_item_matches(query@, v);
    let mut r: Vec<ShellListItem> = Vec::new();
    let mut i: usize = 0;
    while i < items.len()
        invariant
            i <= items@.len(),
            pred == (|v: ListItemView| list_item_matches(query@, v)),
            item_views(r@) == item_views(items@.take(i as int)).filter(pred),
            trim_spec(query@).len() == 0 ==> item_views(r@) == item_views(items@.take(i as int)),
        decreases items.len() - i,
    {
        let item = &items[i];
        let mut values: Vec<String> = Vec::new();
        values.push(item.title.clone());
        values.push(item.subtitle.clone());
        values.push(item.badge.clone());
        assert(string_views(values@) =~= seq![item@.title, item@.subtitle, item@.badge]);
        let keep = search_matches(query, &values);
        proof {
            assert(items@.take(i + 1) =~= items@.take(i as int).push(items@[i as int]));
            assert(item_views(items@.take(i + 1)) =~= item_views(items@.take(i as int)).push(
                items@[i as int]@,
            ));
            item_views(items@.take(i as int)).lemma_filter_push(items@[i as int]@, pred);
        }
        if keep {
            let copy = ShellListItem {
                id: item.id.clone(),
                title: item.title.clone(),
                subtitle: item.subtitle.clone(),
                badge: item.badge.clone(),
                initial: item.initial.clone(),
                accent: item.accent,
            };
            proof {
                lemma_views_push(r@, copy);
            }
            r.push(copy);
        }
        i = i + 1;
    }
    assert(items@.take(items@.len() as int) =~= items@);
    r
}

/// What a key shows: the start of its public key, else a note about its certificate, else that
/// it is a private key.
pub open spec fn key_fingerprint_preview_spec(k: Key) -> Seq<char> {
    if !is_blank_spec(k.public_key@) {
        let t = trim_spec(k.public_key@);
        if t.len() > 42 {
            t.take(42)
        } else {
            t
        }
    } else if !is_blank_spec(k.certificate@) {
        "Certificate attached"@
    } else {
        "Private key"@
    }
}

/// What a key shows in the keychain.
pub fn key_fingerprint_preview(k: &Key) -> (s: String)
    ensures
        s@ == key_fingerprint_preview_spec(*k),
{
    if !is_blank(k.public_key.as_str()) {
        let t = trim(k.public_key.as_str());
        let v = chars_of(t.as_str());
        let n = if v.len() > 42 {
            42
        } else {
            v.len()
        };
        let s = crate::text::string_from_chars(&v, 0, n);
        assert(v@.subrange(0, v@.len() as int) =~= v@);
        return s;
    }
    if !is_blank(k.certificate.as_str()) {
        return owned("Certificate attached");
    }
    owned("Private key")
}

pub open spec fn identity_subtitle_spec(i: Identity) -> Seq<char> {
    trim_or_spec(i.username@, "No username"@)
}

/// What an identity shows: its trimmed user name, or a note that it has none.
pub fn identity_subtitle(i: &Identity) -> (s: String)
    ensures
        s@ == identity_subtitle_spec(*i),
{
    trim_or(i.username.as_str(), "No username")
}

pub open spec fn key_item_spec(k: Key) -> ListItemView {
    list_item_view(
        "key-"@ + int_to_decimal(k.id as int),
        k.name@,
        key_fingerprint_preview_spec(k),
        "KEY"@,
        k.name@,
        rgb(37, 99, 235),
    )
}

pub open spec fn identity_item_spec(i: Identity) -> ListItemView {
    list_item_view(
        "identity-"@ + int_to_decimal(i.id as int),
        i.name@,
        identity_subtitle_spec(i),
        "ID"@,
        i.name@,
        rgb(132, 90, 223),
    )
}

pub open spec fn keychain_items_spec(keys: Seq<Key>, identities: Seq<Identity>) -> Seq<ListItemView> {
    keys.map_values(|k: Key| key_item_spec(k)) + identities.map_values(
        |i: Identity| identity_item_spec(i),
    )
}

/// The Keychain page: the keys, then the identities.
pub fn keychain_items(keys: &Vec<Key>, identities: &Vec<Identity>) -> (items: Vec<ShellListItem>)
    ensures
        item_views(items@) == keychain_items_spec(keys@, identities@),
{
    let mut items: Vec<ShellListItem> = Vec::new();
    let mut i: usize = 0;
    while i < keys.len()
        invariant
            i <= keys@.len(),
            item_views(items@) == keys@.take(i as int).map_values(|k: Key| key_item_spec(k)),
        decreases keys.len() - i,
    {
        let k = &keys[i];
        let item = list_item(
            prefixed_id("key-", k.id),
            k.name.clone(),
            key_fingerprint_preview(k),
            "KEY",
            k.name.as_str(),
            ShellColor { red: 37, green: 99, blue: 235 },
        );
        proof {
            lemma_views_push(items@, item);
            assert(keys@.take(i + 1) =~= keys@.take(i as int).push(keys@[i as int]));
            keys@.take(i as int).lemma_push_map_commute(|k: Key| key_item_spec(k), keys@[i as int]);
        }
        items.push(item);
        i = i + 1;
    }
    assert(keys@.take(keys@.len() as int) =~= keys@);
    let ghost key_part = item_views(items@);
    let mut j: usize = 0;
    while j < identities.len()
        invariant
            j <= identities@.len(),
            key_part == keys@.map_values(|k: Key| key_item_spec(k)),
            item_views(items@) == key_part + identities@.take(j as int).map_values(
                |i: Identity| identity_item_spec(i),
            ),
        decreases identities.len() - j,
    {
        let id = &identities[j];
        let item = list_item(
            prefixed_id("identity-", id.id),
            id.name.clone(),
            identity_subtitle(id),
            "ID",
            id.name.as_str(),
            ShellColor { red: 132, green: 90, blue: 223 },
        );
        proof {
            lemma_views_push(items@, item);
            assert(identities@.take(j + 1) =~= identities@.take(j as int).push(identities@[j as int]));
            identities@.take(j as int).lemma_push_map_commute(
                |i: Identity| identity_item_spec(i),
                identities@[j as int],
            );
            assert(key_part + identities@.take(j + 1).map_values(|i: Identity| identity_item_spec(i))
                =~= (key_part + identities@.take(j as int).map_values(
                |i: Identity| identity_item_spec(i),
            )).push(identity_item_spec(identities@[j as int])));
        }
        items.push(item);
        j = j + 1;
    }
    assert(identities@.take(identities@.len() as int) =~= identities@);
    items
}

} // verus!

verus! {

pub open spec fn port_forward_subtitle_spec(f: PortForward) -> Seq<char> {
    f.forward_type.spec_label() + " "@ + f.bind_address@ + ":"@ + int_to_decimal(f.bind_port as int)
        + " -> "@ + f.destination_host@ + ":"@ + int_to_decimal(f.destination_port as int)
}

/// The route of a forwarding rule: `Type bind:port -> destination:port`.
pub fn port_forward_subtitle(f: &PortForward) -> (s: String)
    ensures
        s@ == port_forward_subtitle_spec(*f),
{
    let mut s = owned(f.forward_type.label());
    s.append(" ");
    s.append(f.bind_address.as_str());
    s.append(":");
    let bp = i64_to_string(f.bind_port);
    s.append(bp.as_str());
    s.append(" -> ");
    s.append(f.destination_host.as_str());
    s.append(":");
    let dp = i64_to_string(f.destination_port);
    s.append(dp.as_str());
    s
}

pub open spec fn port_forward_item_spec(f: PortForward) -> ListItemView {
    list_item_view(
        "port-forward-"@ + int_to_decimal(f.id as int),
        crate::text::or_if_blank_spec(f.label@, "Forward"@),
        port_forward_subtitle_spec(f),
        if f.enabled {
            "ON"@
        } else {
            "OFF"@
        },
        f.label@,
        rgb(244, 94, 52),
    )
}

/// The Port Forwarding page: one row per rule.
pub fn port_forward_items(forwards: &Vec<PortForward>) -> (items: Vec<ShellListItem>)
    ensures
        item_views(items@) == forwards@.map_values(|f: PortForward| port_forward_item_spec(f)),
{
    let mut items: Vec<ShellListItem> = Vec::new();
    let mut i: usize = 0;
    while i < forwards.len()
        invariant
            i <= forwards@.len(),
            item_views(items@) == forwards@.take(i as int).map_values(
                |f: PortForward| port_forward_item_spec(f),
            ),
        decreases forwards.len() - i,
    {
        let f = &forwards[i];
        let item = list_item(
            prefixed_id("port-forward-", f.id),
            crate::text::or_if_blank(f.label.as_str(), "Forward"),
            port_forward_subtitle(f),
            if f.enabled {
                "ON"
            } else {
                "OFF"
            },
            f.label.as_str(),
            ShellColor { red: 244, green: 94, blue: 52 },
        );
        proof {
            lemma_views_push(items@, item);
            assert(forwards@.take(i + 1) =~= forwards@.take(i as int).push(forwards@[i as int]));
            forwards@.take(i as int).lemma_push_map_commute(
                |f: PortForward| port_forward_item_spec(f),
                forwards@[i as int],
            );
        }
        items.push(item);
        i = i + 1;
    }
    assert(forwards@.take(forwards@.len() as int) =~= forwards@);
    items
}

/// What a snippet shows: its description and command, whichever are present.
pub open spec fn snippet_subtitle_spec(s: Snippet) -> Seq<char> {
    let d = trim_spec(s.description@);
    let c = trim_spec(s.command@);
    if d.len() > 0 && c.len() > 0 {
        d + " / "@ + c
    } else if d.len() > 0 {
        d
    } else if c.len() > 0 {
        c
    } else {
        "No command"@
    }
}

/// What a snippet shows under its name.
pub fn snippet_subtitle(s: &Snippet) -> (r: String)
    ensures
        r@ == snippet_subtitle_spec(*s),
{
    let mut d = trim(s.description.as_str());
    let c = trim(s.command.as_str());
    let has_d = !d.as_str().is_empty();
    let has_c = !c.as_str().is_empty();
    if has_d && has_c {
        d.append(" / ");
        d.append(c.as_str());
        d
    } else if has_d {
        d
    } else if has_c {
        c
    } else {
        owned("No command")
    }
}

pub open spec fn snippet_item_spec(s: Snippet) -> ListItemView {
    list_item_view(
        int_to_decimal(s.id as int),
        crate::text::or_if_blank_spec(s.name@, "Snippet"@),
        snippet_subtitle_spec(s),
        "SNIP"@,
        s.name@,
        rgb(245, 158, 11),
    )
}

/// The Snippets page: one row per snippet.
pub fn snippet_items(snippets: &Vec<Snippet>) -> (items: Vec<ShellListItem>)
    ensures
        item_views(items@) == snippets@.map_values(|s: Snippet| snippet_item_spec(s)),
{
    let mut items: Vec<ShellListItem> = Vec::new();
    let mut i: usize = 0;
    while i < snippets.len()
        invariant
            i <= snippets@.len(),
            item_views(items@) == snippets@.take(i as int).map_values(
                |s: Snippet| snippet_item_spec(s),
            ),
        decreases snippets.len() - i,
    {
        let s = &snippets[i];
        let item = list_item(
            i64_to_string(s.id),
            crate::text::or_if_blank(s.name.as_str(), "Snippet"),
            snippet_subtitle(s),
            "SNIP",
            s.name.as_str(),
            ShellColor { red: 245, green: 158, blue: 11 },
        );
        proof {
            lemma_views_push(items@, item);
            assert(snippets@.take(i + 1) =~= snippets@.take(i as int).push(snippets@[i as int]));
            snippets@.take(i as int).lemma_push_map_commute(
                |s: Snippet| snippet_item_spec(s),
                snippets@[i as int],
            );
        }
        items.push(item);
        i = i + 1;
    }
    assert(snippets@.take(snippets@.len() as int) =~= snippets@);
    items
}

/// The index of the first white-space character of `s` at or after `i`, or its length.
pub open spec fn ws_index(s: Seq<char>, i: int) -> int
    decreases s.len() - i,
{
    if i < 0 || i >= s.len() {
        s.len() as int
    } else if crate::text::is_ws(s[i]) {
        i
    } else {
        ws_index(s, i + 1)
    }
}

/// The first white-space separated word of `s`.
pub open spec fn first_word(s: Seq<char>) -> Seq<char> {
    let t = crate::text::trim_start_spec(s);
    t.take(ws_index(t, 0))
}

proof fn lemma_ws_index_bounds(s: Seq<char>, i: int)
    requires
        0 <= i <= s.len(),
    ensures
        i <= ws_index(s, i) <= s.len(),
    decreases s.len() - i,
{
    if i < s.len() && !crate::text::is_ws(s[i]) {
        lemma_ws_index_bounds(s, i + 1);
    }
}

proof fn lemma_trim_start_suffix(s: Seq<char>)
    ensures
        crate::text::trim_start_spec(s).len() <= s.len(),
        crate::text::trim_start_spec(s) == s.skip(s.len() - crate::text::trim_start_spec(s).len()),
    decreases s.len(),
{
    if s.len() > 0 && crate::text::is_ws(s[0]) {
        lemma_trim_start_suffix(s.drop_first());
        let t = crate::text::trim_start_spec(s.drop_first());
        assert(s.drop_first().skip(s.drop_first().len() - t.len()) =~= s.skip(s.len() - t.len()));
    } else {
        assert(s.skip(0) =~= s);
    }
}

/// The title of a known-hosts line: its host pattern, the first word.
pub open spec fn known_host_title_spec(line: Seq<char>) -> Seq<char> {
    if is_blank_spec(line) {
        "Known Host"@
    } else {
        first_word(line)
    }
}

/// The title of a known-hosts line.
pub fn known_host_title(line: &str) -> (s: String)
    ensures
        s@ == known_host_title_spec(line@),
{
    if is_blank(line) {
        return owned("Known Host");
    }
    let v = chars_of(line);
    let n = v.len();
    let mut i: usize = 0;
    assert(v@.skip(0) =~= v@);
    while i < n && crate::text::is_whitespace(v[i])
        invariant
            i <= n == v@.len(),
            v@ == line@,
            crate::text::trim_start_spec(v@) == crate::text::trim_start_spec(v@.skip(i as int)),
        decreases n - i,
    {
        proof {
            assert(v@.skip(i as int).drop_first() =~= v@.skip(i + 1));
        }
        i = i + 1;
    }
    proof {
        assert(v@.skip(i as int).len() == 0 || !crate::text::is_ws(v@.skip(i as int)[0]));
    }
    let ghost t = v@.skip(i as int);
    assert(crate::text::trim_start_spec(t) == t);
    let mut j: usize = i;
    while j < n && !crate::text::is_whitespace(v[j])
        invariant
            i <= j <= n == v@.len(),
            t == v@.skip(i as int),
            ws_index(t, 0) == ws_index(t, j - i),
        decreases n - j,
    {
        proof {
            assert(t[j - i] == v@[j as int]);
        }
        j = j + 1;
    }
    proof {
        if j < n {
            assert(t[j - i] == v@[j as int]);
        }
        assert(ws_index(t, (j - i) as int) == j - i);
        assert(t.take(j - i) =~= v@.subrange(i as int, j as int));
    }
    crate::text::string_from_chars(&v, i, j)
}

pub open spec fn known_host_item_spec(e: KnownHostEntry) -> ListItemView {
    let title = known_host_title_spec(e.line@);
    list_item_view(
        "known-host-"@ + nat_to_decimal(e.line_number as nat),
        title,
        "line "@ + nat_to_decimal(e.line_number as nat),
        "HOST"@,
        title,
        rgb(35, 150, 165),
    )
}

/// The Known Hosts page: one row per entry.
pub fn known_host_items(entries: &Vec<KnownHostEntry>) -> (items: Vec<ShellListItem>)
    ensures
        item_views(items@) == entries@.map_values(|e: KnownHostEntry| known_host_item_spec(e)),
{
    let mut items: Vec<ShellListItem> = Vec::new();
    let mut i: usize = 0;
    while i < entries.len()
        invariant
            i <= entries@.len(),
            item_views(items@) == entries@.take(i as int).map_values(
                |e: KnownHostEntry| known_host_item_spec(e),
            ),
        decreases entries.len() - i,
    {
        let e = &entries[i];
        let title = known_host_title(e.line.as_str());
        let mut id = owned("known-host-");
        let n = usize_to_string(e.line_number);
        id.append(n.as_str());
        let mut subtitle = owned("line ");
        subtitle.append(n.as_str());
        let item = list_item(
            id,
            title.clone(),
            subtitle,
            "HOST",
            title.as_str(),
            ShellColor { red: 35, green: 150, blue: 165 },
        );
        proof {
            lemma_views_push(items@, item);
            assert(entries@.take(i + 1) =~= entries@.take(i as int).push(entries@[i as int]));
            entries@.take(i as int).lemma_push_map_commute(
                |e: KnownHostEntry| known_host_item_spec(e),
                entries@[i as int],
            );
        }
        items.push(item);
        i = i + 1;
    }
    assert(entries@.take(entries@.len() as int) =~= entries@);
    items
}

pub open spec fn log_item_spec(number: nat, message: Seq<char>) -> ListItemView {
    ListItemView {
        id: "log-"@ + nat_to_decimal(number),
        title: "#"@ + nat_to_decimal(number),
        subtitle: message,
        badge: "LOG"@,
        initial: "L"@,
        accent: rgb(35, 150, 165),
    }
}

/// The Logs page rows: newest first, numbered from the oldest (`#1`) to the newest.
pub open spec fn log_items_spec(logs: Seq<String>) -> Seq<ListItemView> {
    Seq::new(
        logs.len(),
        |i: int| log_item_spec((logs.len() - i) as nat, logs[logs.len() - 1 - i]@),
    )
}

/// The Logs page rows.
pub fn log_items(logs: &Vec<String>) -> (items: Vec<ShellListItem>)
    ensures
        item_views(items@) == log_items_spec(logs@),
{
    let n = logs.len();
    let mut items: Vec<ShellListItem> = Vec::new();
    let mut i: usize = 0;
    while i < n
        invariant
            n == logs@.len(),
            i <= n,
            item_views(items@) == log_items_spec(logs@).take(i as int),
        decreases n - i,
    {
        let number = n - i;
        let digits = usize_to_string(number);
        let mut id = owned("log-");
        id.append(digits.as_str());
        let mut title = owned("#");
        title.append(digits.as_str());
        let item = ShellListItem {
            id,
            title,
            subtitle: logs[n - 1 - i].clone(),
            badge: owned("LOG"),
            initial: owned("L"),
            accent: ShellColor { red: 35, green: 150, blue: 165 },
        };
        proof {
            lemma_views_push(items@, item);
            assert(log_items_spec(logs@).take(i + 1) =~= log_items_spec(logs@).take(i as int).push(
                item@,
            ));
        }
        items.push(item);
        i = i + 1;
    }
    assert(log_items_spec(logs@).take(n as int) =~= log_items_spec(logs@));
    items
}

} // verus!

verus! {

/// Everything the shell shows about the loaded workspace.
#[derive(Debug, Clone)]
pub struct WorkspaceData {
    pub connections: Vec<Connection>,
    pub keys: Vec<Key>,
    pub identities: Vec<Identity>,
    pub groups: Vec<Group>,
    pub port_forwards: Vec<PortForward>,
    pub known_hosts: Vec<KnownHostEntry>,
    pub snippets: Vec<Snippet>,
}

impl Default for WorkspaceData {
    fn default() -> (w: Self)
        ensures
            w.connections@.len() == 0,
            w.keys@.len() == 0,
            w.identities@.len() == 0,
            w.groups@.len() == 0,
            w.port_forwards@.len() == 0,
            w.known_hosts@.len() == 0,
            w.snippets@.len() == 0,
    {
        WorkspaceData {
            connections: Vec::new(),
            keys: Vec::new(),
            identities: Vec::new(),
            groups: Vec::new(),
            port_forwards: Vec::new(),
            known_hosts: Vec::new(),
            snippets: Vec::new(),
        }
    }
}

/// The settings as the shell shows them, with the font size and line height already written
/// out (`{:.0}` and `{:.2}`).
#[derive(Debug, Clone)]
pub struct SettingsOverview {
    pub default_theme_id: String,
    pub font_family: String,
    pub font_size_text: String,
    pub line_height_text: String,
    pub scrollback_lines: usize,
    pub cursor_shape: String,
    pub cursor_blinking: bool,
    pub close_tab_shortcut: String,
    pub open_settings_shortcut: String,
}

impl Default for SettingsOverview {
    /// The overview of the default settings: the light theme, Menlo at 14 px with line
    /// height 1.25, 10000 lines of scrollback, a steady block cursor, and the default
    /// shortcuts.
    fn default() -> (o: Self)
        ensures
            o.default_theme_id@ == "atom-one-light"@,
            o.font_family@ == "Menlo"@,
            o.font_size_text@ == "14"@,
            o.line_height_text@ == "1.25"@,
            o.scrollback_lines == 10000,
            o.cursor_shape@ == "block"@,
            !o.cursor_blinking,
            o.close_tab_shortcut@ == "Command+W"@,
            o.open_settings_shortcut@ == "Command+,"@,
    {
        SettingsOverview {
            default_theme_id: owned("atom-one-light"),
            font_family: owned("Menlo"),
            font_size_text: owned("14"),
            line_height_text: owned("1.25"),
            scrollback_lines: 10000,
            cursor_shape: owned("block"),
            cursor_blinking: false,
            close_tab_shortcut: owned("Command+W"),
            open_settings_shortcut: owned("Command+,"),
        }
    }
}

pub open spec fn settings_items_spec(o: SettingsOverview) -> Seq<ListItemView> {
    seq![
        ListItemView {
            id: "settings-font"@,
            title: "Terminal Font"@,
            subtitle: o.font_family@ + " / "@ + o.font_size_text@ + "px / line height "@
                + o.line_height_text@,
            badge: "FONT"@,
            initial: "F"@,
            accent: rgb(37, 99, 235),
        },
        ListItemView {
            id: "settings-theme"@,
            title: "Default Theme"@,
            subtitle: o.default_theme_id@,
            badge: "THEME"@,
            initial: "T"@,
            accent: rgb(132, 90, 223),
        },
        ListItemView {
            id: "settings-scrollback"@,
            title: "Scrollback"@,
            subtitle: nat_to_decimal(o.scrollback_lines as nat) + " lines"@,
            badge: "TERM"@,
            initial: "S"@,
            accent: rgb(35, 150, 165),
        },
        ListItemView {
            id: "settings-cursor"@,
            title: "Cursor"@,
            subtitle: o.cursor_shape@ + " / "@ + if o.cursor_blinking {
                "blinking"@
            } else {
                "steady"@
            },
            badge: "CURSOR"@,
            initial: "C"@,
            accent: rgb(244, 94, 52),
        },
        ListItemView {
            id: "settings-shortcuts"@,
            title: "Shortcuts"@,
            subtitle: "close "@ + o.close_tab_shortcut@ + " / settings "@ + o.open_settings_shortcut@,
            badge: "KEYS"@,
            initial: "K"@,
            accent: rgb(127, 138, 150),
        },
    ]
}

fn plain_item(id: &str, title: &str, subtitle: String, badge: &str, initial: &str, accent: ShellColor) -> (item:
    ShellListItem)
    ensures
        item@ == (ListItemView {
            id: id@,
            title: title@,
            subtitle: subtitle@,
            badge: badge@,
            initial: initial@,
            accent,
        }),
{
    ShellListItem {
        id: owned(id),
        title: owned(title),
        subtitle,
        badge: owned(badge),
        initial: owned(initial),
        accent,
    }
}

/// The Settings page rows: font, theme, scrollback, cursor and shortcuts.
pub fn settings_items(o: &SettingsOverview) -> (items: Vec<ShellListItem>)
    ensures
        item_views(items@) == settings_items_spec(*o),
{
    let mut font = o.font_family.clone();
    font.append(" / ");
    font.append(o.font_size_text.as_str());
    font.append("px / line height ");
    font.append(o.line_height_text.as_str());
    let mut scroll = usize_to_string(o.scrollback_lines);
    scroll.append(" lines");
    let mut cursor = o.cursor_shape.clone();
    cursor.append(" / ");
    cursor.append(
        if o.cursor_blinking {
            "blinking"
        } else {
            "steady"
        },
    );
    let mut keys = owned("close ");
    keys.append(o.close_tab_shortcut.as_str());
    keys.append(" / settings ");
    keys.append(o.open_settings_shortcut.as_str());
    let mut items: Vec<ShellListItem> = Vec::new();
    items.push(
        plain_item(
            "settings-font",
            "Terminal Font",
            font,
            "FONT",
            "F",
            ShellColor { red: 37, green: 99, blue: 235 },
        ),
    );
    items.push(
        plain_item(
            "settings-theme",
            "Default Theme",
            o.default_theme_id.clone(),
            "THEME",
            "T",
            ShellColor { red: 132, green: 90, blue: 223 },
        ),
    );
    items.push(
        plain_item(
            "settings-scrollback",
            "Scrollback",
            scroll,
            "TERM",
            "S",
            ShellColor { red: 35, green: 150, blue: 165 },
        ),
    );
    items.push(
        plain_item(
            "settings-cursor",
            "Cursor",
            cursor,
            "CURSOR",
            "C",
            ShellColor { red: 244, green: 94, blue: 52 },
        ),
    );
    items.push(
        plain_item(
            "settings-shortcuts",
            "Shortcuts",
            keys,
            "KEYS",
            "K",
            ShellColor { red: 127, green: 138, blue: 150 },
        ),
    );
    assert(item_views(items@) =~= settings_items_spec(*o));
    items
}

/// The number of connections that belong to a group.
pub open spec fn group_member_count(connections: Seq<Connection>, group_id: i64) -> nat {
    connections.filter(|c: Connection| c.group_id == Some(group_id)).len()
}

fn count_group_members(connections: &Vec<Connection>, group_id: i64) -> (n: usize)
    ensures
        n == group_member_count(connections@, group_id),
{
    let ghost pred = |c: Connection| c.group_id == Some(group_id);
    let mut n: usize = 0;
    let mut i: usize = 0;
    while i < connections.len()
        invariant
            i <= connections@.len(),
            pred == (|c: Connection| c.group_id == Some(group_id)),
            n == connections@.take(i as int).filter(pred).len(),
            n <= i,
        decreases connections.len() - i,
    {
        proof {
            assert(connections@.take(i + 1) =~= connections@.take(i as int).push(connections@[i as int]));
            connections@.take(i as int).lemma_filter_push(connections@[i as int], pred);
        }
        if connections[i].group_id == Some(group_id) {
            n = n + 1;
        }
        i = i + 1;
    }
    assert(connections@.take(connections@.len() as int) =~= connections@);
    n
}

/// The name of a group's parent, or `Root`.
pub open spec fn parent_name_spec(g: Group, groups: Seq<Group>) -> Seq<char> {
    match g.parent_id {
        None => "Root"@,
        Some(p) => match find_group(groups, p, 0) {
            None => "Root"@,
            Some(k) => groups[k].name@,
        },
    }
}

pub open spec fn group_item_spec(g: Group, groups: Seq<Group>, connections: Seq<Connection>) -> ListItemView {
    list_item_view(
        "group-"@ + int_to_decimal(g.id as int),
        g.name@,
        nat_to_decimal(group_member_count(connections, g.id)) + " connections / parent "@
            + parent_name_spec(g, groups),
        "GROUP"@,
        g.name@,
        rgb(0, 92, 145),
    )
}

pub open spec fn group_matches(query: Seq<char>, g: Group) -> bool {
    search_matches_spec(query, seq![g.name@])
}

/// The group cards of the Connections page: the groups that match the search box, or a
/// placeholder when none does.
pub open spec fn connection_group_items_spec(
    groups: Seq<Group>,
    connections: Seq<Connection>,
    query: Seq<char>,
) -> Seq<ListItemView> {
    let rows = groups.filter(|g: Group| group_matches(query, g)).map_values(
        |g: Group| group_item_spec(g, groups, connections),
    );
    if rows.len() == 0 {
        seq![placeholder_view("Groups"@, "No groups found in the current workspace."@)]
    } else {
        rows
    }
}

/// The group cards of the Connections page.
pub fn connection_group_items(groups: &Vec<Group>, connections: &Vec<Connection>, query: &str) -> (items:
    Vec<ShellListItem>)
    ensures
        item_views(items@) == connection_group_items_spec(groups@, connections@, query@),
{
    let ghost pred = |g: Group| group_matches(query@, g);
    let ghost f = |g: Group| group_item_spec(g, groups@, connections@);
    let mut items: Vec<ShellListItem> = Vec::new();
    let mut i: usize = 0;
    while i < groups.len()
        invariant
            i <= groups@.len(),
            pred == (|g: Group| group_matches(query@, g)),
            f == (|g: Group| group_item_spec(g, groups@, connections@)),
            item_views(items@) == groups@.take(i as int).filter(pred).map_values(f),
        decreases groups.len() - i,
    {
        let g = &groups[i];
        let mut values: Vec<String> = Vec::new();
        values.push(g.name.clone());
        assert(string_views(values@) =~= seq![g.name@]);
        let keep = search_matches(query, &values);
        proof {
            assert(groups@.take(i + 1) =~= groups@.take(i as int).push(groups@[i as int]));
            groups@.take(i as int).lemma_filter_push(groups@[i as int], pred);
        }
        if keep {
            let count = count_group_members(connections, g.id);
            let mut subtitle = usize_to_string(count);
            subtitle.append(" connections / parent ");
            let parent = match g.parent_id {
                None => owned("Root"),
                Some(p) => match find_group_index(groups, p) {
                    None => owned("Root"),
                    Some(k) => groups[k].name.clone(),
                },
            };
            subtitle.append(parent.as_str());
            let item = list_item(
                prefixed_id("group-", g.id),
                g.name.clone(),
                subtitle,
                "GROUP",
                g.name.as_str(),
                ShellColor { red: 0, green: 92, blue: 145 },
            );
            proof {
                lemma_views_push(items@, item);
                groups@.take(i as int).filter(pred).lemma_push_map_commute(f, groups@[i as int]);
                assert(item@ == f(groups@[i as int]));
            }
            items.push(item);
        }
        i = i + 1;
    }
    assert(groups@.take(groups@.len() as int) =~= groups@);
    if items.len() == 0 {
        placeholder_items("Groups", "No groups found in the current workspace.")
    } else {
        items
    }
}

} // verus!

verus! {

/// One statistic card above a page.
#[derive(Debug, Clone)]
pub struct ShellStatItem {
    pub title: String,
    pub value: String,
    pub caption: String,
}

pub open spec fn stat_ok(item: ShellStatItem, title: Seq<char>, value: Seq<char>, caption: Seq<char>) -> bool {
    item.title@ == title && item.value@ == value && item.caption@ == caption
}

/// A statistic with a text value.
pub fn stat_text(title: &str, value: &str, caption: &str) -> (item: ShellStatItem)
    ensures
        stat_ok(item, title@, value@, caption@),
{
    ShellStatItem { title: owned(title), value: owned(value), caption: owned(caption) }
}

/// The name a duplicated connection is saved under: its name followed by ` Copy`, or
/// `Connection Copy` when its name is blank.
pub open spec fn duplicate_name_spec(name: Seq<char>) -> Seq<char> {
    if is_blank_spec(name) {
        "Connection Copy"@
    } else {
        name + " Copy"@
    }
}

/// The name a duplicated connection is saved under (see `duplicate_name_spec`).
pub fn duplicate_connection_name(name: &str) -> (r: String)
    ensures
        r@ == duplicate_name_spec(name@),
{
    if is_blank(name) {
        owned("Connection Copy")
    } else {
        let mut r = owned(name);
        r.append(" Copy");
        r
    }
}

/// A group card on the hosts page: the group's name and how many hosts it holds.
#[derive(Debug, Clone)]
pub struct GroupCard {
    pub title: String,
    pub caption: String,
}

/// The card shown for a top-level group.
pub open spec fn group_card_spec(g: Group, connections: Seq<Connection>) -> (Seq<char>, Seq<char>) {
    (g.name@, nat_to_decimal(group_member_count(connections, g.id)) + " Hosts"@)
}

pub open spec fn card_views(cards: Seq<GroupCard>) -> Seq<(Seq<char>, Seq<char>)> {
    cards.map_values(|c: GroupCard| (c.title@, c.caption@))
}

/// The group cards of the hosts page: one per top-level group with its host count, in order;
/// with no group at all, a single `Default` card with `0 Hosts`.
pub open spec fn group_cards_spec(groups: Seq<Group>, connections: Seq<Connection>) -> Seq<
    (Seq<char>, Seq<char>),
> {
    if groups.len() == 0 {
        seq![("Default"@, "0 Hosts"@)]
    } else {
        groups.filter(|g: Group| g.parent_id is None).map_values(
            |g: Group| group_card_spec(g, connections),
        )
    }
}

/// The group cards of the hosts page (see `group_cards_spec`).
pub fn group_host_cards(groups: &Vec<Group>, connections: &Vec<Connection>) -> (cards: Vec<GroupCard>)
    ensures
        card_views(cards@) == group_cards_spec(groups@, connections@),
{
    let mut cards: Vec<GroupCard> = Vec::new();
    if groups.len() == 0 {
        cards.push(GroupCard { title: owned("Default"), caption: owned("0 Hosts") });
        assert(card_views(cards@) =~= seq![("Default"@, "0 Hosts"@)]);
        return cards;
    }
    let ghost pred = |g: Group| g.parent_id is None;
    let ghost f = |g: Group| group_card_spec(g, connections@);
    let mut i: usize = 0;
    while i < groups.len()
        invariant
            i <= groups@.len(),
            pred == (|g: Group| g.parent_id is None),
            f == (|g: Group| group_card_spec(g, connections@)),
            card_views(cards@) == groups@.take(i as int).filter(pred).map_values(f),
        decreases groups.len() - i,
    {
        let g = &groups[i];
        proof {
            assert(groups@.take(i + 1) =~= groups@.take(i as int).push(groups@[i as int]));
            groups@.take(i as int).lemma_filter_push(groups@[i as int], pred);
        }
        if g.parent_id.is_none() {
            let count = count_group_members(connections, g.id);
            let mut caption = usize_to_string(count);
            caption.append(" Hosts");
            let card = GroupCard { title: g.name.clone(), caption };
            proof {
                groups@.take(i as int).filter(pred).lemma_push_map_commute(f, groups@[i as int]);
            }
            let ghost before = cards@;
            cards.push(card);
            assert(card_views(cards@) =~= card_views(before).push((card.title@, card.caption@)));
        }
        i = i + 1;
    }
    assert(groups@.take(groups@.len() as int) =~= groups@);
    cards
}

/// A statistic with a count.
pub fn stat_item(title: &str, value: usize, caption: &str) -> (item: ShellStatItem)
    ensures
        stat_ok(item, title@, nat_to_decimal(value as nat), caption@),
{
    let v = usize_to_string(value);
    stat_text(title, v.as_str(), caption)
}

fn count_connections_of_type(connections: &Vec<Connection>, t: ConnectionType) -> (n: usize)
    ensures
        n == connections@.filter(|c: Connection| c.connection_type == t).len(),
{
    let ghost pred = |c: Connection| c.connection_type == t;
    let mut n: usize = 0;
    let mut i: usize = 0;
    while i < connections.len()
        invariant
            i <= connections@.len(),
            pred == (|c: Connection| c.connection_type == t),
            n == connections@.take(i as int).filter(pred).len(),
            n <= i,
        decreases connections.len() - i,
    {
        proof {
            assert(connections@.take(i + 1) =~= connections@.take(i as int).push(connections@[i as int]));
            connections@.take(i as int).lemma_filter_push(connections@[i as int], pred);
        }
        if connections[i].connection_type == t {
            n = n + 1;
        }
        i = i + 1;
    }
    assert(connections@.take(connections@.len() as int) =~= connections@);
    n
}

/// The statistics of the Connections page: all, SSH and local connections.
pub fn connection_stat_items(w: &WorkspaceData) -> (items: Vec<ShellStatItem>)
    ensures
        items@.len() == 3,
        stat_ok(items@[0], "Connections"@, nat_to_decimal(w.connections@.len()), "saved targets"@),
        stat_ok(
            items@[1],
            "SSH"@,
            nat_to_decimal(
                w.connections@.filter(|c: Connection| c.connection_type == ConnectionType::Ssh).len(),
            ),
            "remote hosts"@,
        ),
        stat_ok(
            items@[2],
            "Local"@,
            nat_to_decimal(
                w.connections@.filter(|c: Connection| c.connection_type == ConnectionType::Local).len(),
            ),
            "shell profiles"@,
        ),
{
    let ssh = count_connections_of_type(&w.connections, ConnectionType::Ssh);
    let local = count_connections_of_type(&w.connections, ConnectionType::Local);
    let mut items: Vec<ShellStatItem> = Vec::new();
    items.push(stat_item("Connections", w.connections.len(), "saved targets"));
    items.push(stat_item("SSH", ssh, "remote hosts"));
    items.push(stat_item("Local", local, "shell profiles"));
    items
}

/// The statistics row above a page.
pub fn stat_items(
    w: &WorkspaceData,
    o: &SettingsOverview,
    logs: &Vec<String>,
    active: ManageMenu,
) -> (items: Vec<ShellStatItem>)
    ensures
        items@.len() == 3,
        active == ManageMenu::Keychain ==> {
            &&& stat_ok(items@[0], "Keys"@, nat_to_decimal(w.keys@.len()), "stored keys"@)
            &&& stat_ok(items@[1], "Identities"@, nat_to_decimal(w.identities@.len()), "login profiles"@)
            &&& stat_ok(
                items@[2],
                "Total"@,
                nat_to_decimal(w.keys@.len() + w.identities@.len()),
                "credentials"@,
            )
        },
        active == ManageMenu::PortForwarding ==> {
            let enabled = w.port_forwards@.filter(|f: PortForward| f.enabled).len();
            &&& stat_ok(items@[0], "Rules"@, nat_to_decimal(w.port_forwards@.len()), "configured"@)
            &&& stat_ok(items@[1], "Enabled"@, nat_to_decimal(enabled), "active rules"@)
            &&& stat_ok(
                items@[2],
                "Disabled"@,
                nat_to_decimal((w.port_forwards@.len() - enabled) as nat),
                "paused rules"@,
            )
        },
        active == ManageMenu::KnownHosts ==> {
            &&& stat_ok(items@[0], "Known Hosts"@, nat_to_decimal(w.known_hosts@.len()), "trusted entries"@)
            &&& stat_ok(items@[1], "Groups"@, nat_to_decimal(w.groups@.len()), "connection groups"@)
            &&& stat_ok(items@[2], "Connections"@, nat_to_decimal(w.connections@.len()), "saved targets"@)
        },
        active == ManageMenu::Settings ==> {
            &&& stat_ok(items@[0], "Theme"@, o.default_theme_id@, "default terminal theme"@)
            &&& stat_ok(items@[1], "Font"@, o.font_size_text@ + "px"@, o.font_family@)
            &&& stat_ok(items@[2], "Scrollback"@, nat_to_decimal(o.scrollback_lines as nat), "terminal lines"@)
        },
        active == ManageMenu::Logs ==> {
            &&& stat_ok(items@[0], "Events"@, nat_to_decimal(logs@.len()), "in-memory shell logs"@)
            &&& stat_ok(
                items@[1],
                "Latest"@,
                if logs@.len() > 0 {
                    logs@.last()@
                } else {
                    "No events"@
                },
                "most recent event"@,
            )
            &&& stat_ok(items@[2], "Limit"@, nat_to_decimal(SHELL_LOG_LIMIT as nat), "max entries"@)
        },
        active == ManageMenu::Snippets ==> {
            let ready = w.snippets@.filter(|s: Snippet| !is_blank_spec(s.command@)).len();
            &&& stat_ok(items@[0], "Snippets"@, nat_to_decimal(w.snippets@.len()), "saved commands"@)
            &&& stat_ok(items@[1], "Ready"@, nat_to_decimal(ready), "with command"@)
            &&& stat_ok(
                items@[2],
                "Drafts"@,
                nat_to_decimal((w.snippets@.len() - ready) as nat),
                "missing command"@,
            )
        },
{
    let mut items: Vec<ShellStatItem> = Vec::new();
    match active {
        ManageMenu::Connections => {
            return connection_stat_items(w);
        },
        ManageMenu::Keychain => {
            items.push(stat_item("Keys", w.keys.len(), "stored keys"));
            items.push(stat_item("Identities", w.identities.len(), "login profiles"));
            let s = total_to_string(w.keys.len(), w.identities.len());
            items.push(stat_text("Total", s.as_str(), "credentials"));
        },
        ManageMenu::PortForwarding => {
            let ghost pred = |f: PortForward| f.enabled;
            let mut enabled: usize = 0;
            let mut i: usize = 0;
            while i < w.port_forwards.len()
                invariant
                    i <= w.port_forwards@.len(),
                    pred == (|f: PortForward| f.enabled),
                    enabled == w.port_forwards@.take(i as int).filter(pred).len(),
                    enabled <= i,
                decreases w.port_forwards.len() - i,
            {
                proof {
                    assert(w.port_forwards@.take(i + 1) =~= w.port_forwards@.take(i as int).push(
                        w.port_forwards@[i as int],
                    ));
                    w.port_forwards@.take(i as int).lemma_filter_push(w.port_forwards@[i as int], pred);
                }
                if w.port_forwards[i].enabled {
                    enabled = enabled + 1;
                }
                i = i + 1;
            }
            assert(w.port_forwards@.take(w.port_forwards@.len() as int) =~= w.port_forwards@);
            items.push(stat_item("Rules", w.port_forwards.len(), "configured"));
            items.push(stat_item("Enabled", enabled, "active rules"));
            items.push(stat_item("Disabled", w.port_forwards.len() - enabled, "paused rules"));
        },
        ManageMenu::KnownHosts => {
            items.push(stat_item("Known Hosts", w.known_hosts.len(), "trusted entries"));
            items.push(stat_item("Groups", w.groups.len(), "connection groups"));
            items.push(stat_item("Connections", w.connections.len(), "saved targets"));
        },
        ManageMenu::Settings => {
            items.push(stat_text("Theme", o.default_theme_id.as_str(), "default terminal theme"));
            let mut size = o.font_size_text.clone();
            size.append("px");
            items.push(stat_text("Font", size.as_str(), o.font_family.as_str()));
            items.push(stat_item("Scrollback", o.scrollback_lines, "terminal lines"));
        },
        ManageMenu::Logs => {
            items.push(stat_item("Events", logs.len(), "in-memory shell logs"));
            if logs.len() > 0 {
                items.push(stat_text("Latest", logs[logs.len() - 1].as_str(), "most recent event"));
            } else {
                items.push(stat_text("Latest", "No events", "most recent event"));
            }
            items.push(stat_item("Limit", SHELL_LOG_LIMIT, "max entries"));
        },
        ManageMenu::Snippets => {
            let ghost pred = |s: Snippet| !is_blank_spec(s.command@);
            let mut ready: usize = 0;
            let mut i: usize = 0;
            while i < w.snippets.len()
                invariant
                    i <= w.snippets@.len(),
                    pred == (|s: Snippet| !is_blank_spec(s.command@)),
                    ready == w.snippets@.take(i as int).filter(pred).len(),
                    ready <= i,
                decreases w.snippets.len() - i,
            {
                proof {
                    assert(w.snippets@.take(i + 1) =~= w.snippets@.take(i as int).push(
                        w.snippets@[i as int],
                    ));
                    w.snippets@.take(i as int).lemma_filter_push(w.snippets@[i as int], pred);
                }
                if !is_blank(w.snippets[i].command.as_str()) {
                    ready = ready + 1;
                }
                i = i + 1;
            }
            assert(w.snippets@.take(w.snippets@.len() as int) =~= w.snippets@);
            items.push(stat_item("Snippets", w.snippets.len(), "saved commands"));
            items.push(stat_item("Ready", ready, "with command"));
            items.push(stat_item("Drafts", w.snippets.len() - ready, "missing command"));
        },
    }
    items
}

/// `a + b` in decimal, without overflow.
fn total_to_string(a: usize, b: usize) -> (s: String)
    ensures
        s@ == nat_to_decimal(a as nat + b as nat),
{
    let total: u128 = a as u128 + b as u128;
    let mut s = String::new();
    push_decimal_u128(&mut s, total);
    s
}

fn push_decimal_u128(s: &mut String, n: u128)
    ensures
        final(s)@ == old(s)@ + nat_to_decimal(n as nat),
    decreases n,
{
    if n >= 10 {
        push_decimal_u128(s, n / 10);
    }
    let d = (n % 10) as u32;
    crate::text::push_char(s, char_for_digit(d));
    proof {
        if n < 10 {
            assert(n % 10 == n);
        }
    }
    assert(final(s)@ =~= old(s)@ + nat_to_decimal(n as nat));
}

fn char_for_digit(d: u32) -> (c: char)
    requires
        d < 10,
    ensures
        c == crate::text::digit_char(d as nat),
{
    let b = (d + 48) as u8;
    b as char
}

} // verus!

verus! {

/// The rows of a list page before searching.
pub open spec fn page_rows_spec(
    w: WorkspaceData,
    o: SettingsOverview,
    logs: Seq<String>,
    active: ManageMenu,
) -> Seq<ListItemView> {
    match active {
        ManageMenu::Connections => Seq::empty(),
        ManageMenu::Keychain => keychain_items_spec(w.keys@, w.identities@),
        ManageMenu::PortForwarding => w.port_forwards@.map_values(
            |f: PortForward| port_forward_item_spec(f),
        ),
        ManageMenu::KnownHosts => w.known_hosts@.map_values(
            |e: KnownHostEntry| known_host_item_spec(e),
        ),
        ManageMenu::Snippets => w.snippets@.map_values(|s: Snippet| snippet_item_spec(s)),
        ManageMenu::Logs => log_items_spec(logs),
        ManageMenu::Settings => settings_items_spec(o),
    }
}

/// The rows of a list page: the page's records that match the search box; a placeholder row
/// when none does (except on the Connections page, which lists its cards elsewhere).
pub open spec fn list_items_spec(
    w: WorkspaceData,
    o: SettingsOverview,
    logs: Seq<String>,
    active: ManageMenu,
    query: Seq<char>,
) -> Seq<ListItemView> {
    let rows = page_rows_spec(w, o, logs, active).filter(|v: ListItemView| list_item_matches(query, v));
    if rows.len() == 0 && active != ManageMenu::Connections {
        seq![placeholder_view(active.spec_title(), "No records found in the current workspace."@)]
    } else {
        rows
    }
}

/// The rows of the active list page.
pub fn list_items(
    w: &WorkspaceData,
    o: &SettingsOverview,
    logs: &Vec<String>,
    active: ManageMenu,
    query: &str,
) -> (items: Vec<ShellListItem>)
    ensures
        item_views(items@) == list_items_spec(*w, *o, logs@, active, query@),
{
    let rows = match active {
        ManageMenu::Connections => Vec::new(),
        ManageMenu::Keychain => keychain_items(&w.keys, &w.identities),
        ManageMenu::PortForwarding => port_forward_items(&w.port_forwards),
        ManageMenu::KnownHosts => known_host_items(&w.known_hosts),
        ManageMenu::Snippets => snippet_items(&w.snippets),
        ManageMenu::Logs => log_items(logs),
        ManageMenu::Settings => settings_items(o),
    };
    proof {
        if active == ManageMenu::Connections {
            assert(item_views(rows@) =~= Seq::<ListItemView>::empty());
            reveal(Seq::filter);
        }
    }
    let items = filter_list_items(rows, query);
    if items.len() == 0 && active != ManageMenu::Connections {
        return placeholder_items(active.title(), "No records found in the current workspace.");
    }
    items
}

/// The first lines of the shell log: a start notice and a summary of what was loaded.
pub open spec fn initial_shell_logs_spec(w: WorkspaceData, o: SettingsOverview) -> Seq<Seq<char>> {
    seq![
        "Timon Slint shell started"@,
        "Loaded "@ + nat_to_decimal(w.connections@.len()) + " connections, "@ + nat_to_decimal(
            w.keys@.len(),
        ) + " keys, "@ + nat_to_decimal(w.identities@.len()) + " identities"@,
        "Loaded "@ + nat_to_decimal(w.port_forwards@.len()) + " port forwards and "@
            + nat_to_decimal(w.known_hosts@.len()) + " known hosts"@,
        "Settings loaded: theme "@ + o.default_theme_id@ + ", font "@ + o.font_family@ + " "@
            + o.font_size_text@ + "px"@,
    ]
}

/// The first lines of the shell log.
pub fn initial_shell_logs(w: &WorkspaceData, o: &SettingsOverview) -> (logs: Vec<String>)
    ensures
        string_views(logs@) == initial_shell_logs_spec(*w, *o),
{
    let mut logs: Vec<String> = Vec::new();
    logs.push(owned("Timon Slint shell started"));
    let mut second = owned("Loaded ");
    second.append(usize_to_string(w.connections.len()).as_str());
    second.append(" connections, ");
    second.append(usize_to_string(w.keys.len()).as_str());
    second.append(" keys, ");
    second.append(usize_to_string(w.identities.len()).as_str());
    second.append(" identities");
    logs.push(second);
    let mut third = owned("Loaded ");
    third.append(usize_to_string(w.port_forwards.len()).as_str());
    third.append(" port forwards and ");
    third.append(usize_to_string(w.known_hosts.len()).as_str());
    third.append(" known hosts");
    logs.push(third);
    let mut fourth = owned("Settings loaded: theme ");
    fourth.append(o.default_theme_id.as_str());
    fourth.append(", font ");
    fourth.append(o.font_family.as_str());
    fourth.append(" ");
    fourth.append(o.font_size_text.as_str());
    fourth.append("px");
    logs.push(fourth);
    assert(string_views(logs@) =~= initial_shell_logs_spec(*w, *o));
    logs
}

} // verus!
