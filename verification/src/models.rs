use vstd::prelude::*;

use crate::text::{all_ascii, ascii_lowercase, str_eq};

verus! {

/// The kind of endpoint a saved connection opens.
#[derive(Debug, Clone, Copy, PartialEq, Eq, Structural)]
pub enum ConnectionType {
    Ssh,
    Local,
    Serial,
}

impl ConnectionType {
    pub open spec fn spec_name(self) -> Seq<char> {
        match self {
            ConnectionType::Ssh => "ssh"@,
            ConnectionType::Local => "local"@,
            ConnectionType::Serial => "serial"@,
        }
    }

    /// The name stored in the database for this type.
    pub fn as_str(self) -> (s: &'static str)
        ensures
            s@ == self.spec_name(),
    {
        match self {
            ConnectionType::Ssh => "ssh",
            ConnectionType::Local => "local",
            ConnectionType::Serial => "serial",
        }
    }

    /// The type a stored name denotes; any unknown name is SSH.
    pub fn from_name(value: &str) -> (t: Self)
        ensures
            t == (if value@ == "local"@ {
                ConnectionType::Local
            } else if value@ == "serial"@ {
                ConnectionType::Serial
            } else {
                ConnectionType::Ssh
            }),
    {
        if str_eq(value, "local") {
            ConnectionType::Local
        } else if str_eq(value, "serial") {
            ConnectionType::Serial
        } else {
            ConnectionType::Ssh
        }
    }
}

impl Default for ConnectionType {
    fn default() -> (t: Self)
        ensures
            t == ConnectionType::Ssh,
    {
        ConnectionType::Ssh
    }
}

/// A saved connection profile.
#[derive(Debug, Clone)]
pub struct Connection {
    pub id: i64,
    pub name: String,
    pub group_id: Option<i64>,
    pub key_id: Option<i64>,
    pub effective_key_id: Option<i64>,
    pub identity_id: Option<i64>,
    pub host: String,
    pub port: i64,
    pub username: String,
    pub display_username: String,
    pub password: String,
    pub theme_id: String,
    pub shell_path: String,
    pub work_dir: String,
    pub startup_command: String,
    pub serial_port: String,
    pub baud_rate: i64,
    pub connection_type: ConnectionType,
}

impl Connection {
    /// The field values of a new, unsaved connection.
    pub open spec fn is_default(self) -> bool {
        &&& self.id == 0
        &&& self.name@ == "New Connection"@
        &&& self.group_id is None
        &&& self.key_id is None
        &&& self.effective_key_id is None
        &&& self.identity_id is None
        &&& self.host@.len() == 0
        &&& self.port == 22
        &&& self.username@.len() == 0
        &&& self.display_username@.len() == 0
        &&& self.password@.len() == 0
        &&& self.theme_id@ == "default"@
        &&& self.shell_path@.len() == 0
        &&& self.work_dir@.len() == 0
        &&& self.startup_command@.len() == 0
        &&& self.serial_port@.len() == 0
        &&& self.baud_rate == 115200
        &&& self.connection_type == ConnectionType::Ssh
    }

    /// A field-by-field copy.
    pub fn duplicate(&self) -> (r: Self)
        ensures
            r == *self,
    {
        Connection {
            id: self.id,
            name: self.name.clone(),
            group_id: self.group_id,
            key_id: self.key_id,
            effective_key_id: self.effective_key_id,
            identity_id: self.identity_id,
            host: self.host.clone(),
            port: self.port,
            username: self.username.clone(),
            display_username: self.display_username.clone(),
            password: self.password.clone(),
            theme_id: self.theme_id.clone(),
            shell_path: self.shell_path.clone(),
            work_dir: self.work_dir.clone(),
            startup_command: self.startup_command.clone(),
            serial_port: self.serial_port.clone(),
            baud_rate: self.baud_rate,
            connection_type: self.connection_type,
        }
    }
}

impl Default for Connection {
    fn default() -> (c: Self)
        ensures
            c.is_default(),
    {
        Connection {
            id: 0,
            name: "New Connection".to_owned(),
            group_id: None,
            key_id: None,
            effective_key_id: None,
            identity_id: None,
            host: String::new(),
            port: 22,
            username: String::new(),
            display_username: String::new(),
            password: String::new(),
            theme_id: "default".to_owned(),
            shell_path: String::new(),
            work_dir: String::new(),
            startup_command: String::new(),
            serial_port: String::new(),
            baud_rate: 115200,
            connection_type: ConnectionType::Ssh,
        }
    }
}

/// A stored SSH key.
#[derive(Debug, Clone)]
pub struct Key {
    pub id: i64,
    pub name: String,
    pub private_key: String,
    pub public_key: String,
    pub certificate: String,
}

impl Key {
    /// A field-by-field copy.
    pub fn duplicate(&self) -> (r: Self)
        ensures
            r == *self,
    {
        Key {
            id: self.id,
            name: self.name.clone(),
            private_key: self.private_key.clone(),
            public_key: self.public_key.clone(),
            certificate: self.certificate.clone(),
        }
    }
}

impl Default for Key {
    fn default() -> (k: Self)
        ensures
            k.id == 0,
            k.name@ == "New Key"@,
            k.private_key@.len() == 0,
            k.public_key@.len() == 0,
            k.certificate@.len() == 0,
    {
        Key {
            id: 0,
            name: "New Key".to_owned(),
            private_key: String::new(),
            public_key: String::new(),
            certificate: String::new(),
        }
    }
}

/// A stored login identity: a user name, a password and an optional key.
#[derive(Debug, Clone)]
pub struct Identity {
    pub id: i64,
    pub name: String,
    pub username: String,
    pub password: String,
    pub key_id: Option<i64>,
}

impl Identity {
    /// A field-by-field copy.
    pub fn duplicate(&self) -> (r: Self)
        ensures
            r == *self,
    {
        Identity {
            id: self.id,
            name: self.name.clone(),
            username: self.username.clone(),
            password: self.password.clone(),
            key_id: self.key_id,
        }
    }
}

impl Default for Identity {
    fn default() -> (i: Self)
        ensures
            i.id == 0,
            i.name@ == "New Identity"@,
            i.username@.len() == 0,
            i.password@.len() == 0,
            i.key_id is None,
    {
        Identity {
            id: 0,
            name: "New Identity".to_owned(),
            username: String::new(),
            password: String::new(),
            key_id: None,
        }
    }
}

/// A connection group, possibly nested under a parent group.
#[derive(Debug, Clone)]
pub struct Group {
    pub id: i64,
    pub name: String,
    pub parent_id: Option<i64>,
}

impl Default for Group {
    fn default() -> (g: Self)
        ensures
            g.id == 0,
            g.name@ == "New Group"@,
            g.parent_id is None,
    {
        Group { id: 0, name: "New Group".to_owned(), parent_id: None }
    }
}

/// The direction of a port forwarding rule.
#[derive(Debug, Clone, Copy, PartialEq, Eq, Structural)]
pub enum PortForwardType {
    Local,
    Remote,
    Dynamic,
}

impl PortForwardType {
    pub open spec fn spec_name(self) -> Seq<char> {
        match self {
            PortForwardType::Local => "local"@,
            PortForwardType::Remote => "remote"@,
            PortForwardType::Dynamic => "dynamic"@,
        }
    }

    pub open spec fn spec_label(self) -> Seq<char> {
        match self {
            PortForwardType::Local => "Local"@,
            PortForwardType::Remote => "Remote"@,
            PortForwardType::Dynamic => "Dynamic"@,
        }
    }

    /// The name stored in the database for this type.
    pub fn as_str(self) -> (s: &'static str)
        ensures
            s@ == self.spec_name(),
    {
        match self {
            PortForwardType::Local => "local",
            PortForwardType::Remote => "remote",
            PortForwardType::Dynamic => "dynamic",
        }
    }

    /// The name shown to the user for this type.
    pub fn label(self) -> (s: &'static str)
        ensures
            s@ == self.spec_label(),
    {
        match self {
            PortForwardType::Local => "Local",
            PortForwardType::Remote => "Remote",
            PortForwardType::Dynamic => "Dynamic",
        }
    }

    /// The type a stored name denotes; any unknown name is a local forward.
    pub open spec fn spec_from_name(value: Seq<char>) -> Self {
        if value == "remote"@ {
            PortForwardType::Remote
        } else if value == "dynamic"@ {
            PortForwardType::Dynamic
        } else {
            PortForwardType::Local
        }
    }

    /// The type a stored name denotes (see `spec_from_name`).
    pub fn from_name(value: &str) -> (t: Self)
        ensures
            t == Self::spec_from_name(value@),
    {
        if str_eq(value, "remote") {
            PortForwardType::Remote
        } else if str_eq(value, "dynamic") {
            PortForwardType::Dynamic
        } else {
            PortForwardType::Local
        }
    }
}

/// The stored name of a port-forward type is its label in lower case (all of it ASCII); it
/// reads back as the same type; and different types have different names.
pub proof fn lemma_port_forward_type_names(t: PortForwardType, u: PortForwardType)
    ensures
        all_ascii(t.spec_label()),
        t.spec_name() == ascii_lowercase(t.spec_label()),
        PortForwardType::spec_from_name(t.spec_name()) == t,
        t != u ==> t.spec_name() != u.spec_name(),
{
    reveal_strlit("local");
    reveal_strlit("remote");
    reveal_strlit("dynamic");
    reveal_strlit("Local");
    reveal_strlit("Remote");
    reveal_strlit("Dynamic");
    assert(ascii_lowercase("Local"@) =~= "local"@);
    assert(ascii_lowercase("Remote"@) =~= "remote"@);
    assert(ascii_lowercase("Dynamic"@) =~= "dynamic"@);
    assert("local"@ != "remote"@);
    assert("local"@ != "dynamic"@);
    assert("remote"@[0] != "dynamic"@[0]);
}

impl Default for PortForwardType {
    fn default() -> (t: Self)
        ensures
            t == PortForwardType::Local,
    {
        PortForwardType::Local
    }
}

/// A port forwarding rule.
#[derive(Debug, Clone)]
pub struct PortForward {
    pub id: i64,
    pub label: String,
    pub forward_type: PortForwardType,
    pub enabled: bool,
    pub bind_address: String,
    pub bind_port: i64,
    pub connection_id: Option<i64>,
    pub connection_name: String,
    pub destination_host: String,
    pub destination_port: i64,
}

impl PortForward {
    /// A field-by-field copy.
    pub fn duplicate(&self) -> (r: Self)
        ensures
            r == *self,
    {
        PortForward {
            id: self.id,
            label: self.label.clone(),
            forward_type: self.forward_type,
            enabled: self.enabled,
            bind_address: self.bind_address.clone(),
            bind_port: self.bind_port,
            connection_id: self.connection_id,
            connection_name: self.connection_name.clone(),
            destination_host: self.destination_host.clone(),
            destination_port: self.destination_port,
        }
    }
}

impl Default for PortForward {
    fn default() -> (f: Self)
        ensures
            f.id == 0,
            f.label@ == "New Forward"@,
            f.forward_type == PortForwardType::Local,
            !f.enabled,
            f.bind_address@ == "127.0.0.1"@,
            f.bind_port == 0,
            f.connection_id is None,
            f.connection_name@.len() == 0,
            f.destination_host@.len() == 0,
            f.destination_port == 0,
    {
        PortForward {
            id: 0,
            label: "New Forward".to_owned(),
            forward_type: PortForwardType::Local,
            enabled: false,
            bind_address: "127.0.0.1".to_owned(),
            bind_port: 0,
            connection_id: None,
            connection_name: String::new(),
            destination_host: String::new(),
            destination_port: 0,
        }
    }
}

/// One entry of a remote directory listing.
#[derive(Debug, Clone)]
pub struct SftpEntry {
    pub path: String,
    pub name: String,
    pub is_dir: bool,
    pub size: u64,
}

impl SftpEntry {
    /// A field-by-field copy.
    pub fn duplicate(&self) -> (r: Self)
        ensures
            r == *self,
    {
        SftpEntry { path: self.path.clone(), name: self.name.clone(), is_dir: self.is_dir, size: self.size }
    }
}

/// A saved command snippet.
#[derive(Debug, Clone)]
pub struct Snippet {
    pub id: i64,
    pub name: String,
    pub description: String,
    pub command: String,
}

impl Default for Snippet {
    fn default() -> (s: Self)
        ensures
            s.id == 0,
            s.name@.len() == 0,
            s.description@.len() == 0,
            s.command@.len() == 0,
    {
        Snippet { id: 0, name: String::new(), description: String::new(), command: String::new() }
    }
}

/// The pages of the management window, in sidebar order.
#[derive(Debug, Clone, Copy, PartialEq, Eq, Structural)]
pub enum ManageMenu {
    Connections,
    Keychain,
    PortForwarding,
    Snippets,
    KnownHosts,
    Logs,
    Settings,
}

/// The number of management pages.
pub const MANAGE_MENU_COUNT: usize = 7;

impl ManageMenu {
    pub open spec fn spec_index(self) -> nat {
        match self {
            ManageMenu::Connections => 0,
            ManageMenu::Keychain => 1,
            ManageMenu::PortForwarding => 2,
            ManageMenu::Snippets => 3,
            ManageMenu::KnownHosts => 4,
            ManageMenu::Logs => 5,
            ManageMenu::Settings => 6,
        }
    }

    pub open spec fn spec_title(self) -> Seq<char> {
        match self {
            ManageMenu::Connections => "Connections"@,
            ManageMenu::Keychain => "Keychain"@,
            ManageMenu::PortForwarding => "Port Forwarding"@,
            ManageMenu::Snippets => "Snippets"@,
            ManageMenu::KnownHosts => "Known Hosts"@,
            ManageMenu::Logs => "Logs"@,
            ManageMenu::Settings => "Settings"@,
        }
    }

    /// The page at a sidebar position, for positions `0..7`.
    pub open spec fn spec_at(i: nat) -> ManageMenu {
        if i == 0 {
            ManageMenu::Connections
        } else if i == 1 {
            ManageMenu::Keychain
        } else if i == 2 {
            ManageMenu::PortForwarding
        } else if i == 3 {
            ManageMenu::Snippets
        } else if i == 4 {
            ManageMenu::KnownHosts
        } else if i == 5 {
            ManageMenu::Logs
        } else {
            ManageMenu::Settings
        }
    }

    /// The page title.
    pub fn title(self) -> (s: &'static str)
        ensures
            s@ == self.spec_title(),
    {
        match self {
            ManageMenu::Connections => "Connections",
            ManageMenu::Keychain => "Keychain",
            ManageMenu::PortForwarding => "Port Forwarding",
            ManageMenu::Snippets => "Snippets",
            ManageMenu::KnownHosts => "Known Hosts",
            ManageMenu::Logs => "Logs",
            ManageMenu::Settings => "Settings",
        }
    }

    /// The position of the page in the sidebar.
    pub fn index(self) -> (i: usize)
        ensures
            i == self.spec_index(),
            i < MANAGE_MENU_COUNT,
    {
        match self {
            ManageMenu::Connections => 0,
            ManageMenu::Keychain => 1,
            ManageMenu::PortForwarding => 2,
            ManageMenu::Snippets => 3,
            ManageMenu::KnownHosts => 4,
            ManageMenu::Logs => 5,
            ManageMenu::Settings => 6,
        }
    }

    /// The page at a sidebar position.
    pub fn at(i: usize) -> (m: ManageMenu)
        requires
            i < MANAGE_MENU_COUNT,
        ensures
            m == Self::spec_at(i as nat),
            m.spec_index() == i,
    {
        if i == 0 {
            ManageMenu::Connections
        } else if i == 1 {
            ManageMenu::Keychain
        } else if i == 2 {
            ManageMenu::PortForwarding
        } else if i == 3 {
            ManageMenu::Snippets
        } else if i == 4 {
            ManageMenu::KnownHosts
        } else if i == 5 {
            ManageMenu::Logs
        } else {
            ManageMenu::Settings
        }
    }
}

/// Position and page agree both ways: every page sits at its own index.
pub proof fn lemma_menu_index_roundtrip(m: ManageMenu)
    ensures
        ManageMenu::spec_at(m.spec_index()) == m,
        m.spec_index() < MANAGE_MENU_COUNT,
{
}

/// One meaningful line of the known_hosts file.
#[derive(Debug, Clone)]
pub struct KnownHostEntry {
    pub line_number: usize,
    pub line: String,
}

} // verus!
