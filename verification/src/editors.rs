use vstd::prelude::*;

use crate::models::{Connection, ConnectionType, Group, Identity, Key, PortForward, PortForwardType};
use crate::text::{
    i64_to_string, int_to_decimal, is_blank, is_blank_spec, is_ws, lemma_decimal_digits,
    lemma_parse_i64_of_decimal, nat_to_decimal, owned, parse_i64, parse_i64_spec, trim, trim_end_spec,
    trim_or, trim_or_spec, trim_spec, trim_start_spec,
};

verus! {

// ---------------------------------------------------------------------------
// Numbers typed into a form
// ---------------------------------------------------------------------------

/// An optional identifier typed into a form: nothing when blank, else the trimmed text read
/// as an `i64` (nothing when it does not read, as for `None`).
pub open spec fn parse_optional_i64_spec(value: Seq<char>) -> Option<int> {
    if trim_spec(value).len() == 0 {
        None
    } else {
        parse_i64_spec(trim_spec(value))
    }
}

/// Whether an optional `i64` holds the value a spec gives.
pub open spec fn same_id(o: Option<i64>, s: Option<int>) -> bool {
    match s {
        Some(v) => o == Some(v as i64),
        None => o is None,
    }
}

/// Reads an optional identifier typed into a form (see `parse_optional_i64_spec`).
pub fn parse_optional_i64(value: &str) -> (r: Option<i64>)
    ensures
        same_id(r, parse_optional_i64_spec(value@)),
{
    let trimmed = trim(value);
    if trimmed.as_str().is_empty() {
        None
    } else {
        parse_i64(trimmed.as_str())
    }
}

/// How a form shows an optional identifier: its number, or `fallback` when there is none.
pub open spec fn id_text(id: Option<i64>, fallback: Seq<char>) -> Seq<char> {
    match id {
        Some(v) => int_to_decimal(v as int),
        None => fallback,
    }
}

fn optional_id_text(id: Option<i64>, fallback: &str) -> (s: String)
    ensures
        s@ == id_text(id, fallback@),
{
    match id {
        Some(v) => i64_to_string(v),
        None => owned(fallback),
    }
}

/// A form field that holds a number: the trimmed text read as an `i64`, or `message`.
fn parse_number(value: &str, message: &str) -> (r: Result<i64, String>)
    ensures
        match parse_i64_spec(trim_spec(value@)) {
            Some(v) => r == Ok::<i64, String>(v as i64),
            None => r matches Err(m) && m@ == message@,
        },
{
    let t = trim(value);
    match parse_i64(t.as_str()) {
        Some(v) => Ok(v),
        None => Err(owned(message)),
    }
}

// ---------------------------------------------------------------------------
// Connection form
// ---------------------------------------------------------------------------

/// The connection form: every field as typed.
#[derive(Debug, Clone)]
pub struct ConnectionEditor {
    pub id: Option<i64>,
    pub name: String,
    pub group_id: String,
    pub key_id: String,
    pub identity_id: String,
    pub host: String,
    pub port: String,
    pub username: String,
    pub password: String,
    pub theme_id: String,
    pub shell_path: String,
    pub work_dir: String,
    pub startup_command: String,
    pub serial_port: String,
    pub baud_rate: String,
    pub connection_type: ConnectionType,
}

/// Whether `e` is the form filled in from connection `c`: identifiers written in decimal
/// (an empty group, and `None` for a missing key or identity).
pub open spec fn connection_form_of(e: ConnectionEditor, c: Connection) -> bool {
    &&& e.id == Some(c.id)
    &&& e.name@ == c.name@
    &&& e.group_id@ == id_text(c.group_id, Seq::empty())
    &&& e.key_id@ == id_text(c.key_id, "None"@)
    &&& e.identity_id@ == id_text(c.identity_id, "None"@)
    &&& e.host@ == c.host@
    &&& e.port@ == int_to_decimal(c.port as int)
    &&& e.username@ == c.username@
    &&& e.password@ == c.password@
    &&& e.theme_id@ == c.theme_id@
    &&& e.shell_path@ == c.shell_path@
    &&& e.work_dir@ == c.work_dir@
    &&& e.startup_command@ == c.startup_command@
    &&& e.serial_port@ == c.serial_port@
    &&& e.baud_rate@ == int_to_decimal(c.baud_rate as int)
    &&& e.connection_type == c.connection_type
}

/// Why the connection form cannot be saved, checked in this order: an SSH port that is not
/// a number, a serial baud rate that is not a number, a blank name, a blank serial device.
pub open spec fn connection_form_error(e: ConnectionEditor) -> Option<Seq<char>> {
    let t = e.connection_type;
    if t == ConnectionType::Ssh && parse_i64_spec(trim_spec(e.port@)) is None {
        Some("端口必须是数字"@)
    } else if t == ConnectionType::Serial && parse_i64_spec(trim_spec(e.baud_rate@)) is None {
        Some("波特率必须是数字"@)
    } else if is_blank_spec(e.name@) {
        Some("Connection 名称不能为空"@)
    } else if t == ConnectionType::Serial && trim_spec(e.serial_port@).len() == 0 {
        Some("Serial 设备路径不能为空"@)
    } else {
        None
    }
}

/// Whether `c` is the connection a valid form `e` saves: fields trimmed, and only the
/// fields of the form's connection type kept (SSH: host, port, user, password, key and
/// identity; local: shell and working directory; serial: device and baud rate).
pub open spec fn connection_from_form(c: Connection, e: ConnectionEditor) -> bool {
    let t = e.connection_type;
    let ssh = t == ConnectionType::Ssh;
    &&& c.id == (match e.id {
        Some(v) => v,
        None => 0,
    })
    &&& c.name@ == trim_spec(e.name@)
    &&& same_id(c.group_id, parse_optional_i64_spec(e.group_id@))
    &&& (if ssh {
        same_id(c.key_id, parse_optional_i64_spec(e.key_id@)) && same_id(
            c.effective_key_id,
            parse_optional_i64_spec(e.key_id@),
        ) && same_id(c.identity_id, parse_optional_i64_spec(e.identity_id@))
    } else {
        c.key_id is None && c.effective_key_id is None && c.identity_id is None
    })
    &&& c.host@ == (if ssh {
        trim_spec(e.host@)
    } else {
        Seq::empty()
    })
    &&& c.port == (if ssh {
        parse_i64_spec(trim_spec(e.port@))->0
    } else {
        0
    })
    &&& c.username@ == (if ssh {
        e.username@
    } else {
        Seq::empty()
    })
    &&& c.display_username@ == c.username@
    &&& c.password@ == (if ssh {
        e.password@
    } else {
        Seq::empty()
    })
    &&& c.theme_id@ == trim_or_spec(e.theme_id@, "default"@)
    &&& c.shell_path@ == (if t == ConnectionType::Local {
        trim_spec(e.shell_path@)
    } else {
        Seq::empty()
    })
    &&& c.work_dir@ == (if t == ConnectionType::Local {
        trim_spec(e.work_dir@)
    } else {
        Seq::empty()
    })
    &&& c.startup_command@ == e.startup_command@
    &&& c.serial_port@ == (if t == ConnectionType::Serial {
        trim_spec(e.serial_port@)
    } else {
        Seq::empty()
    })
    &&& c.baud_rate == (if t == ConnectionType::Serial {
        parse_i64_spec(trim_spec(e.baud_rate@))->0
    } else {
        115200
    })
    &&& c.connection_type == t
}

impl ConnectionEditor {
    /// The form filled in from a connection.
    pub fn from_connection(connection: &Connection) -> (e: Self)
        ensures
            connection_form_of(e, *connection),
    {
        let group_id = optional_id_text(connection.group_id, "");
        proof {
            reveal_strlit("");
        }
        assert(group_id@ == id_text(connection.group_id, Seq::empty()));
        let e = ConnectionEditor {
            id: Some(connection.id),
            name: connection.name.clone(),
            group_id,
            key_id: optional_id_text(connection.key_id, "None"),
            identity_id: optional_id_text(connection.identity_id, "None"),
            host: connection.host.clone(),
            port: i64_to_string(connection.port),
            username: connection.username.clone(),
            password: connection.password.clone(),
            theme_id: connection.theme_id.clone(),
            shell_path: connection.shell_path.clone(),
            work_dir: connection.work_dir.clone(),
            startup_command: connection.startup_command.clone(),
            serial_port: connection.serial_port.clone(),
            baud_rate: i64_to_string(connection.baud_rate),
            connection_type: connection.connection_type,
        };
        assert(e.name@ == connection.name@);
        assert(e.key_id@ == id_text(connection.key_id, "None"@));
        assert(e.port@ == int_to_decimal(connection.port as int));
        e
    }

    /// The form for a new connection.
    pub fn new() -> (e: Self)
        ensures
            exists|c: Connection| c.is_default() && connection_form_of(e, c),
    {
        let c = Connection::default();
        let e = Self::from_connection(&c);
        assert(c.is_default() && connection_form_of(e, c));
        e
    }

    /// The connection the form saves, or why it cannot (see `connection_form_error` and
    /// `connection_from_form`).
    pub fn to_connection(&self) -> (r: Result<Connection, String>)
        ensures
            match connection_form_error(*self) {
                Some(m) => r matches Err(s) && s@ == m,
                None => r matches Ok(c) && connection_from_form(c, *self),
            },
    {
        let t = self.connection_type;
        let ssh = t == ConnectionType::Ssh;
        let host = if ssh {
            trim(self.host.as_str())
        } else {
            String::new()
        };
        let port = if ssh {
            match parse_number(self.port.as_str(), "端口必须是数字") {
                Ok(v) => v,
                Err(m) => {
                    return Err(m);
                },
            }
        } else {
            0
        };
        let serial_port = if t == ConnectionType::Serial {
            trim(self.serial_port.as_str())
        } else {
            String::new()
        };
        let baud_rate = if t == ConnectionType::Serial {
            match parse_number(self.baud_rate.as_str(), "波特率必须是数字") {
                Ok(v) => v,
                Err(m) => {
                    return Err(m);
                },
            }
        } else {
            115200
        };
        if is_blank(self.name.as_str()) {
            return Err(owned("Connection 名称不能为空"));
        }
        if t == ConnectionType::Serial && serial_port.as_str().is_empty() {
            return Err(owned("Serial 设备路径不能为空"));
        }
        let shell_path = if t == ConnectionType::Local {
            trim(self.shell_path.as_str())
        } else {
            String::new()
        };
        let work_dir = if t == ConnectionType::Local {
            trim(self.work_dir.as_str())
        } else {
            String::new()
        };
        let key_id = if ssh {
            parse_optional_i64(self.key_id.as_str())
        } else {
            None
        };
        let identity_id = if ssh {
            parse_optional_i64(self.identity_id.as_str())
        } else {
            None
        };
        let username = if ssh {
            self.username.clone()
        } else {
            String::new()
        };
        let password = if ssh {
            self.password.clone()
        } else {
            String::new()
        };
        Ok(
            Connection {
                id: match self.id {
                    Some(v) => v,
                    None => 0,
                },
                name: trim(self.name.as_str()),
                group_id: parse_optional_i64(self.group_id.as_str()),
                key_id,
                effective_key_id: key_id,
                identity_id,
                host,
                port,
                username: username.clone(),
                display_username: username,
                password,
                theme_id: trim_or(self.theme_id.as_str(), "default"),
                shell_path,
                work_dir,
                startup_command: self.startup_command.clone(),
                serial_port,
                baud_rate,
                connection_type: t,
            },
        )
    }
}

// ---------------------------------------------------------------------------
// Key, identity and group forms
// ---------------------------------------------------------------------------

/// The key form (the text of each field; the editor widgets live with the window).
#[derive(Debug, Clone)]
pub struct KeyEditor {
    pub id: Option<i64>,
    pub name: String,
    pub private_key: String,
    pub public_key: String,
    pub certificate: String,
}

impl KeyEditor {
    /// The form filled in from a key.
    pub fn from_key(key: &Key) -> (e: Self)
        ensures
            e.id == Some(key.id),
            e.name == key.name,
            e.private_key == key.private_key,
            e.public_key == key.public_key,
            e.certificate == key.certificate,
    {
        KeyEditor {
            id: Some(key.id),
            name: key.name.clone(),
            private_key: key.private_key.clone(),
            public_key: key.public_key.clone(),
            certificate: key.certificate.clone(),
        }
    }

    /// The form for a new key.
    pub fn new() -> (e: Self)
        ensures
            e.id == Some(0i64),
            e.name@ == "New Key"@,
            e.private_key@.len() == 0,
            e.public_key@.len() == 0,
            e.certificate@.len() == 0,
    {
        Self::from_key(&Key::default())
    }

    /// The key the form saves: an error when the name is blank; the name trimmed.
    pub fn to_key(&self) -> (r: Result<Key, String>)
        ensures
            is_blank_spec(self.name@) ==> (r matches Err(m) && m@ == "Key 名称不能为空"@),
            !is_blank_spec(self.name@) ==> (r matches Ok(k) && k.id == (match self.id {
                Some(v) => v,
                None => 0,
            }) && k.name@ == trim_spec(self.name@) && k.private_key == self.private_key
                && k.public_key == self.public_key && k.certificate == self.certificate),
    {
        if is_blank(self.name.as_str()) {
            return Err(owned("Key 名称不能为空"));
        }
        Ok(
            Key {
                id: match self.id {
                    Some(v) => v,
                    None => 0,
                },
                name: trim(self.name.as_str()),
                private_key: self.private_key.clone(),
                public_key: self.public_key.clone(),
                certificate: self.certificate.clone(),
            },
        )
    }
}

/// The identity form.
#[derive(Debug, Clone)]
pub struct IdentityEditor {
    pub id: Option<i64>,
    pub name: String,
    pub username: String,
    pub password: String,
    pub key_id: String,
}

impl IdentityEditor {
    /// The form filled in from an identity; a missing key reads `None`.
    pub fn from_identity(identity: &Identity) -> (e: Self)
        ensures
            e.id == Some(identity.id),
            e.name == identity.name,
            e.username == identity.username,
            e.password == identity.password,
            e.key_id@ == id_text(identity.key_id, "None"@),
    {
        IdentityEditor {
            id: Some(identity.id),
            name: identity.name.clone(),
            username: identity.username.clone(),
            password: identity.password.clone(),
            key_id: optional_id_text(identity.key_id, "None"),
        }
    }

    /// The form for a new identity.
    pub fn new() -> (e: Self)
        ensures
            e.id == Some(0i64),
            e.name@ == "New Identity"@,
            e.username@.len() == 0,
            e.password@.len() == 0,
            e.key_id@ == "None"@,
    {
        Self::from_identity(&Identity::default())
    }

    /// The identity the form saves: an error when the name is blank; the name trimmed and
    /// the key identifier read.
    pub fn to_identity(&self) -> (r: Result<Identity, String>)
        ensures
            is_blank_spec(self.name@) ==> (r matches Err(m) && m@ == "Identity 名称不能为空"@),
            !is_blank_spec(self.name@) ==> (r matches Ok(i) && i.id == (match self.id {
                Some(v) => v,
                None => 0,
            }) && i.name@ == trim_spec(self.name@) && i.username == self.username && i.password
                == self.password && same_id(i.key_id, parse_optional_i64_spec(self.key_id@))),
    {
        if is_blank(self.name.as_str()) {
            return Err(owned("Identity 名称不能为空"));
        }
        Ok(
            Identity {
                id: match self.id {
                    Some(v) => v,
                    None => 0,
                },
                name: trim(self.name.as_str()),
                username: self.username.clone(),
                password: self.password.clone(),
                key_id: parse_optional_i64(self.key_id.as_str()),
            },
        )
    }
}

/// The group form.
#[derive(Debug, Clone)]
pub struct GroupEditor {
    pub id: Option<i64>,
    pub name: String,
    pub parent_id: String,
}

impl GroupEditor {
    /// The form filled in from a group; a missing parent reads `None`.
    pub fn from_group(group: &Group) -> (e: Self)
        ensures
            e.id == Some(group.id),
            e.name == group.name,
            e.parent_id@ == id_text(group.parent_id, "None"@),
    {
        GroupEditor {
            id: Some(group.id),
            name: group.name.clone(),
            parent_id: optional_id_text(group.parent_id, "None"),
        }
    }

    /// The form for a new group.
    pub fn new() -> (e: Self)
        ensures
            e.id == Some(0i64),
            e.name@ == "New Group"@,
            e.parent_id@ == "None"@,
    {
        Self::from_group(&Group::default())
    }

    /// The group the form saves: an error when the name is blank; the name trimmed and the
    /// parent identifier read.
    pub fn to_group(&self) -> (r: Result<Group, String>)
        ensures
            is_blank_spec(self.name@) ==> (r matches Err(m) && m@ == "Group 名称不能为空"@),
            !is_blank_spec(self.name@) ==> (r matches Ok(g) && g.id == (match self.id {
                Some(v) => v,
                None => 0,
            }) && g.name@ == trim_spec(self.name@) && same_id(
                g.parent_id,
                parse_optional_i64_spec(self.parent_id@),
            )),
    {
        if is_blank(self.name.as_str()) {
            return Err(owned("Group 名称不能为空"));
        }
        Ok(
            Group {
                id: match self.id {
                    Some(v) => v,
                    None => 0,
                },
                name: trim(self.name.as_str()),
                parent_id: parse_optional_i64(self.parent_id.as_str()),
            },
        )
    }
}

// ---------------------------------------------------------------------------
// Port forward form
// ---------------------------------------------------------------------------

/// The port forward form.
#[derive(Debug, Clone)]
pub struct PortForwardEditor {
    pub id: Option<i64>,
    pub label: String,
    pub forward_type: PortForwardType,
    pub enabled: bool,
    pub bind_address: String,
    pub bind_port: String,
    pub connection_id: String,
    pub destination_host: String,
    pub destination_port: String,
}

/// Why the port forward form cannot be saved: a bind port that is not a number, then (for
/// forwards other than dynamic ones) a destination port that is not a number.
pub open spec fn port_forward_form_error(e: PortForwardEditor) -> Option<Seq<char>> {
    if parse_i64_spec(trim_spec(e.bind_port@)) is None {
        Some("Bind Port 必须是数字"@)
    } else if e.forward_type != PortForwardType::Dynamic && parse_i64_spec(
        trim_spec(e.destination_port@),
    ) is None {
        Some("Destination Port 必须是数字"@)
    } else {
        None
    }
}

impl PortForwardEditor {
    /// The form filled in from a port forward; a missing connection reads `None`.
    pub fn from_port_forward(forward: &PortForward) -> (e: Self)
        ensures
            e.id == Some(forward.id),
            e.label == forward.label,
            e.forward_type == forward.forward_type,
            e.enabled == forward.enabled,
            e.bind_address == forward.bind_address,
            e.bind_port@ == int_to_decimal(forward.bind_port as int),
            e.connection_id@ == id_text(forward.connection_id, "None"@),
            e.destination_host == forward.destination_host,
            e.destination_port@ == int_to_decimal(forward.destination_port as int),
    {
        PortForwardEditor {
            id: Some(forward.id),
            label: forward.label.clone(),
            forward_type: forward.forward_type,
            enabled: forward.enabled,
            bind_address: forward.bind_address.clone(),
            bind_port: i64_to_string(forward.bind_port),
            connection_id: optional_id_text(forward.connection_id, "None"),
            destination_host: forward.destination_host.clone(),
            destination_port: i64_to_string(forward.destination_port),
        }
    }

    /// The form for a new port forward: a disabled local forward on `127.0.0.1`.
    pub fn new() -> (e: Self)
        ensures
            e.id == Some(0i64),
            e.label@ == "New Forward"@,
            e.forward_type == PortForwardType::Local,
            !e.enabled,
            e.bind_address@ == "127.0.0.1"@,
            e.bind_port@ == int_to_decimal(0),
            e.connection_id@ == "None"@,
            e.destination_host@.len() == 0,
            e.destination_port@ == int_to_decimal(0),
    {
        Self::from_port_forward(&PortForward::default())
    }

    /// The port forward the form saves, or why it cannot (see `port_forward_form_error`):
    /// texts trimmed, a dynamic forward's destination port 0, no connection name yet.
    pub fn to_port_forward(&self) -> (r: Result<PortForward, String>)
        ensures
            match port_forward_form_error(*self) {
                Some(m) => r matches Err(s) && s@ == m,
                None => r matches Ok(f) && f.id == (match self.id {
                    Some(v) => v,
                    None => 0,
                }) && f.label@ == trim_spec(self.label@) && f.forward_type == self.forward_type
                    && f.enabled == self.enabled && f.bind_address@ == trim_spec(self.bind_address@)
                    && f.bind_port == parse_i64_spec(trim_spec(self.bind_port@))->0 && same_id(
                    f.connection_id,
                    parse_optional_i64_spec(self.connection_id@),
                ) && f.connection_name@.len() == 0 && f.destination_host@ == trim_spec(
                    self.destination_host@,
                ) && f.destination_port == (if self.forward_type == PortForwardType::Dynamic {
                    0
                } else {
                    parse_i64_spec(trim_spec(self.destination_port@))->0
                }),
            },
    {
        let bind_port = match parse_number(self.bind_port.as_str(), "Bind Port 必须是数字") {
            Ok(v) => v,
            Err(m) => {
                return Err(m);
            },
        };
        let destination_port = if self.forward_type == PortForwardType::Dynamic {
            0
        } else {
            match parse_number(self.destination_port.as_str(), "Destination Port 必须是数字") {
                Ok(v) => v,
                Err(m) => {
                    return Err(m);
                },
            }
        };
        Ok(
            PortForward {
                id: match self.id {
                    Some(v) => v,
                    None => 0,
                },
                label: trim(self.label.as_str()),
                forward_type: self.forward_type,
                enabled: self.enabled,
                bind_address: trim(self.bind_address.as_str()),
                bind_port,
                connection_id: parse_optional_i64(self.connection_id.as_str()),
                connection_name: String::new(),
                destination_host: trim(self.destination_host.as_str()),
                destination_port,
            },
        )
    }
}

// ---------------------------------------------------------------------------
// A record shown in its form and saved unchanged stays the same
// ---------------------------------------------------------------------------

/// Whether two connections hold the same values, field by field.
pub open spec fn same_connection(a: Connection, b: Connection) -> bool {
    &&& a.id == b.id
    &&& a.name@ == b.name@
    &&& a.group_id == b.group_id
    &&& a.key_id == b.key_id
    &&& a.effective_key_id == b.effective_key_id
    &&& a.identity_id == b.identity_id
    &&& a.host@ == b.host@
    &&& a.port == b.port
    &&& a.username@ == b.username@
    &&& a.display_username@ == b.display_username@
    &&& a.password@ == b.password@
    &&& a.theme_id@ == b.theme_id@
    &&& a.shell_path@ == b.shell_path@
    &&& a.work_dir@ == b.work_dir@
    &&& a.startup_command@ == b.startup_command@
    &&& a.serial_port@ == b.serial_port@
    &&& a.baud_rate == b.baud_rate
    &&& a.connection_type == b.connection_type
}

/// Whether a text has no white space at either end.
pub open spec fn is_trimmed(s: Seq<char>) -> bool {
    trim_spec(s) == s
}

/// Whether a connection looks as the connection form saves it: its name and theme trimmed
/// and not blank, and only the fields of its type set (see `connection_from_form`).
pub open spec fn connection_as_saved(c: Connection) -> bool {
    let t = c.connection_type;
    &&& is_trimmed(c.name@) && !is_blank_spec(c.name@)
    &&& is_trimmed(c.theme_id@) && !is_blank_spec(c.theme_id@)
    &&& c.display_username@ == c.username@
    &&& if t == ConnectionType::Ssh {
        &&& is_trimmed(c.host@)
        &&& c.effective_key_id == c.key_id
    } else {
        &&& c.host@.len() == 0 && c.port == 0
        &&& c.username@.len() == 0 && c.password@.len() == 0
        &&& c.key_id is None && c.effective_key_id is None && c.identity_id is None
    }
    &&& if t == ConnectionType::Local {
        is_trimmed(c.shell_path@) && is_trimmed(c.work_dir@)
    } else {
        c.shell_path@.len() == 0 && c.work_dir@.len() == 0
    }
    &&& if t == ConnectionType::Serial {
        is_trimmed(c.serial_port@) && c.serial_port@.len() > 0
    } else {
        c.serial_port@.len() == 0 && c.baud_rate == 115200
    }
}

proof fn lemma_decimal_trimmed(n: i64)
    ensures
        is_trimmed(int_to_decimal(n as int)),
        parse_i64_spec(trim_spec(int_to_decimal(n as int))) == Some(n as int),
        trim_spec(int_to_decimal(n as int)).len() > 0,
{
    let s = int_to_decimal(n as int);
    let m: nat = if n < 0 {
        (-(n as int)) as nat
    } else {
        n as nat
    };
    lemma_decimal_digits(m);
    let d = nat_to_decimal(m);
    assert(crate::text::is_ascii_digit_char(d[d.len() - 1]));
    assert(s.len() > 0);
    assert(!is_ws(s[0])) by {
        if n < 0 {
            assert(s[0] == '-');
        } else {
            assert(s == d);
            assert(crate::text::is_ascii_digit_char(d[0]));
        }
    }
    assert(!is_ws(s.last())) by {
        assert(s.last() == d.last());
    }
    assert(trim_start_spec(s) == s);
    assert(trim_end_spec(s) == s);
    lemma_parse_i64_of_decimal(n);
}

/// An optional identifier shown in a form reads back as itself, whether it is written as
/// a number, as `None` or as nothing.
proof fn lemma_id_text_roundtrip(id: Option<i64>, fallback: Seq<char>)
    requires
        fallback == "None"@ || fallback.len() == 0,
    ensures
        same_id(id, parse_optional_i64_spec(id_text(id, fallback))),
{
    match id {
        Some(v) => {
            lemma_decimal_trimmed(v);
        },
        None => {
            if fallback.len() == 0 {
                assert(trim_start_spec(fallback) == fallback);
                assert(trim_end_spec(fallback) == fallback);
            } else {
                reveal_strlit("None");
                assert(!is_ws(fallback[0]) && !is_ws(fallback.last()));
                assert(trim_start_spec(fallback) == fallback);
                assert(trim_end_spec(fallback) == fallback);
                assert(!crate::text::is_ascii_digit_char(fallback[0]));
                assert(!crate::text::all_ascii_digits(fallback));
            }
        },
    }
}

/// A connection as the form saves it, shown in the form and saved again without changes,
/// comes back with the same values: the form reports no error and saves the same fields.
pub proof fn lemma_connection_form_roundtrip(c: Connection, e: ConnectionEditor, saved: Connection)
    requires
        connection_as_saved(c),
        connection_form_of(e, c),
        connection_from_form(saved, e),
    ensures
        connection_form_error(e) is None,
        same_connection(saved, c),
{
    lemma_decimal_trimmed(c.port);
    lemma_decimal_trimmed(c.baud_rate);
    reveal_strlit("None");
    lemma_id_text_roundtrip(c.group_id, Seq::empty());
    lemma_id_text_roundtrip(c.key_id, "None"@);
    lemma_id_text_roundtrip(c.identity_id, "None"@);
    assert(trim_or_spec(c.theme_id@, "default"@) == c.theme_id@);
    assert(saved.id == c.id);
    assert(saved.name@ == c.name@);
    assert(saved.group_id == c.group_id);
    assert(saved.key_id == c.key_id);
    assert(saved.effective_key_id == c.effective_key_id);
    assert(saved.identity_id == c.identity_id);
    assert(saved.host@ == c.host@);
    assert(saved.port == c.port);
    assert(saved.username@ == c.username@);
    assert(saved.display_username@ == c.display_username@);
    assert(saved.password@ == c.password@);
    assert(saved.theme_id@ == c.theme_id@);
    assert(saved.shell_path@ == c.shell_path@);
    assert(saved.work_dir@ == c.work_dir@);
    assert(saved.startup_command@ == c.startup_command@);
    assert(saved.serial_port@ == c.serial_port@);
    assert(saved.baud_rate == c.baud_rate);
}

/// A group with a trimmed, non-blank name, shown in its form and saved again, comes back
/// with the same values.
pub proof fn lemma_group_form_roundtrip(g: Group, e: GroupEditor)
    requires
        is_trimmed(g.name@),
        !is_blank_spec(g.name@),
        e.id == Some(g.id),
        e.name@ == g.name@,
        e.parent_id@ == id_text(g.parent_id, "None"@),
    ensures
        !is_blank_spec(e.name@),
        trim_spec(e.name@) == g.name@,
        same_id(g.parent_id, parse_optional_i64_spec(e.parent_id@)),
{
    reveal_strlit("None");
    lemma_id_text_roundtrip(g.parent_id, "None"@);
}

/// An identity with a trimmed, non-blank name, shown in its form and saved again, comes
/// back with the same values.
pub proof fn lemma_identity_form_roundtrip(i: Identity, e: IdentityEditor)
    requires
        is_trimmed(i.name@),
        !is_blank_spec(i.name@),
        e.id == Some(i.id),
        e.name@ == i.name@,
        e.username == i.username,
        e.password == i.password,
        e.key_id@ == id_text(i.key_id, "None"@),
    ensures
        !is_blank_spec(e.name@),
        trim_spec(e.name@) == i.name@,
        same_id(i.key_id, parse_optional_i64_spec(e.key_id@)),
{
    reveal_strlit("None");
    lemma_id_text_roundtrip(i.key_id, "None"@);
}

/// A port forward whose texts are trimmed and that has no connection name yet (and port 0
/// for a dynamic forward), shown in its form and saved again, comes back with the same
/// values: the form reports no error.
pub proof fn lemma_port_forward_form_roundtrip(f: PortForward, e: PortForwardEditor)
    requires
        is_trimmed(f.label@),
        is_trimmed(f.bind_address@),
        is_trimmed(f.destination_host@),
        f.forward_type == PortForwardType::Dynamic ==> f.destination_port == 0,
        e.id == Some(f.id),
        e.label == f.label,
        e.forward_type == f.forward_type,
        e.enabled == f.enabled,
        e.bind_address == f.bind_address,
        e.bind_port@ == int_to_decimal(f.bind_port as int),
        e.connection_id@ == id_text(f.connection_id, "None"@),
        e.destination_host == f.destination_host,
        e.destination_port@ == int_to_decimal(f.destination_port as int),
    ensures
        port_forward_form_error(e) is None,
        parse_i64_spec(trim_spec(e.bind_port@)) == Some(f.bind_port as int),
        f.forward_type != PortForwardType::Dynamic ==> parse_i64_spec(
            trim_spec(e.destination_port@),
        ) == Some(f.destination_port as int),
        same_id(f.connection_id, parse_optional_i64_spec(e.connection_id@)),
        trim_spec(e.label@) == f.label@,
        trim_spec(e.bind_address@) == f.bind_address@,
        trim_spec(e.destination_host@) == f.destination_host@,
{
    reveal_strlit("None");
    lemma_decimal_trimmed(f.bind_port);
    lemma_decimal_trimmed(f.destination_port);
    lemma_id_text_roundtrip(f.connection_id, "None"@);
}

} // verus!
