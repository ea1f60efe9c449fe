use vstd::prelude::*;

use crate::models::{Connection, ConnectionType, Identity, Key, PortForward, PortForwardType, SftpEntry};
use crate::text::{
    chars_of, i64_to_string, int_to_decimal, is_blank, is_blank_spec, lemma_text_lt_irreflexive,
    lemma_text_lt_total, lemma_text_lt_transitive, owned, push_char, push_decimal, nat_to_decimal,
    str_eq, string_from_chars, text_less, text_lt, to_lowercase, trim, trim_spec, unicode_lowercase,
};

verus! {

// ---------------------------------------------------------------------------
// Messages between a terminal and its session
// ---------------------------------------------------------------------------

/// What a terminal asks of its session.
#[derive(Debug, Clone)]
pub enum SessionCommand {
    Input(Vec<u8>),
    Resize { cols: u16, rows: u16 },
    Disconnect(String),
}

/// What a session reports to its terminal.
#[derive(Debug, Clone)]
pub enum SessionEvent {
    Connected { description: String },
    Output(Vec<u8>),
    Status(String),
    Error(String),
    Disconnected(String),
}

/// Everything needed to open a session: the connection, the key and identity it uses, the
/// known-hosts file and the initial terminal size.
#[derive(Debug, Clone)]
pub struct ConnectionTarget {
    pub connection: Connection,
    pub key: Option<Key>,
    pub identity: Option<Identity>,
    pub known_hosts_path: String,
    pub cols: u16,
    pub rows: u16,
}

// ---------------------------------------------------------------------------
// Credentials
// ---------------------------------------------------------------------------

/// The user name to log in as: the connection's own unless it is blank, else the
/// identity's, else empty.
pub open spec fn effective_username_spec(t: ConnectionTarget) -> Seq<char> {
    if !is_blank_spec(t.connection.username@) {
        t.connection.username@
    } else {
        match t.identity {
            Some(i) => i.username@,
            None => Seq::empty(),
        }
    }
}

/// The user name a session logs in as (see `effective_username_spec`).
pub fn effective_username(target: &ConnectionTarget) -> (u: String)
    ensures
        u@ == effective_username_spec(*target),
{
    if !is_blank(target.connection.username.as_str()) {
        target.connection.username.clone()
    } else {
        match &target.identity {
            Some(i) => i.username.clone(),
            None => String::new(),
        }
    }
}

/// The password to log in with: the connection's own unless it is empty, else the
/// identity's unless that is empty too.
pub open spec fn effective_password_spec(t: ConnectionTarget) -> Option<Seq<char>> {
    if t.connection.password@.len() > 0 {
        Some(t.connection.password@)
    } else {
        match t.identity {
            Some(i) => if i.password@.len() > 0 {
                Some(i.password@)
            } else {
                None
            },
            None => None,
        }
    }
}

/// The password a session logs in with (see `effective_password_spec`).
pub fn effective_password(target: &ConnectionTarget) -> (p: Option<String>)
    ensures
        match effective_password_spec(*target) {
            Some(s) => p matches Some(v) && v@ == s,
            None => p is None,
        },
{
    if !target.connection.password.as_str().is_empty() {
        Some(target.connection.password.clone())
    } else {
        match &target.identity {
            Some(i) => if !i.password.as_str().is_empty() {
                Some(i.password.clone())
            } else {
                None
            },
            None => None,
        }
    }
}

/// The key a session authenticates with: the target's key, whichever of the connection and
/// the identity refers to it.
pub fn effective_key(target: &ConnectionTarget) -> (k: Option<&Key>)
    ensures
        match target.key {
            Some(key) => k matches Some(r) && *r == key,
            None => k is None,
        },
{
    match &target.key {
        Some(key) => Some(key),
        None => None,
    }
}

#[verifier::external_type_specification]
#[verifier::external_body]
pub struct ExPrivateKey(russh::keys::PrivateKey);

#[verifier::external_type_specification]
#[verifier::external_body]
pub struct ExKeyError(russh::keys::Error);

/// Whether `russh::keys::decode_secret_key` reads a private key from a text, without a
/// passphrase.
pub uninterp spec fn secret_key_decodes(secret: Seq<char>) -> bool;

/// Calls `russh::keys::decode_secret_key` without a passphrase: it reads an OpenSSH, PKCS#5,
/// PKCS#8 or PuTTY private key from its text. Stated: whether it succeeds depends on the text
/// alone; the key it reads and the error it gives are left unsaid.
#[verifier::external_body]
fn decode_secret_key(secret: &str) -> (r: Result<russh::keys::PrivateKey, russh::keys::Error>)
    ensures
        r is Ok <==> secret_key_decodes(secret@),
{
    russh::keys::decode_secret_key(secret, None)
}

/// Writes a key-decoding error with the chain of errors that caused it, each after `": "`, as
/// `anyhow` shows an error in its alternate form. Nothing is stated of the text.
#[verifier::external_body]
fn key_error_message(error: russh::keys::Error) -> (m: String) {
    format!("{:#}", anyhow::Error::from(error))
}

/// The private key a session authenticates with: none when the target has no key or the
/// key's private part is blank; otherwise the private part read as a key, and an error
/// whose message is `解析 key 私钥失败: ` followed by the decoding error and its causes when it
/// does not read.
pub fn effective_private_key(target: &ConnectionTarget) -> (r: Result<
    Option<russh::keys::PrivateKey>,
    String,
>)
    ensures
        (match target.key {
            Some(key) => is_blank_spec(key.private_key@),
            None => true,
        }) <==> r matches Ok(None),
        (match target.key {
            Some(key) => !is_blank_spec(key.private_key@) && secret_key_decodes(key.private_key@),
            None => false,
        }) <==> r matches Ok(Some(_)),
        (match target.key {
            Some(key) => !is_blank_spec(key.private_key@) && !secret_key_decodes(key.private_key@),
            None => false,
        }) <==> r is Err,
        r matches Err(m) ==> m@.len() >= 13 && m@.take(13) == "解析 key 私钥失败: "@,
{
    if let Some(key) = effective_key(target) {
        if !is_blank(key.private_key.as_str()) {
            return match decode_secret_key(key.private_key.as_str()) {
                Ok(k) => Ok(Some(k)),
                Err(e) => {
                    let mut m = owned("解析 key 私钥失败: ");
                    let detail = key_error_message(e);
                    proof {
                        reveal_strlit("解析 key 私钥失败: ");
                    }
                    let ghost head = m@;
                    assert(head.len() == 13);
                    push_str(&mut m, detail.as_str());
                    assert(m@.take(13) =~= head);
                    Err(m)
                },
            };
        }
    }
    Ok(None)
}

// ---------------------------------------------------------------------------
// Local shells
// ---------------------------------------------------------------------------

/// The shell a local connection runs: its own shell path, trimmed, unless that is blank;
/// otherwise the host's default shell.
pub open spec fn resolved_shell_spec(c: Connection, default_shell: Seq<char>) -> Seq<char> {
    if is_blank_spec(c.shell_path@) {
        default_shell
    } else {
        trim_spec(c.shell_path@)
    }
}

/// The shell a local connection runs (see `resolved_shell_spec`).
pub fn resolved_local_shell_path(connection: &Connection, default_shell: &str) -> (s: String)
    ensures
        s@ == resolved_shell_spec(*connection, default_shell@),
{
    let configured = trim(connection.shell_path.as_str());
    if configured.as_str().is_empty() {
        owned(default_shell)
    } else {
        configured
    }
}

/// The working directory a local connection starts in: its own, trimmed.
pub fn resolved_local_work_dir(connection: &Connection) -> (d: String)
    ensures
        d@ == trim_spec(connection.work_dir@),
{
    trim(connection.work_dir.as_str())
}

/// `value` quoted for a POSIX shell: in single quotes, each single quote written `'\''`.
pub open spec fn single_quoted(value: Seq<char>) -> Seq<char>
    decreases value.len(),
{
    if value.len() == 0 {
        Seq::empty()
    } else {
        single_quoted(value.drop_last()) + if value.last() == '\'' {
            seq!['\'', '\\', '\'', '\'']
        } else {
            seq![value.last()]
        }
    }
}

/// `value` as one word of a POSIX shell command line.
pub fn single_quote_for_sh(value: &str) -> (q: String)
    ensures
        q@ == seq!['\''] + single_quoted(value@) + seq!['\''],
{
    let v = chars_of(value);
    let mut q = String::new();
    push_char(&mut q, '\'');
    let mut i: usize = 0;
    while i < v.len()
        invariant
            v@ == value@,
            i <= v@.len(),
            q@ == seq!['\''] + single_quoted(v@.take(i as int)),
        decreases v.len() - i,
    {
        assert(v@.take(i + 1).drop_last() =~= v@.take(i as int));
        assert(v@.take(i + 1).last() == v@[i as int]);
        if v[i] == '\'' {
            push_char(&mut q, '\'');
            push_char(&mut q, '\\');
            push_char(&mut q, '\'');
            push_char(&mut q, '\'');
        } else {
            push_char(&mut q, v[i]);
        }
        assert(q@ =~= seq!['\''] + single_quoted(v@.take(i + 1)));
        i = i + 1;
    }
    assert(v@.take(v@.len() as int) =~= v@);
    push_char(&mut q, '\'');
    q
}

/// What `Path::file_name` gives for a path, as text.
pub uninterp spec fn path_file_name(path: Seq<char>) -> Option<Seq<char>>;

/// Calls `std::path::Path::file_name` on `path` and converts the name to a string. The
/// result is a function of the path's text alone; nothing more is stated.
#[verifier::external_body]
fn file_name_of(path: &str) -> (r: Option<String>)
    ensures
        match path_file_name(path@) {
            Some(n) => r matches Some(s) && s@ == n,
            None => r is None,
        },
{
    std::path::Path::new(path).file_name().and_then(|name| name.to_str()).map(|name| name.to_owned())
}

fn push_str(s: &mut String, t: &str)
    ensures
        final(s)@ == old(s)@ + t@,
{
    s.append(t);
}

/// The command a macOS login shell runs: change to the working directory when it is a
/// directory, then `exec` the shell as a login shell (`-l`) under the name `-<shell name>`.
pub open spec fn macos_login_exec_spec(shell: Seq<char>, work_dir: Seq<char>, work_dir_is_dir: bool) -> Seq<
    char,
> {
    let name = match path_file_name(shell) {
        Some(n) => n,
        None => "shell"@,
    };
    let cd = if work_dir_is_dir {
        "cd -- "@ + seq!['\''] + single_quoted(work_dir) + seq!['\''] + " && "@
    } else {
        Seq::empty()
    };
    cd + "exec -a -"@ + name + seq![' '] + seq!['\''] + single_quoted(shell) + seq!['\''] + " -l"@
}

/// The command a macOS login shell runs (see `macos_login_exec_spec`); `work_dir_is_dir`
/// tells whether the working directory exists as a directory.
pub fn macos_login_exec(shell: &str, work_dir: &str, work_dir_is_dir: bool) -> (c: String)
    ensures
        c@ == macos_login_exec_spec(shell@, work_dir@, work_dir_is_dir),
{
    let name = match file_name_of(shell) {
        Some(n) => n,
        None => owned("shell"),
    };
    let mut command = String::new();
    if work_dir_is_dir {
        push_str(&mut command, "cd -- ");
        let q = single_quote_for_sh(work_dir);
        push_str(&mut command, q.as_str());
        push_str(&mut command, " && ");
    }
    push_str(&mut command, "exec -a -");
    push_str(&mut command, name.as_str());
    push_char(&mut command, ' ');
    let q = single_quote_for_sh(shell);
    push_str(&mut command, q.as_str());
    push_str(&mut command, " -l");
    assert(command@ =~= macos_login_exec_spec(shell@, work_dir@, work_dir_is_dir));
    command
}

// ---------------------------------------------------------------------------
// Remote paths
// ---------------------------------------------------------------------------

/// `s` without its trailing `/` characters.
pub open spec fn trim_end_slashes(s: Seq<char>) -> Seq<char>
    decreases s.len(),
{
    if s.len() > 0 && s.last() == '/' {
        trim_end_slashes(s.drop_last())
    } else {
        s
    }
}

/// The position of the last `/` in `s`, if there is one.
pub open spec fn last_slash(s: Seq<char>) -> Option<int>
    decreases s.len(),
{
    if s.len() == 0 {
        None
    } else if s.last() == '/' {
        Some(s.len() - 1)
    } else {
        last_slash(s.drop_last())
    }
}

/// The remote directory one level up from `current`: trailing slashes are dropped; an empty
/// or `.` path, and one without a slash, go to `.`; otherwise what comes before the last
/// slash, or `/` when that is nothing.
pub open spec fn sftp_parent_spec(current: Seq<char>) -> Seq<char> {
    let cur = trim_end_slashes(current);
    if cur.len() == 0 || cur == "."@ || cur == "/"@ {
        "."@
    } else {
        match last_slash(cur) {
            None => "."@,
            Some(k) => if k == 0 {
                "/"@
            } else {
                cur.take(k)
            },
        }
    }
}

proof fn lemma_last_slash_bounds(s: Seq<char>)
    ensures
        last_slash(s) matches Some(k) ==> 0 <= k < s.len(),
    decreases s.len(),
{
    if s.len() > 0 && s.last() != '/' {
        lemma_last_slash_bounds(s.drop_last());
    }
}

/// The remote directory one level up (see `sftp_parent_spec`).
pub fn sftp_parent_path(current: &str) -> (p: String)
    ensures
        p@ == sftp_parent_spec(current@),
{
    let v = chars_of(current);
    let mut end = v.len();
    assert(v@.take(v@.len() as int) =~= v@);
    while end > 0 && v[end - 1] == '/'
        invariant
            v@ == current@,
            end <= v@.len(),
            trim_end_slashes(v@) == trim_end_slashes(v@.take(end as int)),
        decreases end,
    {
        assert(v@.take(end as int).drop_last() =~= v@.take(end - 1));
        end = end - 1;
    }
    let ghost cur = v@.take(end as int);
    assert(trim_end_slashes(cur) == cur);
    let cur_s = string_from_chars(&v, 0, end);
    assert(v@.subrange(0, end as int) =~= cur);
    if end == 0 || str_eq(cur_s.as_str(), ".") || str_eq(cur_s.as_str(), "/") {
        return owned(".");
    }
    let mut k = end;
    assert(cur.take(end as int) =~= cur);
    while k > 0 && v[k - 1] != '/'
        invariant
            v@ == current@,
            k <= end <= v@.len(),
            cur == v@.take(end as int),
            last_slash(cur) == last_slash(cur.take(k as int)),
        decreases k,
    {
        assert(cur.take(k as int).drop_last() =~= cur.take(k - 1));
        k = k - 1;
    }
    proof {
        assert(cur.take(end as int) =~= cur);
        lemma_last_slash_bounds(cur);
    }
    if k == 0 {
        assert(cur.take(0) =~= Seq::<char>::empty());
        owned(".")
    } else if k == 1 {
        assert(cur.take(1).last() == '/');
        owned("/")
    } else {
        assert(cur.take(k as int).last() == v@[k - 1]);
        let p = string_from_chars(&v, 0, k - 1);
        assert(v@.subrange(0, k - 1) =~= cur.take(k - 1));
        p
    }
}

/// The path of `child` inside the remote directory `parent`.
pub open spec fn remote_child_spec(parent: Seq<char>, child: Seq<char>) -> Seq<char> {
    if parent == "/"@ {
        seq!['/'] + child
    } else {
        trim_end_slashes(parent) + seq!['/'] + child
    }
}

/// The path of `child` inside the remote directory `parent` (see `remote_child_spec`).
pub fn normalize_remote_child(parent: &str, child: &str) -> (p: String)
    ensures
        p@ == remote_child_spec(parent@, child@),
{
    if str_eq(parent, "/") {
        let mut p = String::new();
        push_char(&mut p, '/');
        push_str(&mut p, child);
        return p;
    }
    let v = chars_of(parent);
    let mut end = v.len();
    assert(v@.take(v@.len() as int) =~= v@);
    while end > 0 && v[end - 1] == '/'
        invariant
            v@ == parent@,
            end <= v@.len(),
            trim_end_slashes(v@) == trim_end_slashes(v@.take(end as int)),
        decreases end,
    {
        assert(v@.take(end as int).drop_last() =~= v@.take(end - 1));
        end = end - 1;
    }
    assert(v@.take(v@.len() as int) =~= v@);
    let mut p = string_from_chars(&v, 0, end);
    assert(v@.subrange(0, end as int) =~= v@.take(end as int));
    push_char(&mut p, '/');
    push_str(&mut p, child);
    p
}

/// A remote directory entry as the file browser lists it.
pub fn sftp_entry(parent: &str, name: String, is_dir: bool, size: u64) -> (e: SftpEntry)
    ensures
        e.path@ == remote_child_spec(parent@, name@),
        e.name == name,
        e.is_dir == is_dir,
        e.size == size,
{
    let path = normalize_remote_child(parent, name.as_str());
    SftpEntry { path, name, is_dir, size }
}

// ---------------------------------------------------------------------------
// Serial lines
// ---------------------------------------------------------------------------

/// The baud rates a serial connection can use.
pub open spec fn supported_baud_rates() -> Seq<int> {
    seq![
        50, 75, 110, 134, 150, 200, 300, 600, 1200, 1800, 2400, 4800, 9600, 19200, 38400, 57600,
        115200, 230400,
    ]
}

/// The message for a baud rate that is not supported.
pub open spec fn unsupported_baud_message(baud_rate: int) -> Seq<char> {
    "不支持的串口波特率 "@ + int_to_decimal(baud_rate) + "，当前支持 50-230400"@
}

/// The baud rate of a serial connection when it is supported, else the message saying
/// it is not.
pub fn serial_baud_rate(baud_rate: i64) -> (r: Result<u32, String>)
    ensures
        supported_baud_rates().contains(baud_rate as int) ==> r == Ok::<u32, String>(
            baud_rate as u32,
        ),
        !supported_baud_rates().contains(baud_rate as int) ==> (r matches Err(m) && m@
            == unsupported_baud_message(baud_rate as int)),
{
    let rates: [u32; 18] = [
        50, 75, 110, 134, 150, 200, 300, 600, 1200, 1800, 2400, 4800, 9600, 19200, 38400, 57600,
        115200, 230400,
    ];
    assert(rates@.map_values(|r: u32| r as int) =~= supported_baud_rates());
    let mut i: usize = 0;
    while i < 18
        invariant
            i <= 18,
            rates@.map_values(|r: u32| r as int) == supported_baud_rates(),
            forall|k: int| 0 <= k < i ==> supported_baud_rates()[k] != baud_rate,
        decreases 18 - i,
    {
        assert(supported_baud_rates()[i as int] == rates@[i as int] as int);
        if rates[i] as i64 == baud_rate {
            assert(supported_baud_rates()[i as int] == baud_rate as int);
            return Ok(rates[i]);
        }
        i = i + 1;
    }
    let mut m = owned("不支持的串口波特率 ");
    let n = i64_to_string(baud_rate);
    push_str(&mut m, n.as_str());
    push_str(&mut m, "，当前支持 50-230400");
    Err(m)
}

/// The device of a serial connection, trimmed; an error when it is blank.
pub fn serial_device(connection: &Connection) -> (r: Result<String, String>)
    ensures
        is_blank_spec(connection.serial_port@) ==> (r matches Err(m) && m@ == "串口设备路径不能为空"@),
        !is_blank_spec(connection.serial_port@) ==> (r matches Ok(d) && d@ == trim_spec(
            connection.serial_port@,
        )),
{
    let device = trim(connection.serial_port.as_str());
    if device.as_str().is_empty() {
        Err(owned("串口设备路径不能为空"))
    } else {
        Ok(device)
    }
}

// ---------------------------------------------------------------------------
// Session set-up
// ---------------------------------------------------------------------------

/// What a session sends right after it opens: the startup command and a line break, when
/// the command is not blank.
pub fn startup_input(startup_command: &str) -> (r: Option<Vec<u8>>)
    ensures
        is_blank_spec(startup_command@) ==> r is None,
        !is_blank_spec(startup_command@) ==> (r matches Some(b) && b@ == vstd::utf8::encode_utf8(
            startup_command@,
        ).push(10u8)),
{
    if is_blank(startup_command) {
        return None;
    }
    let raw = startup_command.as_bytes();
    let mut bytes: Vec<u8> = Vec::new();
    let mut i: usize = 0;
    while i < raw.len()
        invariant
            raw@ == vstd::utf8::encode_utf8(startup_command@),
            i <= raw@.len(),
            bytes@ == raw@.take(i as int),
        decreases raw.len() - i,
    {
        bytes.push(raw[i]);
        assert(raw@.take(i + 1) =~= raw@.take(i as int).push(raw@[i as int]));
        i = i + 1;
    }
    assert(raw@.take(raw@.len() as int) =~= raw@);
    bytes.push(10u8);
    Some(bytes)
}

/// `host:port`, the address a session connects to or a forward listens on.
pub open spec fn host_port_spec(host: Seq<char>, port: i64) -> Seq<char> {
    host + seq![':'] + int_to_decimal(port as int)
}

/// `host:port` for a host and a port.
pub fn host_port(host: &str, port: i64) -> (a: String)
    ensures
        a@ == host_port_spec(host@, port),
{
    let mut a = owned(host);
    push_char(&mut a, ':');
    let p = i64_to_string(port);
    push_str(&mut a, p.as_str());
    a
}

/// How an SSH session describes itself once connected: `user@host:port`.
pub fn ssh_session_description(target: &ConnectionTarget) -> (d: String)
    ensures
        d@ == effective_username_spec(*target) + seq!['@'] + host_port_spec(
            target.connection.host@,
            target.connection.port,
        ),
{
    let mut d = effective_username(target);
    push_char(&mut d, '@');
    let a = host_port(target.connection.host.as_str(), target.connection.port);
    push_str(&mut d, a.as_str());
    d
}

/// The message a failed connection attempt reports, by connection type.
pub open spec fn connect_failure_spec(t: ConnectionType, error: Seq<char>) -> Seq<char> {
    match t {
        ConnectionType::Ssh => "SSH 连接失败: "@ + error,
        ConnectionType::Local => "本地终端启动失败: "@ + error,
        ConnectionType::Serial => "Serial 连接失败: "@ + error,
    }
}

/// The message a failed connection attempt reports (see `connect_failure_spec`).
pub fn connect_failure_message(t: ConnectionType, error: &str) -> (m: String)
    ensures
        m@ == connect_failure_spec(t, error@),
{
    let mut m = match t {
        ConnectionType::Ssh => owned("SSH 连接失败: "),
        ConnectionType::Local => owned("本地终端启动失败: "),
        ConnectionType::Serial => owned("Serial 连接失败: "),
    };
    push_str(&mut m, error);
    m
}

/// A port forward can start only when it is a local forward.
pub fn check_forward_type(forward: &PortForward) -> (r: Result<(), String>)
    ensures
        forward.forward_type == PortForwardType::Local ==> r is Ok,
        forward.forward_type != PortForwardType::Local ==> (r matches Err(m) && m@
            == "当前版本仅支持 Local port forwarding"@),
{
    if forward.forward_type != PortForwardType::Local {
        Err(owned("当前版本仅支持 Local port forwarding"))
    } else {
        Ok(())
    }
}

// ---------------------------------------------------------------------------
// Remote file preview
// ---------------------------------------------------------------------------

/// How many bytes of a remote file the preview shows.
pub const PREVIEW_LIMIT: usize = 131072;

/// What `String::from_utf8_lossy` gives for a byte sequence.
pub uninterp spec fn utf8_lossy(bytes: Seq<u8>) -> Seq<char>;

/// Calls `String::from_utf8_lossy`: the bytes read as UTF-8, each invalid sequence replaced
/// by U+FFFD. Stated: the result is a function of the bytes alone, and for valid UTF-8 it is
/// the text they encode; what replaces invalid sequences is left unsaid.
#[verifier::external_body]
fn from_utf8_lossy(bytes: &[u8]) -> (s: String)
    ensures
        s@ == utf8_lossy(bytes@),
        vstd::utf8::valid_utf8(bytes@) ==> s@ == vstd::utf8::decode_utf8(bytes@),
{
    String::from_utf8_lossy(bytes).to_string()
}

/// The preview of a remote file: its first 128 KiB read as UTF-8, with invalid sequences
/// replaced.
pub fn sftp_preview_text(bytes: &Vec<u8>) -> (s: String)
    ensures
        s@ == utf8_lossy(if bytes@.len() > 131072 {
            bytes@.take(131072)
        } else {
            bytes@
        }),
        bytes@.len() <= 131072 && vstd::utf8::valid_utf8(bytes@) ==> s@ == vstd::utf8::decode_utf8(
            bytes@,
        ),
{
    if bytes.len() > PREVIEW_LIMIT {
        let mut head: Vec<u8> = Vec::new();
        let mut i: usize = 0;
        while i < PREVIEW_LIMIT
            invariant
                i <= PREVIEW_LIMIT < bytes@.len(),
                head@ == bytes@.take(i as int),
            decreases PREVIEW_LIMIT - i,
        {
            head.push(bytes[i]);
            assert(bytes@.take(i + 1) =~= bytes@.take(i as int).push(bytes@[i as int]));
            i = i + 1;
        }
        from_utf8_lossy(head.as_slice())
    } else {
        from_utf8_lossy(bytes.as_slice())
    }
}

// ---------------------------------------------------------------------------
// Remote directory listings
// ---------------------------------------------------------------------------

/// Whether entry `a` is listed before entry `b`: directories before files, then by
/// lower-cased name.
pub open spec fn entry_before(a: SftpEntry, b: SftpEntry) -> bool {
    ||| (a.is_dir && !b.is_dir)
    ||| (a.is_dir == b.is_dir && text_lt(unicode_lowercase(a.name@), unicode_lowercase(b.name@)))
}

/// `s` with `e` placed after every entry that is not listed after it.
pub open spec fn insert_entry(s: Seq<SftpEntry>, e: SftpEntry) -> Seq<SftpEntry>
    decreases s.len(),
{
    if s.len() == 0 || !entry_before(e, s.last()) {
        s.push(e)
    } else {
        insert_entry(s.drop_last(), e).push(s.last())
    }
}

/// A listing in display order; entries that compare equal keep their order (a stable sort).
pub open spec fn sort_entries(s: Seq<SftpEntry>) -> Seq<SftpEntry>
    decreases s.len(),
{
    if s.len() == 0 {
        s
    } else {
        insert_entry(sort_entries(s.drop_last()), s.last())
    }
}

proof fn lemma_insert_entry_position(t: Seq<SftpEntry>, e: SftpEntry, j: int)
    requires
        0 <= j <= t.len(),
        forall|k: int| j <= k < t.len() ==> entry_before(e, #[trigger] t[k]),
        j == 0 || !entry_before(e, t[j - 1]),
    ensures
        insert_entry(t, e) == t.insert(j, e),
    decreases t.len(),
{
    if t.len() == j {
        assert(t.insert(j, e) =~= t.push(e));
    } else {
        let u = t.drop_last();
        assert forall|k: int| j <= k < u.len() implies entry_before(e, #[trigger] u[k]) by {
            assert(u[k] == t[k]);
        }
        if j > 0 {
            assert(u[j - 1] == t[j - 1]);
        }
        assert(entry_before(e, t[t.len() - 1]));
        lemma_insert_entry_position(u, e, j);
        assert(u.insert(j, e).push(t.last()) =~= t.insert(j, e));
    }
}

/// Sorts a remote directory listing for display (see `sort_entries`).
pub fn sort_sftp_entries(entries: Vec<SftpEntry>) -> (sorted: Vec<SftpEntry>)
    ensures
        sorted@ == sort_entries(entries@),
{
    let mut sorted: Vec<SftpEntry> = Vec::new();
    let mut lowered: Vec<String> = Vec::new();
    let mut i: usize = 0;
    while i < entries.len()
        invariant
            i <= entries@.len(),
            sorted@ == sort_entries(entries@.take(i as int)),
            lowered@.len() == sorted@.len(),
            forall|k: int|
                0 <= k < sorted@.len() ==> (#[trigger] lowered@[k])@ == unicode_lowercase(
                    sorted@[k].name@,
                ),
        decreases entries.len() - i,
    {
        let e = entries[i].duplicate();
        let low = to_lowercase(e.name.as_str());
        let ghost t = sorted@;
        assert(entries@.take(i + 1).drop_last() =~= entries@.take(i as int));
        assert(entries@.take(i + 1).last() == e);
        let mut j = sorted.len();
        while j > 0 && ((e.is_dir && !sorted[j - 1].is_dir) || (e.is_dir == sorted[j - 1].is_dir
            && text_less(low.as_str(), lowered[j - 1].as_str())))
            invariant
                j <= sorted@.len(),
                sorted@ == t,
                lowered@.len() == sorted@.len(),
                low@ == unicode_lowercase(e.name@),
                forall|k: int|
                    0 <= k < sorted@.len() ==> (#[trigger] lowered@[k])@ == unicode_lowercase(
                        sorted@[k].name@,
                    ),
                forall|k: int| j <= k < t.len() ==> entry_before(e, #[trigger] t[k]),
            decreases j,
        {
            j = j - 1;
        }
        proof {
            if j > 0 {
                assert(lowered@[j - 1]@ == unicode_lowercase(t[j - 1].name@));
            }
            lemma_insert_entry_position(t, e, j as int);
        }
        let ghost old_lowered = lowered@;
        sorted.insert(j, e);
        lowered.insert(j, low);
        assert forall|k: int|
            0 <= k < sorted@.len() implies (#[trigger] lowered@[k])@ == unicode_lowercase(
            sorted@[k].name@,
        ) by {
            if k < j {
                assert(lowered@[k] == old_lowered[k]);
                assert(sorted@[k] == t[k]);
            } else if k > j {
                assert(lowered@[k] == old_lowered[k - 1]);
                assert(sorted@[k] == t[k - 1]);
            }
        }
        i = i + 1;
    }
    assert(entries@.take(entries@.len() as int) =~= entries@);
    sorted
}

/// Whether no file comes before a directory.
pub open spec fn dirs_first(s: Seq<SftpEntry>) -> bool {
    forall|i: int, j: int| 0 <= i < j < s.len() && (#[trigger] s[j]).is_dir ==> (#[trigger] s[i]).is_dir
}

proof fn lemma_insert_entry_members(t: Seq<SftpEntry>, e: SftpEntry, x: SftpEntry)
    requires
        insert_entry(t, e).contains(x),
    ensures
        t.contains(x) || x == e,
    decreases t.len(),
{
    if t.len() == 0 || !entry_before(e, t.last()) {
        let k = choose|k: int| 0 <= k < t.push(e).len() && t.push(e)[k] == x;
        if k < t.len() {
            assert(t[k] == x);
        }
    } else {
        let u = insert_entry(t.drop_last(), e);
        let k = choose|k: int| 0 <= k < u.push(t.last()).len() && u.push(t.last())[k] == x;
        if k < u.len() {
            assert(u[k] == x);
            lemma_insert_entry_members(t.drop_last(), e, x);
            if t.drop_last().contains(x) {
                let m = choose|m: int| 0 <= m < t.drop_last().len() && t.drop_last()[m] == x;
                assert(t[m] == x);
            }
        } else {
            assert(t[t.len() - 1] == x);
        }
    }
}

proof fn lemma_insert_entry_multiset(t: Seq<SftpEntry>, e: SftpEntry)
    ensures
        insert_entry(t, e).to_multiset() == t.to_multiset().insert(e),
    decreases t.len(),
{
    broadcast use vstd::seq_lib::to_multiset_build;

    if t.len() == 0 || !entry_before(e, t.last()) {
    } else {
        let u = t.drop_last();
        lemma_insert_entry_multiset(u, e);
        assert(u.push(t.last()) =~= t);
        assert(insert_entry(t, e).to_multiset() =~= t.to_multiset().insert(e));
    }
}

proof fn lemma_insert_entry_dirs_first(t: Seq<SftpEntry>, e: SftpEntry)
    requires
        dirs_first(t),
    ensures
        dirs_first(insert_entry(t, e)),
    decreases t.len(),
{
    if t.len() == 0 || !entry_before(e, t.last()) {
        let r = t.push(e);
        assert forall|i: int, j: int| 0 <= i < j < r.len() && (#[trigger] r[j]).is_dir implies (
        #[trigger] r[i]).is_dir by {
            if j == t.len() {
                assert(t.last().is_dir);
                assert(r[i] == t[i]);
                if i < t.len() - 1 {
                    assert(t[t.len() - 1] == t.last());
                }
            } else {
                assert(r[i] == t[i] && r[j] == t[j]);
            }
        }
    } else {
        let u = t.drop_last();
        assert forall|i: int, j: int| 0 <= i < j < u.len() && (#[trigger] u[j]).is_dir implies (
        #[trigger] u[i]).is_dir by {
            assert(u[i] == t[i] && u[j] == t[j]);
        }
        lemma_insert_entry_dirs_first(u, e);
        let v = insert_entry(u, e);
        let r = v.push(t.last());
        assert forall|i: int, j: int| 0 <= i < j < r.len() && (#[trigger] r[j]).is_dir implies (
        #[trigger] r[i]).is_dir by {
            if j == v.len() {
                // the last entry is a directory, so `e` (listed before it) is one too, and so
                // is every entry before it
                assert(r[j] == t.last());
                assert(e.is_dir);
                assert(r[i] == v[i]);
                assert(v.contains(v[i]));
                lemma_insert_entry_members(u, e, v[i]);
                if u.contains(v[i]) {
                    let m = choose|m: int| 0 <= m < u.len() && u[m] == v[i];
                    assert(t[m] == u[m]);
                    assert(t[t.len() - 1] == t.last());
                }
            } else {
                assert(r[i] == v[i] && r[j] == v[j]);
            }
        }
    }
}

/// Whether a listing is in order: no entry sorts before one that comes earlier.
pub open spec fn entries_sorted(s: Seq<SftpEntry>) -> bool {
    forall|i: int, j: int| 0 <= i < j < s.len() ==> !entry_before(#[trigger] s[j], #[trigger] s[i])
}

proof fn lemma_entry_before_asymmetric(a: SftpEntry, b: SftpEntry)
    ensures
        entry_before(a, b) ==> !entry_before(b, a),
{
    let la = unicode_lowercase(a.name@);
    let lb = unicode_lowercase(b.name@);
    if text_lt(la, lb) && text_lt(lb, la) {
        lemma_text_lt_transitive(la, lb, la);
        lemma_text_lt_irreflexive(la);
    }
}

proof fn lemma_not_before_transitive(a: SftpEntry, b: SftpEntry, c: SftpEntry)
    requires
        !entry_before(a, b),
        !entry_before(b, c),
    ensures
        !entry_before(a, c),
{
    let la = unicode_lowercase(a.name@);
    let lb = unicode_lowercase(b.name@);
    let lc = unicode_lowercase(c.name@);
    if a.is_dir == b.is_dir && b.is_dir == c.is_dir && text_lt(la, lc) {
        lemma_text_lt_total(la, lb);
        lemma_text_lt_total(lb, lc);
        if la != lb {
            if lb == lc {
                lemma_text_lt_transitive(la, lc, la);
            } else {
                lemma_text_lt_transitive(lc, lb, la);
                lemma_text_lt_transitive(la, lc, la);
            }
            lemma_text_lt_irreflexive(la);
        }
    }
}

proof fn lemma_insert_entry_sorted(t: Seq<SftpEntry>, e: SftpEntry)
    requires
        entries_sorted(t),
    ensures
        entries_sorted(insert_entry(t, e)),
    decreases t.len(),
{
    if t.len() == 0 || !entry_before(e, t.last()) {
        let r = t.push(e);
        assert forall|i: int, j: int| 0 <= i < j < r.len() implies !entry_before(
            #[trigger] r[j],
            #[trigger] r[i],
        ) by {
            if j == t.len() {
                assert(r[i] == t[i]);
                if i < t.len() - 1 {
                    assert(!entry_before(t[t.len() - 1], t[i]));
                    lemma_not_before_transitive(e, t.last(), t[i]);
                }
            } else {
                assert(r[i] == t[i] && r[j] == t[j]);
            }
        }
    } else {
        let u = t.drop_last();
        assert forall|i: int, j: int| 0 <= i < j < u.len() implies !entry_before(
            #[trigger] u[j],
            #[trigger] u[i],
        ) by {
            assert(u[i] == t[i] && u[j] == t[j]);
        }
        lemma_insert_entry_sorted(u, e);
        let v = insert_entry(u, e);
        let r = v.push(t.last());
        assert forall|i: int, j: int| 0 <= i < j < r.len() implies !entry_before(
            #[trigger] r[j],
            #[trigger] r[i],
        ) by {
            if j == v.len() {
                assert(r[j] == t.last());
                assert(r[i] == v[i]);
                assert(v.contains(v[i]));
                lemma_insert_entry_members(u, e, v[i]);
                if u.contains(v[i]) {
                    let m = choose|m: int| 0 <= m < u.len() && u[m] == v[i];
                    assert(t[m] == u[m]);
                    assert(t[t.len() - 1] == t.last());
                } else {
                    lemma_entry_before_asymmetric(e, t.last());
                }
            } else {
                assert(r[i] == v[i] && r[j] == v[j]);
            }
        }
    }
}

/// A sorted listing holds the same entries as the listing it came from, lists every
/// directory before every file, and is in order: directories first, then by lower-cased name.
pub proof fn lemma_sort_entries_listing(s: Seq<SftpEntry>)
    ensures
        sort_entries(s).to_multiset() == s.to_multiset(),
        sort_entries(s).len() == s.len(),
        dirs_first(sort_entries(s)),
        entries_sorted(sort_entries(s)),
    decreases s.len(),
{
    broadcast use vstd::seq_lib::to_multiset_build;
    broadcast use vstd::seq_lib::to_multiset_len;

    if s.len() > 0 {
        let u = s.drop_last();
        lemma_sort_entries_listing(u);
        lemma_insert_entry_sorted(sort_entries(u), s.last());
        lemma_insert_entry_multiset(sort_entries(u), s.last());
        lemma_insert_entry_dirs_first(sort_entries(u), s.last());
        assert(u.push(s.last()) =~= s);
    }
    vstd::seq_lib::to_multiset_len(s);
    vstd::seq_lib::to_multiset_len(sort_entries(s));
}

} // verus!
