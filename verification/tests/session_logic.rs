use timon::models::{Connection, ConnectionType, Identity, Key, PortForward, PortForwardType, SftpEntry};
use timon::session::{
    check_forward_type, connect_failure_message, effective_key, effective_password,
    effective_private_key, effective_username, host_port, macos_login_exec, normalize_remote_child,
    resolved_local_shell_path, resolved_local_work_dir, serial_baud_rate, serial_device,
    sftp_entry, sftp_preview_text, single_quote_for_sh, sort_sftp_entries, ssh_session_description,
    startup_input, ConnectionTarget,
};

fn target(connection: Connection, key: Option<Key>, identity: Option<Identity>) -> ConnectionTarget {
    ConnectionTarget {
        connection,
        key,
        identity,
        known_hosts_path: "/tmp/known_hosts".into(),
        cols: 80,
        rows: 24,
    }
}

#[test]
fn credentials_prefer_the_connection_then_the_identity() {
    let identity = Identity {
        username: "deploy".into(),
        password: "secret".into(),
        ..Identity::default()
    };
    let own = target(
        Connection {
            username: "root".into(),
            password: "pw".into(),
            ..Connection::default()
        },
        None,
        Some(identity.clone()),
    );
    assert_eq!(effective_username(&own), "root");
    assert_eq!(effective_password(&own), Some("pw".to_string()));

    let borrowed = target(
        Connection {
            username: "  ".into(),
            ..Connection::default()
        },
        None,
        Some(identity),
    );
    assert_eq!(effective_username(&borrowed), "deploy");
    assert_eq!(effective_password(&borrowed), Some("secret".to_string()));

    let none = target(Connection::default(), None, None);
    assert_eq!(effective_username(&none), "");
    assert_eq!(effective_password(&none), None);
}

#[test]
fn the_target_key_is_the_effective_key() {
    let key = Key {
        id: 4,
        private_key: "   ".into(),
        ..Key::default()
    };
    let t = target(Connection::default(), Some(key), None);
    assert_eq!(effective_key(&t).map(|k| k.id), Some(4));
    assert!(matches!(effective_private_key(&t), Ok(None)));
    assert!(matches!(effective_private_key(&target(Connection::default(), None, None)), Ok(None)));
}

#[test]
fn an_unreadable_private_key_is_an_error() {
    let key = Key {
        private_key: "not a key".into(),
        ..Key::default()
    };
    let t = target(Connection::default(), Some(key), None);
    match effective_private_key(&t) {
        Err(message) => assert!(message.starts_with("解析 key 私钥失败: ")),
        Ok(_) => panic!("a text that is no key must not read as one"),
    }
}

#[test]
fn local_shell_and_directory_are_trimmed() {
    let c = Connection {
        shell_path: " /bin/bash ".into(),
        work_dir: " /srv ".into(),
        ..Connection::default()
    };
    assert_eq!(resolved_local_shell_path(&c, "/bin/zsh"), "/bin/bash");
    assert_eq!(resolved_local_work_dir(&c), "/srv");
    assert_eq!(resolved_local_shell_path(&Connection::default(), "/bin/zsh"), "/bin/zsh");
}

#[test]
fn shell_quoting_escapes_single_quotes() {
    assert_eq!(single_quote_for_sh("a b"), "'a b'");
    assert_eq!(single_quote_for_sh("it's"), "'it'\\''s'");
    assert_eq!(single_quote_for_sh(""), "''");
}

#[test]
fn macos_login_command_changes_directory_only_when_it_exists() {
    assert_eq!(
        macos_login_exec("/bin/zsh", "/Users/me", true),
        "cd -- '/Users/me' && exec -a -zsh '/bin/zsh' -l"
    );
    assert_eq!(macos_login_exec("/bin/zsh", "/nope", false), "exec -a -zsh '/bin/zsh' -l");
    assert_eq!(macos_login_exec("/", "", false), "exec -a -shell '/' -l");
}

#[test]
fn remote_children_join_with_one_slash() {
    assert_eq!(normalize_remote_child("/", "etc"), "/etc");
    assert_eq!(normalize_remote_child("/var/log//", "syslog"), "/var/log/syslog");
    assert_eq!(normalize_remote_child("home", "me"), "home/me");
    let e = sftp_entry("/tmp", "a.txt".to_string(), false, 12);
    assert_eq!(e.path, "/tmp/a.txt");
    assert_eq!(e.name, "a.txt");
    assert_eq!(e.size, 12);
}

#[test]
fn serial_lines_accept_standard_baud_rates_only() {
    assert_eq!(serial_baud_rate(9600), Ok(9600));
    assert_eq!(serial_baud_rate(230400), Ok(230400));
    assert_eq!(
        serial_baud_rate(12345),
        Err("不支持的串口波特率 12345，当前支持 50-230400".to_string())
    );
    assert_eq!(
        serial_baud_rate(-1),
        Err("不支持的串口波特率 -1，当前支持 50-230400".to_string())
    );
    let blank = Connection {
        serial_port: "  ".into(),
        ..Connection::default()
    };
    assert_eq!(serial_device(&blank), Err("串口设备路径不能为空".to_string()));
    let set = Connection {
        serial_port: " /dev/ttyUSB0 ".into(),
        ..Connection::default()
    };
    assert_eq!(serial_device(&set), Ok("/dev/ttyUSB0".to_string()));
}

#[test]
fn startup_commands_end_with_a_line_break() {
    assert_eq!(startup_input("  "), None);
    assert_eq!(startup_input("uptime"), Some(b"uptime\n".to_vec()));
}

#[test]
fn session_descriptions_and_failures() {
    assert_eq!(host_port("example.com", 22), "example.com:22");
    let t = target(
        Connection {
            username: "root".into(),
            host: "10.0.0.1".into(),
            port: 2222,
            ..Connection::default()
        },
        None,
        None,
    );
    assert_eq!(ssh_session_description(&t), "root@10.0.0.1:2222");
    assert_eq!(
        connect_failure_message(ConnectionType::Serial, "busy"),
        "Serial 连接失败: busy"
    );
    assert_eq!(connect_failure_message(ConnectionType::Ssh, "x"), "SSH 连接失败: x");
}

#[test]
fn only_local_forwards_start() {
    let local = PortForward::default();
    assert!(check_forward_type(&local).is_ok());
    let remote = PortForward {
        forward_type: PortForwardType::Remote,
        ..PortForward::default()
    };
    assert_eq!(
        check_forward_type(&remote),
        Err("当前版本仅支持 Local port forwarding".to_string())
    );
}

#[test]
fn previews_read_the_first_128_kib_lossily() {
    assert_eq!(sftp_preview_text(&vec![b'f', 0xff]), "f\u{FFFD}");
    let big = vec![b'a'; 131072 + 10];
    assert_eq!(sftp_preview_text(&big).len(), 131072);
}

#[test]
fn listings_put_directories_first_then_names_without_case() {
    let entry = |name: &str, is_dir: bool| SftpEntry {
        path: format!("/{name}"),
        name: name.into(),
        is_dir,
        size: 0,
    };
    let sorted = sort_sftp_entries(vec![
        entry("b.txt", false),
        entry("Zeta", true),
        entry("A.txt", false),
        entry("alpha", true),
    ]);
    let names: Vec<&str> = sorted.iter().map(|e| e.name.as_str()).collect();
    assert_eq!(names, vec!["alpha", "Zeta", "A.txt", "b.txt"]);
}
