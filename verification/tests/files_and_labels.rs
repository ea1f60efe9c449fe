use timon::labels::{
    connection_termius_secondary_text, current_home_dir, current_local_username, empty_as_dash,
    local_machine_name, local_terminal_tab_title, local_work_dir_label, short_preview,
};
use timon::models::{Connection, ConnectionType};
use timon::persistence::{join, known_host_entries, seed_connections, user_home_dir, AppPaths};

#[test]
fn paths_join_like_unix_paths() {
    assert_eq!(join("/home/me", ".timon"), "/home/me/.timon");
    assert_eq!(join("/home/me/", ".timon"), "/home/me/.timon");
    assert_eq!(join("", "x"), "x");
    assert_eq!(join("/a", "/b"), "/b");
    let paths = AppPaths::under_home("/home/me");
    assert_eq!(paths.database, "/home/me/.timon/timon.sqlite3");
    assert_eq!(paths.settings, "/home/me/.timon/settings.json");
    assert_eq!(paths.known_hosts, "/home/me/.timon/known_hosts");
    assert_eq!(paths.themes, "/home/me/.timon/themes");
}

#[test]
fn home_directory_comes_from_the_first_non_empty_variable() {
    assert_eq!(
        user_home_dir(Some("".into()), Some("C:\\Users\\me".into()), None, None),
        Some("C:\\Users\\me".to_string())
    );
    assert_eq!(
        user_home_dir(None, None, Some("C:".into()), Some("Users/me".into())),
        Some("C:/Users/me".to_string())
    );
    assert_eq!(user_home_dir(None, None, Some("C:".into()), None), None);
    assert_eq!(
        user_home_dir(Some("/root".into()), Some("x".into()), None, None),
        Some("/root".to_string())
    );
}

#[test]
fn a_new_database_gets_an_example_and_a_local_shell() {
    let seeds = seed_connections();
    assert_eq!(seeds.len(), 2);
    assert_eq!(seeds[0].name, "Example SSH");
    assert_eq!(seeds[0].host, "127.0.0.1");
    assert_eq!(seeds[0].username, "root");
    assert_eq!(seeds[1].name, "Local Shell");
    assert_eq!(seeds[1].connection_type, ConnectionType::Local);
    assert_eq!(seeds[1].port, 0);
}

#[test]
fn known_hosts_skip_blank_lines_and_comments() {
    let entries = known_host_entries("# comment\n\n  example.com ssh-ed25519 AAAA  \r\n  #x\nb.org ssh-rsa B");
    assert_eq!(entries.len(), 2);
    assert_eq!(entries[0].line_number, 3);
    assert_eq!(entries[0].line, "example.com ssh-ed25519 AAAA");
    assert_eq!(entries[1].line_number, 5);
    assert_eq!(entries[1].line, "b.org ssh-rsa B");
    assert!(known_host_entries("").is_empty());
}

#[test]
fn short_values_for_lists() {
    assert_eq!(empty_as_dash("  "), "-");
    assert_eq!(empty_as_dash(" x "), " x ");
    assert_eq!(short_preview("  "), "-");
    assert_eq!(short_preview(" abc "), "abc");
    let long = "k".repeat(70);
    assert_eq!(short_preview(&long), format!("{}...", "k".repeat(64)));
    let exactly = "é".repeat(32);
    assert_eq!(short_preview(&exactly), exactly);
    let longer = "é".repeat(40);
    assert_eq!(short_preview(&longer), format!("{}...", "é".repeat(32)));
}

#[test]
fn connection_cards_describe_their_type() {
    let local = Connection {
        connection_type: ConnectionType::Local,
        ..Connection::default()
    };
    assert_eq!(connection_termius_secondary_text(&local), "local");
    let serial = Connection {
        connection_type: ConnectionType::Serial,
        serial_port: "/dev/ttyS0".into(),
        baud_rate: 9600,
        ..Connection::default()
    };
    assert_eq!(connection_termius_secondary_text(&serial), "serial, /dev/ttyS0 @ 9600");
    let bare_serial = Connection {
        connection_type: ConnectionType::Serial,
        ..Connection::default()
    };
    assert_eq!(connection_termius_secondary_text(&bare_serial), "serial, 115200");
    let ssh = Connection {
        username: "root".into(),
        ..Connection::default()
    };
    assert_eq!(connection_termius_secondary_text(&ssh), "ssh, root");
    assert_eq!(connection_termius_secondary_text(&Connection::default()), "ssh");
}

#[test]
fn local_tab_titles_abbreviate_the_home_directory() {
    assert_eq!(local_work_dir_label("  ", Some("/home/me")), "~");
    assert_eq!(local_work_dir_label("/home/me", Some("/home/me")), "~");
    assert_eq!(local_work_dir_label("/home/me/src", Some("/home/me")), "~/src");
    assert_eq!(local_work_dir_label("/srv", Some("/home/me")), "/srv");
    assert_eq!(local_work_dir_label(" /srv ", None), "/srv");
    assert_eq!(local_terminal_tab_title("me", "box", "", None), "me@box:~");
}

#[test]
fn local_user_machine_and_home_from_the_environment() {
    assert_eq!(current_local_username(Some(" ".into()), Some("ann".into())), "ann");
    assert_eq!(current_local_username(None, None), "user");
    assert_eq!(local_machine_name(Some(" box.local ".into()), None, None), "box");
    assert_eq!(local_machine_name(None, Some(" PC ".into()), None), "PC");
    assert_eq!(local_machine_name(None, None, Some("host.lan\n".into())), "host");
    assert_eq!(local_machine_name(None, None, None), "localhost");
    assert_eq!(
        current_home_dir(None, None, Some(" C: ".into()), Some(" \\Users\\me ".into())),
        Some("C:\\Users\\me".to_string())
    );
    assert_eq!(current_home_dir(Some(" ".into()), None, None, None), None);
}
