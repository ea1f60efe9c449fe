use timon::models::{Connection, Group, Identity, Key, PortForward, PortForwardType};
use timon::selection::TerminalPoint;
use timon::session::sftp_parent_path;
use timon::shell::{duplicate_connection_name, group_host_cards};
use timon::tabs::{shell_tab_after_close, shell_tab_after_select};
use timon::terminal::{mouse_button_report, port_forward_target};
use timon::theme::builtin_terminal_theme_by_id;

#[test]
fn builtin_themes_keep_their_files() {
    let dark = builtin_terminal_theme_by_id("atom-one-dark").unwrap();
    assert_eq!(dark.path, "assets/themes/atom-one-dark.toml");
    let light = builtin_terminal_theme_by_id("atom-one-light").unwrap();
    assert_eq!(light.path, "assets/themes/atom-one-light.toml");
    assert!(builtin_terminal_theme_by_id("Atom-One-Dark").is_none());
}

#[test]
fn port_forward_names_are_lower_cased_labels() {
    for t in [PortForwardType::Local, PortForwardType::Remote, PortForwardType::Dynamic] {
        assert_eq!(t.label().to_lowercase(), t.as_str());
        assert_eq!(PortForwardType::from_name(t.as_str()), t);
    }
}

#[test]
fn sgr_mouse_reports_take_any_button() {
    let point = TerminalPoint { line: 4, column: 9 };
    assert_eq!(mouse_button_report(240, point, true, true), b"\x1b[<240;10;5M".to_vec());
    assert_eq!(mouse_button_report(240, point, false, false), vec![0x1b, b'[', b'M', 35, 42, 37]);
}

#[test]
fn group_cards_count_hosts_of_top_level_groups() {
    assert_eq!(
        group_host_cards(&Vec::new(), &Vec::new())
            .iter()
            .map(|c| (c.title.clone(), c.caption.clone()))
            .collect::<Vec<_>>(),
        vec![("Default".to_string(), "0 Hosts".to_string())]
    );
    let groups = vec![
        Group { id: 1, name: "Prod".into(), parent_id: None },
        Group { id: 2, name: "Web".into(), parent_id: Some(1) },
        Group { id: 3, name: "Lab".into(), parent_id: None },
    ];
    let connections = vec![
        Connection { id: 1, group_id: Some(1), ..Connection::default() },
        Connection { id: 2, group_id: Some(1), ..Connection::default() },
        Connection { id: 3, group_id: Some(2), ..Connection::default() },
    ];
    let cards: Vec<(String, String)> = group_host_cards(&groups, &connections)
        .into_iter()
        .map(|c| (c.title, c.caption))
        .collect();
    assert_eq!(
        cards,
        vec![
            ("Prod".to_string(), "2 Hosts".to_string()),
            ("Lab".to_string(), "0 Hosts".to_string()),
        ]
    );
}

#[test]
fn shell_tabs_select_and_close_within_bounds() {
    assert_eq!(shell_tab_after_select(-1, 1, 3), 1);
    assert_eq!(shell_tab_after_select(2, 3, 3), 2);
    assert_eq!(shell_tab_after_select(2, -1, 3), 2);
    assert_eq!(shell_tab_after_close(0, 0, 1), Some(-1));
    assert_eq!(shell_tab_after_close(2, 1, 3), Some(1));
    assert_eq!(shell_tab_after_close(0, 2, 3), Some(0));
    assert_eq!(shell_tab_after_close(-1, 0, 2), Some(-1));
    assert_eq!(shell_tab_after_close(0, 5, 3), None);
}

#[test]
fn sftp_parent_goes_one_level_up() {
    assert_eq!(sftp_parent_path("/var/log/"), "/var/log".rsplit_once('/').unwrap().0);
    assert_eq!(sftp_parent_path("/var/log"), "/var");
    assert_eq!(sftp_parent_path("/var"), "/");
    assert_eq!(sftp_parent_path("/"), ".");
    assert_eq!(sftp_parent_path("."), ".");
    assert_eq!(sftp_parent_path(""), ".");
    assert_eq!(sftp_parent_path("docs"), ".");
    assert_eq!(sftp_parent_path("docs/notes//"), "docs");
}

#[test]
fn duplicated_connections_are_named_copies() {
    assert_eq!(duplicate_connection_name("Web"), "Web Copy");
    assert_eq!(duplicate_connection_name("  "), "Connection Copy");
}

#[test]
fn enabling_a_forward_connects_through_its_connection() {
    let connections = vec![Connection {
        id: 5,
        name: "Bastion".into(),
        effective_key_id: Some(7),
        identity_id: Some(9),
        ..Connection::default()
    }];
    let keys = vec![Key { id: 7, name: "deploy".into(), ..Key::default() }];
    let identities = vec![Identity { id: 9, name: "ops".into(), ..Identity::default() }];

    let unbound = PortForward { connection_id: None, ..PortForward::default() };
    assert_eq!(
        port_forward_target(&connections, &keys, &identities, &unbound, "/k").unwrap_err(),
        "端口转发需要绑定一个 SSH connection"
    );
    let dangling = PortForward { connection_id: Some(6), ..PortForward::default() };
    assert_eq!(
        port_forward_target(&connections, &keys, &identities, &dangling, "/k").unwrap_err(),
        "端口转发绑定的 connection 不存在"
    );
    let bound = PortForward { connection_id: Some(5), ..PortForward::default() };
    let target = port_forward_target(&connections, &keys, &identities, &bound, "/k").unwrap();
    assert_eq!(target.connection.name, "Bastion");
    assert_eq!(target.key.unwrap().name, "deploy");
    assert_eq!(target.identity.unwrap().name, "ops");
    assert_eq!(target.known_hosts_path, "/k");
    assert_eq!((target.cols, target.rows), (80, 24));
}
