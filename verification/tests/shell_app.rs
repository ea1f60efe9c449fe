use timon::models::{
    Connection, ConnectionType, Group, Identity, Key, KnownHostEntry, ManageMenu, PortForward,
    Snippet, MANAGE_MENU_COUNT,
};
use timon::shell::{
    connection_endpoint, connection_group_items, connection_initial, connection_items,
    filtered_connections, filtered_selected_connection_id, initial_shell_logs, keychain_items,
    known_host_items, launch_status_for_active_menu, list_items, manage_menu_from_index, nav_items,
    port_forward_items, record_shell_log, selected_connection_details, settings_items,
    snippet_items, SelectedConnectionDetails, SettingsOverview, WorkspaceData, SHELL_LOG_LIMIT,
};

#[test]
fn ssh_endpoint_uses_display_username_host_and_port() {
    let connection = Connection {
        display_username: "admin".into(),
        host: "10.10.1.110".into(),
        port: 2022,
        connection_type: ConnectionType::Ssh,
        ..Connection::default()
    };

    assert_eq!(connection_endpoint(&connection), "admin@10.10.1.110:2022");
}

#[test]
fn local_endpoint_falls_back_to_login_shell_and_home() {
    let connection = Connection {
        connection_type: ConnectionType::Local,
        ..Connection::default()
    };

    assert_eq!(connection_endpoint(&connection), "Login Shell / Home");
}

#[test]
fn connection_initial_uses_first_alphanumeric_character() {
    assert_eq!(connection_initial("  chore"), "C");
    assert_eq!(connection_initial("!!!"), "T");
}

#[test]
fn manage_menu_from_index_falls_back_safely() {
    assert_eq!(manage_menu_from_index(1), ManageMenu::Keychain);
    assert_eq!(manage_menu_from_index(-1), ManageMenu::Connections);
    assert_eq!(manage_menu_from_index(99), ManageMenu::Connections);
}

#[test]
fn launch_status_rejects_non_connection_pages_before_spawning() {
    assert_eq!(
        launch_status_for_active_menu(ManageMenu::Keychain, "7"),
        "Switch to Connections to open a terminal"
    );
}

#[test]
fn launch_status_accepts_connections_page_before_opening_tab() {
    assert_eq!(
        launch_status_for_active_menu(ManageMenu::Connections, ""),
        "Opening terminal..."
    );
}

#[test]
fn nav_items_marks_active_menu() {
    let items = nav_items(ManageMenu::KnownHosts);

    assert_eq!(items.len(), MANAGE_MENU_COUNT);
    assert!(items[ManageMenu::KnownHosts.index()].active);
    assert!(!items[ManageMenu::Connections.index()].active);
    assert_eq!(
        items[ManageMenu::KnownHosts.index()].title.to_string(),
        "Known Hosts"
    );
}

#[test]
fn keychain_items_include_keys_and_identities() {
    let items = keychain_items(
        &vec![Key {
            id: 11,
            name: "prod_ed25519".into(),
            public_key: "ssh-ed25519 AAAAC3NzaC1lZDI1NTE5AAAAIK".into(),
            ..Key::default()
        }],
        &vec![Identity {
            id: 22,
            name: "deploy".into(),
            username: "admin".into(),
            ..Identity::default()
        }],
    );

    assert_eq!(items.len(), 2);
    assert_eq!(items[0].id.to_string(), "key-11");
    assert_eq!(items[0].title.to_string(), "prod_ed25519");
    assert_eq!(items[0].badge.to_string(), "KEY");
    assert_eq!(items[1].id.to_string(), "identity-22");
    assert_eq!(items[1].title.to_string(), "deploy");
    assert_eq!(items[1].subtitle.to_string(), "admin");
    assert_eq!(items[1].badge.to_string(), "ID");
}

#[test]
fn port_forward_items_describe_route_and_enabled_state() {
    let items = port_forward_items(&vec![
        PortForward {
            id: 7,
            label: "redis".into(),
            enabled: true,
            bind_address: "127.0.0.1".into(),
            bind_port: 6379,
            destination_host: "10.0.0.10".into(),
            destination_port: 6379,
            ..PortForward::default()
        },
        PortForward {
            id: 8,
            label: "api".into(),
            enabled: false,
            ..PortForward::default()
        },
    ]);

    assert_eq!(items.len(), 2);
    assert_eq!(items[0].id.to_string(), "port-forward-7");
    assert_eq!(items[0].title.to_string(), "redis");
    assert_eq!(
        items[0].subtitle.to_string(),
        "Local 127.0.0.1:6379 -> 10.0.0.10:6379"
    );
    assert_eq!(items[0].badge.to_string(), "ON");
    assert_eq!(items[1].badge.to_string(), "OFF");
}

#[test]
fn snippet_items_include_description_and_command() {
    let items = snippet_items(&vec![Snippet {
        id: 42,
        name: "Restart API".into(),
        description: "Production restart".into(),
        command: "systemctl restart api".into(),
    }]);

    assert_eq!(items.len(), 1);
    assert_eq!(items[0].id.to_string(), "42");
    assert_eq!(items[0].title.to_string(), "Restart API");
    assert_eq!(
        items[0].subtitle.to_string(),
        "Production restart / systemctl restart api"
    );
    assert_eq!(items[0].badge.to_string(), "SNIP");
}

#[test]
fn snippets_page_filters_by_command_text() {
    let workspace = WorkspaceData {
        snippets: vec![
            Snippet {
                name: "Restart API".into(),
                command: "systemctl restart api".into(),
                ..Snippet::default()
            },
            Snippet {
                name: "Tail logs".into(),
                command: "journalctl -fu timon".into(),
                ..Snippet::default()
            },
        ],
        ..WorkspaceData::default()
    };
    let settings = SettingsOverview::default();
    let logs = Vec::new();

    let items = list_items(&workspace, &settings, &logs, ManageMenu::Snippets, "journalctl");

    assert_eq!(items.len(), 1);
    assert_eq!(items[0].title.to_string(), "Tail logs");
}

#[test]
fn known_host_items_use_host_pattern_and_line_number() {
    let items = known_host_items(&vec![KnownHostEntry {
        line_number: 12,
        line: "example.com ssh-ed25519 AAAA".into(),
    }]);

    assert_eq!(items.len(), 1);
    assert_eq!(items[0].title.to_string(), "example.com");
    assert_eq!(items[0].subtitle.to_string(), "line 12");
    assert_eq!(items[0].badge.to_string(), "HOST");
}

#[test]
fn list_items_returns_empty_state_for_empty_migrated_page() {
    let workspace = WorkspaceData::default();
    let settings = SettingsOverview::default();
    let logs = Vec::new();
    let items = list_items(&workspace, &settings, &logs, ManageMenu::Keychain, "");

    assert_eq!(items.len(), 1);
    assert_eq!(items[0].title.to_string(), "Keychain");
    assert_eq!(items[0].badge.to_string(), "EMPTY");
}

#[test]
fn filtered_connections_matches_name_host_and_endpoint() {
    let groups = vec![Group {
        id: 10,
        name: "Production".into(),
        parent_id: None,
    }];
    let connections = vec![
        Connection {
            id: 1,
            name: "Local Shell".into(),
            connection_type: ConnectionType::Local,
            ..Connection::default()
        },
        Connection {
            id: 2,
            name: "Chore".into(),
            display_username: "admin".into(),
            host: "10.10.1.110".into(),
            port: 2022,
            group_id: Some(10),
            connection_type: ConnectionType::Ssh,
            ..Connection::default()
        },
    ];

    assert_eq!(filtered_connections(&groups, &connections, "chore").len(), 1);
    assert_eq!(filtered_connections(&groups, &connections, "10.10.1.110")[0].id, 2);
    assert_eq!(filtered_connections(&groups, &connections, "admin@10.10")[0].id, 2);
    assert_eq!(filtered_connections(&groups, &connections, "production")[0].id, 2);
}

#[test]
fn connection_items_include_group_name_in_summary() {
    let groups = vec![Group {
        id: 10,
        name: "Production".into(),
        parent_id: None,
    }];
    let connections = vec![Connection {
        name: "Chore".into(),
        display_username: "admin".into(),
        host: "10.10.1.110".into(),
        port: 2022,
        group_id: Some(10),
        connection_type: ConnectionType::Ssh,
        ..Connection::default()
    }];

    let items = connection_items(&connections, &groups);

    assert_eq!(
        items[0].endpoint.to_string(),
        "admin@10.10.1.110:2022 / group Production"
    );
}

#[test]
fn connection_group_items_include_counts_and_parent_names() {
    let groups = vec![
        Group {
            id: 1,
            name: "Production".into(),
            parent_id: None,
        },
        Group {
            id: 2,
            name: "Web".into(),
            parent_id: Some(1),
        },
    ];
    let connections = vec![
        Connection {
            group_id: Some(2),
            ..Connection::default()
        },
        Connection {
            group_id: Some(2),
            ..Connection::default()
        },
    ];

    let items = connection_group_items(&groups, &connections, "web");

    assert_eq!(items.len(), 1);
    assert_eq!(items[0].title.to_string(), "Web");
    assert_eq!(
        items[0].subtitle.to_string(),
        "2 connections / parent Production"
    );
    assert_eq!(items[0].badge.to_string(), "GROUP");
}

#[test]
fn connection_group_items_return_empty_state_without_groups() {
    let items = connection_group_items(&vec![], &vec![], "");

    assert_eq!(items.len(), 1);
    assert_eq!(items[0].title.to_string(), "Groups");
    assert_eq!(items[0].badge.to_string(), "EMPTY");
}

#[test]
fn filtered_selected_connection_falls_back_to_first_visible_result() {
    let connections = vec![
        Connection {
            id: 1,
            name: "alpha".into(),
            connection_type: ConnectionType::Local,
            ..Connection::default()
        },
        Connection {
            id: 2,
            name: "beta".into(),
            connection_type: ConnectionType::Local,
            ..Connection::default()
        },
    ];

    assert_eq!(
        filtered_selected_connection_id(&vec![], &connections, "beta", "1"),
        "2"
    );
    assert_eq!(
        filtered_selected_connection_id(&vec![], &connections, "gamma", "1"),
        ""
    );
}

#[test]
fn list_items_filters_current_panel_records() {
    let workspace = WorkspaceData {
        keys: vec![Key {
            name: "prod_ed25519".into(),
            public_key: "ssh-ed25519 AAAAC3".into(),
            ..Key::default()
        }],
        identities: vec![Identity {
            name: "staging".into(),
            username: "deploy".into(),
            ..Identity::default()
        }],
        ..WorkspaceData::default()
    };
    let settings = SettingsOverview::default();

    let logs = Vec::new();
    let items = list_items(&workspace, &settings, &logs, ManageMenu::Keychain, "deploy");

    assert_eq!(items.len(), 1);
    assert_eq!(items[0].title.to_string(), "staging");
}

#[test]
fn settings_items_include_terminal_and_shortcut_summary() {
    let mut settings = SettingsOverview::default();
    settings.font_family = "JetBrains Mono".into();
    settings.font_size_text = format!("{:.0}", 13.0f32);
    settings.default_theme_id = "atom-one-dark".into();
    settings.open_settings_shortcut = "Command+,".into();

    let items = settings_items(&settings);

    assert_eq!(items.len(), 5);
    assert_eq!(items[0].title.to_string(), "Terminal Font");
    assert!(items[0].subtitle.to_string().contains("JetBrains Mono"));
    assert_eq!(items[1].title.to_string(), "Default Theme");
    assert_eq!(items[1].subtitle.to_string(), "atom-one-dark");
    assert_eq!(items[4].title.to_string(), "Shortcuts");
    assert!(items[4].subtitle.to_string().contains("Command+,"));
}

#[test]
fn settings_page_is_searchable() {
    let mut settings = SettingsOverview::default();
    settings.default_theme_id = "solarized-light".into();
    let workspace = WorkspaceData::default();

    let logs = Vec::new();
    let items = list_items(&workspace, &settings, &logs, ManageMenu::Settings, "solarized");

    assert_eq!(items.len(), 1);
    assert_eq!(items[0].title.to_string(), "Default Theme");
}

#[test]
fn initial_shell_logs_summarize_loaded_workspace() {
    let workspace = WorkspaceData {
        connections: vec![Connection::default()],
        keys: vec![Key::default()],
        identities: vec![Identity::default()],
        known_hosts: vec![KnownHostEntry {
            line_number: 1,
            line: "example.com ssh-ed25519 AAAA".into(),
        }],
        ..WorkspaceData::default()
    };
    let settings = SettingsOverview::default();

    let logs = initial_shell_logs(&workspace, &settings);

    assert!(logs[0].contains("started"));
    assert!(logs[1].contains("1 connections"));
    assert!(logs[2].contains("1 known hosts"));
}

#[test]
fn record_shell_log_keeps_latest_entries_with_limit() {
    let mut logs = Vec::new();

    for index in 0..(SHELL_LOG_LIMIT + 5) {
        record_shell_log(&mut logs, format!("event {index}"));
    }

    assert_eq!(logs.len(), SHELL_LOG_LIMIT);
    assert_eq!(logs.first().map(String::as_str), Some("event 5"));
    assert_eq!(logs.last().map(String::as_str), Some("event 204"));
}

#[test]
fn logs_page_maps_and_filters_runtime_events() {
    let workspace = WorkspaceData::default();
    let settings = SettingsOverview::default();
    let logs = vec![
        "Timon Slint shell started".to_string(),
        "Opening connection #42".to_string(),
    ];

    let items = list_items(&workspace, &settings, &logs, ManageMenu::Logs, "opening");

    assert_eq!(items.len(), 1);
    assert_eq!(items[0].badge.to_string(), "LOG");
    assert!(items[0].subtitle.to_string().contains("#42"));
}

#[test]
fn selected_connection_details_uses_requested_connection() {
    let connections = vec![
        Connection {
            id: 1,
            name: "Local".into(),
            connection_type: ConnectionType::Local,
            ..Connection::default()
        },
        Connection {
            id: 2,
            name: "Remote".into(),
            display_username: "admin".into(),
            host: "10.10.1.110".into(),
            port: 2022,
            connection_type: ConnectionType::Ssh,
            ..Connection::default()
        },
    ];

    assert_eq!(
        selected_connection_details(&connections, "2"),
        SelectedConnectionDetails {
            id: "2".into(),
            name: "Remote".into(),
            endpoint: "admin@10.10.1.110:2022".into(),
            connection_type: "SSH".into(),
        }
    );
}

#[test]
fn selected_connection_details_falls_back_to_first_connection() {
    let connections = vec![Connection {
        id: 7,
        name: "Fallback".into(),
        connection_type: ConnectionType::Serial,
        serial_port: "/dev/tty.usbserial".into(),
        baud_rate: 9600,
        ..Connection::default()
    }];

    assert_eq!(
        selected_connection_details(&connections, "missing"),
        SelectedConnectionDetails {
            id: "7".into(),
            name: "Fallback".into(),
            endpoint: "/dev/tty.usbserial / 9600".into(),
            connection_type: "SERIAL".into(),
        }
    );
}
