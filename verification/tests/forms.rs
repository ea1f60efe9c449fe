use timon::editors::{
    parse_optional_i64, ConnectionEditor, GroupEditor, IdentityEditor, KeyEditor,
    PortForwardEditor,
};
use timon::models::{Connection, ConnectionType, Group, Identity, Key, PortForward, PortForwardType};

#[test]
fn optional_identifiers_read_blank_and_none_as_nothing() {
    assert_eq!(parse_optional_i64(" 42 "), Some(42));
    assert_eq!(parse_optional_i64("   "), None);
    assert_eq!(parse_optional_i64("None"), None);
    assert_eq!(parse_optional_i64("-7"), Some(-7));
}

#[test]
fn connection_form_shows_identifiers_and_numbers() {
    let c = Connection {
        id: 9,
        group_id: Some(3),
        key_id: None,
        identity_id: Some(-2),
        port: 2022,
        ..Connection::default()
    };
    let e = ConnectionEditor::from_connection(&c);
    assert_eq!(e.id, Some(9));
    assert_eq!(e.group_id, "3");
    assert_eq!(e.key_id, "None");
    assert_eq!(e.identity_id, "-2");
    assert_eq!(e.port, "2022");
    assert_eq!(e.baud_rate, "115200");
    let fresh = ConnectionEditor::new();
    assert_eq!(fresh.name, "New Connection");
    assert_eq!(fresh.group_id, "");
}

#[test]
fn connection_form_errors_in_order() {
    let mut e = ConnectionEditor::new();
    e.port = "twenty".into();
    e.name = " ".into();
    assert_eq!(e.to_connection().err(), Some("端口必须是数字".to_string()));
    e.port = "22".into();
    assert_eq!(e.to_connection().err(), Some("Connection 名称不能为空".to_string()));

    let mut serial = ConnectionEditor::new();
    serial.connection_type = ConnectionType::Serial;
    serial.baud_rate = "fast".into();
    assert_eq!(serial.to_connection().err(), Some("波特率必须是数字".to_string()));
    serial.baud_rate = "9600".into();
    serial.serial_port = "  ".into();
    assert_eq!(serial.to_connection().err(), Some("Serial 设备路径不能为空".to_string()));
    serial.serial_port = " /dev/ttyS0 ".into();
    let saved = serial.to_connection().unwrap();
    assert_eq!(saved.serial_port, "/dev/ttyS0");
    assert_eq!(saved.baud_rate, 9600);
    assert_eq!(saved.port, 0);
    assert_eq!(saved.host, "");
}

#[test]
fn connection_form_keeps_only_the_fields_of_its_type() {
    let mut e = ConnectionEditor::new();
    e.connection_type = ConnectionType::Local;
    e.name = "  Shell  ".into();
    e.host = "ignored".into();
    e.username = "ignored".into();
    e.key_id = "5".into();
    e.shell_path = " /bin/fish ".into();
    e.theme_id = "   ".into();
    let c = e.to_connection().unwrap();
    assert_eq!(c.name, "Shell");
    assert_eq!(c.host, "");
    assert_eq!(c.username, "");
    assert_eq!(c.key_id, None);
    assert_eq!(c.shell_path, "/bin/fish");
    assert_eq!(c.theme_id, "default");
    assert_eq!(c.baud_rate, 115200);
}

#[test]
fn an_ssh_connection_saved_unchanged_comes_back_the_same() {
    let c = Connection {
        id: 12,
        name: "prod".into(),
        group_id: Some(4),
        key_id: Some(8),
        effective_key_id: Some(8),
        identity_id: None,
        host: "10.0.0.5".into(),
        port: 2222,
        username: "root".into(),
        display_username: "root".into(),
        password: "pw".into(),
        theme_id: "atom-one-dark".into(),
        startup_command: "uptime".into(),
        ..Connection::default()
    };
    let back = ConnectionEditor::from_connection(&c).to_connection().unwrap();
    assert_eq!(back.id, c.id);
    assert_eq!(back.name, c.name);
    assert_eq!(back.group_id, c.group_id);
    assert_eq!(back.key_id, c.key_id);
    assert_eq!(back.effective_key_id, c.effective_key_id);
    assert_eq!(back.identity_id, c.identity_id);
    assert_eq!(back.host, c.host);
    assert_eq!(back.port, c.port);
    assert_eq!(back.username, c.username);
    assert_eq!(back.display_username, c.display_username);
    assert_eq!(back.password, c.password);
    assert_eq!(back.theme_id, c.theme_id);
    assert_eq!(back.startup_command, c.startup_command);
    assert_eq!(back.baud_rate, c.baud_rate);
}

#[test]
fn key_identity_and_group_forms_need_a_name() {
    let mut k = KeyEditor::from_key(&Key::default());
    k.name = " ".into();
    assert_eq!(k.to_key().err(), Some("Key 名称不能为空".to_string()));
    k.name = " id_rsa ".into();
    assert_eq!(k.to_key().unwrap().name, "id_rsa");
    assert_eq!(KeyEditor::new().name, "New Key");

    let mut i = IdentityEditor::new();
    assert_eq!(i.key_id, "None");
    i.name = "".into();
    assert_eq!(i.to_identity().err(), Some("Identity 名称不能为空".to_string()));
    i.name = "ops".into();
    i.key_id = "3".into();
    let saved = i.to_identity().unwrap();
    assert_eq!(saved.key_id, Some(3));
    assert_eq!(saved.id, 0);

    let mut g = GroupEditor::from_group(&Group {
        id: 5,
        name: "Web".into(),
        parent_id: Some(1),
    });
    assert_eq!(g.parent_id, "1");
    assert_eq!(g.to_group().unwrap().parent_id, Some(1));
    g.name = "\t".into();
    assert_eq!(g.to_group().err(), Some("Group 名称不能为空".to_string()));
    assert_eq!(GroupEditor::new().name, "New Group");
    let _ = Identity::default();
}

#[test]
fn port_forward_form_checks_ports() {
    let mut e = PortForwardEditor::new();
    assert_eq!(e.bind_port, "0");
    e.bind_port = "x".into();
    assert_eq!(e.to_port_forward().err(), Some("Bind Port 必须是数字".to_string()));
    e.bind_port = " 8080 ".into();
    e.destination_port = "y".into();
    assert_eq!(e.to_port_forward().err(), Some("Destination Port 必须是数字".to_string()));
    e.forward_type = PortForwardType::Dynamic;
    let f = e.to_port_forward().unwrap();
    assert_eq!(f.bind_port, 8080);
    assert_eq!(f.destination_port, 0);
    assert_eq!(f.connection_id, None);

    let shown = PortForwardEditor::from_port_forward(&PortForward {
        connection_id: Some(2),
        destination_port: 443,
        ..PortForward::default()
    });
    assert_eq!(shown.connection_id, "2");
    assert_eq!(shown.to_port_forward().unwrap().destination_port, 443);
}
