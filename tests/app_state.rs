use quay::app::{App, ConnectionField, ConnectionInput, ForwardField, ForwardInput};
use quay::connection::Connection;
use quay::port::{PortEntry, PortSource};

#[test]
fn test_refresh_ticks_default() {
    let app = App::new();
    assert_eq!(app.refresh_ticks, 20);
}

#[test]
fn test_should_refresh_uses_refresh_ticks() {
    let mut app = App::new();
    app.auto_refresh = true;
    app.refresh_ticks = 10;

    app.tick_count = 0;
    assert!(!app.should_refresh());

    app.tick_count = 5;
    assert!(!app.should_refresh());

    app.tick_count = 10;
    assert!(app.should_refresh());

    app.tick_count = 20;
    assert!(app.should_refresh());

    app.auto_refresh = false;
    app.tick_count = 10;
    assert!(!app.should_refresh());
}

#[test]
fn test_forward_input_empty_is_invalid() {
    let input = ForwardInput::new();
    assert!(!input.is_valid());
    assert!(!input.is_local_port_valid());
    assert!(!input.is_remote_host_valid());
    assert!(!input.is_remote_port_valid());
    assert!(!input.is_ssh_host_valid());
}

#[test]
fn test_forward_input_valid() {
    let input = ForwardInput {
        local_port: "8080".to_string(),
        remote_host: "localhost".to_string(),
        remote_port: "80".to_string(),
        ssh_host: "myserver".to_string(),
        active_field: ForwardField::LocalPort,
    };
    assert!(input.is_valid());
    assert!(input.is_local_port_valid());
    assert!(input.is_remote_host_valid());
    assert!(input.is_remote_port_valid());
    assert!(input.is_ssh_host_valid());
}

#[test]
fn test_forward_input_bad_port() {
    let input = ForwardInput {
        local_port: "99999".to_string(),
        remote_host: "localhost".to_string(),
        remote_port: "80".to_string(),
        ssh_host: "myserver".to_string(),
        active_field: ForwardField::LocalPort,
    };
    assert!(!input.is_local_port_valid());
    assert!(!input.is_valid());
}

#[test]
fn test_forward_input_non_numeric_port() {
    let input = ForwardInput {
        local_port: "abc".to_string(),
        remote_host: "localhost".to_string(),
        remote_port: "80".to_string(),
        ssh_host: "myserver".to_string(),
        active_field: ForwardField::LocalPort,
    };
    assert!(!input.is_local_port_valid());
    assert!(!input.is_valid());
}

#[test]
fn test_forward_input_whitespace_host() {
    let input = ForwardInput {
        local_port: "8080".to_string(),
        remote_host: "   ".to_string(),
        remote_port: "80".to_string(),
        ssh_host: "myserver".to_string(),
        active_field: ForwardField::LocalPort,
    };
    assert!(!input.is_remote_host_valid());
    assert!(!input.is_valid());
}

fn local_entry(port: u16, name: &str, pid: Option<u32>) -> PortEntry {
    PortEntry {
        source: PortSource::Local,
        local_port: port,
        remote_host: None,
        remote_port: None,
        process_name: name.to_string(),
        pid,
        container_id: None,
        container_name: None,
        ssh_host: None,
        is_open: true,
        is_loopback: false,
    }
}

#[test]
fn test_forward_input_from_entry() {
    let entry = local_entry(3000, "node", Some(1234));
    let input = ForwardInput::from_entry(&entry);
    assert_eq!(input.local_port, "3000");
    assert_eq!(input.remote_host, "localhost");
    assert_eq!(input.remote_port, "3000");
    assert_eq!(input.ssh_host, "");
    assert_eq!(input.active_field, ForwardField::SshHost);
}

#[test]
fn test_forward_input_from_entry_with_ssh_host() {
    let entry = PortEntry {
        source: PortSource::Ssh,
        local_port: 9000,
        remote_host: Some("localhost".to_string()),
        remote_port: Some(80),
        process_name: "ssh".to_string(),
        pid: Some(4567),
        container_id: None,
        container_name: None,
        ssh_host: Some("myserver".to_string()),
        is_open: true,
        is_loopback: false,
    };
    let input = ForwardInput::from_entry(&entry);
    assert_eq!(input.local_port, "9000");
    assert_eq!(input.remote_host, "localhost");
    assert_eq!(input.remote_port, "9000");
    assert_eq!(input.ssh_host, "myserver");
    assert_eq!(input.active_field, ForwardField::LocalPort);
}

#[test]
fn test_forward_input_to_spec() {
    let input = ForwardInput {
        local_port: "8080".to_string(),
        remote_host: "localhost".to_string(),
        remote_port: "80".to_string(),
        ssh_host: "myserver".to_string(),
        active_field: ForwardField::LocalPort,
    };
    let (spec, host) = input.to_spec().unwrap();
    assert_eq!(spec, "8080:localhost:80");
    assert_eq!(host, "myserver");
}

#[test]
fn test_forward_input_to_spec_invalid() {
    let input = ForwardInput::new();
    assert!(input.to_spec().is_none());
}

#[test]
fn test_connection_input_valid() {
    let input = ConnectionInput {
        name: "Test".to_string(),
        remote_host: String::new(),
        docker_target: String::new(),
        active_field: ConnectionField::Name,
    };
    assert!(input.is_valid());
    assert!(input.is_name_valid());
}

#[test]
fn test_connection_input_empty_name_invalid() {
    let input = ConnectionInput::new();
    assert!(!input.is_valid());
    assert!(!input.is_name_valid());
}

#[test]
fn test_connection_input_whitespace_name_invalid() {
    let input = ConnectionInput {
        name: "   ".to_string(),
        remote_host: String::new(),
        docker_target: String::new(),
        active_field: ConnectionField::Name,
    };
    assert!(!input.is_valid());
}

#[test]
fn test_connection_input_to_connection() {
    let input = ConnectionInput {
        name: "My Server".to_string(),
        remote_host: "user@server".to_string(),
        docker_target: String::new(),
        active_field: ConnectionField::Name,
    };
    let conn = input.to_connection().unwrap();
    assert_eq!(conn.name, "My Server");
    assert_eq!(conn.remote_host, Some("user@server".to_string()));
    assert!(conn.docker_target.is_none());
}

#[test]
fn test_connection_input_to_connection_with_docker() {
    let input = ConnectionInput {
        name: "Docker".to_string(),
        remote_host: "ailab".to_string(),
        docker_target: "syntopic-dev".to_string(),
        active_field: ConnectionField::Name,
    };
    let conn = input.to_connection().unwrap();
    assert_eq!(conn.name, "Docker");
    assert_eq!(conn.remote_host, Some("ailab".to_string()));
    assert_eq!(conn.docker_target, Some("syntopic-dev".to_string()));
}

#[test]
fn test_connection_input_to_connection_invalid() {
    let input = ConnectionInput::new();
    assert!(input.to_connection().is_none());
}

#[test]
fn test_connection_field_next() {
    assert_eq!(ConnectionField::Name.next(), ConnectionField::RemoteHost);
    assert_eq!(ConnectionField::RemoteHost.next(), ConnectionField::DockerTarget);
    assert_eq!(ConnectionField::DockerTarget.next(), ConnectionField::Name);
}

#[test]
fn test_connection_field_prev() {
    assert_eq!(ConnectionField::Name.prev(), ConnectionField::DockerTarget);
    assert_eq!(ConnectionField::RemoteHost.prev(), ConnectionField::Name);
    assert_eq!(ConnectionField::DockerTarget.prev(), ConnectionField::RemoteHost);
}

#[test]
fn test_has_multiple_connections() {
    let mut app = App::new();
    assert!(!app.has_multiple_connections());
    app.connections.push(Connection {
        name: "Test".to_string(),
        remote_host: None,
        docker_target: None,
    });
    assert!(app.has_multiple_connections());
}

#[test]
fn test_next_prev_connection() {
    let mut app = App::new();
    app.connections.push(Connection {
        name: "A".to_string(),
        remote_host: None,
        docker_target: None,
    });
    app.connections.push(Connection {
        name: "B".to_string(),
        remote_host: None,
        docker_target: None,
    });

    assert_eq!(app.active_connection, 0);
    app.next_connection();
    assert_eq!(app.active_connection, 1);
    app.next_connection();
    assert_eq!(app.active_connection, 2);
    app.next_connection();
    assert_eq!(app.active_connection, 0);

    app.prev_connection();
    assert_eq!(app.active_connection, 2);
    app.prev_connection();
    assert_eq!(app.active_connection, 1);
}

#[test]
fn test_apply_connection() {
    let mut app = App::new();
    app.connections.push(Connection {
        name: "Remote".to_string(),
        remote_host: Some("user@server".to_string()),
        docker_target: Some("container".to_string()),
    });
    app.active_connection = 1;
    app.apply_connection();
    assert_eq!(app.remote_host, Some("user@server".to_string()));
    assert_eq!(app.docker_target, Some("container".to_string()));
    assert!(app.container_ip.is_none());
}

#[test]
fn test_is_remote() {
    let mut app = App::new();
    assert!(!app.is_remote());
    app.remote_host = Some("user@server".to_string());
    assert!(app.is_remote());
}

#[test]
fn test_is_docker_target() {
    let mut app = App::new();
    assert!(!app.is_docker_target());
    app.docker_target = Some("my-container".to_string());
    assert!(app.is_docker_target());
}

#[test]
fn test_forward_input_for_remote_entry() {
    let entry = local_entry(18080, "python", Some(5555));
    let input = ForwardInput::for_remote_entry(&entry, "user@server");
    assert_eq!(input.local_port, "18080");
    assert_eq!(input.remote_host, "localhost");
    assert_eq!(input.remote_port, "18080");
    assert_eq!(input.ssh_host, "user@server");
    assert_eq!(input.active_field, ForwardField::LocalPort);
}

#[test]
fn test_forward_input_invalid_field_names() {
    let input = ForwardInput::new();
    let names = input.invalid_field_names();
    assert_eq!(names.len(), 4);

    let input = ForwardInput {
        local_port: "8080".to_string(),
        remote_host: "localhost".to_string(),
        remote_port: "80".to_string(),
        ssh_host: String::new(),
        active_field: ForwardField::LocalPort,
    };
    let names = input.invalid_field_names();
    assert_eq!(names, vec!["SSH Host"]);
}
