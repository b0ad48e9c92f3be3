use quay::connection::{Connection, Connections};

#[test]
fn test_local_connection() {
    let local = Connection::local();
    assert_eq!(local.name, "Local");
    assert!(local.remote_host.is_none());
    assert!(local.docker_target.is_none());
}

#[test]
fn test_default_connections() {
    let conns = Connections::default();
    assert!(conns.connection.is_empty());
}

#[test]
fn test_all_with_local() {
    let conns = Connections {
        connection: vec![Connection {
            name: "Production".to_string(),
            remote_host: Some("user@prod".to_string()),
            docker_target: None,
        }],
    };
    let all = conns.all_with_local();
    assert_eq!(all.len(), 2);
    assert_eq!(all[0].name, "Local");
    assert_eq!(all[1].name, "Production");
}

#[test]
fn test_all_with_local_empty() {
    let conns = Connections::default();
    let all = conns.all_with_local();
    assert_eq!(all.len(), 1);
    assert_eq!(all[0].name, "Local");
}

#[test]
fn test_add_connection() {
    let mut conns = Connections::default();
    conns.add(Connection {
        name: "Test".to_string(),
        remote_host: Some("test@host".to_string()),
        docker_target: None,
    });
    assert_eq!(conns.connection.len(), 1);
    assert_eq!(conns.connection[0].name, "Test");
}

#[test]
fn test_remove_connection() {
    let mut conns = Connections {
        connection: vec![
            Connection {
                name: "A".to_string(),
                remote_host: None,
                docker_target: None,
            },
            Connection {
                name: "B".to_string(),
                remote_host: None,
                docker_target: None,
            },
        ],
    };
    assert!(conns.remove(0));
    assert_eq!(conns.connection.len(), 1);
    assert_eq!(conns.connection[0].name, "B");
}

#[test]
fn test_remove_out_of_bounds() {
    let mut conns = Connections::default();
    assert!(!conns.remove(0));
}
