use quay::port::{
    apply_probe_results, dedup_entries, merge_collected, probe_targets, reconcile, sort_entries,
    PortEntry, PortSource,
};

fn make_entry(source: PortSource, local_port: u16) -> PortEntry {
    PortEntry {
        source,
        local_port,
        remote_host: None,
        remote_port: None,
        process_name: String::new(),
        pid: None,
        container_id: None,
        container_name: None,
        ssh_host: None,
        is_open: false,
        is_loopback: false,
    }
}

#[test]
fn test_dedup_ssh_overrides_local() {
    let mut entries = vec![
        make_entry(PortSource::Local, 9000),
        make_entry(PortSource::Ssh, 9000),
    ];
    dedup_entries(&mut entries);
    assert_eq!(entries.len(), 1);
    assert_eq!(entries[0].source, PortSource::Ssh);
    assert_eq!(entries[0].local_port, 9000);
}

#[test]
fn test_dedup_docker_overrides_local() {
    let mut entries = vec![
        make_entry(PortSource::Local, 8080),
        make_entry(PortSource::Docker, 8080),
    ];
    dedup_entries(&mut entries);
    assert_eq!(entries.len(), 1);
    assert_eq!(entries[0].source, PortSource::Docker);
    assert_eq!(entries[0].local_port, 8080);
}

#[test]
fn test_dedup_no_overlap() {
    let mut entries = vec![
        make_entry(PortSource::Local, 3000),
        make_entry(PortSource::Ssh, 9000),
        make_entry(PortSource::Docker, 8080),
    ];
    dedup_entries(&mut entries);
    assert_eq!(entries.len(), 3);
}

#[test]
fn dedup_keeps_order_and_empty_stays_empty() {
    let mut none: Vec<PortEntry> = Vec::new();
    dedup_entries(&mut none);
    assert!(none.is_empty());
    let mut entries = vec![
        make_entry(PortSource::Ssh, 1),
        make_entry(PortSource::Local, 2),
        make_entry(PortSource::Local, 1),
        make_entry(PortSource::Docker, 2),
        make_entry(PortSource::Local, 3),
    ];
    dedup_entries(&mut entries);
    let got: Vec<(PortSource, u16)> = entries.iter().map(|e| (e.source, e.local_port)).collect();
    assert_eq!(got, vec![(PortSource::Ssh, 1), (PortSource::Docker, 2), (PortSource::Local, 3)]);
}

#[test]
fn sort_puts_open_first_then_ports() {
    let mut a = make_entry(PortSource::Local, 9000);
    a.is_open = true;
    let mut b = make_entry(PortSource::Local, 80);
    b.is_open = true;
    let c = make_entry(PortSource::Local, 22);
    let mut entries = vec![c, a, b];
    sort_entries(&mut entries);
    let got: Vec<(bool, u16)> = entries.iter().map(|e| (e.is_open, e.local_port)).collect();
    assert_eq!(got, vec![(true, 80), (true, 9000), (false, 22)]);
    for w in entries.windows(2) {
        assert!(w[0].is_open >= w[1].is_open);
        if w[0].is_open == w[1].is_open {
            assert!(w[0].local_port <= w[1].local_port);
        }
    }
}

#[test]
fn probes_write_back_into_every_record_of_the_port() {
    let mut entries = vec![
        make_entry(PortSource::Local, 5000),
        make_entry(PortSource::Ssh, 6000),
        make_entry(PortSource::Docker, 5000),
    ];
    assert_eq!(probe_targets(&entries, false), vec![5000, 6000]);
    assert_eq!(probe_targets(&entries, true), vec![6000]);
    apply_probe_results(&mut entries, &vec![(5000, true), (7000, true)]);
    assert!(entries[0].is_open);
    assert!(!entries[1].is_open);
    assert!(entries[2].is_open);
}

#[test]
fn reconcile_dedups_probes_and_sorts() {
    let local = vec![make_entry(PortSource::Local, 9000), make_entry(PortSource::Local, 3000)];
    let docker = vec![make_entry(PortSource::Docker, 8080)];
    let ssh = vec![make_entry(PortSource::Ssh, 9000)];
    let merged = merge_collected(&local, &docker, &ssh);
    assert_eq!(merged.len(), 3);
    let r = reconcile(&local, &docker, &ssh, &vec![(8080, true), (3000, false), (9000, true)]);
    let got: Vec<(PortSource, u16, bool)> =
        r.iter().map(|e| (e.source, e.local_port, e.is_open)).collect();
    assert_eq!(
        got,
        vec![
            (PortSource::Docker, 8080, true),
            (PortSource::Ssh, 9000, true),
            (PortSource::Local, 3000, false)
        ]
    );
}

#[test]
fn displays_of_records() {
    let mut e = make_entry(PortSource::Ssh, 9000);
    assert_eq!(e.remote_display(), "");
    e.remote_host = Some("db".to_string());
    assert_eq!(e.remote_display(), "db");
    e.remote_port = Some(5432);
    assert_eq!(e.remote_display(), "db:5432");
    e.process_name = "ssh".to_string();
    assert_eq!(e.process_display(), "ssh");
    e.pid = Some(42);
    assert_eq!(e.process_display(), "ssh (pid:42)");
    let mut d = make_entry(PortSource::Docker, 1);
    assert_eq!(d.process_display(), "unknown ()");
    d.container_name = Some("pg".to_string());
    d.container_id = Some("abcdef0123456789".to_string());
    assert_eq!(d.process_display(), "pg (abcdef01)");
    assert_eq!(PortSource::Docker.label(), "DOCKER");
}

#[test]
fn sort_keeps_order_of_equal_keys() {
    let mut a = make_entry(PortSource::Local, 7000);
    a.process_name = "first".to_string();
    let mut b = make_entry(PortSource::Docker, 7000);
    b.process_name = "second".to_string();
    let mut c = make_entry(PortSource::Ssh, 7000);
    c.process_name = "third".to_string();
    let mut entries = vec![a, make_entry(PortSource::Local, 1), b, c];
    sort_entries(&mut entries);
    let names: Vec<&str> = entries.iter().map(|e| e.process_name.as_str()).collect();
    assert_eq!(names, vec!["", "first", "second", "third"]);
}
