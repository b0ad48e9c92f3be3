use std::collections::HashSet;

use quay::dev::{find_scenario, generate_mock_entries, listen_ports, scenario_entries};
use quay::port::PortSource;

#[test]
fn test_mock_entries_not_empty() {
    let entries = generate_mock_entries();
    assert!(!entries.is_empty());
}

#[test]
fn test_mock_entries_have_all_sources() {
    let entries = generate_mock_entries();
    let sources: HashSet<_> = entries.iter().map(|e| &e.source).collect();
    assert!(sources.contains(&PortSource::Local));
    assert!(sources.contains(&PortSource::Ssh));
    assert!(sources.contains(&PortSource::Docker));
}

#[test]
fn test_mock_entries_have_mixed_open_status() {
    let entries = generate_mock_entries();
    let has_open = entries.iter().any(|e| e.is_open);
    let has_closed = entries.iter().any(|e| !e.is_open);
    assert!(has_open);
    assert!(has_closed);
}

#[test]
fn test_mock_entries_have_unique_ports() {
    let entries = generate_mock_entries();
    let ports: HashSet<u16> = entries.iter().map(|e| e.local_port).collect();
    assert_eq!(ports.len(), entries.len());
}

#[test]
fn test_mock_docker_entries_have_container_fields() {
    let entries = generate_mock_entries();
    let docker_entries: Vec<_> = entries.iter().filter(|e| e.source == PortSource::Docker).collect();
    assert!(!docker_entries.is_empty());
    for entry in docker_entries {
        assert!(entry.container_id.is_some());
        assert!(entry.container_name.is_some());
    }
}

#[test]
fn test_mock_local_entries_have_pid() {
    let entries = generate_mock_entries();
    let local_entries: Vec<_> = entries.iter().filter(|e| e.source == PortSource::Local).collect();
    assert!(!local_entries.is_empty());
    for entry in local_entries {
        assert!(entry.pid.is_some());
    }
}

#[test]
fn mock_entries_are_sorted() {
    let ports: Vec<u16> = generate_mock_entries().iter().map(|e| e.local_port).collect();
    assert_eq!(ports, vec![3000, 5432, 6379, 8080, 9000, 4200, 9090, 27017]);
}

#[test]
fn test_scenario_lookup() {
    assert!(find_scenario("web").is_some());
    assert!(find_scenario("micro").is_some());
    assert!(find_scenario("full").is_some());
    assert!(find_scenario("nonexistent").is_none());
}

#[test]
fn test_scenario_web_ports() {
    let scenario = find_scenario("web").unwrap();
    let ports: Vec<u16> = scenario.entries.iter().map(|e| e.port).collect();
    assert_eq!(ports, vec![3000, 5432, 6379]);
}

#[test]
fn test_scenario_micro_has_five() {
    let scenario = find_scenario("micro").unwrap();
    assert_eq!(scenario.entries.len(), 5);
}

#[test]
fn test_scenario_full_has_inactive() {
    let scenario = find_scenario("full").unwrap();
    let inactive: Vec<_> = scenario.entries.iter().filter(|e| !e.should_listen).collect();
    assert!(!inactive.is_empty());
    assert_eq!(inactive.len(), 2);
}

#[test]
fn scenario_records_and_listeners() {
    let scenario = find_scenario("full").unwrap();
    assert_eq!(listen_ports(&scenario), vec![3000, 5432, 6379]);
    let entries = scenario_entries(&scenario);
    let got: Vec<(u16, bool)> = entries.iter().map(|e| (e.local_port, e.is_open)).collect();
    assert_eq!(got, vec![(3000, true), (5432, true), (6379, true), (8080, false), (9090, false)]);
    assert_eq!(entries[3].process_name, "proxy (inactive)");
}
