use quay::preset::{make_forward_spec, Preset, Presets};

#[test]
fn test_default_presets() {
    let presets = Presets::default();
    assert!(presets.preset.is_empty());
}

#[test]
fn preset_spec_joins_ports_and_host() {
    let p = Preset {
        name: "Production DB".to_string(),
        key: Some("1".to_string()),
        local_port: 5432,
        remote_host: "localhost".to_string(),
        remote_port: 15432,
        ssh_host: "prod-bastion".to_string(),
    };
    let (spec, host) = p.to_spec();
    assert_eq!(spec, "5432:localhost:15432");
    assert_eq!(host, "prod-bastion");
    assert_eq!(make_forward_spec(1, "db", 65535), "1:db:65535");
}
