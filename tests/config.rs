use quay::app::Filter;
use quay::config::{default_filter, default_refresh_interval, Config, GeneralConfig};

#[test]
fn test_default_config() {
    let config = Config::default();
    assert!(!config.general.auto_refresh);
    assert_eq!(config.general.refresh_interval, 5);
    assert_eq!(config.general.default_filter, "all");
    assert!(config.general.remote_host.is_none());
    assert!(config.general.docker_target.is_none());
    assert!(!config.ui.mouse_enabled);
}

#[test]
fn defaults_match_helpers() {
    assert_eq!(default_refresh_interval(), 5);
    assert_eq!(default_filter(), "all");
}

#[test]
fn refresh_ticks_are_four_per_second() {
    let mut g = GeneralConfig::default();
    assert_eq!(g.refresh_ticks(), 20);
    g.refresh_interval = 0;
    assert_eq!(g.refresh_ticks(), 1);
    g.refresh_interval = u32::MAX;
    assert_eq!(g.refresh_ticks(), u32::MAX);
}

#[test]
fn filter_names() {
    assert_eq!(Filter::from_name("local"), Filter::Local);
    assert_eq!(Filter::from_name("ssh"), Filter::Ssh);
    assert_eq!(Filter::from_name("docker"), Filter::Docker);
    assert_eq!(Filter::from_name("all"), Filter::All);
    assert_eq!(Filter::from_name("LOCAL"), Filter::All);
}
