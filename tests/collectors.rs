use quay::docker::{container_ip_from, parse_docker_ps, parse_ss_output};
use quay::local::{extract_port, parse_lsof_fields};
use quay::port::PortSource;
use quay::ssh::{extract_ssh_host, parse_ssh_forwards};

#[test]
fn test_parse_lsof_fields() {
    let output = "p12345\ncnode\nn*:3000\np5678\ncpython\nn127.0.0.1:8080\n";
    let entries = parse_lsof_fields(output, false);
    assert_eq!(entries.len(), 2);
    assert_eq!(entries[0].local_port, 3000);
    assert_eq!(entries[0].process_name, "node");
    assert_eq!(entries[0].pid, Some(12345));
    assert!(!entries[0].is_open);
    assert_eq!(entries[1].local_port, 8080);
    assert_eq!(entries[1].process_name, "python");
}

#[test]
fn test_parse_lsof_ipv6() {
    let output = "p1234\ncnginx\nn[::1]:80\n";
    let entries = parse_lsof_fields(output, false);
    assert_eq!(entries.len(), 1);
    assert_eq!(entries[0].local_port, 80);
}

#[test]
fn test_parse_lsof_remote_mode() {
    let output = "p12345\ncpython\nn*:18080\n";
    let entries = parse_lsof_fields(output, true);
    assert_eq!(entries.len(), 1);
    assert_eq!(entries[0].local_port, 18080);
    assert!(entries[0].is_open);
}

#[test]
fn test_extract_port() {
    assert_eq!(extract_port("*:3000"), Some(3000));
    assert_eq!(extract_port("127.0.0.1:8080"), Some(8080));
    assert_eq!(extract_port("[::1]:80"), Some(80));
    assert_eq!(extract_port("invalid"), None);
}

#[test]
fn lsof_keeps_first_record_per_port_in_port_order() {
    let output = "p20\ncsecond\nn*:9000\nn[::]:9000\np10\ncfirst\nn*:80\nn*:0\nn*:70000\n";
    let entries = parse_lsof_fields(output, false);
    assert_eq!(entries.len(), 2);
    assert_eq!(entries[0].local_port, 80);
    assert_eq!(entries[0].process_name, "first");
    assert_eq!(entries[1].local_port, 9000);
    assert_eq!(entries[1].process_name, "second");
    assert_eq!(entries[1].pid, Some(20));
}

#[test]
fn lsof_empty_output_gives_nothing() {
    assert!(parse_lsof_fields("", false).is_empty());
    assert_eq!(extract_port("host:0"), None);
    assert_eq!(extract_port("host:65535"), Some(65535));
    assert_eq!(extract_port("host:65536"), None);
}

#[test]
fn test_parse_ssh_local_forward() {
    let output =
        "user  12345  0.0  0.1 123456 7890 ?  Ss  10:00  0:00 ssh -L 9000:localhost:80 remote";
    let entries = parse_ssh_forwards(output);
    assert_eq!(entries.len(), 1);
    assert_eq!(entries[0].local_port, 9000);
    assert_eq!(entries[0].remote_host, Some("localhost".to_string()));
    assert_eq!(entries[0].remote_port, Some(80));
    assert_eq!(entries[0].process_name, "ssh");
    assert_eq!(entries[0].ssh_host, Some("remote".to_string()));
}

#[test]
fn test_parse_ssh_remote_forward() {
    let output = "user  12345  0.0  0.1 123456 7890 ?  Ss  10:00  0:00 ssh -R 8080:localhost:3000 remote";
    let entries = parse_ssh_forwards(output);
    assert_eq!(entries.len(), 1);
    assert_eq!(entries[0].local_port, 3000);
    assert_eq!(entries[0].process_name, "ssh -R");
    assert_eq!(entries[0].ssh_host, Some("remote".to_string()));
}

#[test]
fn test_parse_ssh_multiple_forwards() {
    let output = "user  12345  0.0  0.1 123456 7890 ?  Ss  10:00  0:00 ssh -L 9000:localhost:80 -L 9001:localhost:443 remote";
    let entries = parse_ssh_forwards(output);
    assert_eq!(entries.len(), 2);
    assert_eq!(entries[0].local_port, 9000);
    assert_eq!(entries[1].local_port, 9001);
    assert_eq!(entries[0].ssh_host, Some("remote".to_string()));
    assert_eq!(entries[1].ssh_host, Some("remote".to_string()));
}

#[test]
fn test_parse_ssh_no_forwards() {
    let output = "user  12345  0.0  0.1 123456 7890 ?  Ss  10:00  0:00 ssh remote";
    let entries = parse_ssh_forwards(output);
    assert!(entries.is_empty());
}

#[test]
fn test_ssh_host_with_user_at() {
    let output = "user  12345  0.0  0.1 123456 7890 ?  Ss  10:00  0:00 ssh -L 9000:localhost:80 user@example.com";
    let entries = parse_ssh_forwards(output);
    assert_eq!(entries.len(), 1);
    assert_eq!(entries[0].ssh_host, Some("user@example.com".to_string()));
}

#[test]
fn test_ssh_host_with_flags() {
    let output = "user  12345  0.0  0.1 123456 7890 ?  Ss  10:00  0:00 ssh -f -N -L 9000:localhost:80 myserver";
    let entries = parse_ssh_forwards(output);
    assert_eq!(entries.len(), 1);
    assert_eq!(entries[0].ssh_host, Some("myserver".to_string()));
}

#[test]
fn test_extract_ssh_host_basic() {
    let line =
        "user  12345  0.0  0.1 123456 7890 ?  Ss  10:00  0:00 ssh -L 9000:localhost:80 bastion";
    assert_eq!(extract_ssh_host(line), Some("bastion".to_string()));
}

#[test]
fn test_extract_ssh_host_none_when_last_is_port_spec() {
    let line = "user  12345  0.0  0.1 123456 7890 ?  Ss  10:00  0:00 ssh -L 9000:localhost:80";
    assert_eq!(extract_ssh_host(line), None);
}

#[test]
fn test_extract_ssh_host_none_when_last_is_flag() {
    let line =
        "user  12345  0.0  0.1 123456 7890 ?  Ss  10:00  0:00 ssh -L 9000:localhost:80 -N";
    assert_eq!(extract_ssh_host(line), None);
}

#[test]
fn ssh_scenario_bastion_record() {
    let line = "user  4242  0.0  0.1 1 1 ?  Ss  10:00  0:00 ssh -L 9000:localhost:80 bastion";
    let entries = parse_ssh_forwards(line);
    assert_eq!(entries.len(), 1);
    assert_eq!(entries[0].source, PortSource::Ssh);
    assert_eq!(entries[0].local_port, 9000);
    assert_eq!(entries[0].remote_host, Some("localhost".to_string()));
    assert_eq!(entries[0].remote_port, Some(80));
    assert_eq!(entries[0].ssh_host, Some("bastion".to_string()));
    assert_eq!(entries[0].pid, Some(4242));
}

#[test]
fn ssh_reverse_forward_tags_remote_side() {
    let line = "u 77 0 0 1 1 ? S 1 0 /usr/bin/ssh -R8080:db:3000 -L 0:x:1 host";
    let entries = parse_ssh_forwards(line);
    assert_eq!(entries.len(), 1);
    assert_eq!(entries[0].local_port, 3000);
    assert_eq!(entries[0].remote_host, Some("(R) db:8080".to_string()));
    assert_eq!(entries[0].remote_port, Some(8080));
    assert_eq!(entries[0].ssh_host, Some("host".to_string()));
    assert_eq!(extract_ssh_host("no command here"), None);
}

#[test]
fn test_parse_docker_ps() {
    let output = "abc123def456\tpostgres\t0.0.0.0:5432->5432/tcp\n\
                  def456abc123\tredis\t0.0.0.0:6379->6379/tcp";
    let entries = parse_docker_ps(output, false);
    assert_eq!(entries.len(), 2);
    assert_eq!(entries[0].local_port, 5432);
    assert_eq!(entries[0].container_name, Some("postgres".to_string()));
    assert_eq!(entries[1].local_port, 6379);
}

#[test]
fn test_parse_docker_ps_multiple_ports() {
    let output = "abc123\tweb\t0.0.0.0:80->80/tcp, 0.0.0.0:443->443/tcp";
    let entries = parse_docker_ps(output, false);
    assert_eq!(entries.len(), 2);
    assert_eq!(entries[0].local_port, 80);
    assert_eq!(entries[1].local_port, 443);
}

#[test]
fn test_parse_docker_ps_ipv6() {
    let output = "abc123\tnginx\t:::8080->80/tcp";
    let entries = parse_docker_ps(output, false);
    assert_eq!(entries.len(), 1);
    assert_eq!(entries[0].local_port, 8080);
    assert_eq!(entries[0].remote_port, Some(80));
}

#[test]
fn test_parse_docker_ps_port_range() {
    let output =
        "abc123\tsyntopic-dev\t0.0.0.0:3000-3001->3000-3001/tcp, :::3000-3001->3000-3001/tcp";
    let entries = parse_docker_ps(output, false);
    assert_eq!(entries.len(), 2);
    assert_eq!(entries[0].local_port, 3000);
    assert_eq!(entries[0].remote_port, Some(3000));
    assert_eq!(entries[1].local_port, 3001);
    assert_eq!(entries[1].remote_port, Some(3001));
}

#[test]
fn test_parse_docker_ps_mixed_range_and_single() {
    let output = "abc123\tapp\t0.0.0.0:5173-5174->5173-5174/tcp, 0.0.0.0:5432->5432/tcp";
    let entries = parse_docker_ps(output, false);
    assert_eq!(entries.len(), 3);
    assert_eq!(entries[0].local_port, 5173);
    assert_eq!(entries[1].local_port, 5174);
    assert_eq!(entries[2].local_port, 5432);
}

#[test]
fn test_parse_docker_ps_ipv4_ipv6_dedup() {
    let output = "abc123\tpostgres\t0.0.0.0:5432->5432/tcp, :::5432->5432/tcp";
    let entries = parse_docker_ps(output, false);
    assert_eq!(entries.len(), 1);
    assert_eq!(entries[0].local_port, 5432);
}

#[test]
fn test_parse_docker_ps_empty() {
    let entries = parse_docker_ps("", false);
    assert!(entries.is_empty());
}

#[test]
fn docker_range_round_trip_scenario() {
    let entries = parse_docker_ps("id1\tweb\t0.0.0.0:3000-3001->3000-3001/tcp", true);
    assert_eq!(entries.len(), 2);
    assert_eq!(entries[0].local_port, 3000);
    assert_eq!(entries[0].remote_port, Some(3000));
    assert_eq!(entries[1].local_port, 3001);
    assert_eq!(entries[1].remote_port, Some(3001));
    assert!(entries[0].is_open);
    assert_eq!(entries[0].source, PortSource::Docker);
    assert_eq!(entries[0].container_id, Some("id1".to_string()));
}

#[test]
fn docker_uneven_ranges_take_shorter_span() {
    let entries = parse_docker_ps("c\tn\t0.0.0.0:4000-4003->5000-5001/tcp", false);
    assert_eq!(entries.len(), 2);
    assert_eq!(entries[0].local_port, 4000);
    assert_eq!(entries[0].remote_port, Some(5000));
    assert_eq!(entries[1].local_port, 4001);
    assert_eq!(entries[1].remote_port, Some(5001));
    // a line without three tab-separated fields is skipped
    assert!(parse_docker_ps("only\tname", false).is_empty());
}

#[test]
fn test_parse_ss_output() {
    let output = "\
State  Recv-Q Send-Q  Local Address:Port   Peer Address:Port Process
LISTEN 0      511           *:3000              *:*
LISTEN 0      511     0.0.0.0:5173        0.0.0.0:*
";
    let entries = parse_ss_output(output, "mycontainer");
    assert_eq!(entries.len(), 2);
    assert_eq!(entries[0].local_port, 3000);
    assert_eq!(entries[0].source, PortSource::Docker);
    assert!(entries[0].is_open);
    assert!(!entries[0].is_loopback);
    assert_eq!(entries[0].container_name, Some("mycontainer".to_string()));
    assert_eq!(entries[0].process_name, "mycontainer");
    assert_eq!(entries[1].local_port, 5173);
    assert!(!entries[1].is_loopback);
}

#[test]
fn test_parse_ss_output_ipv6_dedup() {
    let output = "\
State  Recv-Q Send-Q  Local Address:Port   Peer Address:Port Process
LISTEN 0      511           *:3000              *:*
LISTEN 0      511        [::]:3000           [::]:*
LISTEN 0      511     0.0.0.0:5173        0.0.0.0:*
LISTEN 0      511        [::]:5173           [::]:*
";
    let entries = parse_ss_output(output, "test");
    assert_eq!(entries.len(), 2);
    assert_eq!(entries[0].local_port, 3000);
    assert_eq!(entries[1].local_port, 5173);
}

#[test]
fn test_parse_ss_output_loopback() {
    let output = "\
State  Recv-Q Send-Q  Local Address:Port   Peer Address:Port Process
LISTEN 0      128     127.0.0.1:5432      0.0.0.0:*
LISTEN 0      511     0.0.0.0:3000        0.0.0.0:*
";
    let entries = parse_ss_output(output, "test");
    assert_eq!(entries.len(), 2);
    assert_eq!(entries[0].local_port, 5432);
    assert!(entries[0].is_loopback);
    assert_eq!(entries[1].local_port, 3000);
    assert!(!entries[1].is_loopback);
}

#[test]
fn test_parse_ss_output_with_process() {
    let output = "\
State  Recv-Q Send-Q  Local Address:Port   Peer Address:Port Process
LISTEN 0      511     0.0.0.0:3000        0.0.0.0:*     users:((\"node\",pid=123,fd=4))
";
    let entries = parse_ss_output(output, "mycontainer");
    assert_eq!(entries.len(), 1);
    assert_eq!(entries[0].process_name, "node");
}

#[test]
fn test_parse_ss_output_empty() {
    let output = "State  Recv-Q Send-Q  Local Address:Port   Peer Address:Port Process\n";
    let entries = parse_ss_output(output, "test");
    assert!(entries.is_empty());
}

#[test]
fn ss_loopback_scenario() {
    let entries = parse_ss_output("LISTEN 0 128 127.0.0.1:5432 0.0.0.0:*", "c");
    assert_eq!(entries.len(), 1);
    assert_eq!(entries[0].local_port, 5432);
    assert!(entries[0].is_loopback);
    assert_eq!(entries[0].remote_port, Some(5432));
    let v6 = parse_ss_output("LISTEN 0 128 [::1]:6000 [::]:*\nESTAB 0 0 1.2.3.4:7000 x:1", "c");
    assert_eq!(v6.len(), 1);
    assert!(v6[0].is_loopback);
}

#[test]
fn container_ip_is_trimmed_output() {
    assert_eq!(container_ip_from("  172.17.0.2\n"), Some("172.17.0.2".to_string()));
    assert_eq!(container_ip_from(" \n"), None);
}
