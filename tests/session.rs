use quay::app::{App, Filter, ForwardField, ForwardInput, InputMode, Popup};
use quay::dispatch::{
    kill_plan, on_key, on_outcome, on_tick, with_number, Command, Effect, KillCommand, KillError,
    Outcome,
};
use quay::event::{
    handle_forward_key, handle_key, handle_mouse, handle_search_key, Action, KeyCode, KeyEvent,
    MouseEvent, MouseKind,
};
use quay::port::{PortEntry, PortSource};

fn entry(source: PortSource, port: u16, name: &str, remote: Option<&str>) -> PortEntry {
    PortEntry {
        source,
        local_port: port,
        remote_host: remote.map(|s| s.to_string()),
        remote_port: None,
        process_name: name.to_string(),
        pid: Some(100 + port as u32),
        container_id: None,
        container_name: None,
        ssh_host: None,
        is_open: true,
        is_loopback: false,
    }
}

fn key(code: KeyCode) -> KeyEvent {
    KeyEvent { code, ctrl: false }
}

fn sample() -> Vec<PortEntry> {
    vec![
        entry(PortSource::Local, 3000, "Node", None),
        entry(PortSource::Ssh, 9000, "ssh", Some("DB.internal")),
        entry(PortSource::Docker, 5432, "postgres", Some("pg")),
    ]
}

#[test]
fn selection_is_clamped_when_the_view_shrinks() {
    let mut app = App::new();
    app.set_entries(sample());
    assert_eq!(app.filtered_entries.len(), 3);
    app.last();
    assert_eq!(app.selected, 2);
    app.set_filter(Filter::Ssh);
    assert_eq!(app.filtered_entries.len(), 1);
    assert_eq!(app.selected, 0);
    app.set_filter(Filter::Local);
    app.set_entries(Vec::new());
    assert!(app.filtered_entries.is_empty());
    assert_eq!(app.selected, 0);
    assert!(app.selected_entry().is_none());
}

#[test]
fn search_is_case_insensitive_over_name_port_and_host() {
    let mut app = App::new();
    app.set_entries(sample());
    app.search_query = "NODE".to_string();
    app.apply_filter();
    assert_eq!(app.filtered_entries.len(), 1);
    assert_eq!(app.filtered_entries[0].local_port, 3000);
    app.search_query = "543".to_string();
    app.apply_filter();
    assert_eq!(app.filtered_entries.len(), 1);
    assert_eq!(app.filtered_entries[0].local_port, 5432);
    app.search_query = "db.INT".to_string();
    app.apply_filter();
    assert_eq!(app.filtered_entries.len(), 1);
    assert_eq!(app.filtered_entries[0].local_port, 9000);
    app.search_query = String::new();
    app.apply_filter();
    assert_eq!(app.filtered_entries.len(), 3);
}

#[test]
fn navigation_wraps() {
    let mut app = App::new();
    app.set_entries(sample());
    app.previous();
    assert_eq!(app.selected, 2);
    app.next();
    assert_eq!(app.selected, 0);
    app.next();
    app.first();
    assert_eq!(app.selected, 0);
}

#[test]
fn status_expires_after_its_ticks() {
    let mut app = App::new();
    app.set_status("hello");
    for _ in 0..12 {
        app.tick();
        assert!(app.status_message.is_some());
    }
    assert_eq!(app.status_message.as_ref().unwrap().1, 0);
    app.tick();
    assert!(app.status_message.is_none());
    assert_eq!(app.tick_count, 13);
    app.tick_count = u32::MAX;
    app.tick();
    assert_eq!(app.tick_count, 0);
}

#[test]
fn locked_fields_are_skipped_both_ways() {
    let f = ForwardField::LocalPort;
    assert_eq!(f.next_unlocked(true, true), ForwardField::RemotePort);
    assert_eq!(ForwardField::RemotePort.next_unlocked(true, true), ForwardField::LocalPort);
    assert_eq!(f.prev_unlocked(true, false), ForwardField::RemotePort);
    for remote in [false, true] {
        for docker in [false, true] {
            for start in [ForwardField::LocalPort, ForwardField::RemotePort] {
                for n in 0..6 {
                    let mut g = start;
                    for _ in 0..n {
                        g = g.next_unlocked(remote, docker);
                    }
                    for _ in 0..n {
                        g = g.prev_unlocked(remote, docker);
                    }
                    assert_eq!(g, start);
                }
            }
        }
    }
}

#[test]
fn forward_keys_edit_unlocked_fields_only() {
    let mut d = ForwardInput::new();
    assert_eq!(handle_forward_key(key(KeyCode::Char('8')), &mut d, true, false), None);
    assert_eq!(d.local_port, "8");
    d.active_field = ForwardField::SshHost;
    handle_forward_key(key(KeyCode::Char('x')), &mut d, true, false);
    assert_eq!(d.ssh_host, "");
    handle_forward_key(key(KeyCode::Tab), &mut d, true, false);
    assert_eq!(d.active_field, ForwardField::LocalPort);
    handle_forward_key(key(KeyCode::Backspace), &mut d, true, false);
    assert_eq!(d.local_port, "");
    assert_eq!(handle_forward_key(key(KeyCode::Enter), &mut d, true, false), None);
    assert_eq!(handle_forward_key(key(KeyCode::Esc), &mut d, true, false), Some(Action::ClosePopup));
}

#[test]
fn main_keys_and_search_keys() {
    assert_eq!(handle_key(key(KeyCode::Char('q'))), Some(Action::Quit));
    assert_eq!(handle_key(key(KeyCode::Char('c'))), None);
    assert_eq!(handle_key(KeyEvent { code: KeyCode::Char('c'), ctrl: true }), Some(Action::Quit));
    assert_eq!(handle_key(key(KeyCode::Char('3'))), Some(Action::FilterDocker));
    let mut q = String::from("ab");
    assert_eq!(handle_search_key(key(KeyCode::Backspace), &mut q), Some(Action::UpdateSearch));
    assert_eq!(q, "a");
    handle_search_key(key(KeyCode::Char('z')), &mut q);
    assert_eq!(q, "az");
    assert_eq!(handle_search_key(key(KeyCode::Enter), &mut q), Some(Action::ExitSearch));
    let click = MouseEvent { kind: MouseKind::Down, row: 9 };
    assert_eq!(handle_mouse(click, 6, 10), Some(Action::SelectRow(2)));
    assert_eq!(handle_mouse(MouseEvent { kind: MouseKind::Down, row: 6 }, 6, 10), None);
}

#[test]
fn dispatcher_filters_searches_and_quits() {
    let mut app = App::new();
    app.set_entries(sample());
    assert_eq!(on_key(&mut app, key(KeyCode::Char('2')), false), Effect::Nothing);
    assert_eq!(app.filter, Filter::Ssh);
    assert_eq!(app.filtered_entries.len(), 1);
    on_key(&mut app, key(KeyCode::Char('0')), false);
    on_key(&mut app, key(KeyCode::Char('/')), false);
    assert_eq!(app.input_mode, InputMode::Search);
    on_key(&mut app, key(KeyCode::Char('p')), false);
    on_key(&mut app, key(KeyCode::Char('g')), false);
    assert_eq!(app.search_query, "pg");
    assert_eq!(app.filtered_entries.len(), 1);
    on_key(&mut app, key(KeyCode::Enter), false);
    assert_eq!(app.input_mode, InputMode::Normal);
    assert_eq!(on_key(&mut app, key(KeyCode::Char('r')), false), Effect::Run(Command::Refresh));
    on_key(&mut app, key(KeyCode::Char('q')), false);
    assert!(app.should_quit);
}

#[test]
fn dispatcher_starts_and_submits_a_forward() {
    let mut app = App::new();
    app.set_entries(sample());
    on_key(&mut app, key(KeyCode::Char('f')), false);
    assert_eq!(app.popup, Popup::Forward);
    assert_eq!(app.forward_input.active_field, ForwardField::SshHost);
    for c in "bastion".chars() {
        on_key(&mut app, key(KeyCode::Char(c)), false);
    }
    let effect = on_key(&mut app, key(KeyCode::Enter), false);
    assert_eq!(
        effect,
        Effect::Run(Command::CreateForward {
            spec: "3000:localhost:3000".to_string(),
            ssh_host: "bastion".to_string(),
            quick_port: None,
        })
    );
    assert_eq!(app.popup, Popup::Closed);
    let cmd = match effect {
        Effect::Run(c) => c,
        Effect::Nothing => panic!("expected a command"),
    };
    assert!(on_outcome(&mut app, &cmd, Outcome::Succeeded(Some(77))));
    assert_eq!(app.status_message.as_ref().unwrap().0, "Forward created (PID: 77)");
    assert!(!on_outcome(&mut app, &cmd, Outcome::Failed("boom".to_string())));
    assert_eq!(app.status_message.as_ref().unwrap().0, "Forward failed: boom");
}

#[test]
fn dispatcher_kill_and_quick_forward() {
    let mut app = App::new();
    app.set_entries(sample());
    app.selected = 1;
    assert_eq!(
        on_key(&mut app, key(KeyCode::Char('K')), false),
        Effect::Run(Command::KillPort { port: 9000, host: None })
    );
    assert_eq!(on_key(&mut app, key(KeyCode::Char('F')), false), Effect::Nothing);
    assert_eq!(app.status_message.as_ref().unwrap().0, "Quick Forward requires --remote mode");
    app.remote_host = Some("srv".to_string());
    assert_eq!(
        on_key(&mut app, key(KeyCode::Char('F')), false),
        Effect::Run(Command::CreateForward {
            spec: "9000:localhost:9000".to_string(),
            ssh_host: "srv".to_string(),
            quick_port: Some(9000),
        })
    );
    app.docker_target = Some("box".to_string());
    assert_eq!(on_key(&mut app, key(KeyCode::Char('F')), false), Effect::Nothing);
    assert_eq!(app.status_message.as_ref().unwrap().0, "Container IP not available");
    on_key(&mut app, key(KeyCode::Char('K')), true);
    assert_eq!(app.entries.len(), 2);
    assert_eq!(app.status_message.as_ref().unwrap().0, "[mock] Removed port 9000");
}

#[test]
fn tick_asks_for_refresh_when_due() {
    let mut app = App::new();
    app.auto_refresh = true;
    app.refresh_ticks = 2;
    assert_eq!(on_tick(&mut app, false), Effect::Nothing);
    assert_eq!(on_tick(&mut app, false), Effect::Run(Command::AutoRefresh));
    assert_eq!(on_tick(&mut app, true), Effect::Nothing);
    assert!(!on_outcome(&mut app, &Command::AutoRefresh, Outcome::Collected(sample())));
    assert_eq!(app.entries.len(), 3);
}

#[test]
fn kill_plans_follow_the_source() {
    let mut d = entry(PortSource::Docker, 8080, "web", None);
    d.container_id = Some("cid".to_string());
    let entries = vec![entry(PortSource::Ssh, 9000, "ssh", None), d, entry(PortSource::Local, 3000, "n", None)];
    let host = Some("srv".to_string());
    assert_eq!(kill_plan(&entries, 9000, &host), Ok(KillCommand::Pid { pid: 9100, host: None }));
    assert_eq!(
        kill_plan(&entries, 3000, &host),
        Ok(KillCommand::Pid { pid: 3100, host: Some("srv".to_string()) })
    );
    assert_eq!(
        kill_plan(&entries, 8080, &host),
        Ok(KillCommand::StopContainer { id: "cid".to_string(), host: Some("srv".to_string()) })
    );
    assert_eq!(kill_plan(&entries, 1, &host), Err(KillError::NoProcess(1)));
    let mut no_pid = entry(PortSource::Local, 4000, "x", None);
    no_pid.pid = None;
    assert_eq!(kill_plan(&vec![no_pid], 4000, &None), Err(KillError::NoPid(4000)));
    assert_eq!(KillError::NoContainerId(5).message(), "No container ID found for port 5");
    assert_eq!(with_number("a", 12, "b"), "a12b");
}
