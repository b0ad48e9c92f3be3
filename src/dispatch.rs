//! The session's decisions: what a key, a mouse event, a tick or the end of a command does
//! to the state, and which command the event loop must run next.

use vstd::prelude::*;

use crate::app::{
    status_view, view_of, wrap_next, wrap_prev, App, ForwardField, ForwardInput, InputMode, Popup,
    STATUS_TICKS,
};
use crate::event::{
    forward_key_result, handle_forward_key, handle_key, handle_mouse, handle_popup_key,
    handle_preset_key, handle_search_key, key_action, Action, KeyCode, KeyEvent, MouseEvent,
    MouseKind,
};
use crate::port::{
    append_entries, entry_views, lemma_entry_views_push, opt_view, sort_entries, EntryView, PortEntry,
    PortSource,
};
use crate::preset::{forward_spec, make_forward_spec};
use crate::event::draft_valid;
use crate::text::{chars_of, concat, decimal, decimal_chars, parse_num, parse_u16, string_from};

verus! {

// ---------------------------------------------------------------------------
// Messages
// ---------------------------------------------------------------------------

/// `prefix`, the decimal digits of `n`, `suffix`.
pub fn with_number(prefix: &str, n: u32, suffix: &str) -> (r: String)
    ensures
        r@ == prefix@ + decimal(n as nat) + suffix@,
{
    let mut out = concat(&chars_of(prefix), &decimal_chars(n));
    out = concat(&out, &chars_of(suffix));
    string_from(&out)
}

/// `prefix` followed by the decimal digits of `n`.
pub fn with_number_only(prefix: &str, n: u32) -> (r: String)
    ensures
        r@ == prefix@ + decimal(n as nat),
{
    string_from(&concat(&chars_of(prefix), &decimal_chars(n)))
}

/// `prefix` followed by `detail`.
pub fn with_detail(prefix: &str, detail: &str) -> (r: String)
    ensures
        r@ == prefix@ + detail@,
{
    string_from(&concat(&chars_of(prefix), &chars_of(detail)))
}

// ---------------------------------------------------------------------------
// Killing
// ---------------------------------------------------------------------------

/// How to stop what listens on a port.
#[derive(Debug, Clone, PartialEq, Eq)]
pub enum KillCommand {
    /// Signal a process, on the given host or locally.
    Pid { pid: u32, host: Option<String> },
    /// Stop a container, on the given host or locally.
    StopContainer { id: String, host: Option<String> },
}

/// Why a port cannot be stopped.
#[derive(Debug, Clone, Copy, PartialEq, Eq, Structural)]
pub enum KillError {
    NoProcess(u16),
    NoPid(u16),
    NoContainerId(u16),
}

/// Position of the first record on `port`, or -1.
pub open spec fn first_on_port(s: Seq<PortEntry>, port: u16) -> int
    decreases s.len(),
{
    if s.len() == 0 {
        -1
    } else {
        let f = first_on_port(s.drop_last(), port);
        if f >= 0 {
            f
        } else if s.last().local_port == port {
            s.len() - 1
        } else {
            -1
        }
    }
}

proof fn lemma_first_on_port(s: Seq<PortEntry>, port: u16)
    ensures
        -1 <= first_on_port(s, port) < s.len(),
        first_on_port(s, port) >= 0 ==> s[first_on_port(s, port)].local_port == port,
    decreases s.len(),
{
    if s.len() > 0 {
        lemma_first_on_port(s.drop_last(), port);
    }
}

/// What stops the first record on `port` among freshly collected `entries`: an SSH tunnel's
/// process on this machine, a local process on `host` (or this machine), a container on
/// `host` (or this machine).
pub fn kill_plan(entries: &Vec<PortEntry>, port: u16, host: &Option<String>) -> (r: Result<
    KillCommand,
    KillError,
>)
    ensures
        first_on_port(entries@, port) < 0 <==> r == Err::<KillCommand, KillError>(
            KillError::NoProcess(port),
        ),
        first_on_port(entries@, port) >= 0 ==> {
            let e = entries@[first_on_port(entries@, port)]@;
            match e.source {
                PortSource::Ssh => match e.pid {
                    Some(pid) => r matches Ok(KillCommand::Pid { pid: p, host: h }) && p == pid
                        && h.is_none(),
                    None => r == Err::<KillCommand, KillError>(KillError::NoPid(port)),
                },
                PortSource::Local => match e.pid {
                    Some(pid) => r matches Ok(KillCommand::Pid { pid: p, host: h }) && p == pid
                        && crate::port::opt_view(h) == crate::port::opt_view(*host),
                    None => r == Err::<KillCommand, KillError>(KillError::NoPid(port)),
                },
                PortSource::Docker => match e.container_id {
                    Some(id) => r matches Ok(KillCommand::StopContainer { id: i, host: h })
                        && i@ == id && crate::port::opt_view(h) == crate::port::opt_view(*host),
                    None => r == Err::<KillCommand, KillError>(KillError::NoContainerId(port)),
                },
            }
        },
{
    proof {
        lemma_first_on_port(entries@, port);
    }
    let mut i: usize = 0;
    assert(entries@.take(0) =~= Seq::<PortEntry>::empty());
    while i < entries.len()
        invariant
            i <= entries@.len(),
            first_on_port(entries@.take(i as int), port) == -1,
        decreases entries@.len() - i,
    {
        assert(entries@.take(i + 1).drop_last() =~= entries@.take(i as int));
        if entries[i].local_port == port {
            proof {
                lemma_first_on_port_extend(entries@, i as int, i + 1);
                assert(entries@.take(entries@.len() as int) =~= entries@);
            }
            let e = &entries[i];
            return match e.source {
                PortSource::Ssh => match e.pid {
                    Some(pid) => Ok(KillCommand::Pid { pid, host: None }),
                    None => Err(KillError::NoPid(port)),
                },
                PortSource::Local => match e.pid {
                    Some(pid) => Ok(KillCommand::Pid { pid, host: crate::port::copy_opt(host) }),
                    None => Err(KillError::NoPid(port)),
                },
                PortSource::Docker => match &e.container_id {
                    Some(id) => Ok(
                        KillCommand::StopContainer { id: id.clone(), host: crate::port::copy_opt(host) },
                    ),
                    None => Err(KillError::NoContainerId(port)),
                },
            };
        }
        i = i + 1;
    }
    assert(entries@.take(i as int) =~= entries@);
    Err(KillError::NoProcess(port))
}

proof fn lemma_first_on_port_extend(s: Seq<PortEntry>, p: int, q: int)
    requires
        0 <= p < q <= s.len(),
        first_on_port(s.take(q), s[p].local_port) == p,
    ensures
        first_on_port(s.take(s.len() as int), s[p].local_port) == p,
    decreases s.len() - q,
{
    if q < s.len() {
        assert(s.take(q + 1).drop_last() =~= s.take(q));
        lemma_first_on_port_extend(s, p, q + 1);
    }
}

impl KillError {
    /// The message shown for the error.
    pub fn message(&self) -> (r: String)
        ensures
            r@ == match *self {
                KillError::NoProcess(p) => "No process found on port "@ + decimal(p as nat),
                KillError::NoPid(p) => "No PID found for port "@ + decimal(p as nat),
                KillError::NoContainerId(p) => "No container ID found for port "@ + decimal(
                    p as nat,
                ),
            },
    {
        let (prefix, p) = match self {
            KillError::NoProcess(p) => ("No process found on port ", *p),
            KillError::NoPid(p) => ("No PID found for port ", *p),
            KillError::NoContainerId(p) => ("No container ID found for port ", *p),
        };
        string_from(&concat(&chars_of(prefix), &decimal_chars(p as u32)))
    }
}

// ---------------------------------------------------------------------------
// Session decisions
// ---------------------------------------------------------------------------

/// Work the event loop does outside the library on the session's behalf.
#[derive(Debug, Clone, PartialEq, Eq)]
pub enum Command {
    /// Collect again at the user's request.
    Refresh,
    /// Collect again because the refresh period has passed.
    AutoRefresh,
    /// Start `ssh -f -N -L spec host`; a quick forward names its port.
    CreateForward { spec: String, ssh_host: String, quick_port: Option<u16> },
    /// Stop what listens on `port`, looking it up on `host` (or this machine).
    KillPort { port: u16, host: Option<String> },
    /// Signal a process inside the target container, reached through `host` if set.
    KillInContainer { container: String, pid: u32, host: Option<String> },
}

/// What the event loop must do after a decision.
#[derive(Debug, Clone, PartialEq, Eq)]
pub enum Effect {
    Nothing,
    Run(Command),
}

/// How a command ended.
#[derive(Debug, Clone)]
pub enum Outcome {
    /// A collection produced these records.
    Collected(Vec<PortEntry>),
    /// The command succeeded; a forward reports the id of its process.
    Succeeded(Option<u32>),
    /// The command ran but reported failure.
    Refused,
    /// The command could not be run, for this reason.
    Failed(String),
}

/// The forward target of a quick forward: the container's address in container mode (none
/// when unknown), else `localhost`.
pub fn quick_forward_target(app: &App) -> (r: Option<String>)
    ensures
        app.docker_target.is_some() ==> crate::port::opt_view(r) == crate::port::opt_view(
            app.container_ip,
        ),
        app.docker_target.is_none() ==> r.is_some() && r->0@ == "localhost"@,
{
    if app.docker_target.is_some() {
        crate::port::copy_opt(&app.container_ip)
    } else {
        Some(String::from_str("localhost"))
    }
}

/// The demonstration record of a forward created without running anything.
fn demo_forward(local_port: u16, target: &String, remote_port: Option<u16>, host: &String) -> (r: PortEntry)
    ensures
        r.source == PortSource::Ssh,
        r.local_port == local_port,
        r.is_open,
{
    PortEntry {
        source: PortSource::Ssh,
        local_port,
        remote_host: Some(target.clone()),
        remote_port,
        process_name: String::from_str("ssh"),
        pid: Some(99999),
        container_id: None,
        container_name: None,
        ssh_host: Some(host.clone()),
        is_open: true,
        is_loopback: false,
    }
}

/// Adds a demonstration record and re-sorts the records.
fn add_demo_record(app: &mut App, e: PortEntry)
    requires
        old(app).wf(),
    ensures
        final(app).wf(),
        final(app).popup == old(app).popup,
        final(app).input_mode == old(app).input_mode,
        final(app).should_quit == old(app).should_quit,
        *final(app) == (App {
            entries: final(app).entries,
            filtered_entries: final(app).filtered_entries,
            selected: final(app).selected,
            ..*old(app)
        }),
{
    let mut entries: Vec<PortEntry> = Vec::new();
    append_entries(&mut entries, &app.entries);
    entries.push(e);
    sort_entries(&mut entries);
    app.set_entries(entries);
}

/// The draft is empty, editing at the local port.
pub open spec fn draft_empty(d: ForwardInput) -> bool {
    d.local_port@.len() == 0 && d.remote_host@.len() == 0 && d.remote_port@.len() == 0
        && d.ssh_host@.len() == 0 && d.active_field == ForwardField::LocalPort
}

/// What a key does in the forward overlay: Esc closes it; Enter on a valid draft closes it
/// and, outside demonstration mode, asks for the forward its spec describes; both leave the
/// draft empty. Any other key (Enter on an invalid draft included) edits the draft as
/// `handle_forward_key` states and changes nothing else.
pub open spec fn forward_key_spec(a: App, b: App, key: KeyEvent, mock_mode: bool, r: Effect) -> bool {
    let d = a.forward_input;
    if key.code == KeyCode::Esc {
        &&& r == Effect::Nothing
        &&& draft_empty(b.forward_input)
        &&& b == (App { popup: Popup::Closed, forward_input: b.forward_input, ..a })
    } else if key.code == KeyCode::Enter && draft_valid(d) {
        &&& b.popup == Popup::Closed
        &&& draft_empty(b.forward_input)
        &&& mock_mode ==> r == Effect::Nothing && b == (App {
            entries: b.entries,
            filtered_entries: b.filtered_entries,
            selected: b.selected,
            status_message: b.status_message,
            popup: b.popup,
            forward_input: b.forward_input,
            ..a
        })
        &&& !mock_mode ==> (r matches Effect::Run(
            Command::CreateForward { spec, ssh_host, quick_port },
        ) && spec@ == forward_spec(
            parse_num(d.local_port@, 65535)->0 as u16,
            d.remote_host@,
            parse_num(d.remote_port@, 65535)->0 as u16,
        ) && ssh_host@ == d.ssh_host@ && quick_port.is_none()) && b == (App {
            popup: b.popup,
            forward_input: b.forward_input,
            ..a
        })
    } else {
        &&& r == Effect::Nothing
        &&& b == (App { forward_input: b.forward_input, ..a })
        &&& forward_key_result(
            key,
            d,
            b.forward_input,
            a.remote_host.is_some(),
            a.docker_target.is_some(),
            None,
        )
    }
}

/// The forward overlay is open: edit the draft, close, or submit it.
fn forward_popup_key(app: &mut App, key: KeyEvent, mock_mode: bool) -> (r: Effect)
    requires
        old(app).wf(),
    ensures
        final(app).wf(),
        final(app).should_quit == old(app).should_quit,
        forward_key_spec(*old(app), *final(app), key, mock_mode, r),
{
    let remote_mode = app.is_remote();
    let docker_mode = app.is_docker_target();
    let action = handle_forward_key(key, &mut app.forward_input, remote_mode, docker_mode);
    match action {
        Some(Action::ClosePopup) => {
            app.popup = Popup::Closed;
            app.reset_forward_input();
            Effect::Nothing
        },
        Some(Action::SubmitForward) => {
            let mut effect = Effect::Nothing;
            match app.forward_input.to_spec() {
                Some((spec, host)) => {
                    if mock_mode {
                        let local_port = match parse_u16(&chars_of(app.forward_input.local_port.as_str())) {
                            Some(p) => p,
                            None => 0,
                        };
                        let remote_port = parse_u16(&chars_of(app.forward_input.remote_port.as_str()));
                        let e = demo_forward(local_port, &app.forward_input.remote_host, remote_port, &app.forward_input.ssh_host);
                        add_demo_record(app, e);
                        app.set_status("[mock] Forward created");
                    } else {
                        effect = Effect::Run(Command::CreateForward { spec, ssh_host: host, quick_port: None });
                    }
                },
                None => {
                    app.set_status("Invalid forward specification");
                },
            }
            app.popup = Popup::Closed;
            app.reset_forward_input();
            effect
        },
        _ => Effect::Nothing,
    }
}

/// What a key does in the presets overlay: Esc or `q` closes it; Enter closes it and, outside
/// demonstration mode, asks for the selected preset's forward; `j`/Down and `k`/Up move the
/// selection with wrap-around.
pub open spec fn presets_key_spec(a: App, b: App, key: KeyEvent, mock_mode: bool, r: Effect) -> bool {
    if key.code == KeyCode::Esc || key.code == KeyCode::Char('q') {
        r == Effect::Nothing && b == (App { popup: Popup::Closed, ..a })
    } else if key.code == KeyCode::Enter {
        &&& b == (App { popup: Popup::Closed, status_message: b.status_message, ..a })
        &&& (!mock_mode && a.preset_selected < a.presets@.len()) ==> {
            let p = a.presets@[a.preset_selected as int];
            r matches Effect::Run(Command::CreateForward { spec, ssh_host, quick_port }) && spec@
                == forward_spec(p.local_port, p.remote_host@, p.remote_port) && ssh_host@
                == p.ssh_host@ && quick_port.is_none()
        }
        &&& (mock_mode || a.preset_selected >= a.presets@.len()) ==> r == Effect::Nothing
    } else if key.code == KeyCode::Down || key.code == KeyCode::Char('j') {
        r == Effect::Nothing && b == (App {
            preset_selected: wrap_next(a.preset_selected, a.presets@.len()),
            ..a
        })
    } else if key.code == KeyCode::Up || key.code == KeyCode::Char('k') {
        r == Effect::Nothing && b == (App {
            preset_selected: wrap_prev(a.preset_selected, a.presets@.len()),
            ..a
        })
    } else {
        r == Effect::Nothing && b == a
    }
}

/// The presets overlay is open: move, close, or launch the selected preset.
fn presets_popup_key(app: &mut App, key: KeyEvent, mock_mode: bool) -> (r: Effect)
    requires
        old(app).wf(),
    ensures
        final(app).wf(),
        final(app).should_quit == old(app).should_quit,
        presets_key_spec(*old(app), *final(app), key, mock_mode, r),
{
    match handle_preset_key(key) {
        Some(Action::ClosePopup) => {
            app.popup = Popup::Closed;
            Effect::Nothing
        },
        Some(Action::Up) => {
            app.preset_previous();
            Effect::Nothing
        },
        Some(Action::Down) => {
            app.preset_next();
            Effect::Nothing
        },
        Some(Action::LaunchPreset) => {
            let mut effect = Effect::Nothing;
            if mock_mode {
                app.set_status("[mock] Forward created");
            } else {
                match app.selected_preset() {
                    Some(p) => {
                        let (spec, host) = p.to_spec();
                        effect = Effect::Run(Command::CreateForward { spec, ssh_host: host, quick_port: None });
                    },
                    None => {},
                }
            }
            app.popup = Popup::Closed;
            effect
        },
        _ => Effect::Nothing,
    }
}

/// The draft a new forward from the selected record opens with: both ports the record's
/// port; through the configured remote host (SSH host locked to it) towards `localhost`, or
/// the container's address when known; else towards `localhost` through the record's own SSH
/// host, editing at the SSH host when the record has none. Empty without a selection.
pub open spec fn draft_for(a: App, d: ForwardInput) -> bool {
    if a.selected < a.filtered_entries@.len() {
        let e = a.filtered_entries@[a.selected as int]@;
        &&& d.local_port@ == decimal(e.local_port as nat)
        &&& d.remote_port@ == decimal(e.local_port as nat)
        &&& match a.remote_host {
            Some(h) => {
                &&& d.ssh_host@ == h@
                &&& d.active_field == ForwardField::LocalPort
                &&& d.remote_host@ == match a.container_ip {
                    Some(ip) => ip@,
                    None => "localhost"@,
                }
            },
            None => {
                &&& d.remote_host@ == "localhost"@
                &&& d.ssh_host@ == match e.ssh_host {
                    Some(h) => h,
                    None => Seq::empty(),
                }
                &&& d.active_field == (if e.ssh_host.is_some() && e.ssh_host->0.len() > 0 {
                    ForwardField::LocalPort
                } else {
                    ForwardField::SshHost
                })
            },
        }
    } else {
        draft_empty(d)
    }
}

/// The draft that starting a forward from the selected record opens with.
pub fn start_forward_draft(app: &App) -> (r: ForwardInput)
    ensures
        draft_for(*app, r),
{
    match app.selected_entry() {
        Some(entry) => match &app.remote_host {
            Some(host) => {
                let mut input = ForwardInput::for_remote_entry(entry, host.as_str());
                match &app.container_ip {
                    Some(ip) => {
                        input.remote_host = ip.clone();
                    },
                    None => {},
                }
                input
            },
            None => ForwardInput::from_entry(entry),
        },
        None => ForwardInput::new(),
    }
}

/// The records without those on `port`.
pub open spec fn without_port(s: Seq<EntryView>, port: u16) -> Seq<EntryView> {
    s.filter(|x: EntryView| x.local_port != port)
}

/// What the kill key does with the selected record: outside demonstration mode, a kill of its
/// port (SSH tunnels always on this machine, other records on the configured host), or in
/// container mode a signal to its pid inside the container (a status message when the pid is
/// unknown); in demonstration mode the records on its port are removed. Without a selection,
/// nothing.
pub open spec fn kill_spec(a: App, b: App, mock_mode: bool, r: Effect) -> bool {
    if a.selected >= a.filtered_entries@.len() {
        r == Effect::Nothing && b == a
    } else {
        let e = a.filtered_entries@[a.selected as int];
        if mock_mode {
            r == Effect::Nothing && b == (App {
                entries: b.entries,
                filtered_entries: b.filtered_entries,
                selected: b.selected,
                status_message: b.status_message,
                ..a
            }) && entry_views(b.entries@) == without_port(
                entry_views(a.entries@),
                e.local_port,
            ) && status_view(b.status_message) == Some(
                ("[mock] Removed port "@ + decimal(e.local_port as nat), STATUS_TICKS),
            )
        } else if a.docker_target.is_some() {
            match e.pid {
                Some(p) => b == a && (r matches Effect::Run(
                    Command::KillInContainer { container, pid, host },
                ) && container@ == a.docker_target->0@ && pid == p && opt_view(host) == opt_view(
                    a.remote_host,
                )),
                None => r == Effect::Nothing && b == (App {
                    status_message: b.status_message,
                    ..a
                }) && status_view(b.status_message) == Some(
                    (
                        "No PID available for this port (container ss doesn't report PIDs)"@,
                        STATUS_TICKS,
                    ),
                ),
            }
        } else {
            b == a && (r matches Effect::Run(Command::KillPort { port, host })
                && port == e.local_port && opt_view(host) == (if e.source == PortSource::Ssh {
                None
            } else {
                opt_view(a.remote_host)
            }))
        }
    }
}

/// The target of a quick forward: the container's address in container mode, else
/// `localhost`.
pub open spec fn quick_target(a: App) -> Option<Seq<char>> {
    if a.docker_target.is_some() {
        opt_view(a.container_ip)
    } else {
        Some("localhost"@)
    }
}

/// What quick forward does with the selected record of port `p`: with a remote host `h` and a
/// target `t`, outside demonstration mode, a forward `p:t:p` through `h`; without a remote
/// host, or in container mode without the container's address, only a status message.
pub open spec fn quick_forward_spec(a: App, b: App, mock_mode: bool, r: Effect) -> bool {
    if a.selected >= a.filtered_entries@.len() {
        r == Effect::Nothing && b == a
    } else {
        let p = a.filtered_entries@[a.selected as int].local_port;
        match a.remote_host {
            None => r == Effect::Nothing && b == (App { status_message: b.status_message, ..a })
                && status_view(b.status_message) == Some(
                (
                    if a.docker_target.is_some() {
                        "Quick Forward for local Docker not yet supported"@
                    } else {
                        "Quick Forward requires --remote mode"@
                    },
                    STATUS_TICKS,
                ),
            ),
            Some(h) => match quick_target(a) {
                None => r == Effect::Nothing && b == (App {
                    status_message: b.status_message,
                    ..a
                }) && status_view(b.status_message) == Some(
                    ("Container IP not available"@, STATUS_TICKS),
                ),
                Some(t) => if mock_mode {
                    r == Effect::Nothing && b.status_message.is_some() && b == (App {
                        entries: b.entries,
                        filtered_entries: b.filtered_entries,
                        selected: b.selected,
                        status_message: b.status_message,
                        ..a
                    })
                } else {
                    b == a && (r matches Effect::Run(
                        Command::CreateForward { spec, ssh_host, quick_port },
                    ) && spec@ == forward_spec(p, t, p) && ssh_host@ == h@ && quick_port == Some(p))
                },
            },
        }
    }
}

/// What the main view's reaction to an action is known to do: the filter keys set the filter,
/// the overlay keys open their overlay, search mode is entered and left, a refresh is asked
/// for outside demonstration mode, and keys that change nothing else keep the view.
pub open spec fn main_action_spec(a: App, b: App, action: Action, mock_mode: bool, r: Effect) -> bool {
    match action {
        Action::FilterAll => b.filter == crate::app::Filter::All && r == Effect::Nothing,
        Action::FilterLocal => b.filter == crate::app::Filter::Local && r == Effect::Nothing,
        Action::FilterSsh => b.filter == crate::app::Filter::Ssh && r == Effect::Nothing,
        Action::FilterDocker => b.filter == crate::app::Filter::Docker && r == Effect::Nothing,
        Action::Select => b.popup == Popup::Details && r == Effect::Nothing,
        Action::ShowHelp => b.popup == Popup::Help && r == Effect::Nothing,
        Action::StartForward => b.popup == Popup::Forward && draft_for(a, b.forward_input) && r
            == Effect::Nothing,
        Action::Kill => kill_spec(a, b, mock_mode, r),
        Action::QuickForward => quick_forward_spec(a, b, mock_mode, r),
        Action::ShowPresets => b.popup == Popup::Presets && b.preset_selected == 0 && r
            == Effect::Nothing,
        Action::ClosePopup => b.popup == Popup::Closed && r == Effect::Nothing,
        Action::EnterSearch => b.input_mode == InputMode::Search && r == Effect::Nothing,
        Action::ExitSearch => b.input_mode == InputMode::Normal && r == Effect::Nothing
            && b.entries == a.entries && b.filter == a.filter && b.search_query == a.search_query,
        Action::Refresh => r == (if mock_mode {
            Effect::Nothing
        } else {
            Effect::Run(Command::Refresh)
        }) && b.entries == a.entries,
        Action::ToggleAutoRefresh => b.auto_refresh == (if mock_mode {
            a.auto_refresh
        } else {
            !a.auto_refresh
        }) && r == Effect::Nothing,
        Action::Up => r == Effect::Nothing && b == (App {
            selected: wrap_prev(a.selected, a.filtered_entries@.len()),
            ..a
        }),
        Action::Down => r == Effect::Nothing && b == (App {
            selected: wrap_next(a.selected, a.filtered_entries@.len()),
            ..a
        }),
        Action::First => r == Effect::Nothing && b == (App { selected: 0, ..a }),
        Action::Last => r == Effect::Nothing && b == (App {
            selected: if a.filtered_entries@.len() == 0 {
                a.selected
            } else {
                (a.filtered_entries@.len() - 1) as usize
            },
            ..a
        }),
        _ => true,
    }
}

/// The main view's reaction to an action.
pub fn main_action(app: &mut App, action: Action, mock_mode: bool) -> (r: Effect)
    requires
        old(app).wf(),
    ensures
        final(app).wf(),
        final(app).should_quit == (old(app).should_quit || action == Action::Quit),
        main_action_spec(*old(app), *final(app), action, mock_mode, r),
{
    match action {
        Action::Quit => {
            app.should_quit = true;
            Effect::Nothing
        },
        Action::Up => {
            app.previous();
            Effect::Nothing
        },
        Action::Down => {
            app.next();
            Effect::Nothing
        },
        Action::First => {
            app.first();
            Effect::Nothing
        },
        Action::Last => {
            app.last();
            Effect::Nothing
        },
        Action::EnterSearch => {
            app.input_mode = InputMode::Search;
            Effect::Nothing
        },
        Action::ExitSearch => {
            app.input_mode = InputMode::Normal;
            Effect::Nothing
        },
        Action::UpdateSearch => {
            app.apply_filter();
            Effect::Nothing
        },
        Action::FilterAll => {
            app.set_filter(crate::app::Filter::All);
            Effect::Nothing
        },
        Action::FilterLocal => {
            app.set_filter(crate::app::Filter::Local);
            Effect::Nothing
        },
        Action::FilterSsh => {
            app.set_filter(crate::app::Filter::Ssh);
            Effect::Nothing
        },
        Action::FilterDocker => {
            app.set_filter(crate::app::Filter::Docker);
            Effect::Nothing
        },
        Action::Refresh => {
            if mock_mode {
                Effect::Nothing
            } else {
                Effect::Run(Command::Refresh)
            }
        },
        Action::ToggleAutoRefresh => {
            if !mock_mode {
                app.auto_refresh = !app.auto_refresh;
                if app.auto_refresh {
                    app.set_status("Auto-refresh ON");
                } else {
                    app.set_status("Auto-refresh OFF");
                }
            }
            Effect::Nothing
        },
        Action::Kill => kill_selected(app, mock_mode),
        Action::Select => {
            app.popup = Popup::Details;
            Effect::Nothing
        },
        Action::ShowHelp => {
            app.popup = Popup::Help;
            Effect::Nothing
        },
        Action::StartForward => {
            app.forward_input = start_forward_draft(app);
            app.popup = Popup::Forward;
            Effect::Nothing
        },
        Action::ShowPresets => {
            app.preset_selected = 0;
            app.popup = Popup::Presets;
            Effect::Nothing
        },
        Action::ClosePopup => {
            app.popup = Popup::Closed;
            Effect::Nothing
        },
        Action::QuickForward => quick_forward(app, mock_mode),
        _ => Effect::Nothing,
    }
}

/// Stops what the selected record stands for.
fn kill_selected(app: &mut App, mock_mode: bool) -> (r: Effect)
    requires
        old(app).wf(),
    ensures
        final(app).wf(),
        final(app).should_quit == old(app).should_quit,
        kill_spec(*old(app), *final(app), mock_mode, r),
{
    if app.selected >= app.filtered_entries.len() {
        return Effect::Nothing;
    }
    let port = app.filtered_entries[app.selected].local_port;
    let pid = app.filtered_entries[app.selected].pid;
    let is_ssh = app.filtered_entries[app.selected].source == PortSource::Ssh;
    if mock_mode {
        let ghost s = entry_views(app.entries@);
        let ghost keep = |x: EntryView| x.local_port != port;
        let mut kept: Vec<PortEntry> = Vec::new();
        let mut i: usize = 0;
        while i < app.entries.len()
            invariant
                i <= app.entries@.len(),
                s == entry_views(app.entries@),
                keep == (|x: EntryView| x.local_port != port),
                entry_views(kept@) == s.take(i as int).filter(keep),
            decreases app.entries@.len() - i,
        {
            proof {
                assert(s.take(i + 1) == s.take(i as int).push(s[i as int]));
                s.take(i as int).lemma_filter_push(s[i as int], keep);
                assert(s[i as int] == app.entries@[i as int]@);
            }
            if app.entries[i].local_port != port {
                let c = app.entries[i].copy();
                proof {
                    lemma_entry_views_push(kept@, c);
                }
                kept.push(c);
            }
            i = i + 1;
        }
        assert(s.take(i as int) =~= s);
        app.set_entries(kept);
        let msg = with_number_only("[mock] Removed port ", port as u32);
        app.set_status(msg.as_str());
        Effect::Nothing
    } else if app.docker_target.is_some() {
        match pid {
            Some(pid) => {
                let container = match &app.docker_target {
                    Some(t) => t.clone(),
                    None => String::new(),
                };
                Effect::Run(
                    Command::KillInContainer {
                        container,
                        pid,
                        host: crate::port::copy_opt(&app.remote_host),
                    },
                )
            },
            None => {
                app.set_status("No PID available for this port (container ss doesn't report PIDs)");
                Effect::Nothing
            },
        }
    } else {
        // SSH tunnels always run on this machine
        let host = if is_ssh {
            None
        } else {
            crate::port::copy_opt(&app.remote_host)
        };
        Effect::Run(Command::KillPort { port, host })
    }
}

/// Forwards the selected port to itself on the configured remote host (to the container's
/// address in container mode).
fn quick_forward(app: &mut App, mock_mode: bool) -> (r: Effect)
    requires
        old(app).wf(),
    ensures
        final(app).wf(),
        final(app).should_quit == old(app).should_quit,
        quick_forward_spec(*old(app), *final(app), mock_mode, r),
{
    if app.selected >= app.filtered_entries.len() {
        return Effect::Nothing;
    }
    let port = app.filtered_entries[app.selected].local_port;
    let host = match &app.remote_host {
        Some(h) => h.clone(),
        None => {
            if app.docker_target.is_some() {
                app.set_status("Quick Forward for local Docker not yet supported");
            } else {
                app.set_status("Quick Forward requires --remote mode");
            }
            return Effect::Nothing;
        },
    };
    let target = match quick_forward_target(app) {
        Some(t) => t,
        None => {
            app.set_status("Container IP not available");
            return Effect::Nothing;
        },
    };
    let spec = make_forward_spec(port, target.as_str(), port);
    if mock_mode {
        let e = demo_forward(port, &target, Some(port), &host);
        add_demo_record(app, e);
        let mut msg = concat(&chars_of("[mock] Forward :"), &decimal_chars(port as u32));
        msg = concat(&msg, &chars_of(" -> "));
        msg = concat(&msg, &chars_of(host.as_str()));
        msg = concat(&msg, &chars_of(":"));
        msg = concat(&msg, &decimal_chars(port as u32));
        app.set_status(string_from(&msg).as_str());
        Effect::Nothing
    } else {
        Effect::Run(Command::CreateForward { spec, ssh_host: host, quick_port: Some(port) })
    }
}

/// The session's reaction to a key: the open overlay's keys first, then search mode's, then
/// the main view's.
pub fn on_key(app: &mut App, key: KeyEvent, mock_mode: bool) -> (r: Effect)
    requires
        old(app).wf(),
    ensures
        final(app).wf(),
        old(app).should_quit ==> final(app).should_quit,
        old(app).popup == Popup::Closed && old(app).input_mode == InputMode::Normal ==> match key_action(key) {
            Some(a) => main_action_spec(*old(app), *final(app), a, mock_mode, r) && final(app).should_quit
                == (old(app).should_quit || a == Action::Quit),
            None => r == Effect::Nothing && *final(app) == *old(app),
        },
        old(app).popup == Popup::Forward ==> forward_key_spec(*old(app), *final(app), key, mock_mode, r),
        old(app).popup == Popup::Presets ==> presets_key_spec(*old(app), *final(app), key, mock_mode, r),
        old(app).popup == Popup::Closed && old(app).input_mode == InputMode::Search ==> {
            &&& r == Effect::Nothing
            &&& final(app).entries == old(app).entries
            &&& final(app).filter == old(app).filter
            &&& entry_views(final(app).filtered_entries@) == view_of(
                entry_views(old(app).entries@),
                old(app).filter,
                final(app).search_query@,
            )
            &&& match key.code {
                KeyCode::Esc | KeyCode::Enter => final(app).input_mode == InputMode::Normal
                    && final(app).search_query@ == old(app).search_query@,
                KeyCode::Backspace => final(app).input_mode == InputMode::Search
                    && final(app).search_query@ == (if old(app).search_query@.len() == 0 {
                    old(app).search_query@
                } else {
                    old(app).search_query@.drop_last()
                }),
                KeyCode::Char(c) => final(app).input_mode == InputMode::Search
                    && final(app).search_query@ == old(app).search_query@.push(c),
                _ => final(app).input_mode == InputMode::Search && final(app).search_query@ == old(
                    app,
                ).search_query@,
            }
        },
        old(app).popup != Popup::Closed && old(app).popup != Popup::Forward && old(app).popup
            != Popup::Presets ==> r == Effect::Nothing && final(app).popup == (if key.code == KeyCode::Esc
            || key.code == KeyCode::Enter || key.code == KeyCode::Char('q') {
            Popup::Closed
        } else {
            old(app).popup
        }),
{
    if app.popup == Popup::Forward {
        return forward_popup_key(app, key, mock_mode);
    }
    if app.popup == Popup::Presets {
        return presets_popup_key(app, key, mock_mode);
    }
    if app.popup != Popup::Closed {
        match handle_popup_key(key) {
            Some(Action::ClosePopup) => {
                app.popup = Popup::Closed;
            },
            _ => {},
        }
        return Effect::Nothing;
    }
    let action = match app.input_mode {
        InputMode::Search => handle_search_key(key, &mut app.search_query),
        InputMode::Normal => handle_key(key),
    };
    match action {
        Some(a) => {
            if app.input_mode == InputMode::Search && a == Action::UpdateSearch {
                app.apply_filter();
                Effect::Nothing
            } else {
                main_action(app, a, mock_mode)
            }
        },
        None => Effect::Nothing,
    }
}

/// The selection after a mouse event: a click on a table row that holds a record selects it,
/// scrolling moves the selection with wrap-around.
pub open spec fn mouse_selection(a: App, event: MouseEvent, term_height: u16) -> usize {
    let height: int = if term_height > 8 {
        term_height - 8
    } else {
        0
    };
    let len = a.filtered_entries@.len();
    match event.kind {
        MouseKind::Down => if event.row > 6 && event.row < 6 + height && event.row - 7 < len {
            (event.row - 7) as usize
        } else {
            a.selected
        },
        MouseKind::ScrollDown => wrap_next(a.selected, len),
        MouseKind::ScrollUp => wrap_prev(a.selected, len),
        MouseKind::Other => a.selected,
    }
}

/// The session's reaction to a mouse event, when the mouse is enabled and no overlay or
/// search is active: the table starts six rows down and leaves eight rows for the rest.
pub fn on_mouse(app: &mut App, event: MouseEvent, term_height: u16) -> (r: Effect)
    requires
        old(app).wf(),
    ensures
        final(app).wf(),
        r == Effect::Nothing,
        *final(app) == (if old(app).popup != Popup::Closed || old(app).input_mode
            != InputMode::Normal {
            *old(app)
        } else {
            App { selected: mouse_selection(*old(app), event, term_height), ..*old(app) }
        }),
{
    if app.popup != Popup::Closed || app.input_mode != InputMode::Normal {
        return Effect::Nothing;
    }
    let table_top: u16 = 6;
    let table_height: u16 = if term_height > 8 {
        term_height - 8
    } else {
        0
    };
    match handle_mouse(event, table_top, table_height) {
        Some(Action::Up) => app.previous(),
        Some(Action::Down) => app.next(),
        Some(Action::SelectRow(row)) => {
            if row < app.filtered_entries.len() {
                app.selected = row;
            }
        },
        _ => {},
    }
    Effect::Nothing
}

/// One tick: the counters advance and, when a refresh is due outside demonstration mode, a
/// collection is asked for.
pub fn on_tick(app: &mut App, mock_mode: bool) -> (r: Effect)
    requires
        old(app).wf(),
    ensures
        final(app).wf(),
        final(app).should_quit == old(app).should_quit,
        r == (if !mock_mode && final(app).auto_refresh && final(app).tick_count > 0
            && final(app).tick_count % final(app).refresh_ticks == 0 {
            Effect::Run(Command::AutoRefresh)
        } else {
            Effect::Nothing
        }),
        final(app).tick_count == (if old(app).tick_count == u32::MAX {
            0
        } else {
            (old(app).tick_count + 1) as u32
        }),
        status_view(final(app).status_message) == match status_view(old(app).status_message) {
            Some((m, t)) => if t > 0 {
                Some((m, (t - 1) as u32))
            } else {
                None
            },
            None => None,
        },
        *final(app) == (App {
            tick_count: final(app).tick_count,
            status_message: final(app).status_message,
            ..*old(app)
        }),
{
    app.tick();
    if !mock_mode && app.should_refresh() {
        Effect::Run(Command::AutoRefresh)
    } else {
        Effect::Nothing
    }
}

/// How the status line introduces a command's failure.
pub open spec fn failure_prefix(cmd: Command) -> Seq<char> {
    match cmd {
        Command::Refresh => "Refresh failed: "@,
        Command::AutoRefresh => "Auto-refresh failed: "@,
        Command::CreateForward { .. } => "Forward failed: "@,
        Command::KillPort { .. } => "Kill failed: "@,
        Command::KillInContainer { .. } => "Kill failed: "@,
    }
}

/// The status line after a command ended, or nothing when it stays as it was.
pub open spec fn outcome_message(cmd: Command, outcome: Outcome) -> Option<Seq<char>> {
    match outcome {
        Outcome::Failed(e) => Some(failure_prefix(cmd) + e@),
        _ => match cmd {
            Command::Refresh => if outcome matches Outcome::Collected(_) {
                Some("Refreshed"@)
            } else {
                None
            },
            Command::AutoRefresh => None,
            Command::CreateForward { spec: _, ssh_host, quick_port } => match outcome {
                Outcome::Succeeded(pid) => {
                    let id: u32 = match pid {
                        Some(p) => p,
                        None => 0,
                    };
                    match quick_port {
                        Some(port) => Some(
                            "Forward :"@ + decimal(port as nat) + " -> "@ + ssh_host@ + ":"@
                                + decimal(port as nat) + " (PID: "@ + decimal(id as nat) + ")"@,
                        ),
                        None => Some("Forward created (PID: "@ + decimal(id as nat) + ")"@),
                    }
                },
                _ => Some("Forward failed"@),
            },
            Command::KillPort { port, host: _ } => match outcome {
                Outcome::Succeeded(_) => Some("Killed process on port "@ + decimal(port as nat)),
                _ => Some("Failed to kill process on port "@ + decimal(port as nat)),
            },
            Command::KillInContainer { container: _, pid, host: _ } => match outcome {
                Outcome::Succeeded(_) => Some("Killed PID "@ + decimal(pid as nat) + " in container"@),
                Outcome::Refused => Some("Kill failed for PID "@ + decimal(pid as nat) + " in container"@),
                _ => None,
            },
        },
    }
}

/// Takes in how a command ended; returns whether the records should now be collected again
/// (after a forward or a kill succeeded).
pub fn on_outcome(app: &mut App, cmd: &Command, outcome: Outcome) -> (r: bool)
    requires
        old(app).wf(),
    ensures
        final(app).wf(),
        final(app).should_quit == old(app).should_quit,
        r == ((cmd matches Command::CreateForward { .. } || cmd matches Command::KillPort { .. }
            || cmd matches Command::KillInContainer { .. }) && outcome matches Outcome::Succeeded(_)),
        (cmd matches Command::Refresh || cmd matches Command::AutoRefresh) ==> match outcome {
            Outcome::Collected(es) => final(app).entries == es,
            _ => final(app).entries == old(app).entries,
        },
        !(cmd matches Command::Refresh || cmd matches Command::AutoRefresh) ==> final(app).entries
            == old(app).entries,
        match outcome_message(*cmd, outcome) {
            Some(m) => status_view(final(app).status_message) == Some((m, STATUS_TICKS)),
            None => final(app).status_message == old(app).status_message,
        },
        *final(app) == (App {
            entries: final(app).entries,
            filtered_entries: final(app).filtered_entries,
            selected: final(app).selected,
            status_message: final(app).status_message,
            ..*old(app)
        }),
{
    match cmd {
        Command::Refresh => {
            match outcome {
                Outcome::Collected(entries) => {
                    app.set_entries(entries);
                    app.set_status("Refreshed");
                },
                Outcome::Failed(e) => {
                    let msg = with_detail("Refresh failed: ", e.as_str());
                    app.set_status(msg.as_str());
                },
                _ => {},
            }
            false
        },
        Command::AutoRefresh => {
            match outcome {
                Outcome::Collected(entries) => {
                    app.set_entries(entries);
                },
                Outcome::Failed(e) => {
                    let msg = with_detail("Auto-refresh failed: ", e.as_str());
                    app.set_status(msg.as_str());
                },
                _ => {},
            }
            false
        },
        Command::CreateForward { spec: _, ssh_host: host, quick_port } => {
            match outcome {
                Outcome::Succeeded(pid) => {
                    let id: u32 = match pid {
                        Some(p) => p,
                        None => 0,
                    };
                    match quick_port {
                        Some(port) => {
                            let mut msg = concat(&chars_of("Forward :"), &decimal_chars(*port as u32));
                            msg = concat(&msg, &chars_of(" -> "));
                            msg = concat(&msg, &chars_of(host.as_str()));
                            msg = concat(&msg, &chars_of(":"));
                            msg = concat(&msg, &decimal_chars(*port as u32));
                            msg = concat(&msg, &chars_of(" (PID: "));
                            msg = concat(&msg, &decimal_chars(id));
                            msg = concat(&msg, &chars_of(")"));
                            app.set_status(string_from(&msg).as_str());
                        },
                        None => {
                            let msg = with_number("Forward created (PID: ", id, ")");
                            app.set_status(msg.as_str());
                        },
                    }
                    true
                },
                Outcome::Failed(e) => {
                    let msg = with_detail("Forward failed: ", e.as_str());
                    app.set_status(msg.as_str());
                    false
                },
                _ => {
                    app.set_status("Forward failed");
                    false
                },
            }
        },
        Command::KillPort { port, host: _ } => {
            match outcome {
                Outcome::Succeeded(_) => {
                    let msg = with_number_only("Killed process on port ", *port as u32);
                    app.set_status(msg.as_str());
                    true
                },
                Outcome::Failed(e) => {
                    let msg = with_detail("Kill failed: ", e.as_str());
                    app.set_status(msg.as_str());
                    false
                },
                _ => {
                    let msg = with_number_only("Failed to kill process on port ", *port as u32);
                    app.set_status(msg.as_str());
                    false
                },
            }
        },
        Command::KillInContainer { container: _, pid, host: _ } => {
            match outcome {
                Outcome::Succeeded(_) => {
                    let msg = with_number("Killed PID ", *pid, " in container");
                    app.set_status(msg.as_str());
                    true
                },
                Outcome::Refused => {
                    let msg = with_number("Kill failed for PID ", *pid, " in container");
                    app.set_status(msg.as_str());
                    false
                },
                Outcome::Failed(e) => {
                    let msg = with_detail("Kill failed: ", e.as_str());
                    app.set_status(msg.as_str());
                    false
                },
                Outcome::Collected(_) => false,
            }
        },
    }
}

} // verus!
