//! Input events and the actions keys map to.

use vstd::prelude::*;

use crate::app::{is_locked, next_unlocked, prev_unlocked, valid_host_text, valid_port_text, ForwardField, ForwardInput};
use crate::text::{pop_char, push_char};

verus! {

/// A key, as the session state machine distinguishes them.
#[derive(Debug, Clone, Copy, PartialEq, Eq, Structural)]
pub enum KeyCode {
    Char(char),
    Esc,
    Enter,
    Up,
    Down,
    Home,
    End,
    Tab,
    BackTab,
    Backspace,
    Other,
}

/// A key press, with whether Control was held.
#[derive(Debug, Clone, Copy, PartialEq, Eq, Structural)]
pub struct KeyEvent {
    pub code: KeyCode,
    pub ctrl: bool,
}

#[derive(Debug, Clone, Copy, PartialEq, Eq, Structural)]
pub enum MouseKind {
    Down,
    ScrollDown,
    ScrollUp,
    Other,
}

/// A mouse event and the terminal row it happened on.
#[derive(Debug, Clone, Copy, PartialEq, Eq, Structural)]
pub struct MouseEvent {
    pub kind: MouseKind,
    pub row: u16,
}

/// Paces the event loop: how long to wait for input before a tick.
pub struct EventHandler {
    pub tick_rate_ms: u64,
}

impl EventHandler {
    pub fn new(tick_rate_ms: u64) -> (r: Self)
        ensures
            r.tick_rate_ms == tick_rate_ms,
    {
        EventHandler { tick_rate_ms }
    }
}

#[derive(Debug, Clone, Copy, PartialEq, Eq, Structural)]
pub enum Action {
    Quit,
    Up,
    Down,
    First,
    Last,
    Select,
    SelectRow(usize),
    Refresh,
    ToggleAutoRefresh,
    EnterSearch,
    ExitSearch,
    UpdateSearch,
    FilterAll,
    FilterLocal,
    FilterSsh,
    FilterDocker,
    Kill,
    ShowHelp,
    ClosePopup,
    StartForward,
    SubmitForward,
    ShowPresets,
    LaunchPreset,
    QuickForward,
}

/// The action of a key in the main view.
pub open spec fn key_action(key: KeyEvent) -> Option<Action> {
    match key.code {
        KeyCode::Char(c) => if c == 'q' {
            Some(Action::Quit)
        } else if c == 'j' {
            Some(Action::Down)
        } else if c == 'k' {
            Some(Action::Up)
        } else if c == 'g' {
            Some(Action::First)
        } else if c == 'G' {
            Some(Action::Last)
        } else if c == '/' {
            Some(Action::EnterSearch)
        } else if c == '?' {
            Some(Action::ShowHelp)
        } else if c == 'r' {
            Some(Action::Refresh)
        } else if c == 'a' {
            Some(Action::ToggleAutoRefresh)
        } else if c == 'f' {
            Some(Action::StartForward)
        } else if c == 'F' {
            Some(Action::QuickForward)
        } else if c == 'p' {
            Some(Action::ShowPresets)
        } else if c == '0' {
            Some(Action::FilterAll)
        } else if c == '1' {
            Some(Action::FilterLocal)
        } else if c == '2' {
            Some(Action::FilterSsh)
        } else if c == '3' {
            Some(Action::FilterDocker)
        } else if c == 'K' {
            Some(Action::Kill)
        } else if c == 'c' && key.ctrl {
            Some(Action::Quit)
        } else {
            None
        },
        KeyCode::Esc => Some(Action::Quit),
        KeyCode::Down => Some(Action::Down),
        KeyCode::Up => Some(Action::Up),
        KeyCode::Home => Some(Action::First),
        KeyCode::End => Some(Action::Last),
        KeyCode::Enter => Some(Action::Select),
        _ => None,
    }
}

/// The action of a key in the main view.
pub fn handle_key(key: KeyEvent) -> (r: Option<Action>)
    ensures
        r == key_action(key),
{
    match key.code {
        KeyCode::Char(c) => {
            if c == 'q' {
                Some(Action::Quit)
            } else if c == 'j' {
                Some(Action::Down)
            } else if c == 'k' {
                Some(Action::Up)
            } else if c == 'g' {
                Some(Action::First)
            } else if c == 'G' {
                Some(Action::Last)
            } else if c == '/' {
                Some(Action::EnterSearch)
            } else if c == '?' {
                Some(Action::ShowHelp)
            } else if c == 'r' {
                Some(Action::Refresh)
            } else if c == 'a' {
                Some(Action::ToggleAutoRefresh)
            } else if c == 'f' {
                Some(Action::StartForward)
            } else if c == 'F' {
                Some(Action::QuickForward)
            } else if c == 'p' {
                Some(Action::ShowPresets)
            } else if c == '0' {
                Some(Action::FilterAll)
            } else if c == '1' {
                Some(Action::FilterLocal)
            } else if c == '2' {
                Some(Action::FilterSsh)
            } else if c == '3' {
                Some(Action::FilterDocker)
            } else if c == 'K' {
                Some(Action::Kill)
            } else if c == 'c' && key.ctrl {
                Some(Action::Quit)
            } else {
                None
            }
        },
        KeyCode::Esc => Some(Action::Quit),
        KeyCode::Down => Some(Action::Down),
        KeyCode::Up => Some(Action::Up),
        KeyCode::Home => Some(Action::First),
        KeyCode::End => Some(Action::Last),
        KeyCode::Enter => Some(Action::Select),
        _ => None,
    }
}

/// In the details and help overlays, Esc, Enter and `q` close them.
pub fn handle_popup_key(key: KeyEvent) -> (r: Option<Action>)
    ensures
        r == (if key.code == KeyCode::Esc || key.code == KeyCode::Enter || key.code
            == KeyCode::Char('q') {
            Some(Action::ClosePopup)
        } else {
            None
        }),
{
    match key.code {
        KeyCode::Esc | KeyCode::Enter => Some(Action::ClosePopup),
        KeyCode::Char(c) => if c == 'q' {
            Some(Action::ClosePopup)
        } else {
            None
        },
        _ => None,
    }
}

/// In search mode: Esc and Enter leave it, Backspace and characters edit the query.
pub fn handle_search_key(key: KeyEvent, query: &mut String) -> (r: Option<Action>)
    ensures
        match key.code {
            KeyCode::Esc | KeyCode::Enter => r == Some(Action::ExitSearch) && final(query)@
                == old(query)@,
            KeyCode::Backspace => r == Some(Action::UpdateSearch) && final(query)@ == (if old(
                query,
            )@.len() == 0 {
                old(query)@
            } else {
                old(query)@.drop_last()
            }),
            KeyCode::Char(c) => r == Some(Action::UpdateSearch) && final(query)@ == old(
                query,
            )@.push(c),
            _ => r.is_none() && final(query)@ == old(query)@,
        },
{
    match key.code {
        KeyCode::Esc => Some(Action::ExitSearch),
        KeyCode::Enter => Some(Action::ExitSearch),
        KeyCode::Backspace => {
            pop_char(query);
            Some(Action::UpdateSearch)
        },
        KeyCode::Char(c) => {
            push_char(query, c);
            Some(Action::UpdateSearch)
        },
        _ => None,
    }
}

/// The text of the field the draft is editing.
pub open spec fn active_text(d: ForwardInput) -> Seq<char> {
    match d.active_field {
        ForwardField::LocalPort => d.local_port@,
        ForwardField::RemoteHost => d.remote_host@,
        ForwardField::RemotePort => d.remote_port@,
        ForwardField::SshHost => d.ssh_host@,
    }
}

/// The draft with the active field's text replaced.
pub open spec fn with_active_text(old_d: ForwardInput, new_d: ForwardInput, t: Seq<char>) -> bool {
    &&& new_d.active_field == old_d.active_field
    &&& active_text(new_d) == t
    &&& (old_d.active_field != ForwardField::LocalPort ==> new_d.local_port == old_d.local_port)
    &&& (old_d.active_field != ForwardField::RemoteHost ==> new_d.remote_host == old_d.remote_host)
    &&& (old_d.active_field != ForwardField::RemotePort ==> new_d.remote_port == old_d.remote_port)
    &&& (old_d.active_field != ForwardField::SshHost ==> new_d.ssh_host == old_d.ssh_host)
}

pub open spec fn draft_valid(d: ForwardInput) -> bool {
    valid_port_text(d.local_port@) && valid_host_text(d.remote_host@) && valid_port_text(
        d.remote_port@,
    ) && valid_host_text(d.ssh_host@)
}

/// What a key does to the forward draft `d0`, giving `d1`, and what it returns.
pub open spec fn forward_key_result(
    key: KeyEvent,
    d0: ForwardInput,
    d1: ForwardInput,
    remote_mode: bool,
    docker_mode: bool,
    r: Option<Action>,
) -> bool {
    match key.code {
        KeyCode::Esc => r == Some(Action::ClosePopup) && d1 == d0,
        KeyCode::Enter => r == (if draft_valid(d0) {
            Some(Action::SubmitForward)
        } else {
            None
        }) && d1 == d0,
        KeyCode::Tab | KeyCode::Down => r.is_none() && d1 == (ForwardInput {
            active_field: next_unlocked(d0.active_field, remote_mode, docker_mode),
            ..d0
        }),
        KeyCode::BackTab | KeyCode::Up => r.is_none() && d1 == (ForwardInput {
            active_field: prev_unlocked(d0.active_field, remote_mode, docker_mode),
            ..d0
        }),
        KeyCode::Backspace => r.is_none() && if is_locked(
            d0.active_field,
            remote_mode,
            docker_mode,
        ) {
            d1 == d0
        } else {
            with_active_text(
                d0,
                d1,
                if active_text(d0).len() == 0 {
                    active_text(d0)
                } else {
                    active_text(d0).drop_last()
                },
            )
        },
        KeyCode::Char(c) => r.is_none() && if is_locked(
            d0.active_field,
            remote_mode,
            docker_mode,
        ) {
            d1 == d0
        } else {
            with_active_text(d0, d1, active_text(d0).push(c))
        },
        _ => r.is_none() && d1 == d0,
    }
}

/// In the forward overlay: Esc closes it, Enter submits a valid draft, Tab/Down and
/// BackTab/Up move between the unlocked fields (so `n` presses of one and then `n` of the other
/// come back to an unlocked starting field: `lemma_cycle_round_trip`), Backspace and characters edit the active
/// field unless it is locked.
pub fn handle_forward_key(
    key: KeyEvent,
    input: &mut ForwardInput,
    remote_mode: bool,
    docker_mode: bool,
) -> (r: Option<Action>)
    ensures
        forward_key_result(key, *old(input), *final(input), remote_mode, docker_mode, r),
        key.code == KeyCode::Tab || key.code == KeyCode::Down || key.code == KeyCode::BackTab
            || key.code == KeyCode::Up ==> !is_locked(final(input).active_field, remote_mode, docker_mode),
{
    proof {
        crate::app::lemma_step_back(input.active_field, remote_mode, docker_mode);
    }
    match key.code {
        KeyCode::Esc => Some(Action::ClosePopup),
        KeyCode::Enter => {
            if input.is_valid() {
                Some(Action::SubmitForward)
            } else {
                None
            }
        },
        KeyCode::Tab | KeyCode::Down => {
            input.active_field = input.active_field.next_unlocked(remote_mode, docker_mode);
            None
        },
        KeyCode::BackTab | KeyCode::Up => {
            input.active_field = input.active_field.prev_unlocked(remote_mode, docker_mode);
            None
        },
        KeyCode::Backspace => {
            if input.active_field.locked(remote_mode, docker_mode) {
                return None;
            }
            let v = input.active_value();
            pop_char(v);
            None
        },
        KeyCode::Char(c) => {
            if input.active_field.locked(remote_mode, docker_mode) {
                return None;
            }
            let v = input.active_value();
            push_char(v, c);
            None
        },
        _ => None,
    }
}

/// In the presets overlay: Esc and `q` close it, Enter launches, `j`/Down and `k`/Up move.
pub fn handle_preset_key(key: KeyEvent) -> (r: Option<Action>)
    ensures
        r == match key.code {
            KeyCode::Esc => Some(Action::ClosePopup),
            KeyCode::Enter => Some(Action::LaunchPreset),
            KeyCode::Down => Some(Action::Down),
            KeyCode::Up => Some(Action::Up),
            KeyCode::Char(c) => if c == 'q' {
                Some(Action::ClosePopup)
            } else if c == 'j' {
                Some(Action::Down)
            } else if c == 'k' {
                Some(Action::Up)
            } else {
                None
            },
            _ => None,
        },
{
    match key.code {
        KeyCode::Esc => Some(Action::ClosePopup),
        KeyCode::Enter => Some(Action::LaunchPreset),
        KeyCode::Down => Some(Action::Down),
        KeyCode::Up => Some(Action::Up),
        KeyCode::Char(c) => {
            if c == 'q' {
                Some(Action::ClosePopup)
            } else if c == 'j' {
                Some(Action::Down)
            } else if c == 'k' {
                Some(Action::Up)
            } else {
                None
            }
        },
        _ => None,
    }
}

/// A click on a table row (below the header row) selects that row; scrolling moves the
/// selection.
pub fn handle_mouse(event: MouseEvent, table_top: u16, table_height: u16) -> (r: Option<Action>)
    ensures
        r == match event.kind {
            MouseKind::Down => if event.row > table_top && event.row < table_top + table_height {
                Some(Action::SelectRow((event.row - table_top - 1) as usize))
            } else {
                None
            },
            MouseKind::ScrollDown => Some(Action::Down),
            MouseKind::ScrollUp => Some(Action::Up),
            MouseKind::Other => None,
        },
{
    match event.kind {
        MouseKind::Down => {
            if event.row > table_top && event.row - table_top < table_height {
                Some(Action::SelectRow((event.row - table_top - 1) as usize))
            } else {
                None
            }
        },
        MouseKind::ScrollDown => Some(Action::Down),
        MouseKind::ScrollUp => Some(Action::Up),
        MouseKind::Other => None,
    }
}

} // verus!
