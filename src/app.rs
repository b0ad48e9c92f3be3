//! Session state: the records, the filtered and searched view, the selection, the drafts
//! of new forwards and connections, and the status line.

use vstd::prelude::*;

use crate::connection::{Connection, ConnectionView};
use crate::port::{entry_views, lemma_entry_views_push, opt_view, EntryView, PortEntry, PortSource};
use crate::preset::{forward_spec, make_forward_spec, Preset};
use crate::text::{
    blank, chars_of, contains, contains_chars, decimal, decimal_chars, is_blank, lower_of,
    lowercase, parse_num, parse_u16, string_from, trim, trim_chars,
};

verus! {

#[derive(Debug, Clone, Copy, PartialEq, Eq, Structural)]
pub enum InputMode {
    Normal,
    Search,
}

#[derive(Debug, Clone, Copy, PartialEq, Eq, Structural)]
pub enum Popup {
    /// No overlay is open.
    Closed,
    Details,
    Help,
    Forward,
    Presets,
    Connections,
}

#[derive(Debug, Clone, Copy, PartialEq, Eq, Structural)]
pub enum ConnectionPopupMode {
    List,
    AddNew,
}

impl Default for ConnectionPopupMode {
    fn default() -> (r: ConnectionPopupMode)
        ensures
            r == ConnectionPopupMode::List,
    {
        ConnectionPopupMode::List
    }
}

// ---------------------------------------------------------------------------
// Connection draft
// ---------------------------------------------------------------------------

#[derive(Debug, Clone, Copy, PartialEq, Eq, Structural)]
pub enum ConnectionField {
    Name,
    RemoteHost,
    DockerTarget,
}

impl Default for ConnectionField {
    fn default() -> (r: ConnectionField)
        ensures
            r == ConnectionField::Name,
    {
        ConnectionField::Name
    }
}

impl ConnectionField {
    pub fn next(self) -> (r: Self)
        ensures
            r == match self {
                ConnectionField::Name => ConnectionField::RemoteHost,
                ConnectionField::RemoteHost => ConnectionField::DockerTarget,
                ConnectionField::DockerTarget => ConnectionField::Name,
            },
    {
        match self {
            ConnectionField::Name => ConnectionField::RemoteHost,
            ConnectionField::RemoteHost => ConnectionField::DockerTarget,
            ConnectionField::DockerTarget => ConnectionField::Name,
        }
    }

    pub fn prev(self) -> (r: Self)
        ensures
            r == match self {
                ConnectionField::Name => ConnectionField::DockerTarget,
                ConnectionField::RemoteHost => ConnectionField::Name,
                ConnectionField::DockerTarget => ConnectionField::RemoteHost,
            },
    {
        match self {
            ConnectionField::Name => ConnectionField::DockerTarget,
            ConnectionField::RemoteHost => ConnectionField::Name,
            ConnectionField::DockerTarget => ConnectionField::RemoteHost,
        }
    }
}

/// The draft of a new bookmarked connection.
#[derive(Debug, Clone)]
pub struct ConnectionInput {
    pub name: String,
    pub remote_host: String,
    pub docker_target: String,
    pub active_field: ConnectionField,
}

impl Default for ConnectionInput {
    fn default() -> (r: ConnectionInput)
        ensures
            r@ == empty_connection_draft(),
    {
        ConnectionInput::new()
    }
}

pub struct ConnectionDraftView {
    pub name: Seq<char>,
    pub remote_host: Seq<char>,
    pub docker_target: Seq<char>,
    pub active_field: ConnectionField,
}

impl View for ConnectionInput {
    type V = ConnectionDraftView;

    open spec fn view(&self) -> ConnectionDraftView {
        ConnectionDraftView {
            name: self.name@,
            remote_host: self.remote_host@,
            docker_target: self.docker_target@,
            active_field: self.active_field,
        }
    }
}

pub open spec fn empty_connection_draft() -> ConnectionDraftView {
    ConnectionDraftView {
        name: Seq::empty(),
        remote_host: Seq::empty(),
        docker_target: Seq::empty(),
        active_field: ConnectionField::Name,
    }
}

/// The trimmed text, or nothing when it is blank.
pub open spec fn optional_text(s: Seq<char>) -> Option<Seq<char>> {
    if trim(s).len() == 0 {
        None
    } else {
        Some(trim(s))
    }
}

fn optional_trimmed(s: &String) -> (r: Option<String>)
    ensures
        opt_view(r) == optional_text(s@),
{
    let t = trim_chars(&chars_of(s.as_str()));
    if t.len() == 0 {
        None
    } else {
        Some(string_from(&t))
    }
}

impl ConnectionInput {
    pub fn new() -> (r: Self)
        ensures
            r@ == empty_connection_draft(),
    {
        ConnectionInput {
            name: String::new(),
            remote_host: String::new(),
            docker_target: String::new(),
            active_field: ConnectionField::Name,
        }
    }

    /// The field being edited.
    pub fn active_value(&mut self) -> (r: &mut String)
        ensures
            *r == match old(self).active_field {
                ConnectionField::Name => old(self).name,
                ConnectionField::RemoteHost => old(self).remote_host,
                ConnectionField::DockerTarget => old(self).docker_target,
            },
            *final(self) == match old(self).active_field {
                ConnectionField::Name => ConnectionInput { name: *final(r), ..*old(self) },
                ConnectionField::RemoteHost => ConnectionInput {
                    remote_host: *final(r),
                    ..*old(self)
                },
                ConnectionField::DockerTarget => ConnectionInput {
                    docker_target: *final(r),
                    ..*old(self)
                },
            },
    {
        match self.active_field {
            ConnectionField::Name => &mut self.name,
            ConnectionField::RemoteHost => &mut self.remote_host,
            ConnectionField::DockerTarget => &mut self.docker_target,
        }
    }

    /// The name is not blank.
    pub fn is_name_valid(&self) -> (r: bool)
        ensures
            r == !is_blank(self.name@),
    {
        !blank(&chars_of(self.name.as_str()))
    }

    pub fn is_valid(&self) -> (r: bool)
        ensures
            r == !is_blank(self.name@),
    {
        self.is_name_valid()
    }

    /// The connection the draft describes, with its texts trimmed and blank ones left out;
    /// nothing when the name is blank.
    pub fn to_connection(&self) -> (r: Option<Connection>)
        ensures
            match r {
                Some(c) => !is_blank(self.name@) && c@ == (ConnectionView {
                    name: trim(self.name@),
                    remote_host: optional_text(self.remote_host@),
                    docker_target: optional_text(self.docker_target@),
                }),
                None => is_blank(self.name@),
            },
    {
        if !self.is_valid() {
            return None;
        }
        let name = string_from(&trim_chars(&chars_of(self.name.as_str())));
        Some(
            Connection {
                name,
                remote_host: optional_trimmed(&self.remote_host),
                docker_target: optional_trimmed(&self.docker_target),
            },
        )
    }
}

// ---------------------------------------------------------------------------
// Forward draft
// ---------------------------------------------------------------------------

#[derive(Debug, Clone, Copy, PartialEq, Eq, Structural)]
pub enum ForwardField {
    LocalPort,
    RemoteHost,
    RemotePort,
    SshHost,
}

impl Default for ForwardField {
    fn default() -> (r: ForwardField)
        ensures
            r == ForwardField::LocalPort,
    {
        ForwardField::LocalPort
    }
}

pub open spec fn field_after(f: ForwardField) -> ForwardField {
    match f {
        ForwardField::LocalPort => ForwardField::RemoteHost,
        ForwardField::RemoteHost => ForwardField::RemotePort,
        ForwardField::RemotePort => ForwardField::SshHost,
        ForwardField::SshHost => ForwardField::LocalPort,
    }
}

pub open spec fn field_before(f: ForwardField) -> ForwardField {
    match f {
        ForwardField::LocalPort => ForwardField::SshHost,
        ForwardField::RemoteHost => ForwardField::LocalPort,
        ForwardField::RemotePort => ForwardField::RemoteHost,
        ForwardField::SshHost => ForwardField::RemotePort,
    }
}

/// A field the active connection fills in and the user may not edit: the SSH host when a
/// remote host is configured, the remote host when a container is targeted.
pub open spec fn is_locked(f: ForwardField, remote_mode: bool, docker_mode: bool) -> bool {
    (remote_mode && f == ForwardField::SshHost) || (docker_mode && f == ForwardField::RemoteHost)
}

/// The next field, skipping locked ones (at most two).
pub open spec fn next_unlocked(f: ForwardField, remote_mode: bool, docker_mode: bool) -> ForwardField {
    let a = field_after(f);
    let b = if is_locked(a, remote_mode, docker_mode) {
        field_after(a)
    } else {
        a
    };
    if is_locked(b, remote_mode, docker_mode) {
        field_after(b)
    } else {
        b
    }
}

/// The previous field, skipping locked ones (at most two).
pub open spec fn prev_unlocked(f: ForwardField, remote_mode: bool, docker_mode: bool) -> ForwardField {
    let a = field_before(f);
    let b = if is_locked(a, remote_mode, docker_mode) {
        field_before(a)
    } else {
        a
    };
    if is_locked(b, remote_mode, docker_mode) {
        field_before(b)
    } else {
        b
    }
}

/// `n` steps forward.
pub open spec fn advance(f: ForwardField, n: nat, remote_mode: bool, docker_mode: bool) -> ForwardField
    decreases n,
{
    if n == 0 {
        f
    } else {
        advance(next_unlocked(f, remote_mode, docker_mode), (n - 1) as nat, remote_mode, docker_mode)
    }
}

/// `n` steps backward.
pub open spec fn retreat(f: ForwardField, n: nat, remote_mode: bool, docker_mode: bool) -> ForwardField
    decreases n,
{
    if n == 0 {
        f
    } else {
        retreat(prev_unlocked(f, remote_mode, docker_mode), (n - 1) as nat, remote_mode, docker_mode)
    }
}

proof fn lemma_advance_last(f: ForwardField, n: nat, remote_mode: bool, docker_mode: bool)
    ensures
        advance(f, n + 1, remote_mode, docker_mode) == next_unlocked(
            advance(f, n, remote_mode, docker_mode),
            remote_mode,
            docker_mode,
        ),
    decreases n,
{
    assert(advance(f, n + 1, remote_mode, docker_mode) == advance(
        next_unlocked(f, remote_mode, docker_mode),
        n,
        remote_mode,
        docker_mode,
    ));
    if n > 0 {
        assert(advance(f, n, remote_mode, docker_mode) == advance(
            next_unlocked(f, remote_mode, docker_mode),
            (n - 1) as nat,
            remote_mode,
            docker_mode,
        ));
        lemma_advance_last(next_unlocked(f, remote_mode, docker_mode), (n - 1) as nat, remote_mode, docker_mode);
    } else {
        assert(advance(next_unlocked(f, remote_mode, docker_mode), 0, remote_mode, docker_mode)
            == next_unlocked(f, remote_mode, docker_mode));
    }
}

/// Stepping forward from an unlocked field and back again returns to it, and never lands on a
/// locked field.
pub proof fn lemma_step_back(f: ForwardField, remote_mode: bool, docker_mode: bool)
    ensures
        !is_locked(next_unlocked(f, remote_mode, docker_mode), remote_mode, docker_mode),
        !is_locked(prev_unlocked(f, remote_mode, docker_mode), remote_mode, docker_mode),
        !is_locked(f, remote_mode, docker_mode) ==> prev_unlocked(
            next_unlocked(f, remote_mode, docker_mode),
            remote_mode,
            docker_mode,
        ) == f,
{
}

/// Cycling the active field of a forward draft `n` steps forward and then `n` steps backward
/// returns to the field it started on, locked fields being skipped both ways.
pub proof fn lemma_cycle_round_trip(f: ForwardField, n: nat, remote_mode: bool, docker_mode: bool)
    requires
        !is_locked(f, remote_mode, docker_mode),
    ensures
        retreat(advance(f, n, remote_mode, docker_mode), n, remote_mode, docker_mode) == f,
    decreases n,
{
    if n > 0 {
        let m = (n - 1) as nat;
        lemma_advance_last(f, m, remote_mode, docker_mode);
        let g = advance(f, m, remote_mode, docker_mode);
        if m > 0 {
            lemma_advance_last(f, (m - 1) as nat, remote_mode, docker_mode);
            lemma_step_back(advance(f, (m - 1) as nat, remote_mode, docker_mode), remote_mode, docker_mode);
        }
        lemma_step_back(g, remote_mode, docker_mode);
        lemma_cycle_round_trip(f, m, remote_mode, docker_mode);
    }
}

impl ForwardField {
    pub fn next(self) -> (r: Self)
        ensures
            r == field_after(self),
    {
        match self {
            ForwardField::LocalPort => ForwardField::RemoteHost,
            ForwardField::RemoteHost => ForwardField::RemotePort,
            ForwardField::RemotePort => ForwardField::SshHost,
            ForwardField::SshHost => ForwardField::LocalPort,
        }
    }

    pub fn prev(self) -> (r: Self)
        ensures
            r == field_before(self),
    {
        match self {
            ForwardField::LocalPort => ForwardField::SshHost,
            ForwardField::RemoteHost => ForwardField::LocalPort,
            ForwardField::RemotePort => ForwardField::RemoteHost,
            ForwardField::SshHost => ForwardField::RemotePort,
        }
    }

    /// Is this field locked in the given mode?
    pub fn locked(self, remote_mode: bool, docker_mode: bool) -> (r: bool)
        ensures
            r == is_locked(self, remote_mode, docker_mode),
    {
        (remote_mode && self == ForwardField::SshHost) || (docker_mode && self
            == ForwardField::RemoteHost)
    }

    /// The next field that is not locked.
    pub fn next_unlocked(self, remote_mode: bool, docker_mode: bool) -> (r: Self)
        ensures
            r == next_unlocked(self, remote_mode, docker_mode),
    {
        let mut f = self.next();
        if f.locked(remote_mode, docker_mode) {
            f = f.next();
        }
        if f.locked(remote_mode, docker_mode) {
            f = f.next();
        }
        f
    }

    /// The previous field that is not locked.
    pub fn prev_unlocked(self, remote_mode: bool, docker_mode: bool) -> (r: Self)
        ensures
            r == prev_unlocked(self, remote_mode, docker_mode),
    {
        let mut f = self.prev();
        if f.locked(remote_mode, docker_mode) {
            f = f.prev();
        }
        if f.locked(remote_mode, docker_mode) {
            f = f.prev();
        }
        f
    }
}

/// The draft of a new SSH forward; every field is text while it is edited.
#[derive(Debug, Clone)]
pub struct ForwardInput {
    pub local_port: String,
    pub remote_host: String,
    pub remote_port: String,
    pub ssh_host: String,
    pub active_field: ForwardField,
}

impl Default for ForwardInput {
    fn default() -> (r: ForwardInput)
        ensures
            r.local_port@.len() == 0,
            r.remote_host@.len() == 0,
            r.remote_port@.len() == 0,
            r.ssh_host@.len() == 0,
            r.active_field == ForwardField::LocalPort,
    {
        ForwardInput::new()
    }
}

/// A port field: a number from 1 to 65535.
pub open spec fn valid_port_text(s: Seq<char>) -> bool {
    match parse_num(s, 65535) {
        Some(n) => n >= 1,
        None => false,
    }
}

/// A host field: not blank.
pub open spec fn valid_host_text(s: Seq<char>) -> bool {
    !is_blank(s)
}

fn port_text_valid(s: &String) -> (r: bool)
    ensures
        r == valid_port_text(s@),
{
    match parse_u16(&chars_of(s.as_str())) {
        Some(n) => n >= 1,
        None => false,
    }
}

impl ForwardInput {
    pub fn new() -> (r: Self)
        ensures
            r.local_port@.len() == 0,
            r.remote_host@.len() == 0,
            r.remote_port@.len() == 0,
            r.ssh_host@.len() == 0,
            r.active_field == ForwardField::LocalPort,
    {
        ForwardInput {
            local_port: String::new(),
            remote_host: String::new(),
            remote_port: String::new(),
            ssh_host: String::new(),
            active_field: ForwardField::LocalPort,
        }
    }

    /// The field being edited.
    pub fn active_value(&mut self) -> (r: &mut String)
        ensures
            *r == match old(self).active_field {
                ForwardField::LocalPort => old(self).local_port,
                ForwardField::RemoteHost => old(self).remote_host,
                ForwardField::RemotePort => old(self).remote_port,
                ForwardField::SshHost => old(self).ssh_host,
            },
            *final(self) == match old(self).active_field {
                ForwardField::LocalPort => ForwardInput { local_port: *final(r), ..*old(self) },
                ForwardField::RemoteHost => ForwardInput { remote_host: *final(r), ..*old(self) },
                ForwardField::RemotePort => ForwardInput { remote_port: *final(r), ..*old(self) },
                ForwardField::SshHost => ForwardInput { ssh_host: *final(r), ..*old(self) },
            },
    {
        match self.active_field {
            ForwardField::LocalPort => &mut self.local_port,
            ForwardField::RemoteHost => &mut self.remote_host,
            ForwardField::RemotePort => &mut self.remote_port,
            ForwardField::SshHost => &mut self.ssh_host,
        }
    }

    pub fn is_local_port_valid(&self) -> (r: bool)
        ensures
            r == valid_port_text(self.local_port@),
    {
        port_text_valid(&self.local_port)
    }

    pub fn is_remote_host_valid(&self) -> (r: bool)
        ensures
            r == valid_host_text(self.remote_host@),
    {
        !blank(&chars_of(self.remote_host.as_str()))
    }

    pub fn is_remote_port_valid(&self) -> (r: bool)
        ensures
            r == valid_port_text(self.remote_port@),
    {
        port_text_valid(&self.remote_port)
    }

    pub fn is_ssh_host_valid(&self) -> (r: bool)
        ensures
            r == valid_host_text(self.ssh_host@),
    {
        !blank(&chars_of(self.ssh_host.as_str()))
    }

    /// All four fields are valid.
    pub fn is_valid(&self) -> (r: bool)
        ensures
            r == (valid_port_text(self.local_port@) && valid_host_text(self.remote_host@)
                && valid_port_text(self.remote_port@) && valid_host_text(self.ssh_host@)),
    {
        self.is_local_port_valid() && self.is_remote_host_valid() && self.is_remote_port_valid()
            && self.is_ssh_host_valid()
    }

    /// The labels of the invalid fields, in field order.
    pub fn invalid_field_names(&self) -> (r: Vec<&'static str>)
        ensures
            r@.map_values(|s: &str| s@) == (if valid_port_text(self.local_port@) {
                seq![]
            } else {
                seq!["Local Port"@]
            }) + (if valid_host_text(self.remote_host@) {
                seq![]
            } else {
                seq!["Remote Host"@]
            }) + (if valid_port_text(self.remote_port@) {
                seq![]
            } else {
                seq!["Remote Port"@]
            }) + (if valid_host_text(self.ssh_host@) {
                seq![]
            } else {
                seq!["SSH Host"@]
            }),
    {
        let mut names: Vec<&'static str> = Vec::new();
        if !self.is_local_port_valid() {
            names.push("Local Port");
        }
        if !self.is_remote_host_valid() {
            names.push("Remote Host");
        }
        if !self.is_remote_port_valid() {
            names.push("Remote Port");
        }
        if !self.is_ssh_host_valid() {
            names.push("SSH Host");
        }
        assert(names@.map_values(|s: &str| s@) =~= (if valid_port_text(self.local_port@) {
            seq![]
        } else {
            seq!["Local Port"@]
        }) + (if valid_host_text(self.remote_host@) {
            seq![]
        } else {
            seq!["Remote Host"@]
        }) + (if valid_port_text(self.remote_port@) {
            seq![]
        } else {
            seq!["Remote Port"@]
        }) + (if valid_host_text(self.ssh_host@) {
            seq![]
        } else {
            seq!["SSH Host"@]
        }));
        names
    }

    /// A draft for forwarding the record's port: both ports set to it, the remote host
    /// `localhost`, the SSH host the record's own when it has one (then editing starts at the
    /// local port, else at the SSH host).
    pub fn from_entry(entry: &PortEntry) -> (r: Self)
        ensures
            r.local_port@ == decimal(entry.local_port as nat),
            r.remote_host@ == "localhost"@,
            r.remote_port@ == decimal(entry.local_port as nat),
            r.ssh_host@ == match entry@.ssh_host {
                Some(h) => h,
                None => Seq::empty(),
            },
            r.active_field == (if entry@.ssh_host.is_some() && entry@.ssh_host->0.len() > 0 {
                ForwardField::LocalPort
            } else {
                ForwardField::SshHost
            }),
    {
        let has_ssh_host = match &entry.ssh_host {
            Some(h) => h.as_str().unicode_len() > 0,
            None => false,
        };
        let port = decimal_chars(entry.local_port as u32);
        ForwardInput {
            local_port: string_from(&port),
            remote_host: String::from_str("localhost"),
            remote_port: string_from(&port),
            ssh_host: match &entry.ssh_host {
                Some(h) => h.clone(),
                None => String::new(),
            },
            active_field: if has_ssh_host {
                ForwardField::LocalPort
            } else {
                ForwardField::SshHost
            },
        }
    }

    /// A draft for forwarding the record's port through the configured remote host.
    pub fn for_remote_entry(entry: &PortEntry, remote_host: &str) -> (r: Self)
        ensures
            r.local_port@ == decimal(entry.local_port as nat),
            r.remote_host@ == "localhost"@,
            r.remote_port@ == decimal(entry.local_port as nat),
            r.ssh_host@ == remote_host@,
            r.active_field == ForwardField::LocalPort,
    {
        let port = decimal_chars(entry.local_port as u32);
        ForwardInput {
            local_port: string_from(&port),
            remote_host: String::from_str("localhost"),
            remote_port: string_from(&port),
            ssh_host: String::from_str(remote_host),
            active_field: ForwardField::LocalPort,
        }
    }

    /// The forward spec `local:host:remote` (the ports as numbers) and the SSH host; nothing
    /// unless the draft is valid.
    pub fn to_spec(&self) -> (r: Option<(String, String)>)
        ensures
            match r {
                Some((spec, host)) => {
                    &&& valid_port_text(self.local_port@) && valid_host_text(self.remote_host@)
                        && valid_port_text(self.remote_port@) && valid_host_text(self.ssh_host@)
                    &&& spec@ == forward_spec(
                        parse_num(self.local_port@, 65535)->0 as u16,
                        self.remote_host@,
                        parse_num(self.remote_port@, 65535)->0 as u16,
                    )
                    &&& host@ == self.ssh_host@
                },
                None => !(valid_port_text(self.local_port@) && valid_host_text(self.remote_host@)
                    && valid_port_text(self.remote_port@) && valid_host_text(self.ssh_host@)),
            },
    {
        if !self.is_valid() {
            return None;
        }
        let local_port = match parse_u16(&chars_of(self.local_port.as_str())) {
            Some(p) => p,
            None => {
                return None;
            },
        };
        let remote_port = match parse_u16(&chars_of(self.remote_port.as_str())) {
            Some(p) => p,
            None => {
                return None;
            },
        };
        let spec = make_forward_spec(local_port, self.remote_host.as_str(), remote_port);
        Some((spec, self.ssh_host.clone()))
    }
}

// ---------------------------------------------------------------------------
// Filtering and search
// ---------------------------------------------------------------------------

#[derive(Debug, Clone, Copy, PartialEq, Eq, Structural)]
pub enum Filter {
    All,
    Local,
    Ssh,
    Docker,
}

pub open spec fn source_matches(f: Filter, s: PortSource) -> bool {
    match f {
        Filter::All => true,
        Filter::Local => s == PortSource::Local,
        Filter::Ssh => s == PortSource::Ssh,
        Filter::Docker => s == PortSource::Docker,
    }
}

impl Filter {
    /// The filter a configuration names (`local`, `ssh`, `docker`); anything else shows all.
    pub fn from_name(name: &str) -> (r: Filter)
        ensures
            r == (if name@ == "local"@ {
                Filter::Local
            } else if name@ == "ssh"@ {
                Filter::Ssh
            } else if name@ == "docker"@ {
                Filter::Docker
            } else {
                Filter::All
            }),
    {
        let n = chars_of(name);
        if crate::text::eq_chars(&n, &chars_of("local")) {
            Filter::Local
        } else if crate::text::eq_chars(&n, &chars_of("ssh")) {
            Filter::Ssh
        } else if crate::text::eq_chars(&n, &chars_of("docker")) {
            Filter::Docker
        } else {
            Filter::All
        }
    }

    pub fn admits(self, s: PortSource) -> (r: bool)
        ensures
            r == source_matches(self, s),
    {
        match self {
            Filter::All => true,
            Filter::Local => s == PortSource::Local,
            Filter::Ssh => s == PortSource::Ssh,
            Filter::Docker => s == PortSource::Docker,
        }
    }
}

/// A lowered query matches a record when it occurs in the record's lowered process name, in
/// its port number, or in its lowered remote host.
pub open spec fn search_hit_spec(
    query: Seq<char>,
    name: Seq<char>,
    port: u16,
    remote: Option<Seq<char>>,
) -> bool {
    contains(name, query) || contains(decimal(port as nat), query) || match remote {
        Some(h) => contains(h, query),
        None => false,
    }
}

/// Whether the lowered `query` matches a record with lowered process name `name`, port
/// `port` and lowered remote host `remote`.
pub fn search_hit(query: &Vec<char>, name: &Vec<char>, port: u16, remote: &Option<Vec<char>>) -> (r: bool)
    ensures
        r == search_hit_spec(
            query@,
            name@,
            port,
            match remote {
                Some(h) => Some(h@),
                None => None,
            },
        ),
{
    contains_chars(name, query) || contains_chars(&decimal_chars(port as u32), query) || match remote {
        Some(h) => contains_chars(h, query),
        None => false,
    }
}

/// A record is shown when its source passes the filter and the search query (case-insensitive)
/// is empty or matches it.
pub open spec fn visible(e: EntryView, f: Filter, query: Seq<char>) -> bool {
    source_matches(f, e.source) && (query.len() == 0 || search_hit_spec(
        lower_of(query),
        lower_of(e.process_name),
        e.local_port,
        match e.remote_host {
            Some(h) => Some(lower_of(h)),
            None => None,
        },
    ))
}

/// Is the record shown under this filter and query?
pub fn entry_visible(e: &PortEntry, f: Filter, query: &String) -> (r: bool)
    ensures
        r == visible(e@, f, query@),
{
    if !f.admits(e.source) {
        return false;
    }
    if query.as_str().unicode_len() == 0 {
        return true;
    }
    let q = chars_of(lowercase(query.as_str()).as_str());
    let name = chars_of(lowercase(e.process_name.as_str()).as_str());
    let remote = match &e.remote_host {
        Some(h) => Some(chars_of(lowercase(h.as_str()).as_str())),
        None => None,
    };
    search_hit(&q, &name, e.local_port, &remote)
}

/// The records shown under this filter and query, in their order.
pub open spec fn view_of(s: Seq<EntryView>, f: Filter, query: Seq<char>) -> Seq<EntryView> {
    s.filter(|e: EntryView| visible(e, f, query))
}

/// The selection after the view changed to `len` records: kept when it is still inside,
/// else the last record (0 when there is none).
pub open spec fn clamp_selection(selected: usize, len: nat) -> usize {
    if selected >= len {
        if len == 0 {
            0
        } else {
            (len - 1) as usize
        }
    } else {
        selected
    }
}

/// How long a status message stays, in ticks.
pub const STATUS_TICKS: u32 = 12;

pub open spec fn status_view(s: Option<(String, u32)>) -> Option<(Seq<char>, u32)> {
    match s {
        Some((m, t)) => Some((m@, t)),
        None => None,
    }
}

// ---------------------------------------------------------------------------
// Session state
// ---------------------------------------------------------------------------

/// The state of one interactive session.
pub struct App {
    pub entries: Vec<PortEntry>,
    pub filtered_entries: Vec<PortEntry>,
    pub selected: usize,
    pub filter: Filter,
    pub search_query: String,
    pub input_mode: InputMode,
    pub popup: Popup,
    pub should_quit: bool,
    pub forward_input: ForwardInput,
    pub auto_refresh: bool,
    pub tick_count: u32,
    pub refresh_ticks: u32,
    /// The message and the ticks it has left.
    pub status_message: Option<(String, u32)>,
    pub presets: Vec<Preset>,
    pub preset_selected: usize,
    pub remote_host: Option<String>,
    pub docker_target: Option<String>,
    pub container_ip: Option<String>,
    pub connections: Vec<Connection>,
    pub active_connection: usize,
    pub connection_selected: usize,
    pub connection_input: ConnectionInput,
    pub connection_popup_mode: ConnectionPopupMode,
}

impl Default for App {
    fn default() -> (r: App)
        ensures
            r.wf(),
    {
        App::new()
    }
}

/// The next position in a list of `len`, wrapping to the front.
pub open spec fn wrap_next(i: usize, len: nat) -> usize {
    if len == 0 {
        i
    } else {
        ((i + 1) % (len as int)) as usize
    }
}

/// The previous position in a list of `len`, wrapping to the back.
pub open spec fn wrap_prev(i: usize, len: nat) -> usize {
    if len == 0 {
        i
    } else if i == 0 {
        (len - 1) as usize
    } else {
        (i - 1) as usize
    }
}

fn next_index(i: usize, len: usize) -> (r: usize)
    ensures
        r == wrap_next(i, len as nat),
{
    if len == 0 {
        i
    } else {
        let k = i % len;
        proof {
            vstd::arithmetic::div_mod::lemma_add_mod_noop(i as int, 1, len as int);
            vstd::arithmetic::div_mod::lemma_add_mod_noop(k as int, 1, len as int);
            vstd::arithmetic::div_mod::lemma_mod_twice(i as int, len as int);
            vstd::arithmetic::div_mod::lemma_mod_bound(i as int, len as int);
            if k + 1 < len {
                vstd::arithmetic::div_mod::lemma_small_mod((k + 1) as nat, len as nat);
            } else {
                vstd::arithmetic::div_mod::lemma_mod_self_0(len as int);
            }
        }
        if k + 1 == len {
            0
        } else {
            k + 1
        }
    }
}

fn prev_index(i: usize, len: usize) -> (r: usize)
    ensures
        r == wrap_prev(i, len as nat),
{
    if len == 0 {
        i
    } else if i == 0 {
        len - 1
    } else {
        i - 1
    }
}

impl App {
    /// The selection is inside the view, or 0 when the view is empty.
    pub open spec fn selection_ok(&self) -> bool {
        if self.filtered_entries@.len() == 0 {
            self.selected == 0
        } else {
            self.selected < self.filtered_entries@.len()
        }
    }

    /// The records, the view, the selection and what they depend on are those of `other`.
    pub open spec fn same_view(&self, other: App) -> bool {
        &&& self.entries == other.entries
        &&& self.filtered_entries == other.filtered_entries
        &&& self.selected == other.selected
        &&& self.filter == other.filter
        &&& self.search_query == other.search_query
        &&& self.refresh_ticks == other.refresh_ticks
        &&& self.connections == other.connections
    }

    /// The session's mode (overlay, input mode, quitting) is that of `other`.
    pub open spec fn same_mode(&self, other: App) -> bool {
        &&& self.should_quit == other.should_quit
        &&& self.input_mode == other.input_mode
        &&& self.popup == other.popup
    }

    /// Everything the view depends on, and the view, are those of `other`.
    pub open spec fn same_data(&self, other: App) -> bool {
        &&& self.entries == other.entries
        &&& self.filtered_entries == other.filtered_entries
        &&& self.filter == other.filter
        &&& self.search_query == other.search_query
        &&& self.refresh_ticks == other.refresh_ticks
        &&& self.connections == other.connections
    }

    /// The view is the filtered projection of the records, the selection is inside it, the
    /// refresh period is positive and the local connection is there.
    pub open spec fn wf(&self) -> bool {
        &&& entry_views(self.filtered_entries@) == view_of(
            entry_views(self.entries@),
            self.filter,
            self.search_query@,
        )
        &&& self.selection_ok()
        &&& self.refresh_ticks > 0
        &&& self.connections@.len() > 0
    }

    pub fn new() -> (r: Self)
        ensures
            r.wf(),
            r.entries@.len() == 0,
            r.filter == Filter::All,
            r.refresh_ticks == 20,
            r.tick_count == 0,
            !r.auto_refresh,
            r.popup == Popup::Closed,
            r.input_mode == InputMode::Normal,
            r.connections@.len() == 1,
            r.connections@[0]@ == crate::connection::local_connection(),
            r.active_connection == 0,
            r.remote_host.is_none(),
            r.docker_target.is_none(),
            r.container_ip.is_none(),
            r.status_message.is_none(),
            r.search_query@.len() == 0,
            r.selected == 0,
            !r.should_quit,
            r.forward_input.local_port@.len() == 0,
            r.forward_input.remote_host@.len() == 0,
            r.forward_input.remote_port@.len() == 0,
            r.forward_input.ssh_host@.len() == 0,
            r.forward_input.active_field == ForwardField::LocalPort,
            r.presets@.len() == 0,
            r.preset_selected == 0,
    {
        let mut connections: Vec<Connection> = Vec::new();
        connections.push(Connection::local());
        let app = App {
            entries: Vec::new(),
            filtered_entries: Vec::new(),
            selected: 0,
            filter: Filter::All,
            search_query: String::new(),
            input_mode: InputMode::Normal,
            popup: Popup::Closed,
            should_quit: false,
            forward_input: ForwardInput::new(),
            auto_refresh: false,
            tick_count: 0,
            refresh_ticks: 20,
            status_message: None,
            presets: Vec::new(),
            preset_selected: 0,
            remote_host: None,
            docker_target: None,
            container_ip: None,
            connections,
            active_connection: 0,
            connection_selected: 0,
            connection_input: ConnectionInput::new(),
            connection_popup_mode: ConnectionPopupMode::List,
        };
        assert(entry_views(app.entries@) =~= Seq::<EntryView>::empty());
        assert(entry_views(app.filtered_entries@) =~= Seq::<EntryView>::empty());
        assert(view_of(Seq::<EntryView>::empty(), Filter::All, app.search_query@) =~= Seq::<
            EntryView,
        >::empty());
        app
    }

    pub fn is_remote(&self) -> (r: bool)
        ensures
            r == self.remote_host.is_some(),
    {
        self.remote_host.is_some()
    }

    pub fn is_docker_target(&self) -> (r: bool)
        ensures
            r == self.docker_target.is_some(),
    {
        self.docker_target.is_some()
    }

    pub fn preset_next(&mut self)
        ensures
            *final(self) == (App { preset_selected: final(self).preset_selected, ..*old(self) }),
            final(self).same_mode(*old(self)),
            final(self).same_view(*old(self)),
            final(self).preset_selected == wrap_next(old(self).preset_selected, old(self).presets@.len()),
            final(self).presets == old(self).presets,
    {
        self.preset_selected = next_index(self.preset_selected, self.presets.len());
    }

    pub fn preset_previous(&mut self)
        ensures
            *final(self) == (App { preset_selected: final(self).preset_selected, ..*old(self) }),
            final(self).same_mode(*old(self)),
            final(self).same_view(*old(self)),
            final(self).preset_selected == wrap_prev(old(self).preset_selected, old(self).presets@.len()),
            final(self).presets == old(self).presets,
    {
        self.preset_selected = prev_index(self.preset_selected, self.presets.len());
    }

    pub fn selected_preset(&self) -> (r: Option<&Preset>)
        ensures
            r.is_some() == (self.preset_selected < self.presets@.len()),
            r.is_some() ==> *r->0 == self.presets@[self.preset_selected as int],
    {
        if self.preset_selected < self.presets.len() {
            Some(&self.presets[self.preset_selected])
        } else {
            None
        }
    }

    /// Shows `message` for the next twelve ticks.
    pub fn set_status(&mut self, message: &str)
        ensures
            status_view(final(self).status_message) == Some((message@, STATUS_TICKS)),
            *final(self) == (App { status_message: final(self).status_message, ..*old(self) }),
    {
        self.status_message = Some((String::from_str(message), STATUS_TICKS));
    }

    /// One tick: the counter advances (wrapping) and a status message loses a tick, going
    /// away once it has none left.
    pub fn tick(&mut self)
        ensures
            final(self).tick_count == (if old(self).tick_count == u32::MAX {
                0
            } else {
                (old(self).tick_count + 1) as u32
            }),
            status_view(final(self).status_message) == match status_view(old(self).status_message) {
                Some((m, t)) => if t > 0 {
                    Some((m, (t - 1) as u32))
                } else {
                    None
                },
                None => None,
            },
            *final(self) == (App {
                tick_count: final(self).tick_count,
                status_message: final(self).status_message,
                ..*old(self)
            }),
    {
        self.tick_count = if self.tick_count == u32::MAX {
            0
        } else {
            self.tick_count + 1
        };
        let next = match &self.status_message {
            Some((m, t)) => if *t > 0 {
                Some((m.clone(), *t - 1))
            } else {
                None
            },
            None => None,
        };
        self.status_message = next;
    }

    /// An automatic refresh is due: it is on, and the tick count is a positive multiple of the
    /// refresh period.
    pub fn should_refresh(&self) -> (r: bool)
        requires
            self.refresh_ticks > 0,
        ensures
            r == (self.auto_refresh && self.tick_count > 0 && self.tick_count % self.refresh_ticks
                == 0),
    {
        self.auto_refresh && self.tick_count > 0 && self.tick_count % self.refresh_ticks == 0
    }

    pub fn reset_forward_input(&mut self)
        ensures
            *final(self) == (App { forward_input: final(self).forward_input, ..*old(self) }),
            final(self).same_mode(*old(self)),
            final(self).same_view(*old(self)),
            final(self).popup == old(self).popup,
            final(self).presets == old(self).presets,
            final(self).remote_host == old(self).remote_host,
            final(self).docker_target == old(self).docker_target,
            final(self).container_ip == old(self).container_ip,
            final(self).auto_refresh == old(self).auto_refresh,
            final(self).input_mode == old(self).input_mode,
            final(self).should_quit == old(self).should_quit,
            final(self).forward_input.local_port@.len() == 0,
            final(self).forward_input.remote_host@.len() == 0,
            final(self).forward_input.remote_port@.len() == 0,
            final(self).forward_input.ssh_host@.len() == 0,
            final(self).forward_input.active_field == ForwardField::LocalPort,
            final(self).entries == old(self).entries,
            final(self).filtered_entries == old(self).filtered_entries,
            final(self).selected == old(self).selected,
            final(self).filter == old(self).filter,
            final(self).search_query == old(self).search_query,
            final(self).refresh_ticks == old(self).refresh_ticks,
            final(self).connections == old(self).connections,
    {
        self.forward_input = ForwardInput::new();
    }

    /// Replaces the records and recomputes the view.
    pub fn set_entries(&mut self, entries: Vec<PortEntry>)
        ensures
            *final(self) == (App {
                entries: final(self).entries,
                filtered_entries: final(self).filtered_entries,
                selected: final(self).selected,
                ..*old(self)
            }),
            final(self).same_mode(*old(self)),
            final(self).entries == entries,
            entry_views(final(self).filtered_entries@) == view_of(
                entry_views(entries@),
                old(self).filter,
                old(self).search_query@,
            ),
            final(self).selected == clamp_selection(
                old(self).selected,
                final(self).filtered_entries@.len(),
            ),
            final(self).selection_ok(),
            final(self).filter == old(self).filter,
            final(self).search_query == old(self).search_query,
            final(self).refresh_ticks == old(self).refresh_ticks,
            final(self).connections == old(self).connections,
            final(self).popup == old(self).popup,
            status_view(final(self).status_message) == status_view(old(self).status_message),
    {
        self.entries = entries;
        self.apply_filter();
    }

    /// Recomputes the view from the records, the filter and the search query, and keeps the
    /// selection inside it.
    pub fn apply_filter(&mut self)
        ensures
            *final(self) == (App {
                filtered_entries: final(self).filtered_entries,
                selected: final(self).selected,
                ..*old(self)
            }),
            final(self).same_mode(*old(self)),
            entry_views(final(self).filtered_entries@) == view_of(
                entry_views(old(self).entries@),
                old(self).filter,
                old(self).search_query@,
            ),
            final(self).selected == clamp_selection(
                old(self).selected,
                final(self).filtered_entries@.len(),
            ),
            final(self).selection_ok(),
            final(self).entries == old(self).entries,
            final(self).filter == old(self).filter,
            final(self).search_query == old(self).search_query,
            final(self).refresh_ticks == old(self).refresh_ticks,
            final(self).connections == old(self).connections,
            final(self).popup == old(self).popup,
            status_view(final(self).status_message) == status_view(old(self).status_message),
    {
        let ghost s = entry_views(self.entries@);
        let ghost keep = |e: EntryView| visible(e, self.filter, self.search_query@);
        let mut out: Vec<PortEntry> = Vec::new();
        let mut k: usize = 0;
        while k < self.entries.len()
            invariant
                k <= self.entries@.len(),
                s == entry_views(self.entries@),
                keep == (|e: EntryView| visible(e, self.filter, self.search_query@)),
                entry_views(out@) == s.take(k as int).filter(keep),
            decreases self.entries@.len() - k,
        {
            let e = &self.entries[k];
            proof {
                assert(s.take(k + 1) == s.take(k as int).push(s[k as int]));
                s.take(k as int).lemma_filter_push(s[k as int], keep);
                assert(s[k as int] == self.entries@[k as int]@);
            }
            if entry_visible(e, self.filter, &self.search_query) {
                let c = e.copy();
                proof {
                    lemma_entry_views_push(out@, c);
                }
                out.push(c);
            }
            k = k + 1;
        }
        assert(s.take(k as int) =~= s);
        self.filtered_entries = out;
        if self.selected >= self.filtered_entries.len() {
            self.selected = if self.filtered_entries.len() == 0 {
                0
            } else {
                self.filtered_entries.len() - 1
            };
        }
    }

    /// Changes the filter and recomputes the view.
    pub fn set_filter(&mut self, filter: Filter)
        ensures
            *final(self) == (App {
                filter: final(self).filter,
                filtered_entries: final(self).filtered_entries,
                selected: final(self).selected,
                ..*old(self)
            }),
            final(self).same_mode(*old(self)),
            final(self).filter == filter,
            entry_views(final(self).filtered_entries@) == view_of(
                entry_views(old(self).entries@),
                filter,
                old(self).search_query@,
            ),
            final(self).selected == clamp_selection(
                old(self).selected,
                final(self).filtered_entries@.len(),
            ),
            final(self).selection_ok(),
            final(self).entries == old(self).entries,
            final(self).search_query == old(self).search_query,
            final(self).refresh_ticks == old(self).refresh_ticks,
            final(self).connections == old(self).connections,
            final(self).popup == old(self).popup,
            status_view(final(self).status_message) == status_view(old(self).status_message),
    {
        self.filter = filter;
        self.apply_filter();
    }

    /// Moves the selection down, wrapping to the top.
    pub fn next(&mut self)
        ensures
            *final(self) == (App { selected: final(self).selected, ..*old(self) }),
            final(self).same_mode(*old(self)),
            final(self).same_data(*old(self)),
            final(self).selected == wrap_next(old(self).selected, old(self).filtered_entries@.len()),
            final(self).filtered_entries == old(self).filtered_entries,
            final(self).entries == old(self).entries,
            old(self).selection_ok() ==> final(self).selection_ok(),
    {
        self.selected = next_index(self.selected, self.filtered_entries.len());
    }

    /// Moves the selection up, wrapping to the bottom.
    pub fn previous(&mut self)
        ensures
            *final(self) == (App { selected: final(self).selected, ..*old(self) }),
            final(self).same_mode(*old(self)),
            final(self).same_data(*old(self)),
            final(self).selected == wrap_prev(old(self).selected, old(self).filtered_entries@.len()),
            final(self).filtered_entries == old(self).filtered_entries,
            final(self).entries == old(self).entries,
            old(self).selection_ok() ==> final(self).selection_ok(),
    {
        self.selected = prev_index(self.selected, self.filtered_entries.len());
    }

    pub fn first(&mut self)
        ensures
            *final(self) == (App { selected: final(self).selected, ..*old(self) }),
            final(self).same_mode(*old(self)),
            final(self).same_data(*old(self)),
            final(self).selected == 0,
            final(self).filtered_entries == old(self).filtered_entries,
            final(self).entries == old(self).entries,
            final(self).selection_ok(),
    {
        self.selected = 0;
    }

    pub fn last(&mut self)
        ensures
            *final(self) == (App { selected: final(self).selected, ..*old(self) }),
            final(self).same_mode(*old(self)),
            final(self).same_data(*old(self)),
            final(self).selected == (if old(self).filtered_entries@.len() == 0 {
                old(self).selected
            } else {
                (old(self).filtered_entries@.len() - 1) as usize
            }),
            final(self).filtered_entries == old(self).filtered_entries,
            final(self).entries == old(self).entries,
            old(self).selection_ok() ==> final(self).selection_ok(),
    {
        if self.filtered_entries.len() > 0 {
            self.selected = self.filtered_entries.len() - 1;
        }
    }

    pub fn selected_entry(&self) -> (r: Option<&PortEntry>)
        ensures
            r.is_some() == (self.selected < self.filtered_entries@.len()),
            r.is_some() ==> *r->0 == self.filtered_entries@[self.selected as int],
    {
        if self.selected < self.filtered_entries.len() {
            Some(&self.filtered_entries[self.selected])
        } else {
            None
        }
    }

    pub fn has_multiple_connections(&self) -> (r: bool)
        ensures
            r == (self.connections@.len() > 1),
    {
        self.connections.len() > 1
    }

    pub fn active_connection(&self) -> (r: Option<&Connection>)
        ensures
            r.is_some() == (self.active_connection < self.connections@.len()),
            r.is_some() ==> *r->0 == self.connections@[self.active_connection as int],
    {
        if self.active_connection < self.connections.len() {
            Some(&self.connections[self.active_connection])
        } else {
            None
        }
    }

    pub fn next_connection(&mut self)
        ensures
            final(self).same_mode(*old(self)),
            final(self).same_view(*old(self)),
            final(self).active_connection == wrap_next(
                old(self).active_connection,
                old(self).connections@.len(),
            ),
            final(self).connections == old(self).connections,
    {
        self.active_connection = next_index(self.active_connection, self.connections.len());
    }

    pub fn prev_connection(&mut self)
        ensures
            final(self).same_mode(*old(self)),
            final(self).same_view(*old(self)),
            final(self).active_connection == wrap_prev(
                old(self).active_connection,
                old(self).connections@.len(),
            ),
            final(self).connections == old(self).connections,
    {
        self.active_connection = prev_index(self.active_connection, self.connections.len());
    }

    /// Takes the remote host and container target of the active connection; the container
    /// address is forgotten.
    pub fn apply_connection(&mut self)
        ensures
            final(self).same_mode(*old(self)),
            final(self).same_view(*old(self)),
            old(self).active_connection < old(self).connections@.len() ==> {
                let c = old(self).connections@[old(self).active_connection as int]@;
                &&& opt_view(final(self).remote_host) == c.remote_host
                &&& opt_view(final(self).docker_target) == c.docker_target
                &&& final(self).container_ip.is_none()
            },
            old(self).active_connection >= old(self).connections@.len() ==> (
            final(self).remote_host == old(self).remote_host && final(self).docker_target == old(
                self,
            ).docker_target && final(self).container_ip == old(self).container_ip),
            final(self).connections == old(self).connections,
    {
        if self.active_connection < self.connections.len() {
            let conn = self.connections[self.active_connection].copy();
            self.remote_host = conn.remote_host;
            self.docker_target = conn.docker_target;
            self.container_ip = None;
        }
    }

    pub fn connection_next(&mut self)
        ensures
            final(self).same_mode(*old(self)),
            final(self).same_view(*old(self)),
            final(self).connection_selected == wrap_next(
                old(self).connection_selected,
                old(self).connections@.len(),
            ),
            final(self).connections == old(self).connections,
    {
        self.connection_selected = next_index(self.connection_selected, self.connections.len());
    }

    pub fn connection_previous(&mut self)
        ensures
            final(self).same_mode(*old(self)),
            final(self).same_view(*old(self)),
            final(self).connection_selected == wrap_prev(
                old(self).connection_selected,
                old(self).connections@.len(),
            ),
            final(self).connections == old(self).connections,
    {
        self.connection_selected = prev_index(self.connection_selected, self.connections.len());
    }

    pub fn reset_connection_input(&mut self)
        ensures
            final(self).same_mode(*old(self)),
            final(self).same_view(*old(self)),
            final(self).connection_input@ == empty_connection_draft(),
            final(self).connections == old(self).connections,
    {
        self.connection_input = ConnectionInput::new();
    }
}

} // verus!
