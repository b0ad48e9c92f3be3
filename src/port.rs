//! Port records, and their reconciliation: deduplication across sources, liveness from
//! probes, and ordering.

use vstd::prelude::*;
use vstd::multiset::Multiset;

use crate::text::{chars_of, concat, decimal, decimal_chars, string_from};

verus! {

broadcast use vstd::seq_lib::group_to_multiset_ensures;

/// Where a listening port was discovered.
#[derive(Debug, Clone, Copy, PartialEq, Eq, Hash, Structural)]
pub enum PortSource {
    Local,
    Ssh,
    Docker,
}

impl PortSource {
    /// The upper-case tag shown for the source.
    pub fn label(&self) -> (r: String)
        ensures
            r@ == source_label(*self),
    {
        match self {
            PortSource::Local => String::from_str("LOCAL"),
            PortSource::Ssh => String::from_str("SSH"),
            PortSource::Docker => String::from_str("DOCKER"),
        }
    }
}

pub open spec fn source_label(s: PortSource) -> Seq<char> {
    match s {
        PortSource::Local => "LOCAL"@,
        PortSource::Ssh => "SSH"@,
        PortSource::Docker => "DOCKER"@,
    }
}

/// One observed listening endpoint.
#[derive(Debug, Clone)]
pub struct PortEntry {
    pub source: PortSource,
    pub local_port: u16,
    pub remote_host: Option<String>,
    pub remote_port: Option<u16>,
    pub process_name: String,
    pub pid: Option<u32>,
    pub container_id: Option<String>,
    pub container_name: Option<String>,
    pub ssh_host: Option<String>,
    pub is_open: bool,
    pub is_loopback: bool,
}

/// The mathematical content of a [`PortEntry`].
pub struct EntryView {
    pub source: PortSource,
    pub local_port: u16,
    pub remote_host: Option<Seq<char>>,
    pub remote_port: Option<u16>,
    pub process_name: Seq<char>,
    pub pid: Option<u32>,
    pub container_id: Option<Seq<char>>,
    pub container_name: Option<Seq<char>>,
    pub ssh_host: Option<Seq<char>>,
    pub is_open: bool,
    pub is_loopback: bool,
}

pub open spec fn opt_view(o: Option<String>) -> Option<Seq<char>> {
    match o {
        Some(s) => Some(s@),
        None => None,
    }
}

impl View for PortEntry {
    type V = EntryView;

    open spec fn view(&self) -> EntryView {
        EntryView {
            source: self.source,
            local_port: self.local_port,
            remote_host: opt_view(self.remote_host),
            remote_port: self.remote_port,
            process_name: self.process_name@,
            pid: self.pid,
            container_id: opt_view(self.container_id),
            container_name: opt_view(self.container_name),
            ssh_host: opt_view(self.ssh_host),
            is_open: self.is_open,
            is_loopback: self.is_loopback,
        }
    }
}

/// The views of a sequence of entries.
pub open spec fn entry_views(s: Seq<PortEntry>) -> Seq<EntryView> {
    s.map_values(|e: PortEntry| e@)
}

pub proof fn lemma_entry_views_push(s: Seq<PortEntry>, e: PortEntry)
    ensures
        entry_views(s.push(e)) == entry_views(s).push(e@),
{
    assert(entry_views(s.push(e)) =~= entry_views(s).push(e@));
}

/// A copy of an optional string.
pub fn copy_opt(o: &Option<String>) -> (r: Option<String>)
    ensures
        opt_view(r) == opt_view(*o),
{
    match o {
        Some(s) => Some(s.clone()),
        None => None,
    }
}

impl PortEntry {
    /// A field-by-field copy of the entry.
    pub fn copy(&self) -> (r: PortEntry)
        ensures
            r@ == self@,
    {
        PortEntry {
            source: self.source,
            local_port: self.local_port,
            remote_host: copy_opt(&self.remote_host),
            remote_port: self.remote_port,
            process_name: self.process_name.clone(),
            pid: self.pid,
            container_id: copy_opt(&self.container_id),
            container_name: copy_opt(&self.container_name),
            ssh_host: copy_opt(&self.ssh_host),
            is_open: self.is_open,
            is_loopback: self.is_loopback,
        }
    }

    /// The remote end as shown: `host:port`, the host alone, or nothing.
    pub fn remote_display(&self) -> (r: String)
        ensures
            r@ == remote_display_of(self@),
    {
        match (&self.remote_host, self.remote_port) {
            (Some(host), Some(port)) => {
                let h = chars_of(host.as_str());
                let mut out = concat(&h, &chars_of(":"));
                let digits = decimal_chars(port as u32);
                out = concat(&out, &digits);
                string_from(&out)
            },
            (Some(host), None) => host.clone(),
            _ => String::new(),
        }
    }

    /// The owning process as shown: the container name and short id for Docker entries, the
    /// process name with its pid (when known) for the others.
    pub fn process_display(&self) -> (r: String)
        ensures
            r@ == process_display_of(self@),
    {
        match self.source {
            PortSource::Docker => {
                let name = match &self.container_name {
                    Some(n) => chars_of(n.as_str()),
                    None => chars_of("unknown"),
                };
                let id = match &self.container_id {
                    Some(c) => {
                        let all = chars_of(c.as_str());
                        let n: usize = if all.len() < 8 {
                            all.len()
                        } else {
                            8
                        };
                        crate::text::slice_of(&all, 0, n)
                    },
                    None => Vec::new(),
                };
                let mut out = concat(&name, &chars_of(" ("));
                out = concat(&out, &id);
                out = concat(&out, &chars_of(")"));
                assert(id@ == short_id(self@.container_id)) by {
                    if let Some(c) = self@.container_id {
                        assert(c.take(if c.len() < 8 { c.len() as int } else { 8 }) =~= id@);
                    } else {
                        assert(id@ =~= Seq::<char>::empty());
                    }
                }
                string_from(&out)
            },
            _ => {
                match self.pid {
                    Some(pid) => {
                        let mut out = concat(&chars_of(self.process_name.as_str()), &chars_of(" (pid:"));
                        out = concat(&out, &decimal_chars(pid));
                        out = concat(&out, &chars_of(")"));
                        string_from(&out)
                    },
                    None => self.process_name.clone(),
                }
            },
        }
    }
}

pub open spec fn remote_display_of(e: EntryView) -> Seq<char> {
    match (e.remote_host, e.remote_port) {
        (Some(h), Some(p)) => h + ":"@ + decimal(p as nat),
        (Some(h), None) => h,
        _ => Seq::empty(),
    }
}

/// The first eight characters of a container id, or nothing.
pub open spec fn short_id(id: Option<Seq<char>>) -> Seq<char> {
    match id {
        Some(c) => c.take(if c.len() < 8 { c.len() as int } else { 8 }),
        None => Seq::empty(),
    }
}

pub open spec fn process_display_of(e: EntryView) -> Seq<char> {
    match e.source {
        PortSource::Docker => {
            let name = match e.container_name {
                Some(n) => n,
                None => "unknown"@,
            };
            name + " ("@ + short_id(e.container_id) + ")"@
        },
        _ => match e.pid {
            Some(pid) => e.process_name + " (pid:"@ + decimal(pid as nat) + ")"@,
            None => e.process_name,
        },
    }
}

// ---------------------------------------------------------------------------
// Reconciliation
// ---------------------------------------------------------------------------

/// Some record that is not from the local collector claims `port`.
pub open spec fn claimed_by_other(s: Seq<EntryView>, port: u16) -> bool {
    exists|j: int| 0 <= j < s.len() && s[j].source != PortSource::Local && s[j].local_port == port
}

/// A local record whose port an SSH or Docker record also claims.
pub open spec fn shadowed(s: Seq<EntryView>, e: EntryView) -> bool {
    e.source == PortSource::Local && claimed_by_other(s, e.local_port)
}

/// The records of `s` that are not shadowed, in their order.
pub open spec fn dedup_spec(s: Seq<EntryView>) -> Seq<EntryView> {
    s.filter(|e: EntryView| !shadowed(s, e))
}

/// No local record shares its port with a record of another source.
pub open spec fn no_local_shadow(s: Seq<EntryView>) -> bool {
    forall|i: int, j: int|
        0 <= i < s.len() && 0 <= j < s.len() && #[trigger] s[i].source == PortSource::Local
            && #[trigger] s[j].source != PortSource::Local ==> s[i].local_port != s[j].local_port
}

/// After deduplication no local record shares its port with an SSH or Docker record.
pub proof fn lemma_dedup_no_local_shadow(s: Seq<EntryView>)
    ensures
        no_local_shadow(dedup_spec(s)),
{
    let keep = |e: EntryView| !shadowed(s, e);
    let d = s.filter(keep);
    assert forall|i: int, j: int|
        0 <= i < d.len() && 0 <= j < d.len() && #[trigger] d[i].source == PortSource::Local
            && #[trigger] d[j].source != PortSource::Local implies d[i].local_port
        != d[j].local_port by {
        s.lemma_filter_pred(keep, i);
        s.lemma_filter_contains_rev(keep, d[j]);
        let k = choose|k: int| 0 <= k < s.len() && s[k] == d[j];
        if d[i].local_port == d[j].local_port {
            assert(claimed_by_other(s, d[i].local_port)) by {
                assert(0 <= k < s.len() && s[k].source != PortSource::Local && s[k].local_port
                    == d[i].local_port);
            }
        }
    }
}

/// Does `ports` hold `p`?
fn holds_port(ports: &Vec<u16>, p: u16) -> (r: bool)
    ensures
        r == ports@.contains(p),
{
    let mut i: usize = 0;
    while i < ports.len()
        invariant
            i <= ports@.len(),
            forall|j: int| 0 <= j < i ==> ports@[j] != p,
        decreases ports@.len() - i,
    {
        if ports[i] == p {
            return true;
        }
        i = i + 1;
    }
    false
}

/// Drops every local record whose port an SSH or Docker record also claims; the rest keep
/// their order.
pub fn dedup_entries(entries: &mut Vec<PortEntry>)
    ensures
        entry_views(final(entries)@) == dedup_spec(entry_views(old(entries)@)),
{
    let ghost s = entry_views(entries@);
    let mut others: Vec<u16> = Vec::new();
    let mut i: usize = 0;
    while i < entries.len()
        invariant
            i <= entries@.len(),
            s == entry_views(entries@),
            forall|p: u16|
                others@.contains(p) <==> exists|j: int|
                    0 <= j < i && s[j].source != PortSource::Local && s[j].local_port == p,
        decreases entries@.len() - i,
    {
        let ghost prev = others@;
        if entries[i].source != PortSource::Local {
            others.push(entries[i].local_port);
            assert forall|p: u16|
                others@.contains(p) <==> exists|j: int|
                    0 <= j < i + 1 && s[j].source != PortSource::Local && s[j].local_port
                        == p by {
                assert(others@ == prev.push(entries@[i as int].local_port));
                assert(s[i as int].source == entries@[i as int].source);
                assert(s[i as int].local_port == entries@[i as int].local_port);
                if others@.contains(p) {
                    let k = choose|k: int| 0 <= k < others@.len() && others@[k] == p;
                    if k < prev.len() {
                        assert(prev[k] == p);
                        assert(prev.contains(p));
                    } else {
                        assert(0 <= i < i + 1 && s[i as int].source != PortSource::Local
                            && s[i as int].local_port == p);
                    }
                }
                if exists|j: int|
                    0 <= j < i + 1 && s[j].source != PortSource::Local && s[j].local_port
                        == p {
                    let j = choose|j: int|
                        0 <= j < i + 1 && s[j].source != PortSource::Local && s[j].local_port
                            == p;
                    if j < i {
                        assert(prev.contains(p));
                        let k = choose|k: int| 0 <= k < prev.len() && prev[k] == p;
                        assert(others@[k] == p);
                    } else {
                        assert(others@[others@.len() - 1] == p);
                    }
                }
            }
        } else {
            assert forall|p: u16|
                others@.contains(p) <==> exists|j: int|
                    0 <= j < i + 1 && s[j].source != PortSource::Local && s[j].local_port
                        == p by {
                if exists|j: int|
                    0 <= j < i + 1 && s[j].source != PortSource::Local && s[j].local_port
                        == p {
                    let j = choose|j: int|
                        0 <= j < i + 1 && s[j].source != PortSource::Local && s[j].local_port
                            == p;
                    assert(j < i);
                }
            }
        }
        i = i + 1;
    }
    let ghost keep: spec_fn(EntryView) -> bool = |e: EntryView| !shadowed(s, e);
    let mut out: Vec<PortEntry> = Vec::new();
    let mut k: usize = 0;
    while k < entries.len()
        invariant
            k <= entries@.len(),
            s == entry_views(entries@),
            s.len() == entries@.len(),
            forall|p: u16| others@.contains(p) <==> claimed_by_other(s, p),
            keep == (|e: EntryView| !shadowed(s, e)),
            entry_views(out@) == s.take(k as int).filter(keep),
        decreases entries@.len() - k,
    {
        let e = &entries[k];
        let drop = e.source == PortSource::Local && holds_port(&others, e.local_port);
        proof {
            assert(s.take(k + 1) == s.take(k as int).push(s[k as int]));
            s.take(k as int).lemma_filter_push(s[k as int], keep);
            assert(s[k as int] == entries@[k as int]@);
        }
        if !drop {
            let c = e.copy();
            proof {
                lemma_entry_views_push(out@, c);
            }
            out.push(c);
        }
        k = k + 1;
    }
    assert(s.take(k as int) =~= s);
    *entries = out;
}

/// The probe outcome recorded for `port`: the first result that names it.
pub open spec fn probe_lookup(results: Seq<(u16, bool)>, port: u16) -> Option<bool>
    decreases results.len(),
{
    if results.len() == 0 {
        None
    } else if results[0].0 == port {
        Some(results[0].1)
    } else {
        probe_lookup(results.drop_first(), port)
    }
}

/// The entry with its liveness replaced by the probe outcome for its port, when there is one.
pub open spec fn probed(e: EntryView, results: Seq<(u16, bool)>) -> EntryView {
    match probe_lookup(results, e.local_port) {
        Some(open) => EntryView { is_open: open, ..e },
        None => e,
    }
}

/// Looks up the probe outcome for `port`.
pub fn find_probe(results: &Vec<(u16, bool)>, port: u16) -> (r: Option<bool>)
    ensures
        r == probe_lookup(results@, port),
{
    let mut i: usize = 0;
    assert(results@.skip(0) =~= results@);
    while i < results.len()
        invariant
            i <= results@.len(),
            probe_lookup(results@, port) == probe_lookup(results@.skip(i as int), port),
        decreases results@.len() - i,
    {
        assert(results@.skip(i as int).drop_first() =~= results@.skip(i + 1));
        if results[i].0 == port {
            return Some(results[i].1);
        }
        i = i + 1;
    }
    None
}

/// The distinct ports whose liveness must be probed: every port, or in remote mode only those
/// of SSH records (the others already carry the remote listing's state).
pub open spec fn needs_probe(e: EntryView, remote_mode: bool) -> bool {
    !remote_mode || e.source == PortSource::Ssh
}

/// The ports to probe, each once, in order of first appearance.
pub fn probe_targets(entries: &Vec<PortEntry>, remote_mode: bool) -> (r: Vec<u16>)
    ensures
        r@.no_duplicates(),
        forall|p: u16|
            r@.contains(p) <==> exists|i: int|
                0 <= i < entries@.len() && needs_probe(entries@[i]@, remote_mode)
                    && entries@[i].local_port == p,
{
    let mut out: Vec<u16> = Vec::new();
    let mut i: usize = 0;
    while i < entries.len()
        invariant
            i <= entries@.len(),
            out@.no_duplicates(),
            forall|p: u16|
                out@.contains(p) <==> exists|j: int|
                    0 <= j < i && needs_probe(entries@[j]@, remote_mode) && entries@[j].local_port
                        == p,
        decreases entries@.len() - i,
    {
        let e = &entries[i];
        let ghost prev = out@;
        if (!remote_mode || e.source == PortSource::Ssh) && !holds_port(&out, e.local_port) {
            out.push(e.local_port);
        }
        assert forall|p: u16|
            out@.contains(p) <==> exists|j: int|
                0 <= j < i + 1 && needs_probe(entries@[j]@, remote_mode) && entries@[j].local_port
                    == p by {
            if out@.contains(p) && !prev.contains(p) {
                assert(out@[out@.len() - 1] == p);
            }
            if p == entries@[i as int].local_port && needs_probe(entries@[i as int]@, remote_mode) {
                if !prev.contains(p) {
                    assert(out@[out@.len() - 1] == p);
                }
            }
            if exists|j: int|
                0 <= j < i + 1 && needs_probe(entries@[j]@, remote_mode) && entries@[j].local_port
                    == p {
                let j = choose|j: int|
                    0 <= j < i + 1 && needs_probe(entries@[j]@, remote_mode)
                        && entries@[j].local_port == p;
                if j < i {
                    assert(prev.contains(p));
                    let k = choose|k: int| 0 <= k < prev.len() && prev[k] == p;
                    assert(out@[k] == p);
                }
            }
        }
        i = i + 1;
    }
    out
}

/// Writes the probe outcomes back into every record that shares the probed port.
pub fn apply_probe_results(entries: &mut Vec<PortEntry>, results: &Vec<(u16, bool)>)
    ensures
        final(entries)@.len() == old(entries)@.len(),
        forall|i: int|
            0 <= i < old(entries)@.len() ==> #[trigger] final(entries)@[i]@ == probed(
                old(entries)@[i]@,
                results@,
            ),
{
    let mut i: usize = 0;
    while i < entries.len()
        invariant
            i <= entries@.len(),
            entries@.len() == old(entries)@.len(),
            forall|j: int| 0 <= j < i ==> #[trigger] entries@[j]@ == probed(old(entries)@[j]@, results@),
            forall|j: int| i <= j < entries@.len() ==> #[trigger] entries@[j] == old(entries)@[j],
        decreases entries@.len() - i,
    {
        match find_probe(results, entries[i].local_port) {
            Some(open) => {
                let mut e = entries[i].copy();
                e.is_open = open;
                entries.set(i, e);
            },
            None => {},
        }
        i = i + 1;
    }
}

// ---------------------------------------------------------------------------
// Ordering
// ---------------------------------------------------------------------------

/// `a` may stand before `b`: open before closed, then ascending by port.
pub open spec fn key_le(a: EntryView, b: EntryView) -> bool {
    (a.is_open && !b.is_open) || (a.is_open == b.is_open && a.local_port <= b.local_port)
}

/// Every record may stand before every later one.
pub open spec fn sorted_by_key(s: Seq<EntryView>) -> bool {
    forall|i: int, j: int| 0 <= i < j < s.len() ==> key_le(#[trigger] s[i], #[trigger] s[j])
}

/// Exec form of [`key_le`].
pub fn entry_key_le(a: &PortEntry, b: &PortEntry) -> (r: bool)
    ensures
        r == key_le(a@, b@),
{
    (a.is_open && !b.is_open) || (a.is_open == b.is_open && a.local_port <= b.local_port)
}

/// The records of `s` whose key is (`open`, `port`), in their order.
pub open spec fn with_key(s: Seq<EntryView>, open: bool, port: u16) -> Seq<EntryView> {
    s.filter(|e: EntryView| e.is_open == open && e.local_port == port)
}

proof fn lemma_with_key_push(s: Seq<EntryView>, x: EntryView, open: bool, port: u16)
    ensures
        with_key(s.push(x), open, port) == if x.is_open == open && x.local_port == port {
            with_key(s, open, port).push(x)
        } else {
            with_key(s, open, port)
        },
{
    s.lemma_filter_push(x, |e: EntryView| e.is_open == open && e.local_port == port);
}

/// Inserting a record after every record of smaller key puts it in front of its equals.
proof fn lemma_with_key_insert(v: Seq<EntryView>, pos: int, x: EntryView, open: bool, port: u16)
    requires
        0 <= pos <= v.len(),
        forall|j: int| 0 <= j < pos ==> !key_le(x, #[trigger] v[j]),
    ensures
        with_key(v.insert(pos, x), open, port) == if x.is_open == open && x.local_port == port {
            seq![x] + with_key(v, open, port)
        } else {
            with_key(v, open, port)
        },
{
    let pred = |e: EntryView| e.is_open == open && e.local_port == port;
    let a = v.take(pos);
    let b = v.skip(pos);
    assert(v.insert(pos, x) =~= a + seq![x] + b);
    assert(v =~= a + b);
    Seq::filter_distributes_over_add(a + seq![x], b, pred);
    Seq::filter_distributes_over_add(a, seq![x], pred);
    Seq::filter_distributes_over_add(a, b, pred);
    Seq::<EntryView>::empty().lemma_filter_push(x, pred);
    assert(seq![x] =~= Seq::<EntryView>::empty().push(x));
    assert(Seq::<EntryView>::empty().filter(pred) =~= Seq::<EntryView>::empty()) by {
        reveal(Seq::filter);
    }
    if pred(x) {
        assert(a.all(|y: EntryView| !pred(y))) by {
            assert forall|j: int| 0 <= j < a.len() implies !pred(#[trigger] a[j]) by {
                assert(!key_le(x, v[j]));
            }
        }
        a.lemma_all_neg_filter_empty(pred);
        assert(a.filter(pred) =~= Seq::<EntryView>::empty());
        assert(with_key(v.insert(pos, x), open, port) =~= seq![x] + b.filter(pred));
        assert(with_key(v, open, port) =~= b.filter(pred));
    } else {
        assert(with_key(v.insert(pos, x), open, port) =~= a.filter(pred) + b.filter(pred));
    }
}

/// Sorts the records, open before closed and then by ascending port; records with equal keys
/// keep their relative order.
pub fn sort_entries(entries: &mut Vec<PortEntry>)
    ensures
        sorted_by_key(entry_views(final(entries)@)),
        entry_views(final(entries)@).to_multiset() == entry_views(old(entries)@).to_multiset(),
        forall|open: bool, port: u16|
            #[trigger] with_key(entry_views(final(entries)@), open, port) == with_key(
                entry_views(old(entries)@),
                open,
                port,
            ),
{
    let ghost orig = entry_views(entries@);
    assert forall|open: bool, port: u16|
        with_key(orig, open, port) == #[trigger] with_key(entry_views(entries@), open, port)
            + with_key(Seq::<EntryView>::empty(), open, port) by {
        assert(with_key(Seq::<EntryView>::empty(), open, port) =~= Seq::<EntryView>::empty()) by {
            reveal(Seq::filter);
        }
        assert(with_key(entry_views(entries@), open, port) + Seq::<EntryView>::empty()
            =~= with_key(entry_views(entries@), open, port));
    }

    let mut out: Vec<PortEntry> = Vec::new();
    assert(entry_views(out@) =~= Seq::<EntryView>::empty());
    while entries.len() > 0
        invariant
            sorted_by_key(entry_views(out@)),
            entry_views(entries@).to_multiset().add(entry_views(out@).to_multiset())
                == orig.to_multiset(),
            forall|open: bool, port: u16|
                with_key(orig, open, port) == #[trigger] with_key(entry_views(entries@), open, port)
                    + with_key(entry_views(out@), open, port),
        decreases entries@.len(),
    {
        let ghost before = entries@;
        let e = entries.pop().unwrap();
        proof {
            assert(before == entries@.push(e));
            lemma_entry_views_push(entries@, e);
        }
        // records are taken from the back, so inserting before every record of equal key
        // keeps records of equal key in the order they were given
        let mut pos: usize = 0;
        while pos < out.len() && !entry_key_le(&e, &out[pos as usize])
            invariant
                pos <= out@.len(),
                forall|j: int| 0 <= j < pos ==> !key_le(e@, #[trigger] out@[j]@),
            decreases out@.len() - pos,
        {
            pos = pos + 1;
        }
        proof {
            let v = entry_views(out@);
            assert(entry_views(out@.insert(pos as int, e)) =~= v.insert(pos as int, e@));
            assert forall|open: bool, port: u16|
                with_key(orig, open, port) == #[trigger] with_key(entry_views(entries@), open, port)
                    + with_key(v.insert(pos as int, e@), open, port) by {
                lemma_with_key_push(entry_views(entries@), e@, open, port);
                assert forall|j: int| 0 <= j < pos implies !key_le(e@, #[trigger] v[j]) by {
                    assert(!key_le(e@, out@[j]@));
                }
                lemma_with_key_insert(v, pos as int, e@, open, port);
                if e@.is_open == open && e@.local_port == port {
                    assert(with_key(entry_views(entries@), open, port).push(e@) + with_key(v, open, port)
                        =~= with_key(entry_views(entries@), open, port) + (seq![e@] + with_key(v, open, port)));
                }
            }
            let w = v.insert(pos as int, e@);
            assert forall|a: int, b: int| 0 <= a < b < w.len() implies key_le(
                #[trigger] w[a],
                #[trigger] w[b],
            ) by {
                if a < pos && b == pos {
                    assert(!key_le(e@, v[a]));
                } else if a == pos && b > pos {
                    if pos < v.len() {
                        assert(key_le(e@, v[pos as int]));
                        assert(key_le(v[pos as int], v[b - 1])) by {
                            if b - 1 > pos {
                                assert(key_le(v[pos as int], v[b - 1]));
                            }
                        }
                    }
                } else if a < pos && b > pos {
                    assert(key_le(v[a], v[b - 1]));
                } else if a > pos {
                    assert(key_le(v[a - 1], v[b - 1]));
                } else {
                    assert(key_le(v[a], v[b]));
                }
            }
        }
        out.insert(pos, e);
    }
    proof {
        assert(entry_views(entries@) =~= Seq::<EntryView>::empty());
        assert(entry_views(entries@).to_multiset() =~= Multiset::<EntryView>::empty());
        assert forall|open: bool, port: u16|
            #[trigger] with_key(entry_views(out@), open, port) == with_key(orig, open, port) by {
            assert(with_key(entry_views(entries@), open, port) =~= Seq::<EntryView>::empty()) by {
                reveal(Seq::filter);
            }
            assert(Seq::<EntryView>::empty() + with_key(entry_views(out@), open, port)
                =~= with_key(entry_views(out@), open, port));
        }
    }
    *entries = out;
}

// ---------------------------------------------------------------------------
// The reconciled set
// ---------------------------------------------------------------------------

/// Every record with the probe outcome for its port written in.
pub open spec fn probe_all(s: Seq<EntryView>, results: Seq<(u16, bool)>) -> Seq<EntryView> {
    s.map_values(|e: EntryView| probed(e, results))
}

/// Any reordering of a set without local shadows has none either.
pub proof fn lemma_no_local_shadow_permutation(t: Seq<EntryView>, r: Seq<EntryView>)
    requires
        no_local_shadow(t),
        r.to_multiset() == t.to_multiset(),
    ensures
        no_local_shadow(r),
{
    assert forall|i: int, j: int|
        0 <= i < r.len() && 0 <= j < r.len() && #[trigger] r[i].source == PortSource::Local
            && #[trigger] r[j].source != PortSource::Local implies r[i].local_port
        != r[j].local_port by {
        assert(r.contains(r[i]));
        assert(r.contains(r[j]));
        vstd::seq_lib::to_multiset_contains(r, r[i]);
        vstd::seq_lib::to_multiset_contains(r, r[j]);
        vstd::seq_lib::to_multiset_contains(t, r[i]);
        vstd::seq_lib::to_multiset_contains(t, r[j]);
        assert(t.contains(r[i]));
        assert(t.contains(r[j]));
        let a = choose|a: int| 0 <= a < t.len() && t[a] == r[i];
        let b = choose|b: int| 0 <= b < t.len() && t[b] == r[j];
        assert(t[a].source == PortSource::Local && t[b].source != PortSource::Local);
    }
}

/// Probing changes no record's source or port, so it keeps a set free of local shadows.
pub proof fn lemma_probe_keeps_no_local_shadow(s: Seq<EntryView>, results: Seq<(u16, bool)>)
    requires
        no_local_shadow(s),
    ensures
        no_local_shadow(probe_all(s, results)),
{
    let p = probe_all(s, results);
    assert forall|i: int, j: int|
        0 <= i < p.len() && 0 <= j < p.len() && #[trigger] p[i].source == PortSource::Local
            && #[trigger] p[j].source != PortSource::Local implies p[i].local_port
        != p[j].local_port by {
        assert(p[i].source == s[i].source && p[i].local_port == s[i].local_port);
        assert(p[j].source == s[j].source && p[j].local_port == s[j].local_port);
    }
}

/// A reconciled set (the collected records deduplicated, probed, and put in any order) holds
/// no local record that shares its port with an SSH or Docker record.
pub proof fn lemma_reconciled_no_local_shadow(
    collected: Seq<EntryView>,
    results: Seq<(u16, bool)>,
    r: Seq<EntryView>,
)
    requires
        r.to_multiset() == probe_all(dedup_spec(collected), results).to_multiset(),
    ensures
        no_local_shadow(r),
{
    lemma_dedup_no_local_shadow(collected);
    lemma_probe_keeps_no_local_shadow(dedup_spec(collected), results);
    lemma_no_local_shadow_permutation(probe_all(dedup_spec(collected), results), r);
}

/// Appends copies of `more` to `out`.
pub fn append_entries(out: &mut Vec<PortEntry>, more: &Vec<PortEntry>)
    ensures
        entry_views(final(out)@) == entry_views(old(out)@) + entry_views(more@),
{
    let ghost base = entry_views(out@);
    let mut i: usize = 0;
    while i < more.len()
        invariant
            i <= more@.len(),
            entry_views(out@) == base + entry_views(more@).take(i as int),
        decreases more@.len() - i,
    {
        let e = more[i].copy();
        proof {
            lemma_entry_views_push(out@, e);
            assert(entry_views(more@).take(i + 1) =~= entry_views(more@).take(i as int).push(e@));
        }
        out.push(e);
        i = i + 1;
    }
    assert(entry_views(more@).take(i as int) =~= entry_views(more@));
}

/// The host-level collectors' records (local, then Docker, then SSH) with the shadowed local
/// records dropped.
pub fn merge_collected(local: &Vec<PortEntry>, docker: &Vec<PortEntry>, ssh: &Vec<PortEntry>) -> (r: Vec<PortEntry>)
    ensures
        entry_views(r@) == dedup_spec(
            entry_views(local@) + entry_views(docker@) + entry_views(ssh@),
        ),
{
    let mut all: Vec<PortEntry> = Vec::new();
    append_entries(&mut all, local);
    append_entries(&mut all, docker);
    append_entries(&mut all, ssh);
    assert(entry_views(all@) =~= entry_views(local@) + entry_views(docker@) + entry_views(ssh@));
    dedup_entries(&mut all);
    all
}

/// Writes the probe outcomes in and sorts: the last steps of a host-level collection.
pub fn finish_collection(entries: &mut Vec<PortEntry>, results: &Vec<(u16, bool)>)
    ensures
        sorted_by_key(entry_views(final(entries)@)),
        entry_views(final(entries)@).to_multiset() == probe_all(entry_views(old(entries)@), results@).to_multiset(),
        forall|open: bool, port: u16|
            #[trigger] with_key(entry_views(final(entries)@), open, port) == with_key(
                probe_all(entry_views(old(entries)@), results@),
                open,
                port,
            ),
{
    apply_probe_results(entries, results);
    assert(entry_views(entries@) =~= probe_all(entry_views(old(entries)@), results@));
    sort_entries(entries);
}

/// The reconciled set of a host-level collection: the collectors' records merged and
/// deduplicated, the probe outcomes written in, open records first and then by port.
pub fn reconcile(
    local: &Vec<PortEntry>,
    docker: &Vec<PortEntry>,
    ssh: &Vec<PortEntry>,
    results: &Vec<(u16, bool)>,
) -> (r: Vec<PortEntry>)
    ensures
        sorted_by_key(entry_views(r@)),
        entry_views(r@).to_multiset() == probe_all(
            dedup_spec(entry_views(local@) + entry_views(docker@) + entry_views(ssh@)),
            results@,
        ).to_multiset(),
        no_local_shadow(entry_views(r@)),
        forall|open: bool, port: u16|
            #[trigger] with_key(entry_views(r@), open, port) == with_key(
                probe_all(
                    dedup_spec(entry_views(local@) + entry_views(docker@) + entry_views(ssh@)),
                    results@,
                ),
                open,
                port,
            ),
{
    let mut all = merge_collected(local, docker, ssh);
    finish_collection(&mut all, results);
    proof {
        lemma_reconciled_no_local_shadow(
            entry_views(local@) + entry_views(docker@) + entry_views(ssh@),
            results@,
            entry_views(all@),
        );
    }
    all
}

/// Whether the listing flags (`--local`, `--ssh`, `--docker`, the first set one deciding)
/// let a record of this source through; with none set, all pass.
pub open spec fn listed(s: PortSource, local: bool, ssh: bool, docker: bool) -> bool {
    if local {
        s == PortSource::Local
    } else if ssh {
        s == PortSource::Ssh
    } else if docker {
        s == PortSource::Docker
    } else {
        true
    }
}

/// The records the non-interactive listing shows, in their order.
pub fn select_for_listing(entries: &Vec<PortEntry>, local: bool, ssh: bool, docker: bool) -> (r: Vec<PortEntry>)
    ensures
        entry_views(r@) == entry_views(entries@).filter(|e: EntryView| listed(e.source, local, ssh, docker)),
{
    let ghost s = entry_views(entries@);
    let ghost keep = |e: EntryView| listed(e.source, local, ssh, docker);
    let mut out: Vec<PortEntry> = Vec::new();
    let mut k: usize = 0;
    while k < entries.len()
        invariant
            k <= entries@.len(),
            s == entry_views(entries@),
            keep == (|e: EntryView| listed(e.source, local, ssh, docker)),
            entry_views(out@) == s.take(k as int).filter(keep),
        decreases entries@.len() - k,
    {
        let e = &entries[k];
        proof {
            assert(s.take(k + 1) == s.take(k as int).push(s[k as int]));
            s.take(k as int).lemma_filter_push(s[k as int], keep);
            assert(s[k as int] == entries@[k as int]@);
        }
        let pass = if local {
            e.source == PortSource::Local
        } else if ssh {
            e.source == PortSource::Ssh
        } else if docker {
            e.source == PortSource::Docker
        } else {
            true
        };
        if pass {
            let c = e.copy();
            proof {
                lemma_entry_views_push(out@, c);
            }
            out.push(c);
        }
        k = k + 1;
    }
    assert(s.take(k as int) =~= s);
    out
}

} // verus!
