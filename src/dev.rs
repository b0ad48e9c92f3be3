//! Demonstration records and test scenarios.

use vstd::prelude::*;

use crate::port::{entry_views, lemma_entry_views_push, sort_entries, sorted_by_key, EntryView, PortEntry, PortSource};
use crate::text::{chars_of, eq_chars};

verus! {

/// A record as the demonstration data states it.
pub open spec fn mock_view(
    source: PortSource,
    port: u16,
    remote_host: Option<Seq<char>>,
    remote_port: Option<u16>,
    process: Seq<char>,
    pid: Option<u32>,
    container: Option<(Seq<char>, Seq<char>)>,
    is_open: bool,
) -> EntryView {
    EntryView {
        source,
        local_port: port,
        remote_host,
        remote_port,
        process_name: process,
        pid,
        container_id: match container {
            Some((id, _)) => Some(id),
            None => None,
        },
        container_name: match container {
            Some((_, name)) => Some(name),
            None => None,
        },
        ssh_host: None,
        is_open,
        is_loopback: false,
    }
}

/// The demonstration records, before sorting.
pub open spec fn mock_records() -> Seq<EntryView> {
    seq![
        mock_view(PortSource::Local, 3000, None, None, "node"@, Some(1234), None, true),
        mock_view(PortSource::Local, 8080, None, None, "python"@, Some(2345), None, true),
        mock_view(PortSource::Local, 4200, None, None, "ng"@, Some(3456), None, false),
        mock_view(PortSource::Ssh, 9000, Some("db.internal"@), Some(5432), "ssh"@, Some(4567), None, true),
        mock_view(PortSource::Ssh, 9090, Some("(R) localhost:9090"@), Some(9090), "ssh -R"@, Some(5678), None, false),
        mock_view(PortSource::Docker, 5432, None, Some(5432), "postgres:15"@, None, Some(("abc123def456"@, "postgres"@)), true),
        mock_view(PortSource::Docker, 6379, None, Some(6379), "redis:7"@, None, Some(("def456abc789"@, "redis"@)), true),
        mock_view(PortSource::Docker, 27017, None, Some(27017), "mongo:6"@, None, Some(("789abc123def"@, "mongo"@)), false),
    ]
}

fn opt_string(s: Option<&str>) -> (r: Option<String>)
    ensures
        match (s, r) {
            (Some(a), Some(b)) => b@ == a@,
            (None, None) => true,
            _ => false,
        },
{
    match s {
        Some(a) => Some(String::from_str(a)),
        None => None,
    }
}

fn mock_entry(
    source: PortSource,
    port: u16,
    remote_host: Option<&str>,
    remote_port: Option<u16>,
    process: &str,
    pid: Option<u32>,
    container: Option<(&str, &str)>,
    is_open: bool,
) -> (r: PortEntry)
    ensures
        r@ == mock_view(
            source,
            port,
            match remote_host {
                Some(h) => Some(h@),
                None => None,
            },
            remote_port,
            process@,
            pid,
            match container {
                Some((id, name)) => Some((id@, name@)),
                None => None,
            },
            is_open,
        ),
{
    let (container_id, container_name) = match container {
        Some((id, name)) => (Some(String::from_str(id)), Some(String::from_str(name))),
        None => (None, None),
    };
    PortEntry {
        source,
        local_port: port,
        remote_host: opt_string(remote_host),
        remote_port,
        process_name: String::from_str(process),
        pid,
        container_id,
        container_name,
        ssh_host: None,
        is_open,
        is_loopback: false,
    }
}

/// Demonstration records of every source, open ones first and then by port.
pub fn generate_mock_entries() -> (r: Vec<PortEntry>)
    ensures
        sorted_by_key(entry_views(r@)),
        entry_views(r@).to_multiset() == mock_records().to_multiset(),
{
    let mut entries: Vec<PortEntry> = Vec::new();
    entries.push(mock_entry(PortSource::Local, 3000, None, None, "node", Some(1234), None, true));
    entries.push(mock_entry(PortSource::Local, 8080, None, None, "python", Some(2345), None, true));
    entries.push(mock_entry(PortSource::Local, 4200, None, None, "ng", Some(3456), None, false));
    entries.push(mock_entry(PortSource::Ssh, 9000, Some("db.internal"), Some(5432), "ssh", Some(4567), None, true));
    entries.push(mock_entry(PortSource::Ssh, 9090, Some("(R) localhost:9090"), Some(9090), "ssh -R", Some(5678), None, false));
    entries.push(mock_entry(PortSource::Docker, 5432, None, Some(5432), "postgres:15", None, Some(("abc123def456", "postgres")), true));
    entries.push(mock_entry(PortSource::Docker, 6379, None, Some(6379), "redis:7", None, Some(("def456abc789", "redis")), true));
    entries.push(mock_entry(PortSource::Docker, 27017, None, Some(27017), "mongo:6", None, Some(("789abc123def", "mongo")), false));
    assert(entry_views(entries@) =~= mock_records());
    sort_entries(&mut entries);
    entries
}

/// One port of a test scenario.
#[derive(Debug, Clone, Copy)]
pub struct ScenarioEntry {
    pub port: u16,
    pub label: &'static str,
    pub should_listen: bool,
}

/// A named set of ports to listen on (or to show as closed).
#[derive(Debug, Clone)]
pub struct Scenario {
    pub name: &'static str,
    pub description: &'static str,
    pub entries: Vec<ScenarioEntry>,
}

fn entry(port: u16, label: &'static str, should_listen: bool) -> (r: ScenarioEntry)
    ensures
        r.port == port && r.label == label && r.should_listen == should_listen,
{
    ScenarioEntry { port, label, should_listen }
}

/// The ports of each named scenario, with whether they listen.
pub open spec fn scenario_ports(name: Seq<char>) -> Option<Seq<(u16, bool)>> {
    if name == "web"@ {
        Some(seq![(3000u16, true), (5432u16, true), (6379u16, true)])
    } else if name == "micro"@ {
        Some(seq![(3001u16, true), (3002u16, true), (3003u16, true), (3004u16, true), (3005u16, true)])
    } else if name == "full"@ {
        Some(seq![(3000u16, true), (5432u16, true), (6379u16, true), (8080u16, false), (9090u16, false)])
    } else {
        None
    }
}

pub open spec fn ports_of(s: Scenario) -> Seq<(u16, bool)> {
    s.entries@.map_values(|e: ScenarioEntry| (e.port, e.should_listen))
}

/// The available scenarios.
pub fn scenarios() -> (r: Vec<Scenario>)
    ensures
        r@.len() == 3,
        forall|i: int| 0 <= i < 3 ==> scenario_ports(r@[i].name@) == Some(ports_of(#[trigger] r@[i])),
        r@[0].name@ == "web"@,
        r@[1].name@ == "micro"@,
        r@[2].name@ == "full"@,
{
    let mut web: Vec<ScenarioEntry> = Vec::new();
    web.push(entry(3000, "web-app", true));
    web.push(entry(5432, "postgres", true));
    web.push(entry(6379, "redis", true));
    let mut micro: Vec<ScenarioEntry> = Vec::new();
    micro.push(entry(3001, "svc-auth", true));
    micro.push(entry(3002, "svc-users", true));
    micro.push(entry(3003, "svc-orders", true));
    micro.push(entry(3004, "svc-payments", true));
    micro.push(entry(3005, "svc-notifications", true));
    let mut full: Vec<ScenarioEntry> = Vec::new();
    full.push(entry(3000, "web-app", true));
    full.push(entry(5432, "postgres", true));
    full.push(entry(6379, "redis", true));
    full.push(entry(8080, "proxy (inactive)", false));
    full.push(entry(9090, "metrics (inactive)", false));
    let mut all: Vec<Scenario> = Vec::new();
    all.push(Scenario { name: "web", description: "Web app + DB + Cache", entries: web });
    all.push(Scenario { name: "micro", description: "5 microservices", entries: micro });
    all.push(Scenario { name: "full", description: "Mixed open/closed ports", entries: full });
    proof {
        reveal_strlit("web");
        reveal_strlit("micro");
        reveal_strlit("full");
        assert(ports_of(all@[0]) =~= seq![(3000u16, true), (5432u16, true), (6379u16, true)]);
        assert(ports_of(all@[1]) =~= seq![(3001u16, true), (3002u16, true), (3003u16, true), (3004u16, true), (3005u16, true)]);
        assert(ports_of(all@[2]) =~= seq![(3000u16, true), (5432u16, true), (6379u16, true), (8080u16, false), (9090u16, false)]);
        assert("micro"@.len() == 5 && "web"@.len() == 3 && "full"@.len() == 4);
        assert("micro"@ != "web"@);
        assert("full"@ != "web"@);
        assert("full"@ != "micro"@);
        assert(scenario_ports(all@[0].name@) == Some(ports_of(all@[0])));
        assert(scenario_ports(all@[1].name@) == Some(ports_of(all@[1])));
        assert(scenario_ports(all@[2].name@) == Some(ports_of(all@[2])));
    }
    all
}

/// The scenario of that name.
pub fn find_scenario(name: &str) -> (r: Option<Scenario>)
    ensures
        match r {
            Some(s) => s.name@ == name@ && scenario_ports(name@) == Some(ports_of(s)),
            None => scenario_ports(name@).is_none(),
        },
{
    let all = scenarios();
    let wanted = chars_of(name);
    let mut i: usize = 0;
    while i < all.len()
        invariant
            i <= all@.len(),
            all@.len() == 3,
            wanted@ == name@,
            forall|j: int| 0 <= j < 3 ==> scenario_ports(all@[j].name@) == Some(ports_of(#[trigger] all@[j])),
            all@[0].name@ == "web"@,
            all@[1].name@ == "micro"@,
            all@[2].name@ == "full"@,
            forall|j: int| 0 <= j < i ==> all@[j].name@ != name@,
        decreases all@.len() - i,
    {
        if eq_chars(&chars_of(all[i].name), &wanted) {
            let s = Scenario { name: all[i].name, description: all[i].description, entries: copy_entries(&all[i].entries) };
            return Some(s);
        }
        i = i + 1;
    }
    proof {
        reveal_strlit("web");
        reveal_strlit("micro");
        reveal_strlit("full");
    }
    None
}

fn copy_entries(v: &Vec<ScenarioEntry>) -> (r: Vec<ScenarioEntry>)
    ensures
        r@ == v@,
{
    let mut out: Vec<ScenarioEntry> = Vec::new();
    let mut i: usize = 0;
    while i < v.len()
        invariant
            i <= v@.len(),
            out@ == v@.take(i as int),
        decreases v@.len() - i,
    {
        out.push(v[i]);
        i = i + 1;
    }
    assert(out@ =~= v@);
    out
}

/// The ports of a scenario that should listen, in order.
pub fn listen_ports(s: &Scenario) -> (r: Vec<u16>)
    ensures
        r@ == s.entries@.filter(|e: ScenarioEntry| e.should_listen).map_values(|e: ScenarioEntry| e.port),
{
    let ghost keep = |e: ScenarioEntry| e.should_listen;
    let ghost port = |e: ScenarioEntry| e.port;
    let mut out: Vec<u16> = Vec::new();
    let mut i: usize = 0;
    while i < s.entries.len()
        invariant
            i <= s.entries@.len(),
            keep == (|e: ScenarioEntry| e.should_listen),
            port == (|e: ScenarioEntry| e.port),
            out@ == s.entries@.take(i as int).filter(keep).map_values(port),
        decreases s.entries@.len() - i,
    {
        let e = s.entries[i];
        proof {
            assert(s.entries@.take(i + 1) == s.entries@.take(i as int).push(e));
            s.entries@.take(i as int).lemma_filter_push(e, keep);
        }
        if e.should_listen {
            out.push(e.port);
            assert(out@ =~= s.entries@.take(i + 1).filter(keep).map_values(port));
        }
        i = i + 1;
    }
    assert(s.entries@.take(i as int) =~= s.entries@);
    out
}

/// The records a scenario shows: a local record per port, open when it should listen, open
/// ones first and then by port.
pub fn scenario_entries(s: &Scenario) -> (r: Vec<PortEntry>)
    ensures
        sorted_by_key(entry_views(r@)),
        entry_views(r@).to_multiset() == s.entries@.map_values(
            |e: ScenarioEntry| mock_view(PortSource::Local, e.port, None, None, e.label@, None, None, e.should_listen),
        ).to_multiset(),
{
    let ghost f = |e: ScenarioEntry| mock_view(PortSource::Local, e.port, None, None, e.label@, None, None, e.should_listen);
    let mut out: Vec<PortEntry> = Vec::new();
    let mut i: usize = 0;
    while i < s.entries.len()
        invariant
            i <= s.entries@.len(),
            f == (|e: ScenarioEntry| mock_view(PortSource::Local, e.port, None, None, e.label@, None, None, e.should_listen)),
            entry_views(out@) == s.entries@.take(i as int).map_values(f),
        decreases s.entries@.len() - i,
    {
        let e = s.entries[i];
        let p = mock_entry(PortSource::Local, e.port, None, None, e.label, None, None, e.should_listen);
        proof {
            lemma_entry_views_push(out@, p);
            assert(s.entries@.take(i + 1).map_values(f) =~= s.entries@.take(i as int).map_values(f).push(f(e)));
        }
        out.push(p);
        i = i + 1;
    }
    assert(s.entries@.take(i as int) =~= s.entries@);
    sort_entries(&mut out);
    out
}

} // verus!
