//! Docker listings: published ports from `docker ps`, listening sockets from `ss -tln`
//! inside a container, and a container's address.

use vstd::prelude::*;

use crate::port::{entry_views, lemma_entry_views_push, EntryView, PortEntry, PortSource};
use crate::text::{
    before_last, before_last_char, blank, char_is_digit,
    chars_of, eq_chars, find, first_occurrence, is_blank, is_digit, join_from, join_spaced,
    lines, parse_num, parse_u16, pieces, slice_of, split_lines, split_on, split_words,
    starts_with, string_from, trim, trim_chars, views, words,
};

verus! {

// ---------------------------------------------------------------------------
// Published port mappings: `[addr:]local[-end]->remote[-end]/tcp`
// ---------------------------------------------------------------------------

pub open spec fn is_addr_char(c: char) -> bool {
    is_digit(c) || c == '.' || c == ':'
}

/// Length of the run of decimal digits in `s` from `i` on.
pub open spec fn digits_len(s: Seq<char>, i: int) -> nat
    decreases s.len() - i,
{
    if 0 <= i < s.len() && is_digit(s[i]) {
        1 + digits_len(s, i + 1)
    } else {
        0
    }
}

/// Length of the run of address characters (digits, `.` and `:`) in `s` from `i` on.
pub open spec fn addr_len(s: Seq<char>, i: int) -> nat
    decreases s.len() - i,
{
    if 0 <= i < s.len() && is_addr_char(s[i]) {
        1 + addr_len(s, i + 1)
    } else {
        0
    }
}

proof fn lemma_digits_len(s: Seq<char>, i: int)
    requires
        0 <= i <= s.len(),
    ensures
        i + digits_len(s, i) <= s.len(),
    decreases s.len() - i,
{
    if i < s.len() && is_digit(s[i]) {
        lemma_digits_len(s, i + 1);
    }
}

proof fn lemma_addr_len(s: Seq<char>, i: int)
    requires
        0 <= i <= s.len(),
    ensures
        i + addr_len(s, i) <= s.len(),
    decreases s.len() - i,
{
    if i < s.len() && is_addr_char(s[i]) {
        lemma_addr_len(s, i + 1);
    }
}

/// The numbers of one mapping: a local port or range, a remote port or range.
pub struct MappingView {
    pub local: Seq<char>,
    pub local_end: Option<Seq<char>>,
    pub remote: Seq<char>,
    pub remote_end: Option<Seq<char>>,
}

pub struct Mapping {
    pub local: Vec<char>,
    pub local_end: Option<Vec<char>>,
    pub remote: Vec<char>,
    pub remote_end: Option<Vec<char>>,
}

pub open spec fn opt_chars(o: Option<Vec<char>>) -> Option<Seq<char>> {
    match o {
        Some(v) => Some(v@),
        None => None,
    }
}

impl View for Mapping {
    type V = MappingView;

    open spec fn view(&self) -> MappingView {
        MappingView {
            local: self.local@,
            local_end: opt_chars(self.local_end),
            remote: self.remote@,
            remote_end: opt_chars(self.remote_end),
        }
    }
}

pub open spec fn mapping_views(v: Seq<Mapping>) -> Seq<MappingView> {
    v.map_values(|m: Mapping| m@)
}

/// `digits[-digits]` at `i`, followed by `follow` (or, lacking the range, by `follow` right
/// after the first digits): the numbers and the position after `follow`.
pub open spec fn number_or_range_at(s: Seq<char>, i: int, follow: Seq<char>) -> Option<
    (Seq<char>, Option<Seq<char>>, int),
> {
    let d1 = i + digits_len(s, i);
    if d1 > i {
        let d2 = d1 + 1 + digits_len(s, d1 + 1);
        if d1 < s.len() && s[d1] == '-' && d2 > d1 + 1 && d2 + follow.len() <= s.len()
            && s.subrange(d2, d2 + follow.len()) == follow {
            Some((s.subrange(i, d1), Some(s.subrange(d1 + 1, d2)), d2 + follow.len()))
        } else if d1 + follow.len() <= s.len() && s.subrange(d1, d1 + follow.len()) == follow {
            Some((s.subrange(i, d1), None, d1 + follow.len()))
        } else {
            None
        }
    } else {
        None
    }
}

/// The mapping without address that starts at `j`, with the position after it.
pub open spec fn mapping_body_at(s: Seq<char>, j: int) -> Option<(int, MappingView)> {
    match number_or_range_at(s, j, "->"@) {
        Some((a, a2, k)) => match number_or_range_at(s, k, "/tcp"@) {
            Some((b, b2, end)) => Some(
                (end, MappingView { local: a, local_end: a2, remote: b, remote_end: b2 }),
            ),
            None => None,
        },
        None => None,
    }
}

/// The last colon at or before `k` and after `i` that ends an address before a mapping body.
pub open spec fn addr_split(s: Seq<char>, i: int, k: int) -> Option<int>
    decreases k - i,
{
    if k <= i {
        None
    } else if s[k] == ':' && mapping_body_at(s, k + 1).is_some() {
        Some(k)
    } else {
        addr_split(s, i, k - 1)
    }
}

/// The mapping that starts at `i`: with the longest address prefix that lets the rest match,
/// else without one.
pub open spec fn mapping_at(s: Seq<char>, i: int) -> Option<(int, MappingView)> {
    let run = addr_len(s, i);
    match addr_split(s, i, i + run - 1) {
        Some(k) => mapping_body_at(s, k + 1),
        None => mapping_body_at(s, i),
    }
}

/// The mappings of `s` from `i` on, leftmost first and without overlap.
pub open spec fn mappings_from(s: Seq<char>, i: int) -> Seq<MappingView>
    decreases s.len() - i,
{
    if i < 0 || i >= s.len() {
        seq![]
    } else {
        match mapping_at(s, i) {
            Some((end, m)) => if i < end <= s.len() {
                seq![m] + mappings_from(s, end)
            } else {
                seq![]
            },
            None => mappings_from(s, i + 1),
        }
    }
}

pub open spec fn mappings(s: Seq<char>) -> Seq<MappingView> {
    mappings_from(s, 0)
}

fn digits_end(s: &Vec<char>, i: usize) -> (r: usize)
    requires
        i <= s@.len(),
    ensures
        r == i + digits_len(s@, i as int),
        r <= s@.len(),
{
    proof {
        lemma_digits_len(s@, i as int);
    }
    let mut j = i;
    while j < s.len() && char_is_digit(s[j])
        invariant
            i <= j <= s@.len(),
            digits_len(s@, i as int) == (j - i) + digits_len(s@, j as int),
        decreases s@.len() - j,
    {
        j = j + 1;
    }
    j
}

fn addr_end(s: &Vec<char>, i: usize) -> (r: usize)
    requires
        i <= s@.len(),
    ensures
        r == i + addr_len(s@, i as int),
        r <= s@.len(),
{
    proof {
        lemma_addr_len(s@, i as int);
    }
    let mut j = i;
    while j < s.len() && (char_is_digit(s[j]) || s[j] == '.' || s[j] == ':')
        invariant
            i <= j <= s@.len(),
            addr_len(s@, i as int) == (j - i) + addr_len(s@, j as int),
        decreases s@.len() - j,
    {
        j = j + 1;
    }
    j
}

fn number_or_range(s: &Vec<char>, i: usize, follow: &Vec<char>) -> (r: Option<
    (Vec<char>, Option<Vec<char>>, usize),
>)
    requires
        i <= s@.len(),
    ensures
        match r {
            Some((a, a2, k)) => number_or_range_at(s@, i as int, follow@) == Some(
                (a@, opt_chars(a2), k as int),
            ) && i < k <= s@.len(),
            None => number_or_range_at(s@, i as int, follow@).is_none(),
        },
{
    let n = s.len();
    let d1 = digits_end(s, i);
    if d1 <= i {
        return None;
    }
    if d1 < n && s[d1] == '-' {
        let d2 = digits_end(s, d1 + 1);
        if d2 > d1 + 1 && crate::text::matches_at(s, follow, d2) {
            let a = slice_of(s, i, d1);
            let a2 = slice_of(s, d1 + 1, d2);
            return Some((a, Some(a2), d2 + follow.len()));
        }
    }
    if crate::text::matches_at(s, follow, d1) {
        let a = slice_of(s, i, d1);
        return Some((a, None, d1 + follow.len()));
    }
    None
}

fn mapping_body(s: &Vec<char>, j: usize, arrow: &Vec<char>, tcp: &Vec<char>) -> (r: Option<
    (usize, Mapping),
>)
    requires
        j <= s@.len(),
        arrow@ == "->"@,
        tcp@ == "/tcp"@,
    ensures
        match r {
            Some((end, m)) => mapping_body_at(s@, j as int) == Some((end as int, m@)) && j < end
                <= s@.len(),
            None => mapping_body_at(s@, j as int).is_none(),
        },
{
    match number_or_range(s, j, arrow) {
        Some((a, a2, k)) => match number_or_range(s, k, tcp) {
            Some((b, b2, end)) => {
                let m = Mapping { local: a, local_end: a2, remote: b, remote_end: b2 };
                Some((end, m))
            },
            None => None,
        },
        None => None,
    }
}

/// The mapping that starts at `i`, if one does.
fn mapping_here(s: &Vec<char>, i: usize, arrow: &Vec<char>, tcp: &Vec<char>) -> (r: Option<
    (usize, Mapping),
>)
    requires
        i < s@.len(),
        arrow@ == "->"@,
        tcp@ == "/tcp"@,
    ensures
        match r {
            Some((end, m)) => mapping_at(s@, i as int) == Some((end as int, m@)) && i < end
                <= s@.len(),
            None => mapping_at(s@, i as int).is_none(),
        },
{
    let run_end = addr_end(s, i);
    // candidate colons, from the end of the address run back towards `i`
    let mut k = run_end;
    while k - i > 1
        invariant
            i <= k <= run_end,
            arrow@ == "->"@,
            tcp@ == "/tcp"@,
            run_end == i + addr_len(s@, i as int),
            run_end <= s@.len(),
            addr_split(s@, i as int, run_end - 1) == addr_split(s@, i as int, k - 1),
        decreases k,
    {
        let c = k - 1;
        if s[c] == ':' {
            match mapping_body(s, c + 1, arrow, tcp) {
                Some((end, m)) => {
                    return Some((end, m));
                },
                None => {},
            }
        }
        k = k - 1;
    }
    mapping_body(s, i, arrow, tcp)
}

/// The port mappings of a `docker ps` ports column, leftmost first and without overlap.
pub fn mapping_captures(s: &Vec<char>) -> (r: Vec<Mapping>)
    ensures
        mapping_views(r@) == mappings(s@),
{
    let arrow = chars_of("->");
    let tcp = chars_of("/tcp");
    let mut out: Vec<Mapping> = Vec::new();
    let mut i: usize = 0;
    while i < s.len()
        invariant
            i <= s@.len(),
            arrow@ == "->"@,
            tcp@ == "/tcp"@,
            mapping_views(out@) + mappings_from(s@, i as int) == mappings(s@),
        decreases s@.len() - i,
    {
        match mapping_here(s, i, &arrow, &tcp) {
            Some((end, m)) => {
                proof {
                    assert(mapping_views(out@.push(m)) =~= mapping_views(out@).push(m@));
                    assert(mapping_views(out@.push(m)) + mappings_from(s@, end as int)
                        =~= mapping_views(out@) + mappings_from(s@, i as int));
                }
                out.push(m);
                i = end;
            },
            None => {
                i = i + 1;
            },
        }
    }
    assert(mapping_views(out@) =~= mapping_views(out@) + mappings_from(s@, i as int));
    out
}

// ---------------------------------------------------------------------------
// Container listing records
// ---------------------------------------------------------------------------

/// The number a captured field gives as a port, or 0 when it does not fit.
pub open spec fn num_or_zero(s: Seq<char>) -> u16 {
    match parse_num(s, 65535) {
        Some(n) => n as u16,
        None => 0,
    }
}

pub open spec fn opt_num(o: Option<Seq<char>>) -> Option<u16> {
    match o {
        Some(s) => match parse_num(s, 65535) {
            Some(n) => Some(n as u16),
            None => None,
        },
        None => None,
    }
}

/// The identity of the container a listing line describes.
pub struct ContainerView {
    pub id: Seq<char>,
    pub name: Seq<char>,
    pub remote_mode: bool,
}

/// The record of a published port.
pub open spec fn published_record(lp: u16, rp: u16, c: ContainerView) -> EntryView {
    EntryView {
        source: PortSource::Docker,
        local_port: lp,
        remote_host: Some(c.name),
        remote_port: Some(rp),
        process_name: c.name,
        pid: None,
        container_id: Some(c.id),
        container_name: Some(c.name),
        ssh_host: None,
        is_open: c.remote_mode,
        is_loopback: false,
    }
}

pub open spec fn has_local_port(recs: Seq<EntryView>, p: u16) -> bool {
    exists|j: int| 0 <= j < recs.len() && recs[j].local_port == p
}

/// `recs` with the pair `lp -> rp` added, unless `lp` is 0 or taken already.
pub open spec fn add_pair(recs: Seq<EntryView>, lp: u16, rp: u16, c: ContainerView) -> Seq<
    EntryView,
> {
    if lp > 0 && !has_local_port(recs, lp) {
        recs.push(published_record(lp, rp, c))
    } else {
        recs
    }
}

/// `recs` with the first `n` pairs `ls + i -> rs + i` added in order.
pub open spec fn add_pairs(recs: Seq<EntryView>, ls: int, rs: int, n: nat, c: ContainerView) -> Seq<
    EntryView,
>
    decreases n,
{
    if n == 0 {
        recs
    } else {
        add_pair(add_pairs(recs, ls, rs, (n - 1) as nat, c), (ls + n - 1) as u16, (rs + n - 1) as u16, c)
    }
}

/// `recs` with the ports of one mapping added: a range on both sides gives one pair per port,
/// as many as the shorter range holds; anything else gives the pair of first ports.
pub open spec fn add_mapping(recs: Seq<EntryView>, m: MappingView, c: ContainerView) -> Seq<EntryView> {
    let ls = num_or_zero(m.local);
    let rs = num_or_zero(m.remote);
    match (opt_num(m.local_end), opt_num(m.remote_end)) {
        (Some(le), Some(re)) => if le >= ls && re >= rs {
            let n = if le - ls <= re - rs {
                le - ls + 1
            } else {
                re - rs + 1
            };
            add_pairs(recs, ls as int, rs as int, n as nat, c)
        } else {
            add_pair(recs, ls, rs, c)
        },
        _ => add_pair(recs, ls, rs, c),
    }
}

/// The records of a container's mappings, in order.
pub open spec fn add_mappings(ms: Seq<MappingView>, c: ContainerView) -> Seq<EntryView>
    decreases ms.len(),
{
    if ms.len() == 0 {
        seq![]
    } else {
        add_mapping(add_mappings(ms.drop_last(), c), ms.last(), c)
    }
}

/// The records of one `id<TAB>name<TAB>ports` line; other lines give none.
pub open spec fn container_line_records(line: Seq<char>, remote_mode: bool) -> Seq<EntryView> {
    let ps = pieces(line, '\t');
    if is_blank(line) || ps.len() < 3 {
        seq![]
    } else {
        add_mappings(mappings(ps[2]), ContainerView { id: ps[0], name: ps[1], remote_mode })
    }
}

/// The records of a container listing, line by line.
pub open spec fn container_scan(ls: Seq<Seq<char>>, remote_mode: bool) -> Seq<EntryView>
    decreases ls.len(),
{
    if ls.len() == 0 {
        seq![]
    } else {
        container_scan(ls.drop_last(), remote_mode) + container_line_records(ls.last(), remote_mode)
    }
}

/// Does some record have local port `p`?
fn holds_local_port(recs: &Vec<PortEntry>, p: u16) -> (r: bool)
    ensures
        r == has_local_port(entry_views(recs@), p),
{
    let ghost v = entry_views(recs@);
    let mut i: usize = 0;
    while i < recs.len()
        invariant
            i <= recs@.len(),
            v == entry_views(recs@),
            forall|j: int| 0 <= j < i ==> v[j].local_port != p,
        decreases recs@.len() - i,
    {
        if recs[i].local_port == p {
            assert(v[i as int].local_port == p);
            return true;
        }
        i = i + 1;
    }
    false
}

/// The container a listing line describes, as the library holds it.
pub struct Container {
    pub id: String,
    pub name: String,
    pub remote_mode: bool,
}

impl View for Container {
    type V = ContainerView;

    open spec fn view(&self) -> ContainerView {
        ContainerView { id: self.id@, name: self.name@, remote_mode: self.remote_mode }
    }
}

fn push_pair(recs: &mut Vec<PortEntry>, lp: u16, rp: u16, c: &Container)
    ensures
        entry_views(final(recs)@) == add_pair(entry_views(old(recs)@), lp, rp, c@),
{
    if lp > 0 && !holds_local_port(recs, lp) {
        let e = PortEntry {
            source: PortSource::Docker,
            local_port: lp,
            remote_host: Some(c.name.clone()),
            remote_port: Some(rp),
            process_name: c.name.clone(),
            pid: None,
            container_id: Some(c.id.clone()),
            container_name: Some(c.name.clone()),
            ssh_host: None,
            is_open: c.remote_mode,
            is_loopback: false,
        };
        proof {
            lemma_entry_views_push(recs@, e);
        }
        recs.push(e);
    }
}

fn opt_port(o: &Option<Vec<char>>) -> (r: Option<u16>)
    ensures
        r == opt_num(opt_chars(*o)),
{
    match o {
        Some(v) => parse_u16(v),
        None => None,
    }
}

fn push_mapping(recs: &mut Vec<PortEntry>, m: &Mapping, c: &Container)
    ensures
        entry_views(final(recs)@) == add_mapping(entry_views(old(recs)@), m@, c@),
{
    let ls = match parse_u16(&m.local) {
        Some(p) => p,
        None => 0,
    };
    let rs = match parse_u16(&m.remote) {
        Some(p) => p,
        None => 0,
    };
    match (opt_port(&m.local_end), opt_port(&m.remote_end)) {
        (Some(le), Some(re)) => {
            if le >= ls && re >= rs {
                let n: u32 = if le - ls <= re - rs {
                    (le - ls) as u32 + 1
                } else {
                    (re - rs) as u32 + 1
                };
                let ghost base = entry_views(recs@);
                let mut i: u32 = 0;
                while i < n
                    invariant
                        i <= n,
                        n as int == (if le - ls <= re - rs {
                            le - ls + 1
                        } else {
                            re - rs + 1
                        }),
                        ls <= le,
                        rs <= re,
                        entry_views(recs@) == add_pairs(base, ls as int, rs as int, i as nat, c@),
                    decreases n - i,
                {
                    let lp = (ls as u32 + i) as u16;
                    let rp = (rs as u32 + i) as u16;
                    push_pair(recs, lp, rp, c);
                    i = i + 1;
                }
            } else {
                push_pair(recs, ls, rs, c);
            }
        },
        _ => {
            push_pair(recs, ls, rs, c);
        },
    }
}

/// The records of one container listing line.
fn container_line(line: &Vec<char>, remote_mode: bool) -> (r: Vec<PortEntry>)
    ensures
        entry_views(r@) == container_line_records(line@, remote_mode),
{
    let mut recs: Vec<PortEntry> = Vec::new();
    if blank(line) {
        return recs;
    }
    let ps = split_on(line, '\t');
    if ps.len() < 3 {
        return recs;
    }
    let c = Container { id: string_from(&ps[0]), name: string_from(&ps[1]), remote_mode };
    assert(c@ == ContainerView { id: views(ps@)[0], name: views(ps@)[1], remote_mode });
    let ms = mapping_captures(&ps[2]);
    let ghost mv = mapping_views(ms@);
    assert(mv == mappings(views(ps@)[2]));
    let mut i: usize = 0;
    assert(entry_views(recs@) =~= add_mappings(mv.take(0), c@));
    while i < ms.len()
        invariant
            i <= ms@.len(),
            mv == mapping_views(ms@),
            entry_views(recs@) == add_mappings(mv.take(i as int), c@),
        decreases ms@.len() - i,
    {
        assert(mv.take(i + 1).drop_last() =~= mv.take(i as int));
        assert(mv.take(i + 1).last() == ms@[i as int]@);
        push_mapping(&mut recs, &ms[i], &c);
        i = i + 1;
    }
    assert(mv.take(i as int) =~= mv);
    recs
}

/// The published TCP ports of a `docker ps` listing whose lines read
/// `id<TAB>name<TAB>ports`; a listing from a remote host marks every record open.
pub fn parse_docker_ps(output: &str, remote_mode: bool) -> (r: Vec<PortEntry>)
    ensures
        entry_views(r@) == container_scan(lines(output@), remote_mode),
{
    let text = chars_of(output);
    let ls = split_lines(&text);
    let ghost lv = views(ls@);
    let mut out: Vec<PortEntry> = Vec::new();
    let mut k: usize = 0;
    while k < ls.len()
        invariant
            k <= ls@.len(),
            lv == views(ls@),
            lv == lines(output@),
            entry_views(out@) == container_scan(lv.take(k as int), remote_mode),
        decreases ls@.len() - k,
    {
        assert(lv.take(k + 1).drop_last() =~= lv.take(k as int));
        assert(lv.take(k + 1).last() == ls@[k as int]@);
        let recs = container_line(&ls[k], remote_mode);
        let ghost before = entry_views(out@);
        let mut j: usize = 0;
        while j < recs.len()
            invariant
                j <= recs@.len(),
                entry_views(out@) == before + entry_views(recs@).take(j as int),
            decreases recs@.len() - j,
        {
            let e = recs[j].copy();
            proof {
                lemma_entry_views_push(out@, e);
                assert(entry_views(recs@).take(j + 1) =~= entry_views(recs@).take(j as int).push(e@));
            }
            out.push(e);
            j = j + 1;
        }
        assert(entry_views(recs@).take(j as int) =~= entry_views(recs@));
        k = k + 1;
    }
    assert(lv.take(k as int) =~= lv);
    out
}

// ---------------------------------------------------------------------------
// Socket table from inside a container
// ---------------------------------------------------------------------------

pub open spec fn has_prefix(s: Seq<char>, p: Seq<char>) -> bool {
    p.len() <= s.len() && s.take(p.len() as int) == p
}

/// The process name in a process column such as `users:(("node",pid=1,fd=4))`: the text
/// between `(("` and the next `"`, if both are there.
pub open spec fn quoted_process(col: Seq<char>) -> Option<Seq<char>> {
    match first_occurrence(col, "((\""@) {
        Some(st) => match first_occurrence(col.skip(st + 3), "\""@) {
            Some(e) => Some(col.subrange(st + 3, st + 3 + e)),
            None => None,
        },
        None => None,
    }
}

/// The record of one `ss -tln` line, unless it is not a listening socket, names no port, or
/// names a port an earlier record has.
pub open spec fn ss_record(line: Seq<char>, container: Seq<char>, prev: Seq<EntryView>) -> Option<
    EntryView,
> {
    let t = trim(line);
    let fs = words(t);
    if t.len() == 0 || has_prefix(t, "State"@) || !has_prefix(t, "LISTEN"@) || fs.len() < 4 {
        None
    } else {
        match crate::local::port_of_addr(fs[3]) {
            None => None,
            Some(port) => if has_local_port(prev, port) {
                None
            } else {
                let bind = before_last(fs[3], ':');
                let process = if fs.len() > 5 {
                    match quoted_process(join_spaced(fs.skip(5))) {
                        Some(n) => n,
                        None => container,
                    }
                } else {
                    container
                };
                Some(
                    EntryView {
                        source: PortSource::Docker,
                        local_port: port,
                        remote_host: Some(container),
                        remote_port: Some(port),
                        process_name: process,
                        pid: None,
                        container_id: None,
                        container_name: Some(container),
                        ssh_host: None,
                        is_open: true,
                        is_loopback: bind == "127.0.0.1"@ || bind == "[::1]"@,
                    },
                )
            },
        }
    }
}

/// The records of a socket table, line by line.
pub open spec fn ss_scan(ls: Seq<Seq<char>>, container: Seq<char>) -> Seq<EntryView>
    decreases ls.len(),
{
    if ls.len() == 0 {
        seq![]
    } else {
        let prev = ss_scan(ls.drop_last(), container);
        match ss_record(ls.last(), container, prev) {
            Some(e) => prev.push(e),
            None => prev,
        }
    }
}

fn quoted_process_in(col: &Vec<char>) -> (r: Option<Vec<char>>)
    ensures
        match r {
            Some(n) => quoted_process(col@) == Some(n@),
            None => quoted_process(col@).is_none(),
        },
{
    let len = col.len();
    let open = chars_of("((\"");
    let quote = chars_of("\"");
    match find(col, &open) {
        Some(st) => {
            proof {
                reveal_strlit("((\"");
            }
            assert(open@.len() == 3);
            assert(st + 3 <= len);
            let rest = slice_of(col, st + 3, col.len());
            assert(rest@ =~= col@.skip(st + 3));
            match find(&rest, &quote) {
                Some(e) => {
                    proof {
                        reveal_strlit("\"");
                    }
                    assert(quote@.len() == 1);
                    assert(st + 3 + e <= len);
                    let n = slice_of(col, st + 3, st + 3 + e);
                    Some(n)
                },
                None => None,
            }
        },
        None => None,
    }
}

/// The record of one socket-table line, given the records so far.
fn ss_line(line: &Vec<char>, container: &Vec<char>, prev: &Vec<PortEntry>) -> (r: Option<PortEntry>)
    ensures
        match r {
            Some(e) => ss_record(line@, container@, entry_views(prev@)) == Some(e@),
            None => ss_record(line@, container@, entry_views(prev@)).is_none(),
        },
{
    let t = trim_chars(line);
    if t.len() == 0 || starts_with(&t, &chars_of("State")) || !starts_with(&t, &chars_of("LISTEN")) {
        return None;
    }
    let fs = split_words(&t);
    if fs.len() < 4 {
        return None;
    }
    let addr = &fs[3];
    assert(addr@ == views(fs@)[3]);
    let port = match crate::local::port_in(addr) {
        Some(p) => p,
        None => {
            return None;
        },
    };
    if holds_local_port(prev, port) {
        return None;
    }
    let bind = before_last_char(addr, ':');
    let is_loopback = eq_chars(&bind, &chars_of("127.0.0.1")) || eq_chars(&bind, &chars_of("[::1]"));
    let process = if fs.len() > 5 {
        let col = join_from(&fs, 5);
        match quoted_process_in(&col) {
            Some(n) => string_from(&n),
            None => string_from(container),
        }
    } else {
        string_from(container)
    };
    Some(
        PortEntry {
            source: PortSource::Docker,
            local_port: port,
            remote_host: Some(string_from(container)),
            remote_port: Some(port),
            process_name: process,
            pid: None,
            container_id: None,
            container_name: Some(string_from(container)),
            ssh_host: None,
            is_open: true,
            is_loopback,
        },
    )
}

/// The listening TCP sockets of an `ss -tln` table taken inside a container: one record per
/// port, first line first, each open and named after its process when the table shows it,
/// else after the container.
pub fn parse_ss_output(output: &str, container_name: &str) -> (r: Vec<PortEntry>)
    ensures
        entry_views(r@) == ss_scan(lines(output@), container_name@),
{
    let text = chars_of(output);
    let container = chars_of(container_name);
    let ls = split_lines(&text);
    let ghost lv = views(ls@);
    let mut out: Vec<PortEntry> = Vec::new();
    let mut k: usize = 0;
    while k < ls.len()
        invariant
            k <= ls@.len(),
            lv == views(ls@),
            lv == lines(output@),
            container@ == container_name@,
            entry_views(out@) == ss_scan(lv.take(k as int), container_name@),
        decreases ls@.len() - k,
    {
        assert(lv.take(k + 1).drop_last() =~= lv.take(k as int));
        assert(lv.take(k + 1).last() == ls@[k as int]@);
        match ss_line(&ls[k], &container, &out) {
            Some(e) => {
                proof {
                    lemma_entry_views_push(out@, e);
                }
                out.push(e);
            },
            None => {},
        }
        k = k + 1;
    }
    assert(lv.take(k as int) =~= lv);
    out
}

/// The address that `docker inspect` printed for a container: its output without surrounding
/// white space, or nothing when that is empty (the container has no address).
pub fn container_ip_from(output: &str) -> (r: Option<String>)
    ensures
        match r {
            Some(ip) => ip@ == trim(output@) && ip@.len() > 0,
            None => trim(output@).len() == 0,
        },
{
    let t = trim_chars(&chars_of(output));
    if t.len() == 0 {
        None
    } else {
        Some(string_from(&t))
    }
}

} // verus!
