//! Listening sockets from an `lsof -F cpn` field listing.

use vstd::prelude::*;

use crate::port::{entry_views, lemma_entry_views_push, EntryView, PortEntry, PortSource};
use crate::text::{
    after_last, after_last_char, chars_of, lines, parse_num, parse_u16, parse_u32, slice_of,
    split_lines, string_from, views,
};

verus! {

/// The port an address names: the digits after its last colon (all of it when it has none),
/// from 1 to 65535.
pub open spec fn port_of_addr(addr: Seq<char>) -> Option<u16> {
    match parse_num(after_last(addr, ':'), 65535) {
        Some(n) => if n > 0 {
            Some(n as u16)
        } else {
            None
        },
        None => None,
    }
}

/// The port an address names, as characters.
pub fn port_in(addr: &Vec<char>) -> (r: Option<u16>)
    ensures
        r == port_of_addr(addr@),
{
    let tail = after_last_char(addr, ':');
    match parse_u16(&tail) {
        Some(p) => if p > 0 {
            Some(p)
        } else {
            None
        },
        None => None,
    }
}

/// The port an address such as `*:3000`, `127.0.0.1:8080` or `[::1]:80` names.
pub fn extract_port(addr: &str) -> (r: Option<u16>)
    ensures
        r == port_of_addr(addr@),
{
    port_in(&chars_of(addr))
}

/// What the field listing has said so far about the current process.
pub struct LsofCursor {
    pub pid: Option<u32>,
    pub command: Option<Seq<char>>,
}

/// The cursor after one line: `p<pid>` sets the pid (none when it does not parse), `c<name>`
/// sets the command name.
pub open spec fn lsof_next(cur: LsofCursor, line: Seq<char>) -> LsofCursor {
    if line.len() > 0 && line[0] == 'p' {
        LsofCursor {
            pid: match parse_num(line.drop_first(), 0xffff_ffff) {
                Some(n) => Some(n as u32),
                None => None,
            },
            command: cur.command,
        }
    } else if line.len() > 0 && line[0] == 'c' {
        LsofCursor { pid: cur.pid, command: Some(line.drop_first()) }
    } else {
        cur
    }
}

/// The record for a listening socket on `port` of the current process.
pub open spec fn local_record(port: u16, cur: LsofCursor, remote_mode: bool) -> EntryView {
    EntryView {
        source: PortSource::Local,
        local_port: port,
        remote_host: None,
        remote_port: None,
        process_name: match cur.command {
            Some(c) => c,
            None => Seq::empty(),
        },
        pid: cur.pid,
        container_id: None,
        container_name: None,
        ssh_host: None,
        is_open: remote_mode,
        is_loopback: false,
    }
}

/// The record that an `n<address>` line gives, if its address names a port.
pub open spec fn lsof_record(cur: LsofCursor, line: Seq<char>, remote_mode: bool) -> Option<
    EntryView,
> {
    if line.len() > 0 && line[0] == 'n' {
        match port_of_addr(line.drop_first()) {
            Some(p) => Some(local_record(p, cur, remote_mode)),
            None => None,
        }
    } else {
        None
    }
}

/// The cursor and the records after reading `lines` in order.
pub open spec fn lsof_scan(lines: Seq<Seq<char>>, remote_mode: bool) -> (LsofCursor, Seq<
    EntryView,
>)
    decreases lines.len(),
{
    if lines.len() == 0 {
        (LsofCursor { pid: None, command: None }, seq![])
    } else {
        let (cur, recs) = lsof_scan(lines.drop_last(), remote_mode);
        let line = lines.last();
        (
            lsof_next(cur, line),
            match lsof_record(cur, line, remote_mode) {
                Some(e) => recs.push(e),
                None => recs,
            },
        )
    }
}

/// Position of the first record of `raw` with port `p`, or -1.
pub open spec fn first_index(raw: Seq<EntryView>, p: u16) -> int
    decreases raw.len(),
{
    if raw.len() == 0 {
        -1
    } else {
        let f = first_index(raw.drop_last(), p);
        if f >= 0 {
            f
        } else if raw.last().local_port == p {
            raw.len() - 1
        } else {
            -1
        }
    }
}

/// Some record of `r` has port `p`.
#[verifier::opaque]
pub open spec fn has_port(r: Seq<EntryView>, p: u16) -> bool {
    exists|i: int| 0 <= i < r.len() && r[i].local_port == p
}

/// `r` holds, by ascending port, the first record of `raw` for each port that `raw` names.
#[verifier::opaque]
pub open spec fn firsts_by_port(r: Seq<EntryView>, raw: Seq<EntryView>) -> bool {
    &&& forall|i: int, j: int|
        0 <= i < j < r.len() ==> #[trigger] r[i].local_port < #[trigger] r[j].local_port
    &&& forall|i: int|
        0 <= i < r.len() ==> first_index(raw, #[trigger] r[i].local_port) >= 0 && raw[first_index(
            raw,
            r[i].local_port,
        )] == r[i]
    &&& forall|k: int| 0 <= k < raw.len() ==> has_port(r, #[trigger] raw[k].local_port)
}

proof fn lemma_first_index(raw: Seq<EntryView>, p: u16)
    ensures
        -1 <= first_index(raw, p) < raw.len(),
        first_index(raw, p) >= 0 ==> raw[first_index(raw, p)].local_port == p,
        first_index(raw, p) == -1 ==> forall|m: int| 0 <= m < raw.len() ==> raw[m].local_port != p,
    decreases raw.len(),
{
    if raw.len() > 0 {
        lemma_first_index(raw.drop_last(), p);
        assert forall|m: int| 0 <= m < raw.len() - 1 implies raw[m] == raw.drop_last()[m] by {}
    }
}

proof fn lemma_first_index_push(raw: Seq<EntryView>, e: EntryView, p: u16)
    ensures
        first_index(raw.push(e), p) == if first_index(raw, p) >= 0 {
            first_index(raw, p)
        } else if e.local_port == p {
            raw.len() as int
        } else {
            -1
        },
{
    assert(raw.push(e).drop_last() =~= raw);
}

proof fn lemma_has_port_intro(r: Seq<EntryView>, i: int)
    requires
        0 <= i < r.len(),
    ensures
        has_port(r, r[i].local_port),
{
    reveal(has_port);
}

proof fn lemma_has_port_elim(r: Seq<EntryView>, p: u16) -> (i: int)
    requires
        has_port(r, p),
    ensures
        0 <= i < r.len() && r[i].local_port == p,
{
    reveal(has_port);
    choose|i: int| 0 <= i < r.len() && r[i].local_port == p
}

proof fn lemma_firsts_empty()
    ensures
        firsts_by_port(Seq::<EntryView>::empty(), Seq::<EntryView>::empty()),
{
    reveal(firsts_by_port);
}

proof fn lemma_firsts_taken(ov: Seq<EntryView>, pre: Seq<EntryView>, e: EntryView, pos: int)
    requires
        firsts_by_port(ov, pre),
        0 <= pos < ov.len(),
        ov[pos].local_port == e.local_port,
    ensures
        firsts_by_port(ov, pre.push(e)),
{
    reveal(firsts_by_port);
    let nxt = pre.push(e);
    assert forall|i: int| 0 <= i < ov.len() implies first_index(nxt, #[trigger] ov[i].local_port)
        >= 0 && nxt[first_index(nxt, ov[i].local_port)] == ov[i] by {
        lemma_first_index_push(pre, e, ov[i].local_port);
        lemma_first_index(pre, ov[i].local_port);
    }
    assert forall|k3: int| 0 <= k3 < nxt.len() implies has_port(ov, #[trigger] nxt[k3].local_port) by {
        if k3 < pre.len() {
            assert(nxt[k3] == pre[k3]);
            assert(has_port(ov, pre[k3].local_port));
        } else {
            lemma_has_port_intro(ov, pos);
        }
    }
}

proof fn lemma_firsts_insert(ov: Seq<EntryView>, pre: Seq<EntryView>, e: EntryView, pos: int)
    requires
        firsts_by_port(ov, pre),
        0 <= pos <= ov.len(),
        forall|j: int| 0 <= j < pos ==> (#[trigger] ov[j]).local_port < e.local_port,
        pos < ov.len() ==> ov[pos].local_port > e.local_port,
    ensures
        firsts_by_port(ov.insert(pos, e), pre.push(e)),
{
    reveal(firsts_by_port);
    let nxt = pre.push(e);
    let w = ov.insert(pos, e);
    assert forall|a: int, b: int| 0 <= a < b < w.len() implies #[trigger] w[a].local_port
        < #[trigger] w[b].local_port by {
        if b == pos {
            assert(ov[a].local_port < e.local_port);
        } else if a == pos {
            if b - 1 > pos {
                assert(ov[pos].local_port < ov[b - 1].local_port);
            }
        } else if a < pos && b > pos {
            assert(ov[a].local_port < ov[b - 1].local_port);
        } else if a > pos {
            assert(ov[a - 1].local_port < ov[b - 1].local_port);
        } else {
            assert(ov[a].local_port < ov[b].local_port);
        }
    }
    lemma_first_index(pre, e.local_port);
    if first_index(pre, e.local_port) >= 0 {
        let m = first_index(pre, e.local_port);
        assert(has_port(ov, pre[m].local_port));
        let i = lemma_has_port_elim(ov, pre[m].local_port);
        if i > pos {
            assert(ov[pos].local_port < ov[i].local_port);
        }
        assert(false);
    }
    assert forall|i: int| 0 <= i < w.len() implies first_index(nxt, #[trigger] w[i].local_port)
        >= 0 && nxt[first_index(nxt, w[i].local_port)] == w[i] by {
        lemma_first_index_push(pre, e, w[i].local_port);
        if i != pos {
            let i0 = if i < pos {
                i
            } else {
                i - 1
            };
            assert(w[i] == ov[i0]);
            lemma_first_index(pre, ov[i0].local_port);
        }
    }
    assert forall|k3: int| 0 <= k3 < nxt.len() implies has_port(w, #[trigger] nxt[k3].local_port) by {
        if k3 < pre.len() {
            assert(nxt[k3] == pre[k3]);
            assert(has_port(ov, pre[k3].local_port));
            let i = lemma_has_port_elim(ov, pre[k3].local_port);
            if i < pos {
                assert(w[i] == ov[i]);
                lemma_has_port_intro(w, i);
            } else {
                assert(w[i + 1] == ov[i]);
                lemma_has_port_intro(w, i + 1);
            }
        } else {
            lemma_has_port_intro(w, pos);
        }
    }
}

/// Keeps, by ascending port, the first record for each port.
pub fn first_per_port(raw: &Vec<PortEntry>) -> (r: Vec<PortEntry>)
    ensures
        firsts_by_port(entry_views(r@), entry_views(raw@)),
{
    let ghost rv = entry_views(raw@);
    let mut out: Vec<PortEntry> = Vec::new();
    let mut k: usize = 0;
    proof {
        lemma_firsts_empty();
        assert(entry_views(out@) =~= Seq::<EntryView>::empty());
        assert(rv.take(0) =~= Seq::<EntryView>::empty());
    }
    while k < raw.len()
        invariant
            k <= raw@.len(),
            rv == entry_views(raw@),
            firsts_by_port(entry_views(out@), rv.take(k as int)),
        decreases raw@.len() - k,
    {
        let e = &raw[k];
        let ghost ov = entry_views(out@);
        assert(rv.take(k + 1) == rv.take(k as int).push(e@));
        let mut pos: usize = 0;
        while pos < out.len() && out[pos].local_port < e.local_port
            invariant
                pos <= out@.len(),
                ov == entry_views(out@),
                forall|j: int| 0 <= j < pos ==> (#[trigger] ov[j]).local_port < e.local_port,
            decreases out@.len() - pos,
        {
            pos = pos + 1;
        }
        if pos < out.len() && out[pos].local_port == e.local_port {
            proof {
                lemma_firsts_taken(ov, rv.take(k as int), e@, pos as int);
            }
        } else {
            let c = e.copy();
            proof {
                assert(entry_views(out@.insert(pos as int, c)) =~= ov.insert(pos as int, c@));
                lemma_firsts_insert(ov, rv.take(k as int), e@, pos as int);
            }
            out.insert(pos, c);
        }
        k = k + 1;
    }
    assert(rv.take(k as int) =~= rv);
    out
}

/// The records that a listing of `lsof -F cpn` fields gives, in listing order.
pub fn lsof_records(output: &Vec<char>, remote_mode: bool) -> (r: Vec<PortEntry>)
    ensures
        entry_views(r@) == lsof_scan(lines(output@), remote_mode).1,
{
    let ls = split_lines(output);
    let ghost lv = views(ls@);
    let mut pid: Option<u32> = None;
    let mut command: Option<Vec<char>> = None;
    let mut out: Vec<PortEntry> = Vec::new();
    let mut k: usize = 0;
    while k < ls.len()
        invariant
            k <= ls@.len(),
            lv == views(ls@),
            lv == lines(output@),
            lsof_scan(lv.take(k as int), remote_mode).0 == (LsofCursor {
                pid,
                command: match command {
                    Some(c) => Some(c@),
                    None => None,
                },
            }),
            lsof_scan(lv.take(k as int), remote_mode).1 == entry_views(out@),
        decreases ls@.len() - k,
    {
        let line = &ls[k];
        proof {
            assert(lv.take(k + 1).drop_last() =~= lv.take(k as int));
            assert(lv.take(k + 1).last() == line@);
        }
        if line.len() > 0 {
            let value = slice_of(line, 1, line.len());
            assert(value@ =~= line@.drop_first());
            if line[0] == 'p' {
                pid = parse_u32(&value);
            } else if line[0] == 'c' {
                command = Some(value);
            } else if line[0] == 'n' {
                match port_in(&value) {
                    Some(port) => {
                        let name = match &command {
                            Some(c) => string_from(c),
                            None => String::new(),
                        };
                        let e = PortEntry {
                            source: PortSource::Local,
                            local_port: port,
                            remote_host: None,
                            remote_port: None,
                            process_name: name,
                            pid,
                            container_id: None,
                            container_name: None,
                            ssh_host: None,
                            is_open: remote_mode,
                            is_loopback: false,
                        };
                        proof {
                            lemma_entry_views_push(out@, e);
                        }
                        out.push(e);
                    },
                    None => {},
                }
            }
        }
        k = k + 1;
    }
    assert(lv.take(k as int) =~= lv);
    out
}

/// The listening sockets of an `lsof -F cpn` field listing: by ascending port, the first
/// record for each port.  A remote listing marks every record open.
pub fn parse_lsof_fields(output: &str, remote_mode: bool) -> (r: Vec<PortEntry>)
    ensures
        firsts_by_port(entry_views(r@), lsof_scan(lines(output@), remote_mode).1),
{
    let raw = lsof_records(&chars_of(output), remote_mode);
    first_per_port(&raw)
}

} // verus!
