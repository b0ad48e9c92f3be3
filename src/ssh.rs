//! SSH tunnels from a process table: the `-L`/`-R` forward flags and the destination host.

use vstd::prelude::*;

use crate::port::{entry_views, lemma_entry_views_push, EntryView, PortEntry, PortSource};
use crate::text::{
    after_last, after_last_char, char_is_digit, char_is_ws, chars_of, concat, contains,
    contains_chars, decimal, decimal_chars, eq_chars, has_char, is_digit, is_ws, lines,
    parse_num, parse_u16, parse_u32, slice_of, split_lines, split_words, string_from, views,
    words,
};

verus! {

// ---------------------------------------------------------------------------
// Forward flags: `-L a:host:b` and `-R a:host:b`
// ---------------------------------------------------------------------------

/// Character classes of the forward grammar.
#[derive(Clone, Copy, PartialEq, Eq, Structural)]
pub enum CharClass {
    Digit,
    Space,
    /// Anything but a colon or white space.
    HostChar,
}

pub open spec fn in_class(c: char, k: CharClass) -> bool {
    match k {
        CharClass::Digit => is_digit(c),
        CharClass::Space => is_ws(c),
        CharClass::HostChar => c != ':' && !is_ws(c),
    }
}

/// Length of the longest run of class `k` in `s` from `i` on.
pub open spec fn run_len(s: Seq<char>, i: int, k: CharClass) -> nat
    decreases s.len() - i,
{
    if 0 <= i < s.len() && in_class(s[i], k) {
        1 + run_len(s, i + 1, k)
    } else {
        0
    }
}

proof fn lemma_run_len(s: Seq<char>, i: int, k: CharClass)
    requires
        0 <= i <= s.len(),
    ensures
        i + run_len(s, i, k) <= s.len(),
    decreases s.len() - i,
{
    if i < s.len() && in_class(s[i], k) {
        lemma_run_len(s, i + 1, k);
    }
}

/// End of the longest run of class `k` in `s` from `i` on.
pub fn run_end(s: &Vec<char>, i: usize, k: CharClass) -> (r: usize)
    requires
        i <= s@.len(),
    ensures
        r == i + run_len(s@, i as int, k),
        r <= s@.len(),
{
    proof {
        lemma_run_len(s@, i as int, k);
    }
    let mut j = i;
    while j < s.len() && class_holds(s[j], k)
        invariant
            i <= j <= s@.len(),
            run_len(s@, i as int, k) == (j - i) + run_len(s@, j as int, k),
        decreases s@.len() - j,
    {
        j = j + 1;
    }
    j
}

fn class_holds(c: char, k: CharClass) -> (r: bool)
    ensures
        r == in_class(c, k),
{
    match k {
        CharClass::Digit => char_is_digit(c),
        CharClass::Space => char_is_ws(c),
        CharClass::HostChar => c != ':' && !char_is_ws(c),
    }
}

/// The three captured parts of one forward flag.
pub struct Capture {
    pub first: Vec<char>,
    pub host: Vec<char>,
    pub second: Vec<char>,
}

pub struct CaptureView {
    pub first: Seq<char>,
    pub host: Seq<char>,
    pub second: Seq<char>,
}

impl View for Capture {
    type V = CaptureView;

    open spec fn view(&self) -> CaptureView {
        CaptureView { first: self.first@, host: self.host@, second: self.second@ }
    }
}

pub open spec fn capture_views(v: Seq<Capture>) -> Seq<CaptureView> {
    v.map_values(|c: Capture| c@)
}

/// The forward flag `-<flag> digits:host:digits` (with optional white space after the flag)
/// that starts at `i`, with the position just after it.
pub open spec fn flag_match_at(s: Seq<char>, i: int, flag: char) -> Option<(int, CaptureView)> {
    if 0 <= i && i + 1 < s.len() && s[i] == '-' && s[i + 1] == flag {
        let a0 = i + 2 + run_len(s, i + 2, CharClass::Space);
        let a1 = a0 + run_len(s, a0, CharClass::Digit);
        let h0 = a1 + 1;
        let h1 = h0 + run_len(s, h0, CharClass::HostChar);
        let b0 = h1 + 1;
        let b1 = b0 + run_len(s, b0, CharClass::Digit);
        if a1 > a0 && a1 < s.len() && s[a1] == ':' && h1 > h0 && h1 < s.len() && s[h1] == ':'
            && b1 > b0 {
            Some(
                (
                    b1,
                    CaptureView {
                        first: s.subrange(a0, a1),
                        host: s.subrange(h0, h1),
                        second: s.subrange(b0, b1),
                    },
                ),
            )
        } else {
            None
        }
    } else {
        None
    }
}

/// The forward flags of `s` from `i` on, leftmost first and without overlap.
pub open spec fn flag_matches_from(s: Seq<char>, flag: char, i: int) -> Seq<CaptureView>
    decreases s.len() - i,
{
    if i < 0 || i >= s.len() {
        seq![]
    } else {
        match flag_match_at(s, i, flag) {
            Some((end, c)) => if i < end <= s.len() {
                seq![c] + flag_matches_from(s, flag, end)
            } else {
                seq![]
            },
            None => flag_matches_from(s, flag, i + 1),
        }
    }
}

pub open spec fn flag_matches(s: Seq<char>, flag: char) -> Seq<CaptureView> {
    flag_matches_from(s, flag, 0)
}

/// The forward flag at `i`, if one starts there.
fn match_flag_at(s: &Vec<char>, i: usize, flag: char) -> (r: Option<(usize, Capture)>)
    requires
        i < s@.len(),
    ensures
        match r {
            Some((end, c)) => flag_match_at(s@, i as int, flag) == Some((end as int, c@)) && i < end
                <= s@.len(),
            None => flag_match_at(s@, i as int, flag).is_none(),
        },
{
    let n = s.len();
    if i + 1 < n && s[i] == '-' && s[i + 1] == flag {
        let a0 = run_end(s, i + 2, CharClass::Space);
        let a1 = run_end(s, a0, CharClass::Digit);
        if a1 > a0 && a1 < s.len() && s[a1] == ':' {
            let h0 = a1 + 1;
            let h1 = run_end(s, h0, CharClass::HostChar);
            if h1 > h0 && h1 < s.len() && s[h1] == ':' {
                let b0 = h1 + 1;
                let b1 = run_end(s, b0, CharClass::Digit);
                if b1 > b0 {
                    let c = Capture {
                        first: slice_of(s, a0, a1),
                        host: slice_of(s, h0, h1),
                        second: slice_of(s, b0, b1),
                    };
                    assert(c@ == CaptureView {
                        first: s@.subrange(a0 as int, a1 as int),
                        host: s@.subrange(h0 as int, h1 as int),
                        second: s@.subrange(b0 as int, b1 as int),
                    });
                    return Some((b1, c));
                }
            }
        }
    }
    None
}

/// The forward flags `-<flag> a:host:b` of a line, leftmost first and without overlap.
pub fn flag_captures(s: &Vec<char>, flag: char) -> (r: Vec<Capture>)
    ensures
        capture_views(r@) == flag_matches(s@, flag),
{
    let mut out: Vec<Capture> = Vec::new();
    let mut i: usize = 0;
    while i < s.len()
        invariant
            i <= s@.len(),
            capture_views(out@) + flag_matches_from(s@, flag, i as int) == flag_matches(s@, flag),
        decreases s@.len() - i,
    {
        match match_flag_at(s, i, flag) {
            Some((end, c)) => {
                proof {
                    assert(capture_views(out@.push(c)) =~= capture_views(out@).push(c@));
                    assert(capture_views(out@.push(c)) + flag_matches_from(s@, flag, end as int)
                        =~= capture_views(out@) + flag_matches_from(s@, flag, i as int));
                }
                out.push(c);
                i = end;
            },
            None => {
                i = i + 1;
            },
        }
    }
    assert(capture_views(out@) =~= capture_views(out@) + flag_matches_from(s@, flag, i as int));
    out
}

// ---------------------------------------------------------------------------
// The destination host
// ---------------------------------------------------------------------------

/// A word that names the `ssh` program, with or without a directory.
pub open spec fn names_ssh(w: Seq<char>) -> bool {
    after_last(w, '/') == "ssh"@
}

/// Position of the first word that names `ssh`, or -1.
pub open spec fn ssh_word_pos(ws: Seq<Seq<char>>) -> int
    decreases ws.len(),
{
    if ws.len() == 0 {
        -1
    } else {
        let f = ssh_word_pos(ws.drop_last());
        if f >= 0 {
            f
        } else if names_ssh(ws.last()) {
            ws.len() - 1
        } else {
            -1
        }
    }
}

/// The destination host of an `ssh` command line: the last word after the `ssh` word, when it
/// neither begins with `-` nor holds `:`.
pub open spec fn ssh_host_of(line: Seq<char>) -> Option<Seq<char>> {
    let ws = words(line);
    let p = ssh_word_pos(ws);
    if p < 0 || p + 1 >= ws.len() {
        None
    } else {
        let last = ws.last();
        if (last.len() > 0 && last[0] == '-') || last.contains(':') {
            None
        } else {
            Some(last)
        }
    }
}

proof fn lemma_ssh_word_pos(ws: Seq<Seq<char>>)
    ensures
        -1 <= ssh_word_pos(ws) < ws.len(),
    decreases ws.len(),
{
    if ws.len() > 0 {
        lemma_ssh_word_pos(ws.drop_last());
    }
}

proof fn lemma_ssh_word_pos_extend(ws: Seq<Seq<char>>, p: int, q: int)
    requires
        0 <= p < q <= ws.len(),
        ssh_word_pos(ws.take(q)) == p,
    ensures
        ssh_word_pos(ws.take(ws.len() as int)) == p,
    decreases ws.len() - q,
{
    if q < ws.len() {
        assert(ws.take(q + 1).drop_last() =~= ws.take(q));
        lemma_ssh_word_pos_extend(ws, p, q + 1);
    }
}

/// Position of the first word that names `ssh`.
fn ssh_word_index(ws: &Vec<Vec<char>>) -> (r: Option<usize>)
    ensures
        match r {
            Some(p) => ssh_word_pos(views(ws@)) == p as int,
            None => ssh_word_pos(views(ws@)) == -1,
        },
{
    let ghost wv = views(ws@);
    let ssh = chars_of("ssh");
    let mut p: usize = 0;
    assert(wv.take(0) =~= Seq::<Seq<char>>::empty());
    while p < ws.len()
        invariant
            p <= ws@.len(),
            wv == views(ws@),
            ssh@ == "ssh"@,
            ssh_word_pos(wv.take(p as int)) == -1,
        decreases ws@.len() - p,
    {
        let base = after_last_char(&ws[p], '/');
        assert(wv.take(p + 1).drop_last() =~= wv.take(p as int));
        assert(wv.take(p + 1).last() == ws@[p as int]@);
        if eq_chars(&base, &ssh) {
            proof {
                lemma_ssh_word_pos_extend(wv, p as int, p + 1);
                assert(wv.take(wv.len() as int) =~= wv);
            }
            return Some(p);
        }
        p = p + 1;
    }
    assert(wv.take(p as int) =~= wv);
    None
}

/// The destination host of an `ssh` command line, as characters.
pub fn ssh_host_in(line: &Vec<char>) -> (r: Option<Vec<char>>)
    ensures
        match r {
            Some(h) => ssh_host_of(line@) == Some(h@),
            None => ssh_host_of(line@).is_none(),
        },
{
    let ws = split_words(line);
    let ghost wv = views(ws@);
    assert(wv == words(line@));
    let p = match ssh_word_index(&ws) {
        Some(p) => p,
        None => {
            return None;
        },
    };
    proof {
        lemma_ssh_word_pos(wv);
    }
    if p >= ws.len() - 1 {
        return None;
    }
    let last = &ws[ws.len() - 1];
    assert(last@ == wv.last());
    if (last.len() > 0 && last[0] == '-') || has_char(last, ':') {
        return None;
    }
    let r = slice_of(last, 0, last.len());
    assert(r@ =~= last@);
    Some(r)
}

/// The destination host of an `ssh` command line (see [`ssh_host_of`]).
pub fn extract_ssh_host(line: &str) -> (r: Option<String>)
    ensures
        match r {
            Some(h) => ssh_host_of(line@) == Some(h@),
            None => ssh_host_of(line@).is_none(),
        },
{
    match ssh_host_in(&chars_of(line)) {
        Some(h) => Some(string_from(&h)),
        None => None,
    }
}

// ---------------------------------------------------------------------------
// Records
// ---------------------------------------------------------------------------

/// The port that a captured number gives, or 0 when it does not fit.
pub open spec fn port_or_zero(s: Seq<char>) -> u16 {
    match parse_num(s, 65535) {
        Some(n) => n as u16,
        None => 0,
    }
}

pub open spec fn port_opt(s: Seq<char>) -> Option<u16> {
    match parse_num(s, 65535) {
        Some(n) => Some(n as u16),
        None => None,
    }
}

/// The record of a local forward `-L local:host:remote`.
pub open spec fn local_forward_record(c: CaptureView, pid: Option<u32>, host: Option<Seq<char>>) -> EntryView {
    EntryView {
        source: PortSource::Ssh,
        local_port: port_or_zero(c.first),
        remote_host: Some(c.host),
        remote_port: port_opt(c.second),
        process_name: "ssh"@,
        pid,
        container_id: None,
        container_name: None,
        ssh_host: host,
        is_open: false,
        is_loopback: false,
    }
}

/// The record of a reverse forward `-R remote:host:local`, seen from its local side.
pub open spec fn reverse_forward_record(c: CaptureView, pid: Option<u32>, host: Option<Seq<char>>) -> EntryView {
    EntryView {
        source: PortSource::Ssh,
        local_port: port_or_zero(c.second),
        remote_host: Some("(R) "@ + c.host + ":"@ + decimal(port_or_zero(c.first) as nat)),
        remote_port: Some(port_or_zero(c.first)),
        process_name: "ssh -R"@,
        pid,
        container_id: None,
        container_name: None,
        ssh_host: host,
        is_open: false,
        is_loopback: false,
    }
}

/// The records of the captures whose local port is not 0.
pub open spec fn forward_records(
    cs: Seq<CaptureView>,
    reverse: bool,
    pid: Option<u32>,
    host: Option<Seq<char>>,
) -> Seq<EntryView>
    decreases cs.len(),
{
    if cs.len() == 0 {
        seq![]
    } else {
        let rest = forward_records(cs.drop_last(), reverse, pid, host);
        let e = if reverse {
            reverse_forward_record(cs.last(), pid, host)
        } else {
            local_forward_record(cs.last(), pid, host)
        };
        if e.local_port > 0 {
            rest.push(e)
        } else {
            rest
        }
    }
}

/// The line mentions `ssh` and a forward flag.
pub open spec fn is_forward_line(line: Seq<char>) -> bool {
    contains(line, "ssh"@) && (contains(line, "-L"@) || contains(line, "-R"@))
}

/// The records of one process-table line: its local forwards, then its reverse forwards.
/// The pid is the line's second word.
pub open spec fn ssh_line_records(line: Seq<char>) -> Seq<EntryView> {
    let ws = words(line);
    if !is_forward_line(line) || ws.len() < 2 {
        seq![]
    } else {
        let pid = match parse_num(ws[1], 0xffff_ffff) {
            Some(n) => Some(n as u32),
            None => None,
        };
        let host = ssh_host_of(line);
        forward_records(flag_matches(line, 'L'), false, pid, host) + forward_records(
            flag_matches(line, 'R'),
            true,
            pid,
            host,
        )
    }
}

/// The records of a process table, line by line.
pub open spec fn ssh_scan(ls: Seq<Seq<char>>) -> Seq<EntryView>
    decreases ls.len(),
{
    if ls.len() == 0 {
        seq![]
    } else {
        ssh_scan(ls.drop_last()) + ssh_line_records(ls.last())
    }
}

fn copy_opt_chars(o: &Option<Vec<char>>) -> (r: Option<String>)
    ensures
        match (o, r) {
            (Some(a), Some(b)) => b@ == a@,
            (None, None) => true,
            _ => false,
        },
{
    match o {
        Some(h) => Some(string_from(h)),
        None => None,
    }
}

/// Appends the records of one kind of forward flag.
fn push_forwards(
    out: &mut Vec<PortEntry>,
    cs: &Vec<Capture>,
    reverse: bool,
    pid: Option<u32>,
    host: &Option<Vec<char>>,
)
    ensures
        entry_views(final(out)@) == entry_views(old(out)@) + forward_records(
            capture_views(cs@),
            reverse,
            pid,
            match host {
                Some(h) => Some(h@),
                None => None,
            },
        ),
{
    let ghost hv = match host {
        Some(h) => Some(h@),
        None => None,
    };
    let ghost cv = capture_views(cs@);
    let ghost base = entry_views(out@);
    let mut i: usize = 0;
    while i < cs.len()
        invariant
            i <= cs@.len(),
            cv == capture_views(cs@),
            hv == match host {
                Some(h) => Some(h@),
                None => None::<Seq<char>>,
            },
            entry_views(out@) == base + forward_records(cv.take(i as int), reverse, pid, hv),
        decreases cs@.len() - i,
    {
        let c = &cs[i];
        assert(cv.take(i + 1).drop_last() =~= cv.take(i as int));
        assert(cv.take(i + 1).last() == c@);
        let e = if reverse {
            let remote = match parse_u16(&c.first) {
                Some(p) => p,
                None => 0,
            };
            let local = match parse_u16(&c.second) {
                Some(p) => p,
                None => 0,
            };
            let mut shown = concat(&chars_of("(R) "), &c.host);
            shown = concat(&shown, &chars_of(":"));
            shown = concat(&shown, &decimal_chars(remote as u32));
            PortEntry {
                source: PortSource::Ssh,
                local_port: local,
                remote_host: Some(string_from(&shown)),
                remote_port: Some(remote),
                process_name: String::from_str("ssh -R"),
                pid,
                container_id: None,
                container_name: None,
                ssh_host: copy_opt_chars(host),
                is_open: false,
                is_loopback: false,
            }
        } else {
            let local = match parse_u16(&c.first) {
                Some(p) => p,
                None => 0,
            };
            PortEntry {
                source: PortSource::Ssh,
                local_port: local,
                remote_host: Some(string_from(&c.host)),
                remote_port: parse_u16(&c.second),
                process_name: String::from_str("ssh"),
                pid,
                container_id: None,
                container_name: None,
                ssh_host: copy_opt_chars(host),
                is_open: false,
                is_loopback: false,
            }
        };
        assert(e@ == if reverse {
            reverse_forward_record(c@, pid, hv)
        } else {
            local_forward_record(c@, pid, hv)
        });
        if e.local_port > 0 {
            proof {
                lemma_entry_views_push(out@, e);
            }
            out.push(e);
        }
        i = i + 1;
    }
    assert(cv.take(i as int) =~= cv);
}

/// The SSH forwards of a process table (`ps aux` output).
pub fn parse_ssh_forwards(output: &str) -> (r: Vec<PortEntry>)
    ensures
        entry_views(r@) == ssh_scan(lines(output@)),
{
    let text = chars_of(output);
    let ls = split_lines(&text);
    let ghost lv = views(ls@);
    let ssh = chars_of("ssh");
    let flag_l = chars_of("-L");
    let flag_r = chars_of("-R");
    let mut out: Vec<PortEntry> = Vec::new();
    let mut k: usize = 0;
    while k < ls.len()
        invariant
            k <= ls@.len(),
            lv == views(ls@),
            lv == lines(output@),
            ssh@ == "ssh"@,
            flag_l@ == "-L"@,
            flag_r@ == "-R"@,
            entry_views(out@) == ssh_scan(lv.take(k as int)),
        decreases ls@.len() - k,
    {
        let line = &ls[k];
        assert(lv.take(k + 1).drop_last() =~= lv.take(k as int));
        assert(lv.take(k + 1).last() == line@);
        let ghost before = entry_views(out@);
        if contains_chars(line, &ssh) && (contains_chars(line, &flag_l) || contains_chars(
            line,
            &flag_r,
        )) {
            let parts = split_words(line);
            if parts.len() >= 2 {
                assert(views(parts@)[1] == parts@[1]@);
                let pid = parse_u32(&parts[1]);
                let host = ssh_host_in(line);
                let locals = flag_captures(line, 'L');
                let reverses = flag_captures(line, 'R');
                push_forwards(&mut out, &locals, false, pid, &host);
                push_forwards(&mut out, &reverses, true, pid, &host);
                assert(entry_views(out@) =~= before + ssh_line_records(line@));
            } else {
                assert(ssh_line_records(line@) =~= Seq::<EntryView>::empty());
                assert(entry_views(out@) =~= before + ssh_line_records(line@));
            }
        } else {
            assert(ssh_line_records(line@) =~= Seq::<EntryView>::empty());
            assert(entry_views(out@) =~= before + ssh_line_records(line@));
        }
        k = k + 1;
    }
    assert(lv.take(k as int) =~= lv);
    out
}

} // verus!
