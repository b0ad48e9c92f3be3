//! Text as sequences of characters: white space, lines and words, searching, decimal
//! numbers, and the few standard-library string operations relied on.

use vstd::prelude::*;

verus! {

// ---------------------------------------------------------------------------
// Characters
// ---------------------------------------------------------------------------

/// Unicode `White_Space`, the set that `str::trim` and `str::split_whitespace` use.
pub open spec fn is_ws(c: char) -> bool {
    let u = c as u32;
    u == 0x20 || (0x09 <= u && u <= 0x0d) || u == 0x85 || u == 0xa0 || u == 0x1680 || (0x2000
        <= u && u <= 0x200a) || u == 0x2028 || u == 0x2029 || u == 0x202f || u == 0x205f || u
        == 0x3000
}

pub open spec fn is_digit(c: char) -> bool {
    '0' <= c && c <= '9'
}

pub fn char_is_ws(c: char) -> (r: bool)
    ensures
        r == is_ws(c),
{
    let u = c as u32;
    u == 0x20 || (0x09 <= u && u <= 0x0d) || u == 0x85 || u == 0xa0 || u == 0x1680 || (0x2000
        <= u && u <= 0x200a) || u == 0x2028 || u == 0x2029 || u == 0x202f || u == 0x205f || u
        == 0x3000
}

pub fn char_is_digit(c: char) -> (r: bool)
    ensures
        r == is_digit(c),
{
    '0' <= c && c <= '9'
}

// ---------------------------------------------------------------------------
// Conversions between strings and character vectors
// ---------------------------------------------------------------------------

/// The characters of `s`, in order.
pub fn chars_of(s: &str) -> (r: Vec<char>)
    ensures
        r@ == s@,
{
    let mut out: Vec<char> = Vec::new();
    for c in it: s.chars()
        invariant
            it.seq() == s@,
            out@ == s@.take(it.index() as int),
    {
        out.push(c);
    }
    out
}

/// Relies on `String`'s `FromIterator<char>`: the string holds exactly these characters, in order.
#[verifier::external_body]
pub fn string_from(chars: &Vec<char>) -> (r: String)
    ensures
        r@ == chars@,
{
    chars.iter().collect()
}

/// What `str::to_lowercase` makes of a text; it depends on the characters alone.
pub uninterp spec fn lower_of(s: Seq<char>) -> Seq<char>;

/// Relies on `str::to_lowercase`: the lower-case form of the text, a function of its
/// characters; an empty text stays empty.
#[verifier::external_body]
pub fn lowercase(s: &str) -> (r: String)
    ensures
        r@ == lower_of(s@),
        s@.len() == 0 ==> r@.len() == 0,
{
    s.to_lowercase()
}

/// Relies on `String::push`: the character is appended.
#[verifier::external_body]
pub fn push_char(s: &mut String, c: char)
    ensures
        final(s)@ == old(s)@.push(c),
{
    s.push(c)
}

/// Relies on `String::pop`: the last character, if any, is removed and returned.
#[verifier::external_body]
pub fn pop_char(s: &mut String) -> (r: Option<char>)
    ensures
        old(s)@.len() == 0 ==> r.is_none() && final(s)@ == old(s)@,
        old(s)@.len() > 0 ==> r == Some(old(s)@.last()) && final(s)@ == old(s)@.drop_last(),
{
    s.pop()
}

/// The characters `v[lo..hi]` as a vector of their own.
pub fn slice_of(v: &Vec<char>, lo: usize, hi: usize) -> (r: Vec<char>)
    requires
        lo <= hi <= v@.len(),
    ensures
        r@ == v@.subrange(lo as int, hi as int),
{
    let mut out: Vec<char> = Vec::new();
    let mut i = lo;
    while i < hi
        invariant
            lo <= i <= hi <= v@.len(),
            out@ == v@.subrange(lo as int, i as int),
        decreases hi - i,
    {
        out.push(v[i]);
        i = i + 1;
    }
    out
}

/// `a` followed by `b`.
pub fn concat(a: &Vec<char>, b: &Vec<char>) -> (r: Vec<char>)
    ensures
        r@ == a@ + b@,
{
    let mut out = a.clone();
    let mut i: usize = 0;
    while i < b.len()
        invariant
            i <= b@.len(),
            out@ == a@ + b@.take(i as int),
        decreases b@.len() - i,
    {
        out.push(b[i]);
        i = i + 1;
    }
    out
}

pub fn eq_chars(a: &Vec<char>, b: &Vec<char>) -> (r: bool)
    ensures
        r == (a@ == b@),
{
    if a.len() != b.len() {
        return false;
    }
    let mut i: usize = 0;
    while i < a.len()
        invariant
            a@.len() == b@.len(),
            i <= a@.len(),
            a@.take(i as int) == b@.take(i as int),
        decreases a@.len() - i,
    {
        if a[i] != b[i] {
            assert(a@[i as int] != b@[i as int]);
            return false;
        }
        i = i + 1;
        assert(a@.take(i as int) =~= b@.take(i as int)) by {
            assert(a@.take(i as int) =~= a@.take(i - 1).push(a@[i - 1]));
            assert(b@.take(i as int) =~= b@.take(i - 1).push(b@[i - 1]));
        }
    }
    assert(a@ =~= a@.take(i as int));
    assert(b@ =~= b@.take(i as int));
    true
}

// ---------------------------------------------------------------------------
// Trimming
// ---------------------------------------------------------------------------

/// Number of white-space characters at the front of `s`.
pub open spec fn lead_ws(s: Seq<char>) -> nat
    decreases s.len(),
{
    if s.len() > 0 && is_ws(s[0]) {
        1 + lead_ws(s.drop_first())
    } else {
        0
    }
}

/// Number of white-space characters at the back of `s`.
pub open spec fn trail_ws(s: Seq<char>) -> nat
    decreases s.len(),
{
    if s.len() > 0 && is_ws(s.last()) {
        1 + trail_ws(s.drop_last())
    } else {
        0
    }
}

/// `s` without white space at either end.
pub open spec fn trim(s: Seq<char>) -> Seq<char> {
    let t = s.skip(lead_ws(s) as int);
    t.take(t.len() - trail_ws(t))
}

/// True when `s` holds nothing but white space.
pub open spec fn is_blank(s: Seq<char>) -> bool {
    forall|i: int| 0 <= i < s.len() ==> is_ws(#[trigger] s[i])
}

proof fn lemma_lead_ws(s: Seq<char>)
    ensures
        lead_ws(s) <= s.len(),
        forall|i: int| 0 <= i < lead_ws(s) ==> is_ws(#[trigger] s[i]),
        lead_ws(s) < s.len() ==> !is_ws(s[lead_ws(s) as int]),
    decreases s.len(),
{
    if s.len() > 0 && is_ws(s[0]) {
        lemma_lead_ws(s.drop_first());
        assert forall|i: int| 0 <= i < lead_ws(s) implies is_ws(#[trigger] s[i]) by {
            if i > 0 {
                assert(s[i] == s.drop_first()[i - 1]);
            }
        }
    }
}

proof fn lemma_trail_ws(s: Seq<char>)
    ensures
        trail_ws(s) <= s.len(),
        forall|i: int| s.len() - trail_ws(s) <= i < s.len() ==> is_ws(#[trigger] s[i]),
        trail_ws(s) < s.len() ==> !is_ws(s[s.len() - trail_ws(s) - 1]),
    decreases s.len(),
{
    if s.len() > 0 && is_ws(s.last()) {
        lemma_trail_ws(s.drop_last());
        assert forall|i: int| s.len() - trail_ws(s) <= i < s.len() implies is_ws(
            #[trigger] s[i],
        ) by {
            if i < s.len() - 1 {
                assert(s[i] == s.drop_last()[i]);
            }
        }
    }
}

/// The trimmed text is empty exactly when the text is blank.
pub proof fn lemma_trim_empty(s: Seq<char>)
    ensures
        (trim(s).len() == 0) == is_blank(s),
{
    lemma_lead_ws(s);
    let t = s.skip(lead_ws(s) as int);
    lemma_trail_ws(t);
    if lead_ws(s) < s.len() {
        assert(!is_ws(s[lead_ws(s) as int]));
        assert(t[0] == s[lead_ws(s) as int]);
        if trail_ws(t) == t.len() {
            assert(is_ws(t[0]));
        }
        assert(trim(s).len() > 0);
    }
}

/// `s` without white space at either end (`str::trim`).
pub fn trim_chars(s: &Vec<char>) -> (r: Vec<char>)
    ensures
        r@ == trim(s@),
{
    let mut lo: usize = 0;
    assert(s@.skip(0) =~= s@);
    while lo < s.len() && char_is_ws(s[lo])
        invariant
            lo <= s@.len(),
            lead_ws(s@) == lo + lead_ws(s@.skip(lo as int)),
        decreases s@.len() - lo,
    {
        assert(s@.skip(lo as int).drop_first() =~= s@.skip(lo + 1));
        lo = lo + 1;
    }
    assert(lead_ws(s@.skip(lo as int)) == 0);
    let ghost t = s@.skip(lo as int);
    let mut hi: usize = s.len();
    assert(t.take(hi - lo) =~= t);
    while hi > lo && char_is_ws(s[hi - 1])
        invariant
            lo <= hi <= s@.len(),
            t == s@.skip(lo as int),
            trail_ws(t) == (s@.len() - hi) + trail_ws(t.take(hi - lo)),
        decreases hi,
    {
        assert(t.take(hi - lo).drop_last() =~= t.take(hi - 1 - lo));
        hi = hi - 1;
    }
    assert(trail_ws(t.take(hi - lo)) == 0);
    assert(t.take(t.len() - trail_ws(t)) =~= s@.subrange(lo as int, hi as int));
    slice_of(s, lo, hi)
}

/// True when `s` holds nothing but white space (its trimmed form is empty).
pub fn blank(s: &Vec<char>) -> (r: bool)
    ensures
        r == is_blank(s@),
        r == (trim(s@).len() == 0),
{
    proof {
        lemma_trim_empty(s@);
    }
    let mut i: usize = 0;
    while i < s.len()
        invariant
            i <= s@.len(),
            forall|j: int| 0 <= j < i ==> is_ws(#[trigger] s@[j]),
            (trim(s@).len() == 0) == is_blank(s@),
        decreases s@.len() - i,
    {
        if !char_is_ws(s[i]) {
            assert(!is_ws(s@[i as int]));
            return false;
        }
        i = i + 1;
    }
    true
}

// ---------------------------------------------------------------------------
// Lines and white-space separated words
// ---------------------------------------------------------------------------

/// `s` without one trailing carriage return.
pub open spec fn strip_cr(s: Seq<char>) -> Seq<char> {
    if s.len() > 0 && s.last() == '\r' {
        s.drop_last()
    } else {
        s
    }
}

/// The lines of `s[start..]` as `str::lines` gives them, where the current line began at
/// `start` and the scan has reached `i`.
pub open spec fn lines_from(s: Seq<char>, start: int, i: int) -> Seq<Seq<char>>
    decreases s.len() - i,
{
    if i >= s.len() {
        if start < s.len() {
            seq![s.subrange(start, s.len() as int)]
        } else {
            seq![]
        }
    } else if s[i] == '\n' {
        seq![strip_cr(s.subrange(start, i))] + lines_from(s, i + 1, i + 1)
    } else {
        lines_from(s, start, i + 1)
    }
}

/// The lines of `s`: split at `\n`, one `\r` before it dropped, no empty line after a final `\n`.
pub open spec fn lines(s: Seq<char>) -> Seq<Seq<char>> {
    lines_from(s, 0, 0)
}

/// The white-space separated words of `s[start..]`, where the current word began at `start`
/// and the scan has reached `i`.
pub open spec fn words_from(s: Seq<char>, start: int, i: int) -> Seq<Seq<char>>
    decreases s.len() - i,
{
    if i >= s.len() {
        if start < s.len() {
            seq![s.subrange(start, s.len() as int)]
        } else {
            seq![]
        }
    } else if is_ws(s[i]) {
        if start < i {
            seq![s.subrange(start, i)] + words_from(s, i + 1, i + 1)
        } else {
            words_from(s, i + 1, i + 1)
        }
    } else {
        words_from(s, start, i + 1)
    }
}

/// The words of `s` as `str::split_whitespace` gives them.
pub open spec fn words(s: Seq<char>) -> Seq<Seq<char>> {
    words_from(s, 0, 0)
}

/// The views of a vector of character vectors.
pub open spec fn views(v: Seq<Vec<char>>) -> Seq<Seq<char>> {
    v.map_values(|w: Vec<char>| w@)
}

proof fn lemma_views_push(v: Seq<Vec<char>>, w: Vec<char>)
    ensures
        views(v.push(w)) == views(v).push(w@),
{
    assert(views(v.push(w)) =~= views(v).push(w@));
}

/// The lines of `s`.
pub fn split_lines(s: &Vec<char>) -> (r: Vec<Vec<char>>)
    ensures
        views(r@) == lines(s@),
{
    let mut out: Vec<Vec<char>> = Vec::new();
    let mut start: usize = 0;
    let mut i: usize = 0;
    while i < s.len()
        invariant
            start <= i <= s@.len(),
            views(out@) + lines_from(s@, start as int, i as int) == lines(s@),
        decreases s@.len() - i,
    {
        if s[i] == '\n' {
            let mut line = slice_of(s, start, i);
            if line.len() > 0 && line[line.len() - 1] == '\r' {
                line.pop();
            }
            assert(line@ == strip_cr(s@.subrange(start as int, i as int))) by {
                let raw = s@.subrange(start as int, i as int);
                if raw.len() > 0 && raw.last() == '\r' {
                    assert(line@ =~= raw.drop_last());
                }
            }
            proof {
                lemma_views_push(out@, line);
                assert(views(out@.push(line)) + lines_from(s@, i + 1, i + 1) =~= views(out@)
                    + lines_from(s@, start as int, i as int));
            }
            out.push(line);
            start = i + 1;
        }
        i = i + 1;
    }
    if start < s.len() {
        let line = slice_of(s, start, s.len());
        proof {
            lemma_views_push(out@, line);
            assert(views(out@.push(line)) =~= views(out@) + lines_from(
                s@,
                start as int,
                i as int,
            ));
        }
        out.push(line);
    } else {
        assert(views(out@) =~= views(out@) + lines_from(s@, start as int, i as int));
    }
    out
}

/// The white-space separated words of `s`.
pub fn split_words(s: &Vec<char>) -> (r: Vec<Vec<char>>)
    ensures
        views(r@) == words(s@),
{
    let mut out: Vec<Vec<char>> = Vec::new();
    let mut start: usize = 0;
    let mut i: usize = 0;
    while i < s.len()
        invariant
            start <= i <= s@.len(),
            views(out@) + words_from(s@, start as int, i as int) == words(s@),
        decreases s@.len() - i,
    {
        if char_is_ws(s[i]) {
            if start < i {
                let w = slice_of(s, start, i);
                proof {
                    lemma_views_push(out@, w);
                    assert(views(out@.push(w)) + words_from(s@, i + 1, i + 1) =~= views(out@)
                        + words_from(s@, start as int, i as int));
                }
                out.push(w);
            }
            start = i + 1;
        }
        i = i + 1;
    }
    if start < s.len() {
        let w = slice_of(s, start, s.len());
        proof {
            lemma_views_push(out@, w);
            assert(views(out@.push(w)) =~= views(out@) + words_from(
                s@,
                start as int,
                i as int,
            ));
        }
        out.push(w);
    } else {
        assert(views(out@) =~= views(out@) + words_from(s@, start as int, i as int));
    }
    out
}

/// The pieces of `s[start..]` between separators `c`, where the current piece began at `start`
/// and the scan has reached `i`.
pub open spec fn pieces_from(s: Seq<char>, c: char, start: int, i: int) -> Seq<Seq<char>>
    decreases s.len() - i,
{
    if i >= s.len() {
        seq![s.subrange(start, s.len() as int)]
    } else if s[i] == c {
        seq![s.subrange(start, i)] + pieces_from(s, c, i + 1, i + 1)
    } else {
        pieces_from(s, c, start, i + 1)
    }
}

/// The pieces of `s` between separators `c`, as `str::split(c)` gives them.
pub open spec fn pieces(s: Seq<char>, c: char) -> Seq<Seq<char>> {
    pieces_from(s, c, 0, 0)
}

/// The pieces of `s` between separators `c`.
pub fn split_on(s: &Vec<char>, c: char) -> (r: Vec<Vec<char>>)
    ensures
        views(r@) == pieces(s@, c),
{
    let mut out: Vec<Vec<char>> = Vec::new();
    let mut start: usize = 0;
    let mut i: usize = 0;
    while i < s.len()
        invariant
            start <= i <= s@.len(),
            views(out@) + pieces_from(s@, c, start as int, i as int) == pieces(s@, c),
        decreases s@.len() - i,
    {
        if s[i] == c {
            let w = slice_of(s, start, i);
            proof {
                lemma_views_push(out@, w);
                assert(views(out@.push(w)) + pieces_from(s@, c, i + 1, i + 1) =~= views(out@)
                    + pieces_from(s@, c, start as int, i as int));
            }
            out.push(w);
            start = i + 1;
        }
        i = i + 1;
    }
    let w = slice_of(s, start, s.len());
    proof {
        lemma_views_push(out@, w);
        assert(views(out@.push(w)) =~= views(out@) + pieces_from(s@, c, start as int, i as int));
    }
    out.push(w);
    out
}

/// The words joined with single spaces.
pub open spec fn join_spaced(ws: Seq<Seq<char>>) -> Seq<char>
    decreases ws.len(),
{
    if ws.len() == 0 {
        Seq::empty()
    } else if ws.len() == 1 {
        ws[0]
    } else {
        join_spaced(ws.drop_last()) + " "@ + ws.last()
    }
}

/// The words `ws[from..]` joined with single spaces.
pub fn join_from(ws: &Vec<Vec<char>>, from: usize) -> (r: Vec<char>)
    requires
        from <= ws@.len(),
    ensures
        r@ == join_spaced(views(ws@).skip(from as int)),
{
    let ghost wv = views(ws@).skip(from as int);
    let space = chars_of(" ");
    let mut out: Vec<char> = Vec::new();
    let mut i = from;
    assert(wv.take(0) =~= Seq::<Seq<char>>::empty());
    while i < ws.len()
        invariant
            from <= i <= ws@.len(),
            wv == views(ws@).skip(from as int),
            space@ == " "@,
            out@ == join_spaced(wv.take(i - from)),
        decreases ws@.len() - i,
    {
        assert(wv.take(i + 1 - from).drop_last() =~= wv.take(i - from));
        assert(wv.take(i + 1 - from).last() == ws@[i as int]@);
        if i > from {
            out = concat(&out, &space);
        }
        out = concat(&out, &ws[i]);
        proof {
            if i == from {
                assert(out@ =~= join_spaced(wv.take(i + 1 - from)));
            }
        }
        i = i + 1;
    }
    assert(wv.take(i - from) =~= wv);
    out
}

// ---------------------------------------------------------------------------
// Searching
// ---------------------------------------------------------------------------

/// `q` occurs in `s` at position `i`.
pub open spec fn occurs_at(s: Seq<char>, q: Seq<char>, i: int) -> bool {
    0 <= i && i + q.len() <= s.len() && s.subrange(i, i + q.len()) == q
}

/// `q` occurs somewhere in `s`.
pub open spec fn contains(s: Seq<char>, q: Seq<char>) -> bool {
    exists|i: int| occurs_at(s, q, i)
}

/// Position of the first occurrence of `q` in `s`, if any.
#[verifier::opaque]
pub open spec fn first_occurrence(s: Seq<char>, q: Seq<char>) -> Option<int> {
    if contains(s, q) {
        Some(choose|i: int| occurs_at(s, q, i) && forall|j: int| 0 <= j < i ==> !occurs_at(s, q, j))
    } else {
        None
    }
}

/// Does `q` occur in `s` at `i`?
pub fn matches_at(s: &Vec<char>, q: &Vec<char>, i: usize) -> (r: bool)
    ensures
        r == occurs_at(s@, q@, i as int),
{
    if i > s.len() || q.len() > s.len() - i {
        return false;
    }
    let n = s.len();
    let mut k: usize = 0;
    while k < q.len()
        invariant
            n == s@.len(),
            i + q@.len() <= s@.len(),
            k <= q@.len(),
            forall|j: int| 0 <= j < k ==> s@[i + j] == q@[j],
        decreases q@.len() - k,
    {
        assert(i + k < n);
        if s[i + k] != q[k] {
            assert(s@.subrange(i as int, i + q@.len())[k as int] != q@[k as int]);
            return false;
        }
        k = k + 1;
    }
    assert(s@.subrange(i as int, i + q@.len()) =~= q@);
    true
}

/// Position of the first occurrence of `q` in `s` at or after `from`.
pub fn find_from(s: &Vec<char>, q: &Vec<char>, from: usize) -> (r: Option<usize>)
    ensures
        match r {
            Some(i) => from <= i && occurs_at(s@, q@, i as int) && forall|j: int|
                from <= j < i ==> !occurs_at(s@, q@, j),
            None => forall|j: int| from <= j ==> !occurs_at(s@, q@, j),
        },
{
    let mut i = from;
    while i <= s.len()
        invariant
            from <= i,
            forall|j: int| from <= j < i ==> !occurs_at(s@, q@, j),
        decreases s@.len() + 1 - i,
    {
        if matches_at(s, q, i) {
            return Some(i);
        }
        if i == s.len() {
            assert forall|j: int| from <= j implies !occurs_at(s@, q@, j) by {
                if j > i {
                    assert(!occurs_at(s@, q@, j));
                }
            }
            return None;
        }
        i = i + 1;
    }
    None
}

proof fn lemma_first_occurrence(s: Seq<char>, q: Seq<char>, i: int)
    requires
        occurs_at(s, q, i),
        forall|j: int| 0 <= j < i ==> !occurs_at(s, q, j),
    ensures
        first_occurrence(s, q) == Some(i),
{
    reveal(first_occurrence);
    let k = choose|k: int| occurs_at(s, q, k) && forall|j: int| 0 <= j < k ==> !occurs_at(s, q, j);
    assert(occurs_at(s, q, k) && forall|j: int| 0 <= j < k ==> !occurs_at(s, q, j));
    if k < i {
        assert(!occurs_at(s, q, k));
    }
    if i < k {
        assert(!occurs_at(s, q, i));
    }
}

/// Position of the first occurrence of `q` in `s`.
pub fn find(s: &Vec<char>, q: &Vec<char>) -> (r: Option<usize>)
    ensures
        match r {
            Some(i) => first_occurrence(s@, q@) == Some(i as int) && occurs_at(s@, q@, i as int),
            None => first_occurrence(s@, q@).is_none(),
        },
        r.is_some() == contains(s@, q@),
{
    let r = find_from(s, q, 0);
    match r {
        Some(i) => {
            proof {
                lemma_first_occurrence(s@, q@, i as int);
            }
        },
        None => {
            proof {
                reveal(first_occurrence);
            }
        },
    }
    r
}

/// Does `q` occur in `s`?
pub fn contains_chars(s: &Vec<char>, q: &Vec<char>) -> (r: bool)
    ensures
        r == contains(s@, q@),
{
    find(s, q).is_some()
}

/// Does `s` hold the character `c`?
pub fn has_char(s: &Vec<char>, c: char) -> (r: bool)
    ensures
        r == s@.contains(c),
{
    let mut i: usize = 0;
    while i < s.len()
        invariant
            i <= s@.len(),
            forall|j: int| 0 <= j < i ==> s@[j] != c,
        decreases s@.len() - i,
    {
        if s[i] == c {
            return true;
        }
        i = i + 1;
    }
    false
}

/// Does `s` start with `p`?
pub fn starts_with(s: &Vec<char>, p: &Vec<char>) -> (r: bool)
    ensures
        r == (p@.len() <= s@.len() && s@.take(p@.len() as int) == p@),
{
    let r = matches_at(s, p, 0);
    proof {
        if p@.len() <= s@.len() {
            assert(s@.subrange(0, p@.len() as int) =~= s@.take(p@.len() as int));
        }
    }
    r
}

/// Index of the last `c` in `s`, or -1.
pub open spec fn last_pos(s: Seq<char>, c: char) -> int
    decreases s.len(),
{
    if s.len() == 0 {
        -1
    } else if s.last() == c {
        s.len() - 1
    } else {
        last_pos(s.drop_last(), c)
    }
}

proof fn lemma_last_pos_bounds(s: Seq<char>, c: char)
    ensures
        -1 <= last_pos(s, c) < s.len(),
        last_pos(s, c) >= 0 ==> s[last_pos(s, c)] == c,
    decreases s.len(),
{
    if s.len() > 0 && s.last() != c {
        lemma_last_pos_bounds(s.drop_last(), c);
    }
}

/// Where the last `c` in `s` stands, if it holds one.
pub fn rfind_char(s: &Vec<char>, c: char) -> (r: Option<usize>)
    ensures
        match r {
            Some(k) => last_pos(s@, c) == k as int,
            None => last_pos(s@, c) == -1,
        },
        -1 <= last_pos(s@, c) < s@.len(),
{
    proof {
        lemma_last_pos_bounds(s@, c);
    }
    let mut j = s.len();
    assert(s@.take(j as int) =~= s@);
    while j > 0 && s[j - 1] != c
        invariant
            j <= s@.len(),
            last_pos(s@, c) == last_pos(s@.take(j as int), c),
        decreases j,
    {
        assert(s@.take(j as int).drop_last() =~= s@.take(j - 1));
        j = j - 1;
    }
    if j == 0 {
        None
    } else {
        Some(j - 1)
    }
}

/// The part of `s` after its last `c`; all of `s` when it holds none (what `rsplit(c)` yields
/// first).
pub open spec fn after_last(s: Seq<char>, c: char) -> Seq<char> {
    s.skip(last_pos(s, c) + 1)
}

/// The part of `s` before its last `c`; nothing when it holds none.
pub open spec fn before_last(s: Seq<char>, c: char) -> Seq<char> {
    if last_pos(s, c) >= 0 {
        s.take(last_pos(s, c))
    } else {
        Seq::empty()
    }
}

/// The part of `s` after its last `c`.
pub fn after_last_char(s: &Vec<char>, c: char) -> (r: Vec<char>)
    ensures
        r@ == after_last(s@, c),
{
    let n = s.len();
    let start = match rfind_char(s, c) {
        Some(k) => {
            assert(k < n);
            k + 1
        },
        None => 0,
    };
    assert(s@.subrange(start as int, s@.len() as int) =~= after_last(s@, c));
    slice_of(s, start, s.len())
}

/// The part of `s` before its last `c`.
pub fn before_last_char(s: &Vec<char>, c: char) -> (r: Vec<char>)
    ensures
        r@ == before_last(s@, c),
{
    match rfind_char(s, c) {
        Some(k) => {
            assert(s@.subrange(0, k as int) =~= before_last(s@, c));
            slice_of(s, 0, k)
        },
        None => Vec::new(),
    }
}

// ---------------------------------------------------------------------------
// Decimal numbers
// ---------------------------------------------------------------------------

/// The value of a string of decimal digits.
pub open spec fn decimal_value(s: Seq<char>) -> nat
    decreases s.len(),
{
    if s.len() == 0 {
        0
    } else {
        decimal_value(s.drop_last()) * 10 + (s.last() as nat - '0' as nat) as nat
    }
}

pub open spec fn all_digits(s: Seq<char>) -> bool {
    forall|i: int| 0 <= i < s.len() ==> is_digit(#[trigger] s[i])
}

/// `s` without one leading `+`.
pub open spec fn unsigned_part(s: Seq<char>) -> Seq<char> {
    if s.len() > 0 && s[0] == '+' {
        s.drop_first()
    } else {
        s
    }
}

/// The number that `s` denotes as an unsigned integer no larger than `max`, as the standard
/// library's `from_str` for unsigned integers reads it: an optional `+`, then one or more
/// decimal digits.
pub open spec fn parse_num(s: Seq<char>, max: nat) -> Option<nat> {
    let d = unsigned_part(s);
    if d.len() > 0 && all_digits(d) && decimal_value(d) <= max {
        Some(decimal_value(d))
    } else {
        None
    }
}

proof fn lemma_decimal_monotone(s: Seq<char>, i: int)
    requires
        0 <= i <= s.len(),
        all_digits(s),
    ensures
        decimal_value(s.take(i)) <= decimal_value(s),
    decreases s.len() - i,
{
    if i < s.len() {
        lemma_decimal_monotone(s, i + 1);
        assert(s.take(i + 1).drop_last() =~= s.take(i));
        assert(is_digit(s[i]));
        assert(s.take(i + 1).last() == s[i]);
        assert(decimal_value(s.take(i + 1)) >= decimal_value(s.take(i)));
    } else {
        assert(s.take(i) =~= s);
    }
}

/// The number `s` denotes, when it is at most `max`.
pub fn parse_bounded(s: &Vec<char>, max: u32) -> (r: Option<u32>)
    ensures
        match r {
            Some(n) => parse_num(s@, max as nat) == Some(n as nat),
            None => parse_num(s@, max as nat).is_none(),
        },
{
    let ghost d = unsigned_part(s@);
    let mut i: usize = 0;
    if s.len() > 0 && s[0] == '+' {
        i = 1;
    }
    let start = i;
    assert(d =~= s@.skip(start as int));
    if start == s.len() {
        return None;
    }
    let mut acc: u64 = 0;
    while i < s.len()
        invariant
            start <= i <= s@.len(),
            d == s@.skip(start as int),
            d == unsigned_part(s@),
            acc <= max,
            all_digits(d.take(i - start)),
            acc == decimal_value(d.take(i - start)),
        decreases s@.len() - i,
    {
        let c = s[i];
        if !char_is_digit(c) {
            assert(d[i - start] == c);
            assert(!is_digit(d[i - start]));
            assert(!all_digits(d));
            return None;
        }
        let v = (c as u32 - '0' as u32) as u64;
        assert(d.take(i + 1 - start).drop_last() =~= d.take(i - start));
        assert(all_digits(d.take(i + 1 - start))) by {
            assert forall|k: int| 0 <= k < i + 1 - start implies is_digit(
                #[trigger] d.take(i + 1 - start)[k],
            ) by {
                if k < i - start {
                    assert(d.take(i + 1 - start)[k] == d.take(i - start)[k]);
                }
            }
        }
        assert(d.take(i + 1 - start).last() == c);
        assert(decimal_value(d.take(i + 1 - start)) == acc * 10 + v);
        acc = acc * 10 + v;
        i = i + 1;
        if acc > max as u64 {
            proof {
                if all_digits(d) {
                    lemma_decimal_monotone(d, i - start);
                }
                assert(d =~= d.take(d.len() as int));
            }
            return None;
        }
    }
    assert(d.take(i - start) =~= d);
    Some(acc as u32)
}

/// The port number that `s` denotes, as `str::parse::<u16>` reads it.
pub fn parse_u16(s: &Vec<char>) -> (r: Option<u16>)
    ensures
        match r {
            Some(n) => parse_num(s@, 65535) == Some(n as nat),
            None => parse_num(s@, 65535).is_none(),
        },
{
    match parse_bounded(s, 65535) {
        Some(n) => Some(n as u16),
        None => None,
    }
}

/// The process id that `s` denotes, as `str::parse::<u32>` reads it.
pub fn parse_u32(s: &Vec<char>) -> (r: Option<u32>)
    ensures
        match r {
            Some(n) => parse_num(s@, 0xffff_ffff) == Some(n as nat),
            None => parse_num(s@, 0xffff_ffff).is_none(),
        },
{
    parse_bounded(s, 0xffff_ffff)
}

pub open spec fn digit_char(d: nat) -> char {
    ((d % 10) + '0' as nat) as char
}

/// The decimal digits of `n`, without leading zeros.
pub open spec fn decimal(n: nat) -> Seq<char>
    decreases n,
{
    if n < 10 {
        seq![digit_char(n)]
    } else {
        decimal(n / 10).push(digit_char(n % 10))
    }
}

/// Appends the decimal digits of `n` to `out`.
pub fn push_decimal(out: &mut Vec<char>, n: u32)
    ensures
        final(out)@ == old(out)@ + decimal(n as nat),
    decreases n,
{
    if n >= 10 {
        push_decimal(out, n / 10);
    }
    let d = (n % 10) as u8;
    let c = (d + 48) as char;
    proof {
        assert(digit_char(n as nat % 10) == c);
    }
    out.push(c);
    proof {
        if n >= 10 {
            assert(old(out)@ + decimal(n as nat) =~= old(out)@ + decimal(n as nat / 10) + seq![c]);
        }
    }
}

/// The decimal digits of `n`.
pub fn decimal_chars(n: u32) -> (r: Vec<char>)
    ensures
        r@ == decimal(n as nat),
{
    let mut out: Vec<char> = Vec::new();
    push_decimal(&mut out, n);
    assert(out@ =~= decimal(n as nat));
    out
}

} // verus!
