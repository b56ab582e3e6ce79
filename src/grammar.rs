//! The line grammar of a PATH assignment: which lines assign PATH, and the
//! value that an assignment gives it.
//!
//! Matching is by line, not by a shell parser: an assignment split over
//! several lines, or built some other way, is not seen.

use vstd::prelude::*;

verus! {

/// The characters that `char::is_whitespace` accepts (Unicode `White_Space`).
pub open spec fn is_ws(c: char) -> bool {
    ('\u{9}' <= c && c <= '\u{d}') || c == ' ' || c == '\u{85}' || c == '\u{a0}'
        || c == '\u{1680}' || ('\u{2000}' <= c && c <= '\u{200a}') || c == '\u{2028}'
        || c == '\u{2029}' || c == '\u{202f}' || c == '\u{205f}' || c == '\u{3000}'
}

fn is_whitespace(c: char) -> (r: bool)
    ensures
        r == is_ws(c),
{
    ('\u{9}' <= c && c <= '\u{d}') || c == ' ' || c == '\u{85}' || c == '\u{a0}'
        || c == '\u{1680}' || ('\u{2000}' <= c && c <= '\u{200a}') || c == '\u{2028}'
        || c == '\u{2029}' || c == '\u{202f}' || c == '\u{205f}' || c == '\u{3000}'
}

/// Index of the first character of `l` that is not whitespace at or after `i`.
pub open spec fn skip_ws(l: Seq<char>, i: int) -> int
    decreases l.len() - i,
{
    if i >= l.len() || !is_ws(l[i]) {
        i
    } else {
        skip_ws(l, i + 1)
    }
}

/// One past the last character of `l` before `j` that is not whitespace.
pub open spec fn skip_ws_back(l: Seq<char>, j: int) -> int
    decreases j,
{
    if j <= 0 || !is_ws(l[j - 1]) {
        j
    } else {
        skip_ws_back(l, j - 1)
    }
}

/// `l` without leading and trailing whitespace, as `str::trim` gives it.
pub open spec fn trim(l: Seq<char>) -> Seq<char> {
    let a = skip_ws(l, 0);
    let b = skip_ws_back(l, l.len() as int);
    if a < b {
        l.subrange(a, b)
    } else {
        seq![]
    }
}

pub open spec fn path_key() -> Seq<char> {
    seq!['P', 'A', 'T', 'H', '=']
}

/// `PATH=` stands in `l` at index `p`.
pub open spec fn key_at(l: Seq<char>, p: int) -> bool {
    0 <= p && p + 5 <= l.len() && l.subrange(p, p + 5) == path_key()
}

/// The line assigns PATH: `PATH=` stands in it, alone or after a keyword
/// such as `export` or `typeset -x`.
pub open spec fn is_path_assignment(l: Seq<char>) -> bool {
    exists|p: int| key_at(l, p)
}

pub open spec fn is_quote(c: char) -> bool {
    c == '"' || c == '\''
}

/// The end of the run of characters other than quotes that starts at `i`.
pub open spec fn run_end(l: Seq<char>, i: int) -> int
    decreases l.len() - i,
{
    if i >= l.len() || is_quote(l[i]) {
        i
    } else {
        run_end(l, i + 1)
    }
}

/// Where the value after `PATH=` at `p` starts: past one opening quote, if any.
pub open spec fn value_start(l: Seq<char>, p: int) -> int {
    if p + 5 < l.len() && is_quote(l[p + 5]) {
        p + 6
    } else {
        p + 5
    }
}

/// The value assigned by the `PATH=` at `p`: the characters up to the next
/// quote or the end of the line.
pub open spec fn value_at(l: Seq<char>, p: int) -> Seq<char> {
    l.subrange(value_start(l, p), run_end(l, value_start(l, p)))
}

/// An assignment with a value that is not empty stands at `p`.
pub open spec fn valued_at(l: Seq<char>, p: int) -> bool {
    key_at(l, p) && value_at(l, p).len() > 0
}

/// `w` stands in `t` at index `i`.
pub open spec fn word_at(t: Seq<char>, i: int, w: Seq<char>) -> bool {
    0 <= i && i + w.len() <= t.len() && t.subrange(i, i + w.len()) == w
}

/// Whitespace stands at index `i` of `t`.
pub open spec fn ws_at(t: Seq<char>, i: int) -> bool {
    0 <= i < t.len() && is_ws(t[i])
}

/// Where `PATH=` must stand in the trimmed line `t` for it to be a PATH
/// assignment statement: at the start (`PATH=`), after `export` and
/// whitespace, or, in the Korn shell, after `typeset`, whitespace, `-x` and
/// whitespace.
pub open spec fn key_position(t: Seq<char>, ksh: bool) -> Option<int> {
    let x = skip_ws(t, 7);
    if key_at(t, 0) {
        Some(0)
    } else if word_at(t, 0, seq!['e', 'x', 'p', 'o', 'r', 't']) && ws_at(t, 6) {
        Some(skip_ws(t, 6))
    } else if ksh && word_at(t, 0, seq!['t', 'y', 'p', 'e', 's', 'e', 't']) && ws_at(t, 7) && word_at(
        t,
        x,
        seq!['-', 'x'],
    ) && ws_at(t, x + 2) {
        Some(skip_ws(t, x + 2))
    } else {
        None
    }
}

/// The value that a line assigns to PATH, read from the trimmed line, or
/// `None` where it is no PATH assignment statement or assigns no value.
/// `ksh` admits the Korn shell's `typeset -x`.
pub open spec fn assigned_value(line: Seq<char>, ksh: bool) -> Option<Seq<char>> {
    let t = trim(line);
    match key_position(t, ksh) {
        Some(p) => if valued_at(t, p) {
            Some(value_at(t, p))
        } else {
            None
        },
        None => None,
    }
}

/// Scans `v` from the left, splitting at each `:`: the finished pieces and
/// the open one.
pub open spec fn scan_colon(v: Seq<char>) -> (Seq<Seq<char>>, Seq<char>)
    decreases v.len(),
{
    if v.len() == 0 {
        (seq![], seq![])
    } else {
        let (done, cur) = scan_colon(v.drop_last());
        if v.last() == ':' {
            (done.push(cur), seq![])
        } else {
            (done, cur.push(v.last()))
        }
    }
}

/// The pieces of `v` between the `:` separators, as `str::split(':')` gives
/// them (one more than there are separators).
pub open spec fn split_colon(v: Seq<char>) -> Seq<Seq<char>> {
    let (done, cur) = scan_colon(v);
    done.push(cur)
}

/// Trims `l`.
pub fn trim_line(l: &Vec<char>) -> (r: Vec<char>)
    ensures
        r@ == trim(l@),
{
    let mut a: usize = 0;
    while a < l.len() && is_whitespace(l[a])
        invariant
            a <= l.len(),
            skip_ws(l@, 0) == skip_ws(l@, a as int),
        decreases l.len() - a,
    {
        a = a + 1;
    }
    let mut b: usize = l.len();
    while b > 0 && is_whitespace(l[b - 1])
        invariant
            b <= l.len(),
            skip_ws_back(l@, l.len() as int) == skip_ws_back(l@, b as int),
        decreases b,
    {
        b = b - 1;
    }
    let mut r: Vec<char> = Vec::new();
    if a < b {
        let mut i: usize = a;
        while i < b
            invariant
                a <= i <= b <= l.len(),
                r@ == l@.subrange(a as int, i as int),
            decreases b - i,
        {
            r.push(l[i]);
            proof {
                assert(l@.subrange(a as int, i as int + 1) == l@.subrange(a as int, i as int).push(
                    l@[i as int],
                ));
            }
            i = i + 1;
        }
    }
    proof {
        if !(a < b) {
            assert(r@ == Seq::<char>::empty());
        }
    }
    r
}

fn key_at_exec(l: &Vec<char>, p: usize) -> (r: bool)
    ensures
        r == key_at(l@, p as int),
{
    if p <= l.len() && 5 <= l.len() - p {
        let r = l[p] == 'P' && l[p + 1] == 'A' && l[p + 2] == 'T' && l[p + 3] == 'H' && l[p + 4]
            == '=';
        proof {
            if r {
                assert(l@.subrange(p as int, p + 5) =~= path_key());
            }
            if l@.subrange(p as int, p + 5) == path_key() {
                assert(l@.subrange(p as int, p + 5)[0] == l@[p as int]);
                assert(l@.subrange(p as int, p + 5)[1] == l@[p + 1]);
                assert(l@.subrange(p as int, p + 5)[2] == l@[p + 2]);
                assert(l@.subrange(p as int, p + 5)[3] == l@[p + 3]);
                assert(l@.subrange(p as int, p + 5)[4] == l@[p + 4]);
            }
        }
        r
    } else {
        false
    }
}

/// Whether the line assigns PATH.
pub fn assigns_path(l: &Vec<char>) -> (r: bool)
    ensures
        r == is_path_assignment(l@),
{
    let mut p: usize = 0;
    while p < l.len()
        invariant
            p <= l.len(),
            forall|q: int| 0 <= q < p ==> !key_at(l@, q),
        decreases l.len() - p,
    {
        if key_at_exec(l, p) {
            return true;
        }
        p = p + 1;
    }
    assert(forall|q: int| p <= q ==> !key_at(l@, q));
    false
}

fn skip_ws_exec(t: &Vec<char>, i: usize) -> (r: usize)
    requires
        i <= t@.len(),
    ensures
        r as int == skip_ws(t@, i as int),
        i <= r <= t@.len(),
{
    let mut j: usize = i;
    while j < t.len() && is_whitespace(t[j])
        invariant
            i <= j <= t.len(),
            skip_ws(t@, i as int) == skip_ws(t@, j as int),
        decreases t.len() - j,
    {
        j = j + 1;
    }
    j
}

fn word_at_exec(t: &Vec<char>, i: usize, w: &[char]) -> (r: bool)
    ensures
        r == word_at(t@, i as int, w@),
{
    if i > t.len() || w.len() > t.len() - i {
        return false;
    }
    let mut k: usize = 0;
    while k < w.len()
        invariant
            k <= w@.len(),
            w@.len() == w.len(),
            i + w@.len() <= t@.len(),
            i + w.len() <= t.len(),
            t@.subrange(i as int, i + k) == w@.subrange(0, k as int),
        decreases w.len() - k,
    {
        if t[i + k] != w[k] {
            assert(t@.subrange(i as int, i + w@.len())[k as int] == t@[i + k]);
            return false;
        }
        assert(t@.subrange(i as int, i + k + 1) == t@.subrange(i as int, i + k).push(t@[i + k]));
        assert(w@.subrange(0, k as int + 1) == w@.subrange(0, k as int).push(w@[k as int]));
        k = k + 1;
    }
    assert(w@.subrange(0, w@.len() as int) == w@);
    true
}

fn key_position_exec(t: &Vec<char>, ksh: bool) -> (r: Option<usize>)
    ensures
        match r {
            Some(p) => key_position(t@, ksh) == Some(p as int),
            None => key_position(t@, ksh) is None,
        },
{
    let export = ['e', 'x', 'p', 'o', 'r', 't'];
    let typeset = ['t', 'y', 'p', 'e', 's', 'e', 't'];
    let dash_x = ['-', 'x'];
    assert(export@ == seq!['e', 'x', 'p', 'o', 'r', 't']);
    assert(typeset@ == seq!['t', 'y', 'p', 'e', 's', 'e', 't']);
    assert(dash_x@ == seq!['-', 'x']);
    if key_at_exec(t, 0) {
        return Some(0);
    }
    if word_at_exec(t, 0, &export) && 6 < t.len() && is_whitespace(t[6]) {
        return Some(skip_ws_exec(t, 6));
    }
    if ksh && word_at_exec(t, 0, &typeset) && 7 < t.len() && is_whitespace(t[7]) {
        let x = skip_ws_exec(t, 7);
        if word_at_exec(t, x, &dash_x) && x + 2 < t.len() && is_whitespace(t[x + 2]) {
            return Some(skip_ws_exec(t, x + 2));
        }
    }
    None
}

/// The value that `l` assigns to PATH, if it is a PATH assignment statement
/// with a value.
pub fn read_assigned_value(l: &Vec<char>, ksh: bool) -> (r: Option<Vec<char>>)
    ensures
        match r {
            Some(v) => assigned_value(l@, ksh) == Some(v@),
            None => assigned_value(l@, ksh) is None,
        },
{
    let t = trim_line(l);
    let p = match key_position_exec(&t, ksh) {
        Some(p) => p,
        None => {
            return None;
        },
    };
    if !key_at_exec(&t, p) {
        return None;
    }
    let mut s: usize = p + 5;
    if s < t.len() && (t[s] == '"' || t[s] == '\'') {
        s = s + 1;
    }
    let mut e: usize = s;
    while e < t.len() && t[e] != '"' && t[e] != '\''
        invariant
            s <= e <= t.len(),
            run_end(t@, s as int) == run_end(t@, e as int),
        decreases t.len() - e,
    {
        e = e + 1;
    }
    if s >= e {
        return None;
    }
    let mut v: Vec<char> = Vec::new();
    let mut i: usize = s;
    while i < e
        invariant
            s <= i <= e <= t.len(),
            v@ == t@.subrange(s as int, i as int),
        decreases e - i,
    {
        v.push(t[i]);
        proof {
            assert(t@.subrange(s as int, i as int + 1) == t@.subrange(s as int, i as int).push(t@[i as int]));
        }
        i = i + 1;
    }
    assert(value_start(t@, p as int) == s as int);
    assert(v@ == value_at(t@, p as int));
    Some(v)
}

/// Splits `v` at each `:`.
pub fn split_at_colons(v: &Vec<char>) -> (r: Vec<Vec<char>>)
    ensures
        r@.map_values(|x: Vec<char>| x@) == split_colon(v@),
{
    let mut done: Vec<Vec<char>> = Vec::new();
    let mut cur: Vec<char> = Vec::new();
    let mut i: usize = 0;
    while i < v.len()
        invariant
            i <= v.len(),
            (done@.map_values(|x: Vec<char>| x@), cur@) == scan_colon(v@.subrange(0, i as int)),
        decreases v.len() - i,
    {
        proof {
            assert(v@.subrange(0, i as int + 1).drop_last() == v@.subrange(0, i as int));
        }
        if v[i] == ':' {
            let piece = cur;
            proof {
                assert(done@.push(piece).map_values(|x: Vec<char>| x@) == done@.map_values(
                    |x: Vec<char>| x@,
                ).push(piece@));
            }
            done.push(piece);
            cur = Vec::new();
        } else {
            cur.push(v[i]);
        }
        i = i + 1;
    }
    assert(v@.subrange(0, v.len() as int) == v@);
    let piece = cur;
    proof {
        assert(done@.push(piece).map_values(|x: Vec<char>| x@) == done@.map_values(
            |x: Vec<char>| x@,
        ).push(piece@));
    }
    done.push(piece);
    done
}

} // verus!
