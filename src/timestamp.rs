//! A local date and time, and its text in the form `YYYY-MM-DD HH:MM:SS`.

use vstd::prelude::*;

verus! {

/// A local date and time, field by field.
#[derive(Clone, Copy, Debug, PartialEq, Eq)]
pub struct LocalTime {
    pub year: i32,
    pub month: u32,
    pub day: u32,
    pub hour: u32,
    pub minute: u32,
    pub second: u32,
}

impl LocalTime {
    /// Each field within the range of a calendar date and a time of day.
    pub open spec fn wf(&self) -> bool {
        &&& -262144 <= self.year <= 262143
        &&& 1 <= self.month <= 12
        &&& 1 <= self.day <= 31
        &&& self.hour <= 23
        &&& self.minute <= 59
        &&& self.second <= 59
    }
}

pub open spec fn digit(n: nat) -> char {
    ((n % 10) + 48) as char
}

/// The decimal digits of `n`, padded with zeros on the left to `width`.
pub open spec fn padded(n: nat, width: nat) -> Seq<char>
    decreases width, n,
{
    if width <= 1 {
        if n < 10 {
            seq![digit(n)]
        } else {
            padded(n / 10, 0) + seq![digit(n)]
        }
    } else {
        padded(n / 10, (width - 1) as nat) + seq![digit(n)]
    }
}

/// The year: four digits at least, with a sign where it lies outside `0..=9999`.
pub open spec fn year_text(y: int) -> Seq<char> {
    if 0 <= y <= 9999 {
        padded(y as nat, 4)
    } else if y > 9999 {
        seq!['+'] + padded(y as nat, 4)
    } else {
        seq!['-'] + padded((-y) as nat, 4)
    }
}

/// `YYYY-MM-DD HH:MM:SS`.
pub open spec fn timestamp_text(t: LocalTime) -> Seq<char> {
    year_text(t.year as int) + seq!['-'] + padded(t.month as nat, 2) + seq!['-'] + padded(
        t.day as nat,
        2,
    ) + seq![' '] + padded(t.hour as nat, 2) + seq![':'] + padded(t.minute as nat, 2) + seq![':']
        + padded(t.second as nat, 2)
}

/// Characters that a timestamp is made of.
pub open spec fn is_stamp_char(c: char) -> bool {
    ('0' <= c && c <= '9') || c == '-' || c == '+' || c == ':' || c == ' '
}

proof fn lemma_digit(n: nat)
    ensures
        is_stamp_char(digit(n)),
{
    let k = (n % 10) + 48;
    assert(48 <= k < 58);
    assert(digit(n) as u32 == k);
}

pub proof fn lemma_padded_chars(n: nat, width: nat)
    ensures
        forall|i: int| 0 <= i < padded(n, width).len() ==> is_stamp_char(#[trigger] padded(n, width)[i]),
    decreases width, n,
{
    lemma_digit(n);
    let p = padded(n, width);
    if width <= 1 && n < 10 {
        assert(p == seq![digit(n)]);
    } else {
        let w: nat = if width <= 1 { 0 } else { (width - 1) as nat };
        lemma_padded_chars(n / 10, w);
        let q = padded(n / 10, w);
        assert(p == q + seq![digit(n)]);
        assert forall|i: int| 0 <= i < p.len() implies is_stamp_char(#[trigger] p[i]) by {
            if i < q.len() {
                assert(p[i] == q[i]);
            }
        }
    }
}

pub proof fn lemma_timestamp_chars(t: LocalTime)
    ensures
        forall|i: int| 0 <= i < timestamp_text(t).len() ==> is_stamp_char(#[trigger] timestamp_text(t)[i]),
{
    let y = t.year as int;
    if 0 <= y <= 9999 {
        lemma_padded_chars(y as nat, 4);
    } else if y > 9999 {
        lemma_padded_chars(y as nat, 4);
    } else {
        lemma_padded_chars((-y) as nat, 4);
    }
    lemma_padded_chars(t.month as nat, 2);
    lemma_padded_chars(t.day as nat, 2);
    lemma_padded_chars(t.hour as nat, 2);
    lemma_padded_chars(t.minute as nat, 2);
    lemma_padded_chars(t.second as nat, 2);
    let s = timestamp_text(t);
    assert forall|i: int| 0 <= i < s.len() implies is_stamp_char(#[trigger] s[i]) by {
        let a = year_text(y);
        if 0 <= y <= 9999 {
        } else if y > 9999 {
            assert(forall|k: int| 0 <= k < a.len() ==> is_stamp_char(#[trigger] a[k]));
        } else {
            assert(forall|k: int| 0 <= k < a.len() ==> is_stamp_char(#[trigger] a[k]));
        }
    }
}

/// Appends `padded(n, width)` to `out`.
fn push_padded(out: &mut Vec<char>, n: u32, width: u32)
    requires
        width <= 4,
    ensures
        final(out)@ == old(out)@ + padded(n as nat, width as nat),
    decreases width, n,
{
    if width <= 1 {
        if n >= 10 {
            push_padded(out, n / 10, 0);
        }
    } else {
        push_padded(out, n / 10, width - 1);
    }
    let d: u32 = n % 10;
    assert(((d + 48) as char) == digit(n as nat));
    out.push(((d + 48) as u8) as char);
}

/// Appends the text of `t` to `out`.
pub fn push_timestamp(out: &mut Vec<char>, t: &LocalTime)
    requires
        t.wf(),
    ensures
        final(out)@ == old(out)@ + timestamp_text(*t),
{
    let ghost start = out@;
    if 0 <= t.year && t.year <= 9999 {
        push_padded(out, t.year as u32, 4);
    } else if t.year > 9999 {
        out.push('+');
        push_padded(out, t.year as u32, 4);
    } else {
        out.push('-');
        push_padded(out, (-t.year) as u32, 4);
    }
    out.push('-');
    push_padded(out, t.month, 2);
    out.push('-');
    push_padded(out, t.day, 2);
    out.push(' ');
    push_padded(out, t.hour, 2);
    out.push(':');
    push_padded(out, t.minute, 2);
    out.push(':');
    push_padded(out, t.second, 2);
    assert(out@ =~= start + timestamp_text(*t));
}

} // verus!
