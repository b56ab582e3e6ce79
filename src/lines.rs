//! Splitting text into lines and joining lines back into text.

use vstd::prelude::*;

verus! {

/// A line as `str::lines` yields it: a trailing carriage return is dropped
/// from a line that a newline ended.
pub open spec fn strip_cr(l: Seq<char>) -> Seq<char> {
    if l.len() > 0 && l.last() == '\r' {
        l.drop_last()
    } else {
        l
    }
}

/// Scans `s` from the left: the lines finished so far, and the open line.
pub open spec fn scan_lines(s: Seq<char>) -> (Seq<Seq<char>>, Seq<char>)
    decreases s.len(),
{
    if s.len() == 0 {
        (seq![], seq![])
    } else {
        let (done, cur) = scan_lines(s.drop_last());
        if s.last() == '\n' {
            (done.push(strip_cr(cur)), seq![])
        } else {
            (done, cur.push(s.last()))
        }
    }
}

/// The lines of `s`, with the same rules as `str::lines`: a final newline
/// ends the last line and opens no empty one.
pub open spec fn lines_of(s: Seq<char>) -> Seq<Seq<char>> {
    let (done, cur) = scan_lines(s);
    if cur.len() == 0 {
        done
    } else {
        done.push(cur)
    }
}

/// The lines joined with a newline between each two.
pub open spec fn join_lines(ls: Seq<Seq<char>>) -> Seq<char>
    decreases ls.len(),
{
    if ls.len() == 0 {
        seq![]
    } else if ls.len() == 1 {
        ls[0]
    } else {
        join_lines(ls.drop_last()) + seq!['\n'] + ls.last()
    }
}

pub open spec fn chars_views(v: Seq<Vec<char>>) -> Seq<Seq<char>> {
    v.map_values(|l: Vec<char>| l@)
}

pub open spec fn has_no_newline(l: Seq<char>) -> bool {
    forall|i: int| 0 <= i < l.len() ==> l[i] != '\n'
}

/// Splits `s` into its lines.
pub fn split_lines(s: &Vec<char>) -> (r: Vec<Vec<char>>)
    ensures
        chars_views(r@) == lines_of(s@),
{
    let mut done: Vec<Vec<char>> = Vec::new();
    let mut cur: Vec<char> = Vec::new();
    let mut i: usize = 0;
    while i < s.len()
        invariant
            i <= s.len(),
            (chars_views(done@), cur@) == scan_lines(s@.subrange(0, i as int)),
        decreases s.len() - i,
    {
        let c = s[i];
        proof {
            let t = s@.subrange(0, i as int + 1);
            assert(t.drop_last() == s@.subrange(0, i as int));
        }
        if c == '\n' {
            if cur.len() > 0 && cur[cur.len() - 1] == '\r' {
                cur.pop();
            }
            let line = cur;
            proof {
                assert(chars_views(done@.push(line)) == chars_views(done@).push(line@));
            }
            done.push(line);
            cur = Vec::new();
        } else {
            cur.push(c);
        }
        i = i + 1;
    }
    assert(s@.subrange(0, s.len() as int) == s@);
    if cur.len() > 0 {
        let line = cur;
        proof {
            assert(chars_views(done@.push(line)) == chars_views(done@).push(line@));
        }
        done.push(line);
    }
    done
}

/// Appends the lines to `out`, a newline between each two.
pub fn push_joined(out: &mut Vec<char>, ls: &Vec<Vec<char>>)
    ensures
        final(out)@ == old(out)@ + join_lines(chars_views(ls@)),
{
    let ghost start = out@;
    let mut i: usize = 0;
    while i < ls.len()
        invariant
            i <= ls.len(),
            out@ == start + join_lines(chars_views(ls@.subrange(0, i as int))),
        decreases ls.len() - i,
    {
        proof {
            let pre = chars_views(ls@.subrange(0, i as int));
            let nxt = chars_views(ls@.subrange(0, i as int + 1));
            assert(nxt.drop_last() == pre);
            assert(nxt.last() == ls@[i as int]@);
        }
        if i > 0 {
            out.push('\n');
        }
        let l = &ls[i];
        let mut j: usize = 0;
        let ghost before = out@;
        while j < l.len()
            invariant
                j <= l.len(),
                out@ == before + l@.subrange(0, j as int),
            decreases l.len() - j,
        {
            out.push(l[j]);
            proof {
                assert(l@.subrange(0, j as int + 1) == l@.subrange(0, j as int).push(l@[j as int]));
            }
            j = j + 1;
        }
        proof {
            assert(l@.subrange(0, l.len() as int) == l@);
            let pre = chars_views(ls@.subrange(0, i as int));
            if i == 0 {
                assert(join_lines(pre) == Seq::<char>::empty());
            }
        }
        i = i + 1;
    }
    assert(ls@.subrange(0, ls.len() as int) == ls@);
}

} // verus!
