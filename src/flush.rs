//! The decisions of a flush: which PATH entries stay, and which shell's
//! startup file records the result.

use vstd::prelude::*;
use crate::config::{strs, ShellType};
use crate::outside::chars_of;

verus! {

/// The entries whose validity flag is set, in order.
pub open spec fn valid_entries(es: Seq<Seq<char>>, valid: Seq<bool>) -> Seq<Seq<char>>
    decreases es.len(),
{
    if es.len() == 0 || valid.len() != es.len() {
        seq![]
    } else if valid.last() {
        valid_entries(es.drop_last(), valid.drop_last()).push(es.last())
    } else {
        valid_entries(es.drop_last(), valid.drop_last())
    }
}

/// The entries that stay: those whose flag in `valid` is set, in their
/// order. `valid[k]` tells whether `entries[k]` names an existing directory.
pub fn keep_valid(entries: &Vec<String>, valid: &Vec<bool>) -> (r: Vec<String>)
    requires
        valid@.len() == entries@.len(),
    ensures
        strs(r@) == valid_entries(strs(entries@), valid@),
        r@.len() <= entries@.len(),
{
    let ghost ev = strs(entries@);
    let mut r: Vec<String> = Vec::new();
    let mut i: usize = 0;
    while i < entries.len()
        invariant
            i <= entries.len(),
            valid@.len() == entries@.len(),
            ev == strs(entries@),
            strs(r@) == valid_entries(ev.subrange(0, i as int), valid@.subrange(0, i as int)),
            r@.len() <= i,
        decreases entries.len() - i,
    {
        proof {
            assert(ev.subrange(0, i as int + 1).drop_last() == ev.subrange(0, i as int));
            assert(valid@.subrange(0, i as int + 1).drop_last() == valid@.subrange(0, i as int));
            assert(ev.subrange(0, i as int + 1).last() == entries@[i as int]@);
            assert(valid@.subrange(0, i as int + 1).last() == valid@[i as int]);
        }
        if valid[i] {
            let e = entries[i].clone();
            proof {
                assert(strs(r@.push(e)) == strs(r@).push(e@));
            }
            r.push(e);
        }
        i = i + 1;
    }
    proof {
        assert(ev.subrange(0, entries.len() as int) == ev);
        assert(valid@.subrange(0, entries.len() as int) == valid@);
    }
    r
}

/// The last component of a shell's path (`/bin/ksh` gives `ksh`).
pub open spec fn base_name(p: Seq<char>) -> Seq<char>
    decreases p.len(),
{
    if p.len() == 0 || p.last() == '/' {
        seq![]
    } else {
        base_name(p.drop_last()).push(p.last())
    }
}

/// The dialect of the shell at `shell_path`: the Korn shell for `ksh`,
/// `mksh` and `pdksh`; every other shell falls back to the generic handler.
pub open spec fn shell_type_of(shell_path: Seq<char>) -> ShellType {
    let b = base_name(shell_path);
    if b == seq!['k', 's', 'h'] || b == seq!['m', 'k', 's', 'h'] || b == seq!['p', 'd', 'k', 's', 'h'] {
        ShellType::Ksh
    } else {
        ShellType::Generic
    }
}

/// The dialect whose handler serves the shell at `shell_path`.
pub fn detect_shell_type(shell_path: &str) -> (r: ShellType)
    ensures
        r == shell_type_of(shell_path@),
{
    let p = chars_of(shell_path);
    let mut start: usize = p.len();
    assert(p@.subrange(0, p@.len() as int) == p@);
    assert(base_name(p@) + p@.subrange(start as int, p@.len() as int) == base_name(p@));
    while start > 0 && p[start - 1] != '/'
        invariant
            start <= p.len(),
            base_name(p@) == base_name(p@.subrange(0, start as int)) + p@.subrange(start as int, p@.len() as int),
        decreases start,
    {
        proof {
            let s = p@.subrange(0, start as int);
            assert(s.drop_last() == p@.subrange(0, start - 1));
            assert(p@.subrange(start - 1, p@.len() as int) == seq![s.last()] + p@.subrange(start as int, p@.len() as int));
        }
        start = start - 1;
    }
    proof {
        let s = p@.subrange(0, start as int);
        assert(base_name(s) == Seq::<char>::empty());
    }
    let n: usize = p.len() - start;
    let ghost b = p@.subrange(start as int, p@.len() as int);
    assert(base_name(p@) =~= b);
    let is_ksh = n == 3 && p[start] == 'k' && p[start + 1] == 's' && p[start + 2] == 'h';
    let is_mksh = n == 4 && p[start] == 'm' && p[start + 1] == 'k' && p[start + 2] == 's' && p[start + 3] == 'h';
    let is_pdksh = n == 5 && p[start] == 'p' && p[start + 1] == 'd' && p[start + 2] == 'k' && p[start + 3] == 's'
        && p[start + 4] == 'h';
    proof {
        if is_ksh {
            assert(b =~= seq!['k', 's', 'h']);
        }
        if is_mksh {
            assert(b =~= seq!['m', 'k', 's', 'h']);
        }
        if is_pdksh {
            assert(b =~= seq!['p', 'd', 'k', 's', 'h']);
        }
        if b == seq!['k', 's', 'h'] {
            assert(b[0] == 'k' && b[1] == 's' && b[2] == 'h');
        }
        if b == seq!['m', 'k', 's', 'h'] {
            assert(b[0] == 'm' && b[1] == 'k' && b[2] == 's' && b[3] == 'h');
        }
        if b == seq!['p', 'd', 'k', 's', 'h'] {
            assert(b[0] == 'p' && b[1] == 'd' && b[2] == 'k' && b[3] == 's' && b[4] == 'h');
        }
    }
    if is_ksh || is_mksh || is_pdksh {
        ShellType::Ksh
    } else {
        ShellType::Generic
    }
}

} // verus!
