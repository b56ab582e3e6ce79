//! Joining a file name onto a directory, as `Path::join` does for a relative name.

use vstd::prelude::*;
use crate::outside::{chars_of, string_of};

verus! {

/// `base` joined with the relative `name`: a `/` between them unless `base`
/// is empty or already ends with one.
pub open spec fn joined(base: Seq<char>, name: Seq<char>) -> Seq<char> {
    if base.len() == 0 || base.last() == '/' {
        base + name
    } else {
        base + seq!['/'] + name
    }
}

/// The directory to use as home: the one given, or the root where none is known.
pub open spec fn home_or_root(home: Option<Seq<char>>) -> Seq<char> {
    match home {
        Some(h) => h,
        None => seq!['/'],
    }
}

pub fn join_name(base: &str, name: &str) -> (r: String)
    ensures
        r@ == joined(base@, name@),
{
    let mut out = chars_of(base);
    let n = chars_of(name);
    if out.len() > 0 && out[out.len() - 1] != '/' {
        out.push('/');
    }
    let ghost mid = out@;
    let mut i: usize = 0;
    while i < n.len()
        invariant
            i <= n.len(),
            out@ == mid + n@.subrange(0, i as int),
        decreases n.len() - i,
    {
        out.push(n[i]);
        proof {
            assert(n@.subrange(0, i as int + 1) == n@.subrange(0, i as int).push(n@[i as int]));
        }
        i = i + 1;
    }
    assert(n@.subrange(0, n.len() as int) == n@);
    assert(out@ =~= joined(base@, name@));
    string_of(&out)
}

/// `name` in the home directory `home`, or in the root where none is known.
pub fn in_home(home: &Option<String>, name: &str) -> (r: String)
    ensures
        r@ == joined(home_or_root(crate::outside::opt_view(*home)), name@),
{
    match home {
        Some(h) => join_name(h.as_str(), name),
        None => {
            proof {
                reveal_strlit("/");
            }
            assert("/"@ =~= seq!['/']);
            join_name("/", name)
        },
    }
}

} // verus!
