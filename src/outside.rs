//! The calls that the library makes into std and into outside crates.

use vstd::prelude::*;
use vstd::std_specs::iter::IteratorSpec;
use crate::timestamp::LocalTime;
use chrono::{Datelike, Timelike};

verus! {

/// The characters of `s`, in order.
pub(crate) fn chars_of(s: &str) -> (r: Vec<char>)
    ensures
        r@ == s@,
{
    broadcast use vstd::string::axiom_spec_iter, vstd::string::next_postcondition;

    let mut it = s.chars();
    let mut r: Vec<char> = Vec::new();
    loop
        invariant
            r@ + it.remaining() == s@,
        ensures
            r@ == s@,
        decreases s@.len() - r@.len(),
    {
        let ghost before = it.remaining();
        match it.next() {
            Some(c) => {
                assert(before == seq![c] + it.remaining());
                r.push(c);
                assert(r@ + it.remaining() == s@);
            },
            None => {
                assert(before.len() == 0);
                assert(r@ + before == r@);
                assert(it.remaining() == before);
                break;
            },
        }
    }
    r
}

/// Relies on `String: FromIterator<char>`: the characters of `v`, in order.
#[verifier::external_body]
pub(crate) fn string_of(v: &Vec<char>) -> (r: String)
    ensures
        r@ == v@,
{
    v.iter().collect()
}

/// What `shellexpand::tilde_with_context` returns: a leading `~` that the
/// end or a `/` follows is replaced by the home directory, where one is
/// known; anything else is left as it is.
pub open spec fn tilde_expanded(s: Seq<char>, home: Option<Seq<char>>) -> Seq<char> {
    if s.len() > 0 && s[0] == '~' && (s.len() == 1 || s[1] == '/') && home is Some {
        home->0 + s.drop_first()
    } else {
        s
    }
}

pub open spec fn opt_view(o: Option<String>) -> Option<Seq<char>> {
    match o {
        Some(s) => Some(s@),
        None => None,
    }
}

/// Relies on `shellexpand::tilde_with_context`, with `home` as the home
/// directory.
#[verifier::external_body]
pub(crate) fn expand_tilde(s: &String, home: &Option<String>) -> (r: String)
    ensures
        r@ == tilde_expanded(s@, opt_view(*home)),
{
    shellexpand::tilde_with_context(s.as_str(), || home.as_ref()).into_owned()
}

/// Relies on `dirs_next::home_dir`: the current user's home directory, if
/// the system knows one. What it returns depends on the environment.
#[verifier::external_body]
pub(crate) fn home_dir() -> (r: Option<String>) {
    dirs_next::home_dir().map(|p| p.to_string_lossy().into_owned())
}

/// Relies on `chrono::Local::now` and the `Datelike` / `Timelike` accessors:
/// the local date and time now, with the ranges that chrono documents.
#[verifier::external_body]
pub(crate) fn local_now() -> (r: LocalTime)
    ensures
        r.wf(),
{
    let now = chrono::Local::now();
    LocalTime {
        year: now.year(),
        month: now.month(),
        day: now.day(),
        hour: now.hour(),
        minute: now.minute(),
        second: now.second(),
    }
}

} // verus!
