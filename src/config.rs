//! The logic that every shell handler shares: reading PATH entries out of a
//! startup file, finding its PATH assignments, and rewriting it with one
//! fresh assignment at the end.

use vstd::prelude::*;
use crate::grammar::{assigned_value, assigns_path, is_path_assignment, read_assigned_value, split_at_colons, split_colon};
use crate::lines::{chars_views, join_lines, lines_of, push_joined, split_lines};
use crate::outside::{chars_of, expand_tilde, opt_view, string_of, tilde_expanded};
use crate::timestamp::{push_timestamp, timestamp_text, LocalTime};

verus! {

/// The shell dialects that have a handler.
#[derive(Clone, Copy, Debug, PartialEq, Eq, Structural)]
pub enum ShellType {
    Generic,
    Ksh,
}

/// How a line changes PATH.
#[derive(Clone, Copy, Debug, PartialEq, Eq, Structural)]
pub enum ModificationType {
    Assignment,
}

/// A line of a startup file that changes PATH.
#[derive(Debug)]
pub struct PathModification {
    /// The line's number, counted from 1.
    pub line_number: usize,
    /// The line's text.
    pub content: String,
    pub modification_type: ModificationType,
}

pub open spec fn strs(v: Seq<String>) -> Seq<Seq<char>> {
    v.map_values(|s: String| s@)
}

/// A piece of a PATH value that refers to a shell variable, such as `$PATH`.
pub open spec fn is_var_ref(seg: Seq<char>) -> bool {
    seg.len() > 0 && seg[0] == '$'
}

/// The entries that the pieces of a value give: variable references are
/// skipped, a leading `~` is expanded.
pub open spec fn segment_entries(segs: Seq<Seq<char>>, home: Option<Seq<char>>) -> Seq<Seq<char>>
    decreases segs.len(),
{
    if segs.len() == 0 {
        seq![]
    } else if is_var_ref(segs.last()) {
        segment_entries(segs.drop_last(), home)
    } else {
        segment_entries(segs.drop_last(), home).push(tilde_expanded(segs.last(), home))
    }
}

/// The entries that one line gives.
pub open spec fn line_entries(line: Seq<char>, home: Option<Seq<char>>, ksh: bool) -> Seq<Seq<char>> {
    match assigned_value(line, ksh) {
        Some(v) => segment_entries(split_colon(v), home),
        None => seq![],
    }
}

/// The entries of the lines, line after line.
pub open spec fn entries_in_lines(ls: Seq<Seq<char>>, home: Option<Seq<char>>, ksh: bool) -> Seq<Seq<char>>
    decreases ls.len(),
{
    if ls.len() == 0 {
        seq![]
    } else {
        entries_in_lines(ls.drop_last(), home, ksh) + line_entries(ls.last(), home, ksh)
    }
}

/// Every PATH entry that the text assigns, in the order met, duplicates
/// kept; `ksh` admits the Korn shell's `typeset -x` statements.
pub open spec fn path_entries(content: Seq<char>, home: Option<Seq<char>>, ksh: bool) -> Seq<Seq<char>> {
    entries_in_lines(lines_of(content), home, ksh)
}

/// The first occurrence of each element, in order.
pub open spec fn first_occurrences(s: Seq<Seq<char>>) -> Seq<Seq<char>>
    decreases s.len(),
{
    if s.len() == 0 {
        seq![]
    } else {
        let d = first_occurrences(s.drop_last());
        if d.contains(s.last()) {
            d
        } else {
            d.push(s.last())
        }
    }
}

/// The assignment lines among `ls`: each with its number, counted from 1.
pub open spec fn detected_lines(ls: Seq<Seq<char>>) -> Seq<(int, Seq<char>)>
    decreases ls.len(),
{
    if ls.len() == 0 {
        seq![]
    } else if is_path_assignment(ls.last()) {
        detected_lines(ls.drop_last()).push((ls.len() as int, ls.last()))
    } else {
        detected_lines(ls.drop_last())
    }
}

/// The line is the comment of a block that an earlier update wrote.
pub open spec fn is_tool_comment(l: Seq<char>) -> bool {
    comment_prefix().len() <= l.len() && l.subrange(0, comment_prefix().len() as int) == comment_prefix()
}

/// A rewrite drops the line: it assigns PATH, or it is the comment of an
/// earlier block.
pub open spec fn is_replaced(l: Seq<char>) -> bool {
    is_path_assignment(l) || is_tool_comment(l)
}

/// The lines among `ls` that a rewrite keeps, in order.
pub open spec fn kept_lines(ls: Seq<Seq<char>>) -> Seq<Seq<char>>
    decreases ls.len(),
{
    if ls.len() == 0 {
        seq![]
    } else if is_replaced(ls.last()) {
        kept_lines(ls.drop_last())
    } else {
        kept_lines(ls.drop_last()).push(ls.last())
    }
}

pub open spec fn modification_view(m: PathModification) -> (int, Seq<char>) {
    (m.line_number as int, m.content@)
}

/// The entries joined with `:`.
pub open spec fn join_colon(es: Seq<Seq<char>>) -> Seq<char>
    decreases es.len(),
{
    if es.len() == 0 {
        seq![]
    } else if es.len() == 1 {
        es[0]
    } else {
        join_colon(es.drop_last()) + seq![':'] + es.last()
    }
}

pub open spec fn comment_prefix() -> Seq<char> {
    "# Updated by pathmaster on "@
}

pub open spec fn export_prefix() -> Seq<char> {
    "export PATH=\""@
}

/// The comment line of the block: the tool's name and the time.
pub open spec fn comment_line(t: LocalTime) -> Seq<char> {
    comment_prefix() + timestamp_text(t)
}

/// The export line of the block.
pub open spec fn export_line(es: Seq<Seq<char>>) -> Seq<char> {
    export_prefix() + join_colon(es) + seq!['"']
}

/// The block appended to a startup file: a blank line, the comment, the
/// export, each ended by a newline.
pub open spec fn export_block(es: Seq<Seq<char>>, t: LocalTime) -> Seq<char> {
    seq!['\n'] + comment_line(t) + seq!['\n'] + export_line(es) + seq!['\n']
}

/// The startup file without its PATH assignment lines and the comments of
/// earlier blocks, and with the block.
pub open spec fn rewritten(content: Seq<char>, es: Seq<Seq<char>>, t: LocalTime) -> Seq<char> {
    join_lines(kept_lines(lines_of(content))) + export_block(es, t)
}

fn push_chars(out: &mut Vec<char>, s: &Vec<char>)
    ensures
        final(out)@ == old(out)@ + s@,
{
    let ghost start = out@;
    let mut i: usize = 0;
    while i < s.len()
        invariant
            i <= s.len(),
            out@ == start + s@.subrange(0, i as int),
        decreases s.len() - i,
    {
        out.push(s[i]);
        proof {
            assert(s@.subrange(0, i as int + 1) == s@.subrange(0, i as int).push(s@[i as int]));
        }
        i = i + 1;
    }
    assert(s@.subrange(0, s.len() as int) == s@);
}

/// Whether `l` starts with `p`.
fn starts_with_chars(l: &Vec<char>, p: &Vec<char>) -> (r: bool)
    ensures
        r == (p@.len() <= l@.len() && l@.subrange(0, p@.len() as int) == p@),
{
    if p.len() > l.len() {
        return false;
    }
    let mut i: usize = 0;
    while i < p.len()
        invariant
            i <= p.len() <= l.len(),
            l@.subrange(0, i as int) == p@.subrange(0, i as int),
        decreases p.len() - i,
    {
        if l[i] != p[i] {
            assert(l@.subrange(0, p@.len() as int)[i as int] == l@[i as int]);
            return false;
        }
        assert(l@.subrange(0, i as int + 1) == l@.subrange(0, i as int).push(l@[i as int]));
        assert(p@.subrange(0, i as int + 1) == p@.subrange(0, i as int).push(p@[i as int]));
        i = i + 1;
    }
    assert(p@.subrange(0, p@.len() as int) == p@);
    true
}

fn contains_string(v: &Vec<String>, s: &String) -> (r: bool)
    ensures
        r == strs(v@).contains(s@),
{
    let mut i: usize = 0;
    while i < v.len()
        invariant
            i <= v.len(),
            forall|k: int| 0 <= k < i ==> v@[k]@ != s@,
        decreases v.len() - i,
    {
        if v[i] == *s {
            assert(strs(v@)[i as int] == s@);
            return true;
        }
        i = i + 1;
    }
    assert forall|k: int| 0 <= k < strs(v@).len() implies strs(v@)[k] != s@ by {
        assert(strs(v@)[k] == v@[k]@);
    }
    false
}

/// The PATH entries that `content` assigns. For the Korn shell (`ksh`),
/// `typeset -x` statements count too, and each entry comes only the first
/// time it is met.
pub fn parse_entries(content: &str, home: &Option<String>, ksh: bool) -> (r: Vec<String>)
    ensures
        strs(r@) == (if ksh {
            first_occurrences(path_entries(content@, opt_view(*home), ksh))
        } else {
            path_entries(content@, opt_view(*home), ksh)
        }),
{
    let text = chars_of(content);
    let ls = split_lines(&text);
    let ghost hv = opt_view(*home);
    let ghost lv = chars_views(ls@);
    let ghost mut all: Seq<Seq<char>> = seq![];
    let mut r: Vec<String> = Vec::new();
    let mut i: usize = 0;
    while i < ls.len()
        invariant
            i <= ls.len(),
            lv == chars_views(ls@),
            lv == lines_of(content@),
            hv == opt_view(*home),
            all == entries_in_lines(lv.subrange(0, i as int), hv, ksh),
            strs(r@) == (if ksh { first_occurrences(all) } else { all }),
        decreases ls.len() - i,
    {
        proof {
            assert(lv.subrange(0, i as int + 1).drop_last() == lv.subrange(0, i as int));
            assert(lv.subrange(0, i as int + 1).last() == ls@[i as int]@);
        }
        let ghost base = all;
        match read_assigned_value(&ls[i], ksh) {
            None => {
                assert(all == entries_in_lines(lv.subrange(0, i as int + 1), hv, ksh));
            },
            Some(v) => {
                let segs = split_at_colons(&v);
                let ghost sv = segs@.map_values(|x: Vec<char>| x@);
                let mut j: usize = 0;
                while j < segs.len()
                    invariant
                        j <= segs.len(),
                        sv == segs@.map_values(|x: Vec<char>| x@),
                        hv == opt_view(*home),
                        all == base + segment_entries(sv.subrange(0, j as int), hv),
                        strs(r@) == (if ksh { first_occurrences(all) } else { all }),
                    decreases segs.len() - j,
                {
                    let seg = &segs[j];
                    proof {
                        assert(sv.subrange(0, j as int + 1).drop_last() == sv.subrange(0, j as int));
                        assert(sv.subrange(0, j as int + 1).last() == seg@);
                    }
                    if seg.len() > 0 && seg[0] == '$' {
                    } else {
                        let s = string_of(seg);
                        let e = expand_tilde(&s, home);
                        proof {
                            assert(base + segment_entries(sv.subrange(0, j as int + 1), hv) == (base
                                + segment_entries(sv.subrange(0, j as int), hv)).push(e@));
                            all = all.push(e@);
                            assert(all.drop_last() == base + segment_entries(sv.subrange(0, j as int), hv));
                        }
                        if ksh {
                            if !contains_string(&r, &e) {
                                proof {
                                    assert(strs(r@.push(e)) == strs(r@).push(e@));
                                }
                                r.push(e);
                            }
                        } else {
                            proof {
                                assert(strs(r@.push(e)) == strs(r@).push(e@));
                            }
                            r.push(e);
                        }
                    }
                    j = j + 1;
                }
                proof {
                    assert(sv.subrange(0, segs.len() as int) == sv);
                }
            },
        }
        i = i + 1;
    }
    proof {
        assert(lv.subrange(0, ls.len() as int) == lv);
    }
    r
}

/// The lines of `content` that assign PATH.
pub fn detect_modifications(content: &str) -> (r: Vec<PathModification>)
    ensures
        r@.map_values(|m: PathModification| modification_view(m)) == detected_lines(lines_of(content@)),
        forall|k: int| 0 <= k < r@.len() ==> r@[k].modification_type == ModificationType::Assignment,
{
    let text = chars_of(content);
    let ls = split_lines(&text);
    let ghost lv = chars_views(ls@);
    let mut r: Vec<PathModification> = Vec::new();
    let mut i: usize = 0;
    while i < ls.len()
        invariant
            i <= ls.len(),
            lv == chars_views(ls@),
            lv == lines_of(content@),
            r@.map_values(|m: PathModification| modification_view(m)) == detected_lines(lv.subrange(0, i as int)),
            forall|k: int| 0 <= k < r@.len() ==> r@[k].modification_type == ModificationType::Assignment,
        decreases ls.len() - i,
    {
        proof {
            assert(lv.subrange(0, i as int + 1).drop_last() == lv.subrange(0, i as int));
            assert(lv.subrange(0, i as int + 1).last() == ls@[i as int]@);
        }
        if assigns_path(&ls[i]) {
            let m = PathModification {
                line_number: i + 1,
                content: string_of(&ls[i]),
                modification_type: ModificationType::Assignment,
            };
            proof {
                assert(r@.push(m).map_values(|m: PathModification| modification_view(m)) == r@.map_values(
                    |m: PathModification| modification_view(m),
                ).push(modification_view(m)));
            }
            r.push(m);
        }
        i = i + 1;
    }
    proof {
        assert(lv.subrange(0, ls.len() as int) == lv);
    }
    r
}

/// Appends the export block for `entries` at time `now` to `out`.
fn push_export_block(out: &mut Vec<char>, entries: &Vec<String>, now: &LocalTime)
    requires
        now.wf(),
    ensures
        final(out)@ == old(out)@ + export_block(strs(entries@), *now),
{
    let ghost start = out@;
    out.push('\n');
    let cp = chars_of("# Updated by pathmaster on ");
    push_chars(out, &cp);
    push_timestamp(out, now);
    out.push('\n');
    let ep = chars_of("export PATH=\"");
    push_chars(out, &ep);
    let ghost mid = out@;
    let ghost ev = strs(entries@);
    let mut i: usize = 0;
    while i < entries.len()
        invariant
            i <= entries.len(),
            ev == strs(entries@),
            out@ == mid + join_colon(ev.subrange(0, i as int)),
        decreases entries.len() - i,
    {
        proof {
            assert(ev.subrange(0, i as int + 1).drop_last() == ev.subrange(0, i as int));
            assert(ev.subrange(0, i as int + 1).last() == entries@[i as int]@);
            if i == 0 {
                assert(join_colon(ev.subrange(0, 0)) == Seq::<char>::empty());
            }
        }
        if i > 0 {
            out.push(':');
        }
        let ec = chars_of(entries[i].as_str());
        push_chars(out, &ec);
        i = i + 1;
    }
    proof {
        assert(ev.subrange(0, entries.len() as int) == ev);
    }
    out.push('"');
    out.push('\n');
    assert(out@ =~= start + export_block(strs(entries@), *now));
}

/// The export block for `entries` at time `now`, as text.
pub fn format_export_at(entries: &Vec<String>, now: &LocalTime) -> (r: String)
    requires
        now.wf(),
    ensures
        r@ == export_block(strs(entries@), *now),
{
    let mut out: Vec<char> = Vec::new();
    push_export_block(&mut out, entries, now);
    string_of(&out)
}

/// `content` without its PATH assignment lines and without the comments of
/// earlier blocks, with the export block for `entries` at time `now` appended.
pub fn rewrite_config(content: &str, entries: &Vec<String>, now: &LocalTime) -> (r: String)
    requires
        now.wf(),
    ensures
        r@ == rewritten(content@, strs(entries@), *now),
{
    let text = chars_of(content);
    let ls = split_lines(&text);
    let prefix = chars_of("# Updated by pathmaster on ");
    let ghost lv = chars_views(ls@);
    let mut kept: Vec<Vec<char>> = Vec::new();
    let mut i: usize = 0;
    while i < ls.len()
        invariant
            i <= ls.len(),
            lv == chars_views(ls@),
            prefix@ == comment_prefix(),
            chars_views(kept@) == kept_lines(lv.subrange(0, i as int)),
        decreases ls.len() - i,
    {
        proof {
            assert(lv.subrange(0, i as int + 1).drop_last() == lv.subrange(0, i as int));
            assert(lv.subrange(0, i as int + 1).last() == ls@[i as int]@);
        }
        if !assigns_path(&ls[i]) && !starts_with_chars(&ls[i], &prefix) {
            let l = ls[i].clone();
            proof {
                assert(chars_views(kept@.push(l)) == chars_views(kept@).push(l@));
            }
            kept.push(l);
        }
        i = i + 1;
    }
    proof {
        assert(lv.subrange(0, ls.len() as int) == lv);
    }
    let mut out: Vec<char> = Vec::new();
    push_joined(&mut out, &kept);
    push_export_block(&mut out, entries, now);
    assert(out@ =~= rewritten(content@, strs(entries@), *now));
    string_of(&out)
}

} // verus!
