//! What holds of a rewrite, for every startup file and every entry list.

use vstd::prelude::*;
use crate::config::{
    comment_line, comment_prefix, detected_lines, export_block, export_line, export_prefix,
    entries_in_lines, first_occurrences, is_replaced, is_tool_comment, is_var_ref, join_colon,
    kept_lines, line_entries, path_entries, rewritten, segment_entries,
};
use crate::grammar::{assigned_value, split_colon, word_at};
use crate::outside::tilde_expanded;
use crate::grammar::{is_path_assignment, key_at, path_key};
use crate::lines::{has_no_newline, join_lines, lines_of, scan_lines, strip_cr};
use crate::timestamp::{is_stamp_char, lemma_timestamp_chars, timestamp_text, LocalTime};

verus! {

/// Every entry is free of newlines.
pub open spec fn entries_on_one_line(es: Seq<Seq<char>>) -> bool {
    forall|i: int| 0 <= i < es.len() ==> has_no_newline(#[trigger] es[i])
}

proof fn lemma_scan_append_plain(a: Seq<char>, b: Seq<char>)
    requires
        has_no_newline(b),
    ensures
        scan_lines(a + b) == (scan_lines(a).0, scan_lines(a).1 + b),
    decreases b.len(),
{
    if b.len() == 0 {
        assert(a + b == a);
        assert(scan_lines(a).1 + b == scan_lines(a).1);
    } else {
        lemma_scan_append_plain(a, b.drop_last());
        assert((a + b).drop_last() == a + b.drop_last());
        assert((a + b).last() == b.last());
        assert(b.last() != '\n');
        assert((scan_lines(a).1 + b.drop_last()).push(b.last()) == scan_lines(a).1 + b);
    }
}

proof fn lemma_scan_newline(a: Seq<char>)
    ensures
        scan_lines(a.push('\n')) == (scan_lines(a).0.push(strip_cr(scan_lines(a).1)), Seq::<char>::empty()),
{
    assert(a.push('\n').drop_last() == a);
}

pub open spec fn stripped(ls: Seq<Seq<char>>) -> Seq<Seq<char>> {
    ls.map_values(|l: Seq<char>| strip_cr(l))
}

proof fn lemma_scan_join(k: Seq<Seq<char>>)
    requires
        k.len() >= 1,
        forall|i: int| 0 <= i < k.len() ==> has_no_newline(#[trigger] k[i]),
    ensures
        scan_lines(join_lines(k)) == (stripped(k.drop_last()), k.last()),
    decreases k.len(),
{
    if k.len() == 1 {
        lemma_scan_append_plain(Seq::<char>::empty(), k[0]);
        assert(Seq::<char>::empty() + k[0] == k[0]);
        assert(stripped(k.drop_last()) == Seq::<Seq<char>>::empty());
    } else {
        let k1 = k.drop_last();
        assert forall|i: int| 0 <= i < k1.len() implies has_no_newline(#[trigger] k1[i]) by {
            assert(k1[i] == k[i]);
        }
        lemma_scan_join(k1);
        let a = join_lines(k1).push('\n');
        lemma_scan_newline(join_lines(k1));
        assert(stripped(k1.drop_last()).push(strip_cr(k1.last())) == stripped(k1));
        lemma_scan_append_plain(a, k.last());
        assert(join_lines(k) == a + k.last());
    }
}

proof fn lemma_detected_none(ls: Seq<Seq<char>>)
    requires
        forall|i: int| 0 <= i < ls.len() ==> !is_path_assignment(#[trigger] ls[i]),
    ensures
        detected_lines(ls) == Seq::<(int, Seq<char>)>::empty(),
    decreases ls.len(),
{
    if ls.len() > 0 {
        let l1 = ls.drop_last();
        assert forall|i: int| 0 <= i < l1.len() implies !is_path_assignment(#[trigger] l1[i]) by {
            assert(l1[i] == ls[i]);
        }
        lemma_detected_none(l1);
        assert(!is_path_assignment(ls[ls.len() - 1]));
    }
}

proof fn lemma_strip_cr_keeps(l: Seq<char>)
    requires
        !is_replaced(l),
        has_no_newline(l),
    ensures
        !is_replaced(strip_cr(l)),
        has_no_newline(strip_cr(l)),
{
    let s = strip_cr(l);
    if l.len() > 0 && l.last() == '\r' {
        let n = comment_prefix().len() as int;
        if is_tool_comment(s) {
            assert(s.subrange(0, n) == l.subrange(0, n));
        }
        assert forall|p: int| !key_at(s, p) by {
            if key_at(s, p) {
                assert(s.subrange(p, p + 5) == l.subrange(p, p + 5));
                assert(key_at(l, p));
            }
        }
        assert forall|i: int| 0 <= i < s.len() implies s[i] != '\n' by {
            assert(s[i] == l[i]);
        }
    }
}

proof fn lemma_lines_no_newline(s: Seq<char>)
    ensures
        forall|i: int| 0 <= i < scan_lines(s).0.len() ==> has_no_newline(#[trigger] scan_lines(s).0[i]),
        has_no_newline(scan_lines(s).1),
        forall|i: int| 0 <= i < lines_of(s).len() ==> has_no_newline(#[trigger] lines_of(s)[i]),
    decreases s.len(),
{
    if s.len() > 0 {
        lemma_scan_newline(s.drop_last());
        lemma_lines_no_newline(s.drop_last());
        let (d, c) = scan_lines(s.drop_last());
        if s.last() == '\n' {
            if c.len() > 0 && c.last() == '\r' {
                assert forall|i: int| 0 <= i < strip_cr(c).len() implies strip_cr(c)[i] != '\n' by {
                    assert(strip_cr(c)[i] == c[i]);
                }
            }
            assert forall|i: int| 0 <= i < d.push(strip_cr(c)).len() implies has_no_newline(
                #[trigger] d.push(strip_cr(c))[i],
            ) by {
                if i < d.len() {
                    assert(d.push(strip_cr(c))[i] == d[i]);
                }
            }
        } else {
            assert forall|i: int| 0 <= i < c.push(s.last()).len() implies c.push(s.last())[i] != '\n' by {
                if i < c.len() {
                    assert(c.push(s.last())[i] == c[i]);
                }
            }
        }
    }
    let (d, c) = scan_lines(s);
    assert forall|i: int| 0 <= i < lines_of(s).len() implies has_no_newline(#[trigger] lines_of(s)[i]) by {
        if c.len() > 0 && i < d.len() {
            assert(d.push(c)[i] == d[i]);
        }
    }
}

proof fn lemma_kept_lines(ls: Seq<Seq<char>>)
    requires
        forall|i: int| 0 <= i < ls.len() ==> has_no_newline(#[trigger] ls[i]),
    ensures
        forall|i: int| 0 <= i < kept_lines(ls).len() ==> has_no_newline(#[trigger] kept_lines(ls)[i]),
        forall|i: int| 0 <= i < kept_lines(ls).len() ==> !is_replaced(#[trigger] kept_lines(ls)[i]),
    decreases ls.len(),
{
    if ls.len() > 0 {
        let l1 = ls.drop_last();
        assert forall|i: int| 0 <= i < l1.len() implies has_no_newline(#[trigger] l1[i]) by {
            assert(l1[i] == ls[i]);
        }
        lemma_kept_lines(l1);
        let k1 = kept_lines(l1);
        let k = kept_lines(ls);
        assert forall|i: int| 0 <= i < k.len() implies has_no_newline(#[trigger] k[i]) && !is_replaced(k[i]) by {
            if i < k1.len() {
                assert(k[i] == k1[i]);
            } else {
                assert(k[i] == ls[ls.len() - 1]);
            }
        }
    }
}

proof fn lemma_block_lines(es: Seq<Seq<char>>, t: LocalTime)
    requires
        t.wf(),
        entries_on_one_line(es),
    ensures
        has_no_newline(comment_line(t)),
        !is_path_assignment(comment_line(t)),
        is_tool_comment(comment_line(t)),
        comment_line(t).len() > 0,
        comment_line(t).last() != '\r',
        has_no_newline(export_line(es)),
        is_path_assignment(export_line(es)),
        export_line(es).last() == '"',
{
    reveal_strlit("# Updated by pathmaster on ");
    reveal_strlit("export PATH=\"");
    lemma_timestamp_chars(t);
    let c = comment_line(t);
    let ts = timestamp_text(t);
    let cp = comment_prefix();
    assert(cp.len() == 27);
    assert(c.subrange(0, 27) == cp);
    assert forall|i: int| 0 <= i < c.len() implies c[i] != 'P' && c[i] != '\n' && c[i] != '\r' by {
        if i < 27 {
            assert(c[i] == cp[i]);
        } else {
            assert(c[i] == ts[i - 27]);
            assert(is_stamp_char(ts[i - 27]));
        }
    }
    assert forall|p: int| !key_at(c, p) by {
        if key_at(c, p) {
            assert(c.subrange(p, p + 5)[0] == c[p]);
            assert(path_key()[0] == 'P');
        }
    }
    lemma_join_colon(es);
    let x = export_line(es);
    let ep = export_prefix();
    let jc = join_colon(es);
    assert(ep.len() == 13);
    assert forall|i: int| 0 <= i < x.len() implies x[i] != '\n' by {
        if i < 13 {
            assert(x[i] == ep[i]);
        } else if i < 13 + jc.len() {
            assert(x[i] == jc[i - 13]);
        }
    }
    assert(x.subrange(7, 12) =~= path_key());
    assert(key_at(x, 7));
}

proof fn lemma_join_colon(es: Seq<Seq<char>>)
    requires
        entries_on_one_line(es),
    ensures
        has_no_newline(join_colon(es)),
    decreases es.len(),
{
    if es.len() > 1 {
        let e1 = es.drop_last();
        assert forall|i: int| 0 <= i < e1.len() implies has_no_newline(#[trigger] e1[i]) by {
            assert(e1[i] == es[i]);
        }
        lemma_join_colon(e1);
        let a = join_colon(e1);
        let j = join_colon(es);
        assert(has_no_newline(es.last()));
        assert forall|i: int| 0 <= i < j.len() implies j[i] != '\n' by {
            if i < a.len() {
                assert(j[i] == a[i]);
            } else if i > a.len() {
                assert(j[i] == es.last()[i - a.len() - 1]);
            }
        }
    } else if es.len() == 1 {
        assert(has_no_newline(es[0]));
    }
}

/// The lines that the kept lines give once joined and followed by a newline.
pub open spec fn rejoined_lines(k: Seq<Seq<char>>) -> Seq<Seq<char>> {
    if k.len() == 0 {
        seq![Seq::<char>::empty()]
    } else {
        stripped(k)
    }
}

proof fn lemma_rejoined_unassigned(k: Seq<Seq<char>>)
    requires
        forall|i: int| 0 <= i < k.len() ==> has_no_newline(#[trigger] k[i]),
        forall|i: int| 0 <= i < k.len() ==> !is_replaced(#[trigger] k[i]),
    ensures
        scan_lines(join_lines(k).push('\n')) == (rejoined_lines(k), Seq::<char>::empty()),
        forall|i: int| 0 <= i < rejoined_lines(k).len() ==> !is_replaced(#[trigger] rejoined_lines(k)[i]),
{
    let j = join_lines(k);
    let p = rejoined_lines(k);
    lemma_scan_newline(j);
    if k.len() == 0 {
        assert(j == Seq::<char>::empty());
        assert(scan_lines(j) == (Seq::<Seq<char>>::empty(), Seq::<char>::empty()));
        assert(strip_cr(Seq::<char>::empty()) == Seq::<char>::empty());
        assert(scan_lines(j).0.push(strip_cr(scan_lines(j).1)) == p);
    } else {
        lemma_scan_join(k);
        assert(stripped(k.drop_last()).push(strip_cr(k.last())) == p);
    }
    assert forall|i: int| 0 <= i < p.len() implies !is_replaced(#[trigger] p[i]) by {
        if k.len() == 0 {
            reveal_strlit("# Updated by pathmaster on ");
            assert(p[i] == Seq::<char>::empty());
            assert forall|q: int| !key_at(p[i], q) by {}
        } else {
            assert(p[i] == strip_cr(k[i]));
            lemma_strip_cr_keeps(k[i]);
        }
    }
}

proof fn lemma_lines_of_rewritten(content: Seq<char>, es: Seq<Seq<char>>, t: LocalTime)
    requires
        t.wf(),
        entries_on_one_line(es),
    ensures
        lines_of(rewritten(content, es, t)) == rejoined_lines(kept_lines(lines_of(content))).push(
            comment_line(t),
        ).push(export_line(es)),
        forall|i: int| 0 <= i < rejoined_lines(kept_lines(lines_of(content))).len() ==> !is_replaced(
            #[trigger] rejoined_lines(kept_lines(lines_of(content)))[i],
        ),
{
    let ls = lines_of(content);
    lemma_lines_no_newline(content);
    lemma_kept_lines(ls);
    lemma_block_lines(es, t);
    let k = kept_lines(ls);
    let j = join_lines(k);
    let c = comment_line(t);
    let x = export_line(es);
    lemma_rejoined_unassigned(k);
    let p = rejoined_lines(k);
    let a1 = j.push('\n');
    lemma_scan_append_plain(a1, c);
    let a2 = a1 + c;
    lemma_scan_newline(a2);
    let a3 = a2.push('\n');
    lemma_scan_append_plain(a3, x);
    let a4 = a3 + x;
    lemma_scan_newline(a4);
    let o = a4.push('\n');
    assert(o =~= rewritten(content, es, t));
    assert(strip_cr(c) == c);
    assert(strip_cr(x) == x);
    assert(Seq::<char>::empty() + c == c);
    assert(Seq::<char>::empty() + x == x);
}

/// A rewritten startup file holds exactly one line that assigns PATH: the
/// new export line, its last line. Every assignment line of the old text is
/// gone, whatever their number.
pub proof fn lemma_single_assignment_after_update(content: Seq<char>, es: Seq<Seq<char>>, t: LocalTime)
    requires
        t.wf(),
        entries_on_one_line(es),
    ensures
        detected_lines(lines_of(rewritten(content, es, t))).len() == 1,
        detected_lines(lines_of(rewritten(content, es, t)))[0].1 == export_line(es),
        lines_of(rewritten(content, es, t)).last() == export_line(es),
        forall|i: int| 0 <= i < lines_of(rewritten(content, es, t)).len() - 1 ==> !is_path_assignment(
            #[trigger] lines_of(rewritten(content, es, t))[i],
        ),
{
    lemma_lines_of_rewritten(content, es, t);
    lemma_block_lines(es, t);
    let p = rejoined_lines(kept_lines(lines_of(content)));
    let c = comment_line(t);
    let x = export_line(es);
    let lo = p.push(c).push(x);
    assert forall|i: int| 0 <= i < p.len() implies !is_path_assignment(#[trigger] p[i]) by {
        assert(!is_replaced(p[i]));
    }
    lemma_detected_none(p);
    assert(lo.drop_last() == p.push(c));
    assert(p.push(c).drop_last() == p);
    assert(detected_lines(p.push(c)) == detected_lines(p));
    assert(detected_lines(lo) == detected_lines(p.push(c)).push((lo.len() as int, x)));
    assert forall|i: int| 0 <= i < lo.len() - 1 implies !is_path_assignment(#[trigger] lo[i]) by {
        if i < p.len() {
            assert(lo[i] == p[i]);
        } else {
            assert(lo[i] == c);
        }
    }
}

proof fn lemma_export_statement_assigns(l: Seq<char>)
    requires
        word_at(l, 0, export_prefix()),
    ensures
        is_path_assignment(l),
{
    reveal_strlit("export PATH=\"");
    let e = export_prefix();
    assert(e.len() == 13);
    assert(l.subrange(0, 13) == e);
    assert forall|k: int| 0 <= k < 5 implies l.subrange(7, 12)[k] == path_key()[k] by {
        assert(l[7 + k] == l.subrange(0, 13)[7 + k]);
        assert(l.subrange(7, 12)[k] == l[7 + k]);
    }
    assert(l.subrange(7, 12) =~= path_key());
    assert(key_at(l, 7));
}

proof fn lemma_kept_all(ls: Seq<Seq<char>>)
    requires
        forall|i: int| 0 <= i < ls.len() ==> !is_replaced(#[trigger] ls[i]),
    ensures
        kept_lines(ls) == ls,
    decreases ls.len(),
{
    if ls.len() > 0 {
        let l1 = ls.drop_last();
        assert forall|i: int| 0 <= i < l1.len() implies !is_replaced(#[trigger] l1[i]) by {
            assert(l1[i] == ls[i]);
        }
        lemma_kept_all(l1);
        assert(!is_replaced(ls[ls.len() - 1]));
        assert(l1.push(ls.last()) == ls);
    }
}

/// No line of the text ends in a carriage return that `str::lines` kept.
pub open spec fn no_trailing_cr(content: Seq<char>) -> bool {
    forall|i: int| 0 <= i < lines_of(content).len() ==> strip_cr(#[trigger] lines_of(content)[i]) == lines_of(content)[i]
}

/// Updating a startup file a second time with the same entries gives what
/// one update at the second time gives: the two results differ only in the
/// time of the comment. (A last line that ends in a lone carriage return is
/// read back without it, so such texts are left out.)
pub proof fn lemma_update_idempotent(content: Seq<char>, es: Seq<Seq<char>>, t1: LocalTime, t2: LocalTime)
    requires
        t1.wf(),
        t2.wf(),
        entries_on_one_line(es),
        no_trailing_cr(content),
    ensures
        rewritten(rewritten(content, es, t1), es, t2) == rewritten(content, es, t2),
{
    let ls = lines_of(content);
    let k = kept_lines(ls);
    lemma_lines_no_newline(content);
    lemma_kept_lines(ls);
    lemma_lines_of_rewritten(content, es, t1);
    lemma_block_lines(es, t1);
    let p = rejoined_lines(k);
    let c = comment_line(t1);
    let x = export_line(es);
    let lo = p.push(c).push(x);
    assert(lo.drop_last() == p.push(c));
    assert(p.push(c).drop_last() == p);
    assert(lo.last() == x && is_replaced(x));
    assert(kept_lines(lo) == kept_lines(p.push(c)));
    assert(p.push(c).last() == c && is_replaced(c));
    assert(kept_lines(p.push(c)) == kept_lines(p));
    lemma_kept_all(p);
    if k.len() == 0 {
        assert(join_lines(p) == Seq::<char>::empty());
        assert(join_lines(k) == Seq::<char>::empty());
    } else {
        lemma_kept_subseq(ls);
        assert forall|i: int| 0 <= i < k.len() implies strip_cr(#[trigger] k[i]) == k[i] by {
            let j = choose|j: int| 0 <= j < ls.len() && ls[j] == k[i];
            assert(strip_cr(ls[j]) == ls[j]);
        }
        assert(stripped(k) =~= k);
    }
}

proof fn lemma_kept_subseq(ls: Seq<Seq<char>>)
    ensures
        forall|i: int| 0 <= i < kept_lines(ls).len() ==> exists|j: int| 0 <= j < ls.len() && ls[j] == #[trigger] kept_lines(ls)[i],
    decreases ls.len(),
{
    if ls.len() > 0 {
        let l1 = ls.drop_last();
        lemma_kept_subseq(l1);
        let k1 = kept_lines(l1);
        let k = kept_lines(ls);
        assert forall|i: int| 0 <= i < k.len() implies exists|j: int| 0 <= j < ls.len() && ls[j] == #[trigger] k[i] by {
            if i < k1.len() {
                assert(k[i] == k1[i]);
                let j = choose|j: int| 0 <= j < l1.len() && l1[j] == k1[i];
                assert(ls[j] == l1[j]);
            } else {
                assert(k[i] == ls[ls.len() - 1]);
            }
        }
    }
}

/// Updating a startup file twice with the same entries leaves exactly one
/// line that assigns PATH, the export of those entries, whatever the two
/// times; it is the only line that starts with `export PATH="`.
pub proof fn lemma_update_twice(content: Seq<char>, es: Seq<Seq<char>>, t1: LocalTime, t2: LocalTime)
    requires
        t1.wf(),
        t2.wf(),
        entries_on_one_line(es),
    ensures
        detected_lines(lines_of(rewritten(rewritten(content, es, t1), es, t2))).len() == 1,
        detected_lines(lines_of(rewritten(rewritten(content, es, t1), es, t2)))[0].1 == export_line(es),
        forall|i: int| 0 <= i < lines_of(rewritten(rewritten(content, es, t1), es, t2)).len() && word_at(
            #[trigger] lines_of(rewritten(rewritten(content, es, t1), es, t2))[i],
            0,
            export_prefix(),
        ) ==> i == lines_of(rewritten(rewritten(content, es, t1), es, t2)).len() - 1,
{
    let o = rewritten(rewritten(content, es, t1), es, t2);
    lemma_single_assignment_after_update(rewritten(content, es, t1), es, t2);
    assert forall|i: int| 0 <= i < lines_of(o).len() && word_at(#[trigger] lines_of(o)[i], 0, export_prefix())
        implies i == lines_of(o).len() - 1 by {
        lemma_export_statement_assigns(lines_of(o)[i]);
    }
}

proof fn lemma_kept_prefix(ls: Seq<Seq<char>>, i: int)
    requires
        0 <= i <= ls.len(),
    ensures
        kept_lines(ls.subrange(0, i)).len() <= kept_lines(ls).len(),
        kept_lines(ls).subrange(0, kept_lines(ls.subrange(0, i)).len() as int) == kept_lines(ls.subrange(0, i)),
    decreases ls.len() - i,
{
    if i == ls.len() {
        assert(ls.subrange(0, i) == ls);
    } else {
        let l1 = ls.drop_last();
        lemma_kept_prefix(l1, i);
        assert(l1.subrange(0, i) == ls.subrange(0, i));
        let k1 = kept_lines(l1);
        let n = kept_lines(ls.subrange(0, i)).len() as int;
        if !is_path_assignment(ls.last()) {
            assert(k1.push(ls.last()).subrange(0, n) == k1.subrange(0, n));
        }
    }
}

/// Each line of the old text that assigns no PATH, and is no comment of an
/// earlier block, stays in the rewritten
/// text, unchanged and in its order: the `i`-th line comes right after the
/// kept lines that stood before it. The rewritten text is the kept lines
/// followed by the block.
pub proof fn lemma_unassigned_lines_kept(content: Seq<char>, es: Seq<Seq<char>>, t: LocalTime, i: int)
    requires
        0 <= i < lines_of(content).len(),
        !is_replaced(lines_of(content)[i]),
    ensures
        ({
            let ls = lines_of(content);
            let k = kept_lines(ls);
            let before = kept_lines(ls.subrange(0, i)).len() as int;
            &&& before < k.len()
            &&& k[before] == ls[i]
            &&& kept_lines(ls.subrange(0, i + 1)).len() == before + 1
            &&& rewritten(content, es, t) == join_lines(k) + export_block(es, t)
        }),
{
    let ls = lines_of(content);
    lemma_kept_prefix(ls, i + 1);
    let s = ls.subrange(0, i + 1);
    assert(s.drop_last() == ls.subrange(0, i));
    assert(s.last() == ls[i]);
    let k = kept_lines(ls);
    let ks = kept_lines(s);
    let before = kept_lines(ls.subrange(0, i)).len() as int;
    assert(k.subrange(0, ks.len() as int)[before] == k[before]);
}

/// The home directory does not itself read as a variable reference.
pub open spec fn plain_home(home: Option<Seq<char>>) -> bool {
    match home {
        Some(h) => !is_var_ref(h),
        None => true,
    }
}

pub open spec fn no_var_refs(es: Seq<Seq<char>>) -> bool {
    forall|i: int| 0 <= i < es.len() ==> !is_var_ref(#[trigger] es[i])
}

proof fn lemma_segments_no_var(segs: Seq<Seq<char>>, home: Option<Seq<char>>)
    requires
        plain_home(home),
    ensures
        no_var_refs(segment_entries(segs, home)),
    decreases segs.len(),
{
    if segs.len() > 0 {
        lemma_segments_no_var(segs.drop_last(), home);
        let d = segment_entries(segs.drop_last(), home);
        if !is_var_ref(segs.last()) {
            let seg = segs.last();
            let e = tilde_expanded(seg, home);
            if e != seg {
                let h = home->0;
                assert(e == h + seg.drop_first());
                if h.len() > 0 {
                    assert(e[0] == h[0]);
                } else if seg.len() > 1 {
                    assert(e[0] == seg[1]);
                }
            }
            assert(!is_var_ref(e));
            assert forall|i: int| 0 <= i < d.push(e).len() implies !is_var_ref(#[trigger] d.push(e)[i]) by {
                if i < d.len() {
                    assert(d.push(e)[i] == d[i]);
                }
            }
        }
    }
}

proof fn lemma_lines_no_var(ls: Seq<Seq<char>>, home: Option<Seq<char>>, ksh: bool)
    requires
        plain_home(home),
    ensures
        no_var_refs(entries_in_lines(ls, home, ksh)),
    decreases ls.len(),
{
    if ls.len() > 0 {
        lemma_lines_no_var(ls.drop_last(), home, ksh);
        let a = entries_in_lines(ls.drop_last(), home, ksh);
        let b = line_entries(ls.last(), home, ksh);
        match assigned_value(ls.last(), ksh) {
            Some(v) => lemma_segments_no_var(split_colon(v), home),
            None => {},
        }
        assert forall|i: int| 0 <= i < (a + b).len() implies !is_var_ref(#[trigger] (a + b)[i]) by {
            if i < a.len() {
                assert((a + b)[i] == a[i]);
            } else {
                assert((a + b)[i] == b[i - a.len()]);
            }
        }
    }
}

proof fn lemma_first_occurrences_from(s: Seq<Seq<char>>)
    ensures
        forall|i: int| 0 <= i < first_occurrences(s).len() ==> s.contains(#[trigger] first_occurrences(s)[i]),
    decreases s.len(),
{
    if s.len() > 0 {
        let s1 = s.drop_last();
        lemma_first_occurrences_from(s1);
        let d = first_occurrences(s1);
        let f = first_occurrences(s);
        assert forall|i: int| 0 <= i < f.len() implies s.contains(#[trigger] f[i]) by {
            if i < d.len() {
                assert(f[i] == d[i]);
                let j = choose|j: int| 0 <= j < s1.len() && s1[j] == d[i];
                assert(s[j] == s1[j]);
            } else {
                assert(f[i] == s[s.len() - 1]);
            }
        }
    }
}

/// No parsed PATH entry is a shell variable reference such as `$PATH`: such
/// pieces are skipped, in both dialects, with or without duplicates
/// dropped, as long as the home directory itself does not start with `$`.
pub proof fn lemma_no_variable_entries(content: Seq<char>, home: Option<Seq<char>>, ksh: bool)
    requires
        plain_home(home),
    ensures
        no_var_refs(path_entries(content, home, ksh)),
        no_var_refs(first_occurrences(path_entries(content, home, ksh))),
{
    let es = path_entries(content, home, ksh);
    lemma_lines_no_var(lines_of(content), home, ksh);
    lemma_first_occurrences_from(es);
    let f = first_occurrences(es);
    assert forall|i: int| 0 <= i < f.len() implies !is_var_ref(#[trigger] f[i]) by {
        let j = choose|j: int| 0 <= j < es.len() && es[j] == f[i];
    }
}

} // verus!
