//! Skill phase transitions: the `NEXT_SKILL:` / `SUMMARY:` directives that end
//! a skill's output, and the phase-opening context that the next skill sees.

use crate::text::{
    is_ws, lemma_first_nl_at, lemma_first_nl_bounds, lemma_first_nl_none, first_nl, strip_cr,
    trim_start, blank_range, drop_blank_count, drop_blank_tail, has_prefix, is_blank, join_lines, join_ranges,
    line_ranges, lines, starts_with, string_from_chars, string_from_range, to_chars, trim, trim_end,
    trim_end_index, trim_range,
};
use vstd::prelude::*;

verus! {

/// Result of a skill phase transition parsed from an agent's output.
#[derive(Debug, PartialEq, Clone)]
pub struct PhaseTransition {
    pub next_skill: String,
    pub summary: String,
    pub deliverable: String,
}

pub struct PhaseTransitionView {
    pub next_skill: Seq<char>,
    pub summary: Seq<char>,
    pub deliverable: Seq<char>,
}

impl View for PhaseTransition {
    type V = PhaseTransitionView;

    open spec fn view(&self) -> PhaseTransitionView {
        PhaseTransitionView {
            next_skill: self.next_skill@,
            summary: self.summary@,
            deliverable: self.deliverable@,
        }
    }
}

pub open spec fn summary_tag() -> Seq<char> {
    seq!['S', 'U', 'M', 'M', 'A', 'R', 'Y', ':']
}

pub open spec fn next_skill_tag() -> Seq<char> {
    seq!['N', 'E', 'X', 'T', '_', 'S', 'K', 'I', 'L', 'L', ':']
}

/// The transition that `output` announces, if any.
///
/// The output's trailing whitespace is ignored and it is read as lines. Once
/// trailing blank lines are set aside, the last line must read `SUMMARY: <text>`
/// and, again past any blank lines, the line before it `NEXT_SKILL: <id>`, both
/// with non-empty values (each value and each line trimmed). What precedes
/// them, without its trailing blank lines and joined by `'\n'`, is the
/// deliverable, which must not be blank.
pub open spec fn spec_parse_phase_transition(output: Seq<char>) -> Option<PhaseTransitionView> {
    let ls0 = drop_blank_tail(lines(trim_end(output)));
    if ls0.len() < 2 {
        None
    } else {
        let last = trim(ls0.last());
        let summary = trim(last.skip(summary_tag().len() as int));
        let ls1 = drop_blank_tail(ls0.drop_last());
        if !starts_with(last, summary_tag()) || summary.len() == 0 || ls1.len() == 0 {
            None
        } else {
            let nl = trim(ls1.last());
            let next_skill = trim(nl.skip(next_skill_tag().len() as int));
            let deliverable = join_lines(drop_blank_tail(ls1.drop_last()));
            if !starts_with(nl, next_skill_tag()) || next_skill.len() == 0 || is_blank(
                deliverable,
            ) {
                None
            } else {
                Some(PhaseTransitionView { next_skill, summary, deliverable })
            }
        }
    }
}

/// Parse `NEXT_SKILL: <id>` and `SUMMARY: <text>` from the last non-empty lines of output.
/// Both directives must be present (in order) for a transition to be returned.
/// Returns `None` if either directive is missing.
pub fn parse_phase_transition(output: &str) -> (res: Option<PhaseTransition>)
    ensures
        match res {
            Some(t) => spec_parse_phase_transition(output@) == Some(t@),
            None => spec_parse_phase_transition(output@) is None,
        },
{
    let v = to_chars(output);
    let e = trim_end_index(&v, 0, v.len());
    assert(v@.subrange(0, v@.len() as int) =~= v@);
    assert(v@.take(e as int) =~= v@.subrange(0, e as int));
    let (st, en) = line_ranges(&v, e);
    let ghost ls = lines(v@.take(e as int));
    let n0 = drop_blank_count(&v, &st, &en, st.len(), Ghost(ls));
    assert(ls.take(ls.len() as int) =~= ls);
    let ghost ls0 = ls.take(n0 as int);
    if n0 < 2 {
        return None;
    }
    assert(ls0.last() == ls[n0 - 1]);
    let (a, b) = trim_range(&v, st[n0 - 1], en[n0 - 1]);
    let summary_chars: [char; 8] = ['S', 'U', 'M', 'M', 'A', 'R', 'Y', ':'];
    assert(summary_chars@ =~= summary_tag());
    if !has_prefix(&v, a, b, &summary_chars) {
        return None;
    }
    assert(v@.subrange(a as int, b as int).skip(8) =~= v@.subrange(a + 8, b as int));
    let (sa, sb) = trim_range(&v, a + 8, b);
    if sa == sb {
        return None;
    }
    assert(ls0.drop_last() =~= ls.take(n0 - 1));
    let n1 = drop_blank_count(&v, &st, &en, n0 - 1, Ghost(ls));
    let ghost ls1 = ls.take(n1 as int);
    if n1 == 0 {
        return None;
    }
    assert(ls1.last() == ls[n1 - 1]);
    let (c, d) = trim_range(&v, st[n1 - 1], en[n1 - 1]);
    let next_chars: [char; 11] = ['N', 'E', 'X', 'T', '_', 'S', 'K', 'I', 'L', 'L', ':'];
    assert(next_chars@ =~= next_skill_tag());
    if !has_prefix(&v, c, d, &next_chars) {
        return None;
    }
    assert(v@.subrange(c as int, d as int).skip(11) =~= v@.subrange(c + 11, d as int));
    let (na, nb) = trim_range(&v, c + 11, d);
    if na == nb {
        return None;
    }
    assert(ls1.drop_last() =~= ls.take(n1 - 1));
    let n2 = drop_blank_count(&v, &st, &en, n1 - 1, Ghost(ls));
    let body = join_ranges(&v, &st, &en, n2, Ghost(ls));
    assert(body@.subrange(0, body@.len() as int) =~= body@);
    if blank_range(&body, 0, body.len()) {
        return None;
    }
    Some(
        PhaseTransition {
            next_skill: string_from_range(&v, na, nb),
            summary: string_from_range(&v, sa, sb),
            deliverable: string_from_chars(&body),
        },
    )
}

/// `s` has no character `c`.
pub open spec fn lacks(s: Seq<char>, c: char) -> bool {
    forall|i: int| 0 <= i < s.len() ==> s[i] != c
}

/// A directive value as an agent writes one: on one line, not empty, and
/// with no whitespace at either end.
pub open spec fn clean_value(v: Seq<char>) -> bool {
    v.len() > 0 && !is_ws(v[0]) && !is_ws(v.last()) && lacks(v, '\n')
}

/// A deliverable as an agent writes one: not empty, without carriage
/// returns, and ending in a character that is not whitespace.
pub open spec fn clean_deliverable(d: Seq<char>) -> bool {
    d.len() > 0 && !is_ws(d.last()) && lacks(d, '\r')
}

/// The output of a phase that hands over to `next_skill`: the deliverable,
/// then the two directives on lines of their own.
pub open spec fn phase_output(deliverable: Seq<char>, next_skill: Seq<char>, summary: Seq<char>) -> Seq<char> {
    deliverable + seq!['\n'] + next_skill_tag() + seq![' '] + next_skill + seq!['\n'] + summary_tag() + seq![' ']
        + summary
}

proof fn lemma_lines_concat(a: Seq<char>, b: Seq<char>)
    ensures
        lines(a + seq!['\n'] + b) == lines(a + seq!['\n']) + lines(b),
    decreases a.len(),
{
    let s = a + seq!['\n'] + b;
    let t = a + seq!['\n'];
    lemma_first_nl_bounds(a);
    let i = first_nl(a);
    if i >= 0 {
        assert forall|k: int| 0 <= k < i implies s[k] != '\n' by {}
        lemma_first_nl_at(s, i);
        lemma_first_nl_at(t, i);
        lemma_lines_concat(a.skip(i + 1), b);
        assert(s.skip(i + 1) =~= a.skip(i + 1) + seq!['\n'] + b);
        assert(t.skip(i + 1) =~= a.skip(i + 1) + seq!['\n']);
        assert(s.take(i) =~= a.take(i));
        assert(t.take(i) =~= a.take(i));
        let x = strip_cr(a.take(i));
        assert(lines(s) == seq![x] + lines(s.skip(i + 1)));
        assert(lines(t) == seq![x] + lines(t.skip(i + 1)));
        assert(seq![x] + (lines(t.skip(i + 1)) + lines(b)) =~= (seq![x] + lines(t.skip(i + 1))) + lines(b));
    } else {
        assert forall|k: int| 0 <= k < a.len() implies s[k] != '\n' by {}
        lemma_first_nl_at(s, a.len() as int);
        lemma_first_nl_at(t, a.len() as int);
        assert(s.skip(a.len() as int + 1) =~= b);
        assert(t.skip(a.len() as int + 1) =~= Seq::<char>::empty());
        assert(s.take(a.len() as int) =~= a);
        assert(t.take(a.len() as int) =~= a);
        assert(lines(Seq::<char>::empty()) =~= Seq::<Seq<char>>::empty());
        assert(lines(s) == seq![strip_cr(a)] + lines(b));
        assert(lines(t) == seq![strip_cr(a)] + lines(Seq::<char>::empty()));
        assert(lines(t) =~= seq![strip_cr(a)]);
    }
}

/// A line on its own, without newlines, reads as itself.
proof fn lemma_lines_single(a: Seq<char>)
    requires
        a.len() > 0,
        lacks(a, '\n'),
        a.last() != '\r',
    ensures
        lines(a) == seq![a],
        lines(a + seq!['\n']) == seq![a],
{
    lemma_first_nl_none(a);
    let t = a + seq!['\n'];
    assert forall|k: int| 0 <= k < a.len() implies t[k] != '\n' by {}
    lemma_first_nl_at(t, a.len() as int);
    assert(t.take(a.len() as int) =~= a);
    assert(t.skip(a.len() as int + 1) =~= Seq::<char>::empty());
    assert(lines(Seq::<char>::empty()) =~= Seq::<Seq<char>>::empty());
    assert(strip_cr(a) == a);
    assert(lines(t) == seq![strip_cr(a)] + lines(Seq::<char>::empty()));
    assert(lines(t) =~= seq![a]);
}

/// The lines of a clean deliverable: split at its newlines, the last line
/// ending in its last character; joined back they give the deliverable.
proof fn lemma_deliverable_lines(d: Seq<char>)
    requires
        d.len() > 0,
        d.last() != '\n',
        lacks(d, '\r'),
    ensures
        lines(d + seq!['\n']) == lines(d),
        lines(d).len() > 0,
        lines(d).last().len() > 0,
        lines(d).last().last() == d.last(),
        join_lines(lines(d)) == d,
    decreases d.len(),
{
    lemma_first_nl_bounds(d);
    let i = first_nl(d);
    let t = d + seq!['\n'];
    if i >= 0 {
        let rest = d.skip(i + 1);
        assert(rest.len() > 0) by {
            if i == d.len() - 1 {
                assert(d[i] == '\n');
            }
        }
        assert(rest.last() == d.last());
        lemma_deliverable_lines(rest);
        assert forall|k: int| 0 <= k < i implies t[k] != '\n' by {}
        lemma_first_nl_at(t, i);
        assert(t.skip(i + 1) =~= rest + seq!['\n']);
        assert(t.take(i) =~= d.take(i));
        let head = strip_cr(d.take(i));
        assert(head == d.take(i)) by {
            if i > 0 {
                assert(d.take(i).last() == d[i - 1]);
            }
        }
        assert(lines(d) == seq![head] + lines(rest));
        lemma_join_front(head, lines(rest));
        assert(d =~= d.take(i) + seq!['\n'] + rest);
    } else {
        lemma_lines_single(d);
    }
}

/// Joining a line in front of further lines puts a newline between.
proof fn lemma_join_front(x: Seq<char>, rest: Seq<Seq<char>>)
    requires
        rest.len() > 0,
    ensures
        join_lines(seq![x] + rest) == x + seq!['\n'] + join_lines(rest),
    decreases rest.len(),
{
    let all = seq![x] + rest;
    if rest.len() == 1 {
        assert(all.drop_last() =~= seq![x]);
        assert(join_lines(seq![x]) == x);
        assert(join_lines(rest) == rest[0]);
        assert(join_lines(all) == join_lines(seq![x]) + seq!['\n'] + rest[0]);
    } else {
        lemma_join_front(x, rest.drop_last());
        assert(all.drop_last() =~= seq![x] + rest.drop_last());
        assert(all.last() == rest.last());
        assert(join_lines(all) == join_lines(all.drop_last()) + seq!['\n'] + all.last());
        assert(join_lines(rest) == join_lines(rest.drop_last()) + seq!['\n'] + rest.last());
        assert(x + seq!['\n'] + join_lines(rest.drop_last()) + seq!['\n'] + rest.last() =~= x + seq!['\n']
            + (join_lines(rest.drop_last()) + seq!['\n'] + rest.last()));
    }
}

proof fn lemma_trim_end_keeps(s: Seq<char>)
    requires
        s.len() > 0,
        !is_ws(s.last()),
    ensures
        trim_end(s) == s,
{
}

proof fn lemma_trim_start_nonempty(s: Seq<char>)
    requires
        s.len() > 0,
        !is_ws(s.last()),
    ensures
        trim_start(s).len() > 0,
        trim_start(s).last() == s.last(),
    decreases s.len(),
{
    if is_ws(s[0]) {
        lemma_trim_start_nonempty(s.drop_first());
    }
}

/// A directive line reads back its value.
proof fn lemma_directive(tag: Seq<char>, v: Seq<char>)
    requires
        tag.len() > 0,
        !is_ws(tag[0]),
        clean_value(v),
    ensures
        trim(tag + seq![' '] + v) == tag + seq![' '] + v,
        trim((tag + seq![' '] + v).skip(tag.len() as int)) == v,
        starts_with(tag + seq![' '] + v, tag),
{
    let line = tag + seq![' '] + v;
    assert(line.last() == v.last());
    assert(line[0] == tag[0]);
    assert(trim_end(line) == line);
    assert(trim_start(line) == line);
    let after = line.skip(tag.len() as int);
    assert(after =~= seq![' '] + v);
    assert(after.last() == v.last());
    assert(trim_end(after) == after);
    assert(after.drop_first() =~= v);
    assert(trim_start(v) == v);
    assert(trim_start(after) == trim_start(after.drop_first()));
    assert(line.take(tag.len() as int) =~= tag);
}

/// What an agent writes as `deliverable`, `NEXT_SKILL: next_skill` and
/// `SUMMARY: summary` on lines of their own parses back to exactly those
/// three, for clean values and a clean deliverable.
pub proof fn lemma_parse_phase_output(deliverable: Seq<char>, next_skill: Seq<char>, summary: Seq<char>)
    requires
        clean_deliverable(deliverable),
        clean_value(next_skill),
        clean_value(summary),
    ensures
        spec_parse_phase_transition(phase_output(deliverable, next_skill, summary)) == Some(
            PhaseTransitionView { next_skill, summary, deliverable },
        ),
{
    let d = deliverable;
    let nline = next_skill_tag() + seq![' '] + next_skill;
    let sline = summary_tag() + seq![' '] + summary;
    let out = phase_output(d, next_skill, summary);
    assert(out =~= d + seq!['\n'] + (nline + seq!['\n'] + sline));
    assert(d.last() != '\n');
    lemma_deliverable_lines(d);
    lemma_lines_concat(d, nline + seq!['\n'] + sline);
    lemma_lines_concat(nline, sline);
    assert(lacks(nline, '\n') && nline.last() != '\r' && nline.len() > 0) by {
        assert forall|i: int| 0 <= i < nline.len() implies nline[i] != '\n' by {
            if i >= 12 {
                assert(nline[i] == next_skill[i - 12]);
            }
        }
    }
    assert(lacks(sline, '\n') && sline.last() != '\r' && sline.len() > 0) by {
        assert forall|i: int| 0 <= i < sline.len() implies sline[i] != '\n' by {
            if i >= 9 {
                assert(sline[i] == summary[i - 9]);
            }
        }
    }
    lemma_lines_single(nline);
    lemma_lines_single(sline);
    assert(out.last() == summary.last());
    lemma_trim_end_keeps(out);
    let ls = lines(d) + seq![nline] + seq![sline];
    assert(lines(out) =~= ls);
    lemma_directive(summary_tag(), summary);
    lemma_directive(next_skill_tag(), next_skill);
    lemma_trim_start_nonempty(sline);
    lemma_trim_start_nonempty(nline);
    assert(!is_blank(sline));
    assert(drop_blank_tail(ls) == ls);
    assert(ls.drop_last() =~= lines(d) + seq![nline]);
    assert(!is_blank(nline));
    assert(drop_blank_tail(ls.drop_last()) == ls.drop_last());
    assert(ls.drop_last().drop_last() =~= lines(d));
    lemma_trim_start_nonempty(lines(d).last());
    assert(!is_blank(lines(d).last()));
    assert(drop_blank_tail(lines(d)) == lines(d));
    lemma_trim_start_nonempty(d);
    assert(!is_blank(d));
}

} // verus!
