//! Character-level text model shared by the parsers: whitespace, trimming,
//! line splitting and joining, stated over `Seq<char>`.

use vstd::prelude::*;
use vstd::std_specs::iter::IteratorSpec;

verus! {

/// Unicode `White_Space`, the set that `char::is_whitespace` recognises.
pub open spec fn is_ws(c: char) -> bool {
    ||| c == '\t' || c == '\n' || c == '\u{0B}' || c == '\u{0C}' || c == '\r' || c == ' '
    ||| c == '\u{85}' || c == '\u{A0}' || c == '\u{1680}'
    ||| ('\u{2000}' <= c && c <= '\u{200A}')
    ||| c == '\u{2028}' || c == '\u{2029}' || c == '\u{202F}' || c == '\u{205F}'
    ||| c == '\u{3000}'
}

/// Whether `c` is Unicode whitespace.
pub fn is_whitespace(c: char) -> (b: bool)
    ensures
        b == is_ws(c),
{
    c == '\t' || c == '\n' || c == '\u{0B}' || c == '\u{0C}' || c == '\r' || c == ' '
        || c == '\u{85}' || c == '\u{A0}' || c == '\u{1680}' || ('\u{2000}' <= c && c
        <= '\u{200A}') || c == '\u{2028}' || c == '\u{2029}' || c == '\u{202F}' || c
        == '\u{205F}' || c == '\u{3000}'
}

/// `s` with trailing whitespace removed (`str::trim_end`).
pub open spec fn trim_end(s: Seq<char>) -> Seq<char>
    decreases s.len(),
{
    if s.len() > 0 && is_ws(s.last()) {
        trim_end(s.drop_last())
    } else {
        s
    }
}

/// `s` with leading whitespace removed (`str::trim_start`).
pub open spec fn trim_start(s: Seq<char>) -> Seq<char>
    decreases s.len(),
{
    if s.len() > 0 && is_ws(s[0]) {
        trim_start(s.drop_first())
    } else {
        s
    }
}

/// `s` with whitespace removed at both ends (`str::trim`).
pub open spec fn trim(s: Seq<char>) -> Seq<char> {
    trim_start(trim_end(s))
}

/// A line counts as blank when nothing but whitespace is on it.
pub open spec fn is_blank(s: Seq<char>) -> bool {
    trim(s).len() == 0
}

pub open spec fn starts_with(s: Seq<char>, p: Seq<char>) -> bool {
    s.len() >= p.len() && s.take(p.len() as int) == p
}

/// Index of the first `'\n'` in `s`, or -1 when there is none.
pub open spec fn first_nl(s: Seq<char>) -> int
    decreases s.len(),
{
    if s.len() == 0 {
        -1
    } else if s[0] == '\n' {
        0
    } else {
        let r = first_nl(s.drop_first());
        if r < 0 {
            -1
        } else {
            r + 1
        }
    }
}

/// A line terminated by `"\r\n"` loses its `'\r'`.
pub open spec fn strip_cr(l: Seq<char>) -> Seq<char> {
    if l.len() > 0 && l.last() == '\r' {
        l.drop_last()
    } else {
        l
    }
}

/// The lines of `s` as `str::lines` yields them: split at `'\n'`, a `'\r'`
/// before the `'\n'` dropped, and no empty line after a final `'\n'`.
pub open spec fn lines(s: Seq<char>) -> Seq<Seq<char>>
    decreases s.len(),
{
    if s.len() == 0 {
        seq![]
    } else {
        let i = first_nl(s);
        if i < 0 {
            seq![s]
        } else {
            proof {
                lemma_first_nl_bounds(s);
            }
            seq![strip_cr(s.take(i))] + lines(s.skip(i + 1))
        }
    }
}

/// Lines joined by `'\n'` (`[..].join("\n")`).
pub open spec fn join_lines(ls: Seq<Seq<char>>) -> Seq<char>
    decreases ls.len(),
{
    if ls.len() == 0 {
        seq![]
    } else if ls.len() == 1 {
        ls[0]
    } else {
        join_lines(ls.drop_last()) + seq!['\n'] + ls.last()
    }
}

/// Items joined by a separator.
pub open spec fn join_with(ls: Seq<Seq<char>>, sep: Seq<char>) -> Seq<char>
    decreases ls.len(),
{
    if ls.len() == 0 {
        seq![]
    } else if ls.len() == 1 {
        ls[0]
    } else {
        join_with(ls.drop_last(), sep) + sep + ls.last()
    }
}

/// Trailing blank lines removed.
pub open spec fn drop_blank_tail(ls: Seq<Seq<char>>) -> Seq<Seq<char>>
    decreases ls.len(),
{
    if ls.len() > 0 && is_blank(ls.last()) {
        drop_blank_tail(ls.drop_last())
    } else {
        ls
    }
}

pub proof fn lemma_first_nl_bounds(s: Seq<char>)
    ensures
        -1 <= first_nl(s) < s.len(),
        first_nl(s) >= 0 ==> s[first_nl(s)] == '\n',
        forall|k: int| 0 <= k < first_nl(s) ==> s[k] != '\n',
        first_nl(s) < 0 ==> forall|k: int| 0 <= k < s.len() ==> s[k] != '\n',
    decreases s.len(),
{
    if s.len() > 0 && s[0] != '\n' {
        lemma_first_nl_bounds(s.drop_first());
        assert forall|k: int| 0 <= k < first_nl(s) implies s[k] != '\n' by {
            if k > 0 {
                assert(s[k] == s.drop_first()[k - 1]);
            }
        }
        if first_nl(s) < 0 {
            assert forall|k: int| 0 <= k < s.len() implies s[k] != '\n' by {
                if k > 0 {
                    assert(s[k] == s.drop_first()[k - 1]);
                }
            }
        }
    }
}

/// The first newline is found where one is known to stand after a newline-free prefix.
pub proof fn lemma_first_nl_at(s: Seq<char>, j: int)
    requires
        0 <= j < s.len(),
        s[j] == '\n',
        forall|k: int| 0 <= k < j ==> s[k] != '\n',
    ensures
        first_nl(s) == j,
    decreases j,
{
    if j > 0 {
        let t = s.drop_first();
        assert forall|k: int| 0 <= k < j - 1 implies t[k] != '\n' by {
            assert(t[k] == s[k + 1]);
        }
        lemma_first_nl_at(t, j - 1);
    }
}

/// A newline-free text has no first newline.
pub proof fn lemma_first_nl_none(s: Seq<char>)
    requires
        forall|k: int| 0 <= k < s.len() ==> s[k] != '\n',
    ensures
        first_nl(s) == -1,
    decreases s.len(),
{
    if s.len() > 0 {
        let t = s.drop_first();
        assert forall|k: int| 0 <= k < t.len() implies t[k] != '\n' by {
            assert(t[k] == s[k + 1]);
        }
        lemma_first_nl_none(t);
    }
}

/// The characters of `s`, in order.
pub fn to_chars(s: &str) -> (v: Vec<char>)
    ensures
        v@ == s@,
{
    let mut v: Vec<char> = Vec::new();
    proof {
        broadcast use vstd::string::group_string_axioms;
    }
    for c in it: s.chars()
        invariant
            it.seq() == s@,
            v@ == it.seq().take(it.index() as int),
    {
        v.push(c);
    }
    v
}

/// Appends one character (`String::push`).
#[verifier::external_body]
pub(crate) fn push_char(s: &mut String, c: char)
    ensures
        final(s)@ == old(s)@.push(c),
{
    s.push(c);
}

/// The text made of `v[lo..hi]`.
pub fn string_from_range(v: &Vec<char>, lo: usize, hi: usize) -> (s: String)
    requires
        lo <= hi <= v.len(),
    ensures
        s@ == v@.subrange(lo as int, hi as int),
{
    let mut s = String::new();
    let mut i = lo;
    while i < hi
        invariant
            lo <= i <= hi <= v.len(),
            s@ == v@.subrange(lo as int, i as int),
        decreases hi - i,
    {
        push_char(&mut s, v[i]);
        assert(v@.subrange(lo as int, i + 1) =~= v@.subrange(lo as int, i as int).push(v@[i as int]));
        i += 1;
    }
    s
}

/// The text made of all of `v`.
pub fn string_from_chars(v: &Vec<char>) -> (s: String)
    ensures
        s@ == v@,
{
    let s = string_from_range(v, 0, v.len());
    assert(v@.subrange(0, v.len() as int) =~= v@);
    s
}

/// Appends all of `t` to `s`.
pub fn append_str(s: &mut String, t: &str)
    ensures
        final(s)@ == old(s)@ + t@,
{
    let v = to_chars(t);
    let mut i: usize = 0;
    while i < v.len()
        invariant
            0 <= i <= v.len(),
            v@ == t@,
            s@ == old(s)@ + v@.take(i as int),
        decreases v.len() - i,
    {
        push_char(s, v[i]);
        assert(v@.take(i + 1) =~= v@.take(i as int).push(v@[i as int]));
        i += 1;
    }
    assert(v@.take(v.len() as int) =~= v@);
}

pub proof fn lemma_trim_end_step(v: Seq<char>, lo: int, j: int)
    requires
        0 <= lo < j <= v.len(),
        is_ws(v[j - 1]),
    ensures
        trim_end(v.subrange(lo, j)) == trim_end(v.subrange(lo, j - 1)),
{
    assert(v.subrange(lo, j).drop_last() =~= v.subrange(lo, j - 1));
}

pub proof fn lemma_trim_start_step(v: Seq<char>, i: int, hi: int)
    requires
        0 <= i < hi <= v.len(),
        is_ws(v[i]),
    ensures
        trim_start(v.subrange(i, hi)) == trim_start(v.subrange(i + 1, hi)),
{
    assert(v.subrange(i, hi).drop_first() =~= v.subrange(i + 1, hi));
}

/// End of `v[lo..hi]` once trailing whitespace is removed.
pub fn trim_end_index(v: &Vec<char>, lo: usize, hi: usize) -> (e: usize)
    requires
        lo <= hi <= v.len(),
    ensures
        lo <= e <= hi,
        v@.subrange(lo as int, e as int) == trim_end(v@.subrange(lo as int, hi as int)),
{
    let mut j = hi;
    while j > lo && is_whitespace(v[j - 1])
        invariant
            lo <= j <= hi <= v.len(),
            trim_end(v@.subrange(lo as int, hi as int)) == trim_end(
                v@.subrange(lo as int, j as int),
            ),
        decreases j,
    {
        proof {
            lemma_trim_end_step(v@, lo as int, j as int);
        }
        j -= 1;
    }
    j
}

/// `v[lo..hi]` trimmed at both ends, as a range.
pub fn trim_range(v: &Vec<char>, lo: usize, hi: usize) -> (r: (usize, usize))
    requires
        lo <= hi <= v.len(),
    ensures
        lo <= r.0 <= r.1 <= hi,
        v@.subrange(r.0 as int, r.1 as int) == trim(v@.subrange(lo as int, hi as int)),
{
    let e = trim_end_index(v, lo, hi);
    let mut i = lo;
    while i < e && is_whitespace(v[i])
        invariant
            lo <= i <= e <= hi <= v.len(),
            trim_start(v@.subrange(lo as int, e as int)) == trim_start(
                v@.subrange(i as int, e as int),
            ),
        decreases e - i,
    {
        proof {
            lemma_trim_start_step(v@, i as int, e as int);
        }
        i += 1;
    }
    (i, e)
}

/// Whether `v[lo..hi]` starts with `p`.
pub fn has_prefix(v: &Vec<char>, lo: usize, hi: usize, p: &[char]) -> (b: bool)
    requires
        lo <= hi <= v.len(),
    ensures
        b == starts_with(v@.subrange(lo as int, hi as int), p@),
{
    if hi - lo < p.len() {
        return false;
    }
    let mut k: usize = 0;
    while k < p.len()
        invariant
            0 <= k <= p.len(),
            lo + p.len() <= hi <= v.len(),
            forall|m: int| 0 <= m < k ==> v@[lo + m] == p@[m],
        decreases p.len() - k,
    {
        if v[lo + k] != p[k] {
            assert(v@.subrange(lo as int, hi as int).take(p@.len() as int)[k as int] != p@[k as int]);
            return false;
        }
        k += 1;
    }
    assert(v@.subrange(lo as int, hi as int).take(p@.len() as int) =~= p@);
    true
}

/// `st`/`en` hold, line by line, where each of `ls` stands in `v`.
pub open spec fn ranges_match(v: Seq<char>, st: Seq<usize>, en: Seq<usize>, ls: Seq<Seq<char>>) -> bool {
    &&& st.len() == ls.len()
    &&& en.len() == ls.len()
    &&& forall|k: int|
        #![trigger ls[k]]
        #![trigger st[k]]
        #![trigger en[k]]
        0 <= k < ls.len() ==> st[k] <= en[k] <= v.len() && ls[k] == v.subrange(
            st[k] as int,
            en[k] as int,
        )
}

proof fn lemma_lines_step(v: Seq<char>, e: int, start: int, j: int)
    requires
        0 <= start <= j < e <= v.len(),
        v[j] == '\n',
        forall|k: int| start <= k < j ==> v[k] != '\n',
    ensures
        lines(v.take(e).skip(start)) == seq![strip_cr(v.subrange(start, j))] + lines(
            v.take(e).skip(j + 1),
        ),
{
    let t = v.take(e).skip(start);
    assert forall|k: int| 0 <= k < j - start implies t[k] != '\n' by {
        assert(t[k] == v[start + k]);
    }
    assert(t[j - start] == v[j]);
    lemma_first_nl_at(t, j - start);
    assert(t.take(j - start) =~= v.subrange(start, j));
    assert(t.skip(j - start + 1) =~= v.take(e).skip(j + 1));
}

proof fn lemma_lines_last(v: Seq<char>, e: int, start: int)
    requires
        0 <= start <= e <= v.len(),
        forall|k: int| start <= k < e ==> v[k] != '\n',
    ensures
        start < e ==> lines(v.take(e).skip(start)) == seq![v.subrange(start, e)],
        start == e ==> lines(v.take(e).skip(start)) == Seq::<Seq<char>>::empty(),
{
    let t = v.take(e).skip(start);
    assert forall|k: int| 0 <= k < t.len() implies t[k] != '\n' by {
        assert(t[k] == v[start + k]);
    }
    lemma_first_nl_none(t);
    assert(t =~= v.subrange(start, e));
}

/// Where the lines of `v[..e]` stand in `v`.
pub fn line_ranges(v: &Vec<char>, e: usize) -> (r: (Vec<usize>, Vec<usize>))
    requires
        e <= v.len(),
    ensures
        ranges_match(v@, r.0@, r.1@, lines(v@.take(e as int))),
{
    let ghost whole = v@.take(e as int);
    let mut st: Vec<usize> = Vec::new();
    let mut en: Vec<usize> = Vec::new();
    let ghost mut acc: Seq<Seq<char>> = seq![];
    let mut start: usize = 0;
    let mut j: usize = 0;
    assert(whole.skip(0) =~= whole);
    while j < e
        invariant
            0 <= start <= j <= e <= v.len(),
            whole == v@.take(e as int),
            forall|k: int| start <= k < j ==> v@[k] != '\n',
            ranges_match(v@, st@, en@, acc),
            lines(whole) == acc + lines(whole.skip(start as int)),
        decreases e - j,
    {
        if v[j] == '\n' {
            proof {
                lemma_lines_step(v@, e as int, start as int, j as int);
            }
            let end = if j > start && v[j - 1] == '\r' {
                j - 1
            } else {
                j
            };
            assert(v@.subrange(start as int, end as int) == strip_cr(v@.subrange(start as int, j as int))) by {
                if j > start && v@[j - 1] == '\r' {
                    assert(v@.subrange(start as int, j as int).drop_last() =~= v@.subrange(start as int, end as int));
                }
            }
            let ghost old_acc = acc;
            let ghost old_st = st@;
            let ghost old_en = en@;
            proof {
                let line = v@.subrange(start as int, end as int);
                assert(acc.push(line) + lines(whole.skip(j + 1)) =~= acc + (seq![line] + lines(whole.skip(j + 1))));
                acc = acc.push(line);
            }
            st.push(start);
            en.push(end);
            assert forall|k: int| #![trigger acc[k]] #![trigger st@[k]] #![trigger en@[k]] 0 <= k < acc.len() implies st@[k] <= en@[k] <= v@.len() && acc[k] == v@.subrange(st@[k] as int, en@[k] as int) by {
                if k < old_acc.len() {
                    assert(old_acc[k] == v@.subrange(old_st[k] as int, old_en[k] as int));
                    assert(st@[k] == old_st[k] && en@[k] == old_en[k]);
                } else {
                    assert(st@[k] == start && en@[k] == end);
                }
            }
            start = j + 1;
        }
        j += 1;
    }
    proof {
        lemma_lines_last(v@, e as int, start as int);
    }
    if start < e {
        let ghost old_acc = acc;
        let ghost old_st = st@;
        let ghost old_en = en@;
        proof {
            let line = v@.subrange(start as int, e as int);
            assert(acc.push(line) =~= acc + seq![line]);
            acc = acc.push(line);
        }
        st.push(start);
        en.push(e);
        assert forall|k: int| #![trigger acc[k]] #![trigger st@[k]] #![trigger en@[k]] 0 <= k < acc.len() implies st@[k] <= en@[k] <= v@.len() && acc[k] == v@.subrange(st@[k] as int, en@[k] as int) by {
            if k < old_acc.len() {
                assert(old_acc[k] == v@.subrange(old_st[k] as int, old_en[k] as int));
                assert(st@[k] == old_st[k] && en@[k] == old_en[k]);
            } else {
                assert(st@[k] == start && en@[k] == e);
            }
        }
    } else {
        assert(acc + Seq::<Seq<char>>::empty() =~= acc);
    }
    (st, en)
}

/// Whether `v[lo..hi]` is blank.
pub fn blank_range(v: &Vec<char>, lo: usize, hi: usize) -> (b: bool)
    requires
        lo <= hi <= v.len(),
    ensures
        b == is_blank(v@.subrange(lo as int, hi as int)),
{
    let (a, z) = trim_range(v, lo, hi);
    a == z
}

/// How many of the first `n` lines stay once trailing blank lines are dropped.
pub fn drop_blank_count(
    v: &Vec<char>,
    st: &Vec<usize>,
    en: &Vec<usize>,
    n: usize,
    Ghost(ls): Ghost<Seq<Seq<char>>>,
) -> (m: usize)
    requires
        ranges_match(v@, st@, en@, ls),
        n <= ls.len(),
    ensures
        m <= n,
        drop_blank_tail(ls.take(n as int)) == ls.take(m as int),
{
    let mut m = n;
    while m > 0 && blank_range(v, st[m - 1], en[m - 1])
        invariant
            m <= n <= ls.len(),
            ranges_match(v@, st@, en@, ls),
            drop_blank_tail(ls.take(n as int)) == drop_blank_tail(ls.take(m as int)),
        decreases m,
    {
        assert(ls[m - 1] == v@.subrange(st@[m - 1] as int, en@[m - 1] as int));
        assert(ls.take(m as int).drop_last() =~= ls.take(m - 1));
        m -= 1;
    }
    if m > 0 {
        assert(ls[m - 1] == v@.subrange(st@[m - 1] as int, en@[m - 1] as int));
    }
    m
}

/// The first `n` lines joined by `'\n'`.
pub fn join_ranges(
    v: &Vec<char>,
    st: &Vec<usize>,
    en: &Vec<usize>,
    n: usize,
    Ghost(ls): Ghost<Seq<Seq<char>>>,
) -> (out: Vec<char>)
    requires
        ranges_match(v@, st@, en@, ls),
        n <= ls.len(),
    ensures
        out@ == join_lines(ls.take(n as int)),
{
    let mut out: Vec<char> = Vec::new();
    let mut i: usize = 0;
    assert(ls.take(0) =~= Seq::<Seq<char>>::empty());
    while i < n
        invariant
            i <= n <= ls.len(),
            ranges_match(v@, st@, en@, ls),
            out@ == join_lines(ls.take(i as int)),
        decreases n - i,
    {
        let ghost before = out@;
        if i > 0 {
            out.push('\n');
        }
        let a = st[i];
        let b = en[i];
        assert(ls[i as int] == v@.subrange(a as int, b as int));
        assert(out@ =~= (if i > 0 { before + seq!['\n'] } else { before }) + v@.subrange(a as int, a as int));
        let mut k = a;
        while k < b
            invariant
                a <= k <= b <= v.len(),
                out@ == (if i > 0 { before + seq!['\n'] } else { before }) + v@.subrange(a as int, k as int),
            decreases b - k,
        {
            assert(v@.subrange(a as int, k + 1) =~= v@.subrange(a as int, k as int).push(v@[k as int]));
            out.push(v[k]);
            k += 1;
        }
        assert(ls[i as int] == v@.subrange(a as int, b as int));
        assert(ls.take(i + 1).drop_last() =~= ls.take(i as int));
        if i == 0 {
            assert(out@ =~= join_lines(ls.take(1)));
        }
        i += 1;
    }
    out
}

/// Index of the first `c` in `s`, or -1 when there is none.
pub open spec fn first_of(s: Seq<char>, c: char) -> int
    decreases s.len(),
{
    if s.len() == 0 {
        -1
    } else if s[0] == c {
        0
    } else {
        let r = first_of(s.drop_first(), c);
        if r < 0 {
            -1
        } else {
            r + 1
        }
    }
}

pub proof fn lemma_first_of_bounds(s: Seq<char>, c: char)
    ensures
        -1 <= first_of(s, c) < s.len(),
    decreases s.len(),
{
    if s.len() > 0 && s[0] != c {
        lemma_first_of_bounds(s.drop_first(), c);
    }
}

pub proof fn lemma_first_of_at(s: Seq<char>, c: char, j: int)
    requires
        0 <= j < s.len(),
        s[j] == c,
        forall|k: int| 0 <= k < j ==> s[k] != c,
    ensures
        first_of(s, c) == j,
    decreases j,
{
    if j > 0 {
        let t = s.drop_first();
        assert forall|k: int| 0 <= k < j - 1 implies t[k] != c by {
            assert(t[k] == s[k + 1]);
        }
        lemma_first_of_at(t, c, j - 1);
    }
}

pub proof fn lemma_first_of_none(s: Seq<char>, c: char)
    requires
        forall|k: int| 0 <= k < s.len() ==> s[k] != c,
    ensures
        first_of(s, c) == -1,
    decreases s.len(),
{
    if s.len() > 0 {
        let t = s.drop_first();
        assert forall|k: int| 0 <= k < t.len() implies t[k] != c by {
            assert(t[k] == s[k + 1]);
        }
        lemma_first_of_none(t, c);
    }
}

/// The fields of `s` between occurrences of `c` (`str::split`); an empty
/// text has one empty field.
pub open spec fn split(s: Seq<char>, c: char) -> Seq<Seq<char>>
    decreases s.len(),
{
    let i = first_of(s, c);
    if i < 0 {
        seq![s]
    } else {
        proof {
            lemma_first_of_bounds(s, c);
        }
        seq![s.take(i)] + split(s.skip(i + 1), c)
    }
}

proof fn lemma_split_step(v: Seq<char>, hi: int, start: int, j: int, c: char)
    requires
        0 <= start <= j < hi <= v.len(),
        v[j] == c,
        forall|k: int| start <= k < j ==> v[k] != c,
    ensures
        split(v.subrange(start, hi), c) == seq![v.subrange(start, j)] + split(
            v.subrange(j + 1, hi),
            c,
        ),
{
    let t = v.subrange(start, hi);
    assert forall|k: int| 0 <= k < j - start implies t[k] != c by {
        assert(t[k] == v[start + k]);
    }
    assert(t[j - start] == v[j]);
    lemma_first_of_at(t, c, j - start);
    assert(t.take(j - start) =~= v.subrange(start, j));
    assert(t.skip(j - start + 1) =~= v.subrange(j + 1, hi));
}

/// Where the `c`-separated fields of `v[lo..hi]` stand in `v`.
pub fn split_ranges(v: &Vec<char>, lo: usize, hi: usize, c: char) -> (r: (Vec<usize>, Vec<usize>))
    requires
        lo <= hi <= v.len(),
    ensures
        ranges_match(v@, r.0@, r.1@, split(v@.subrange(lo as int, hi as int), c)),
        r.0@.len() >= 1,
{
    let mut st: Vec<usize> = Vec::new();
    let mut en: Vec<usize> = Vec::new();
    let ghost mut acc: Seq<Seq<char>> = seq![];
    let mut start: usize = lo;
    let mut j: usize = lo;
    while j < hi
        invariant
            lo <= start <= j <= hi <= v.len(),
            forall|k: int| start <= k < j ==> v@[k] != c,
            ranges_match(v@, st@, en@, acc),
            split(v@.subrange(lo as int, hi as int), c) == acc + split(
                v@.subrange(start as int, hi as int),
                c,
            ),
        decreases hi - j,
    {
        if v[j] == c {
            proof {
                lemma_split_step(v@, hi as int, start as int, j as int, c);
            }
            let ghost old_acc = acc;
            let ghost old_st = st@;
            let ghost old_en = en@;
            proof {
                let f = v@.subrange(start as int, j as int);
                assert(acc.push(f) + split(v@.subrange(j + 1, hi as int), c) =~= acc + (seq![f]
                    + split(v@.subrange(j + 1, hi as int), c)));
                acc = acc.push(f);
            }
            st.push(start);
            en.push(j);
            assert forall|k: int|
                #![trigger acc[k]]
                #![trigger st@[k]]
                #![trigger en@[k]]
                0 <= k < acc.len() implies st@[k] <= en@[k] <= v@.len() && acc[k] == v@.subrange(
                    st@[k] as int,
                    en@[k] as int,
                ) by {
                if k < old_acc.len() {
                    assert(old_acc[k] == v@.subrange(old_st[k] as int, old_en[k] as int));
                    assert(st@[k] == old_st[k] && en@[k] == old_en[k]);
                } else {
                    assert(st@[k] == start && en@[k] == j);
                }
            }
            start = j + 1;
        }
        j += 1;
    }
    let ghost t = v@.subrange(start as int, hi as int);
    proof {
        assert forall|k: int| 0 <= k < t.len() implies t[k] != c by {
            assert(t[k] == v@[start + k]);
        }
        lemma_first_of_none(t, c);
    }
    let ghost old_acc = acc;
    let ghost old_st = st@;
    let ghost old_en = en@;
    proof {
        assert(acc.push(t) =~= acc + seq![t]);
        acc = acc.push(t);
    }
    st.push(start);
    en.push(hi);
    assert forall|k: int|
        #![trigger acc[k]]
        #![trigger st@[k]]
        #![trigger en@[k]]
        0 <= k < acc.len() implies st@[k] <= en@[k] <= v@.len() && acc[k] == v@.subrange(
            st@[k] as int,
            en@[k] as int,
        ) by {
        if k < old_acc.len() {
            assert(old_acc[k] == v@.subrange(old_st[k] as int, old_en[k] as int));
            assert(st@[k] == old_st[k] && en@[k] == old_en[k]);
        } else {
            assert(st@[k] == start && en@[k] == hi);
        }
    }
    (st, en)
}


/// The views of a list of strings.
pub open spec fn views(ps: Seq<String>) -> Seq<Seq<char>> {
    ps.map_values(|p: String| p@)
}

/// The parts joined by `sep`.
pub fn join_strings(parts: &Vec<String>, sep: &str) -> (s: String)
    ensures
        s@ == join_with(views(parts@), sep@),
{
    let mut s = String::new();
    let mut i: usize = 0;
    let ghost ps = views(parts@);
    while i < parts.len()
        invariant
            i <= parts@.len(),
            ps == views(parts@),
            s@ == join_with(ps.take(i as int), sep@),
        decreases parts.len() - i,
    {
        if i > 0 {
            append_str(&mut s, sep);
        }
        append_str(&mut s, parts[i].as_str());
        assert(ps.take(i + 1).drop_last() =~= ps.take(i as int));
        assert(ps[i as int] == parts@[i as int]@);
        if i == 0 {
            assert(s@ =~= join_with(ps.take(1), sep@));
        }
        i += 1;
    }
    assert(ps.take(parts@.len() as int) =~= ps);
    s
}

} // verus!
