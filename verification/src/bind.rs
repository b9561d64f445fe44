//! Secure-by-default HTTP bind policy: a non-loopback listen address needs an
//! API key or an explicit opt-out.

use crate::text::{
    first_of, lemma_first_of_at, lemma_first_of_none, ranges_match, split, split_ranges,
    to_chars, trim,
};
use vstd::prelude::*;

verus! {

pub open spec fn is_digit(c: char) -> bool {
    '0' <= c && c <= '9'
}

/// Value of a hexadecimal digit, or -1 for any other character.
pub open spec fn hex_digit_value(c: char) -> int {
    if '0' <= c && c <= '9' {
        c as int - '0' as int
    } else if 'a' <= c && c <= 'f' {
        c as int - 'a' as int + 10
    } else if 'A' <= c && c <= 'F' {
        c as int - 'A' as int + 10
    } else {
        -1
    }
}

pub open spec fn dec_value(f: Seq<char>) -> int
    decreases f.len(),
{
    if f.len() == 0 {
        0
    } else {
        dec_value(f.drop_last()) * 10 + (f.last() as int - '0' as int)
    }
}

pub open spec fn hex_value(f: Seq<char>) -> int
    decreases f.len(),
{
    if f.len() == 0 {
        0
    } else {
        hex_value(f.drop_last()) * 16 + hex_digit_value(f.last())
    }
}

/// A decimal octet as an IPv4 literal writes it: one to three digits, no
/// leading zero, at most 255.
pub open spec fn dec_octet(f: Seq<char>) -> bool {
    &&& 1 <= f.len() <= 3
    &&& forall|i: int| 0 <= i < f.len() ==> is_digit(#[trigger] f[i])
    &&& (f.len() == 1 || f[0] != '0')
    &&& dec_value(f) <= 255
}

/// A group of an IPv6 literal: one to four hexadecimal digits.
pub open spec fn hex_group(f: Seq<char>) -> bool {
    &&& 1 <= f.len() <= 4
    &&& forall|i: int| 0 <= i < f.len() ==> hex_digit_value(#[trigger] f[i]) >= 0
}

/// A dotted-quad IPv4 literal.
pub open spec fn ipv4_text(s: Seq<char>) -> bool {
    let p = split(s, '.');
    p.len() == 4 && forall|i: int| 0 <= i < 4 ==> dec_octet(#[trigger] p[i])
}

/// The two 16-bit groups that an IPv4 literal stands for inside an IPv6 one.
pub open spec fn ipv4_pair(s: Seq<char>) -> Seq<int> {
    let p = split(s, '.');
    seq![dec_value(p[0]) * 256 + dec_value(p[1]), dec_value(p[2]) * 256 + dec_value(p[3])]
}

pub open spec fn all_hex_groups(fs: Seq<Seq<char>>) -> bool {
    forall|i: int| 0 <= i < fs.len() ==> hex_group(#[trigger] fs[i])
}

pub open spec fn hex_values(fs: Seq<Seq<char>>) -> Seq<int> {
    fs.map_values(|f: Seq<char>| hex_value(f))
}

/// Values of `:`-separated groups, the last of which may be an IPv4 literal.
pub open spec fn group_values(fs: Seq<Seq<char>>) -> Option<Seq<int>> {
    if all_hex_groups(fs) {
        Some(hex_values(fs))
    } else if fs.len() > 0 && all_hex_groups(fs.drop_last()) && ipv4_text(fs.last()) {
        Some(hex_values(fs.drop_last()) + ipv4_pair(fs.last()))
    } else {
        None
    }
}

/// The `:`-separated fields of a part of an IPv6 literal; an empty part has none.
pub open spec fn colon_fields(s: Seq<char>) -> Seq<Seq<char>> {
    if s.len() == 0 {
        seq![]
    } else {
        split(s, ':')
    }
}

pub open spec fn dc_at(s: Seq<char>, k: int) -> bool {
    s[k] == ':' && s[k + 1] == ':'
}

/// Index of the first `"::"` in `s`, or -1.
pub open spec fn first_double_colon(s: Seq<char>) -> int
    decreases s.len(),
{
    if s.len() < 2 {
        -1
    } else if s[0] == ':' && s[1] == ':' {
        0
    } else {
        let r = first_double_colon(s.drop_first());
        if r < 0 {
            -1
        } else {
            r + 1
        }
    }
}

/// The eight 16-bit groups that an IPv6 literal denotes, if `s` is one.
///
/// Without `"::"` the literal has eight groups (the last two may be written
/// as an IPv4 literal). With it, the groups before and after the first `"::"`
/// number at most seven, an IPv4 literal may end the part after it, and
/// `"::"` stands for the zero groups in between.
pub open spec fn ipv6_value(s: Seq<char>) -> Option<Seq<int>> {
    let i = first_double_colon(s);
    if i >= 0 {
        let head = colon_fields(s.take(i));
        let tail = colon_fields(s.skip(i + 2));
        match group_values(tail) {
            Some(tv) => if all_hex_groups(head) && head.len() + tv.len() <= 7 {
                Some(
                    hex_values(head) + Seq::new((8 - head.len() - tv.len()) as nat, |k: int| 0int)
                        + tv,
                )
            } else {
                None
            },
            None => None,
        }
    } else {
        match group_values(split(s, ':')) {
            Some(v) => if v.len() == 8 {
                Some(v)
            } else {
                None
            },
            None => None,
        }
    }
}

/// Code of `c` with ASCII upper case mapped to lower case.
pub open spec fn ascii_lower(c: char) -> int {
    if 'A' <= c && c <= 'Z' {
        c as int + 32
    } else {
        c as int
    }
}

pub open spec fn localhost() -> Seq<char> {
    seq!['l', 'o', 'c', 'a', 'l', 'h', 'o', 's', 't']
}

/// `s` equals `t` up to ASCII case.
pub open spec fn eq_ignore_ascii_case(s: Seq<char>, t: Seq<char>) -> bool {
    s.len() == t.len() && forall|i: int| 0 <= i < s.len() ==> ascii_lower(#[trigger] s[i]) == ascii_lower(t[i])
}

/// `host` names the local machine: `localhost` in any ASCII case, an IPv4
/// literal in 127.0.0.0/8, or the IPv6 literal `::1` in any of its spellings.
/// A host name that is not an IP literal does not count.
pub open spec fn spec_is_loopback_host(host: Seq<char>) -> bool {
    ||| eq_ignore_ascii_case(host, localhost())
    ||| (ipv4_text(host) && dec_value(split(host, '.')[0]) == 127)
    ||| ipv6_value(host) == Some(seq![0int, 0, 0, 0, 0, 0, 0, 1])
}

proof fn lemma_dec_step(f: Seq<char>, k: int)
    requires
        0 <= k < f.len(),
    ensures
        dec_value(f.take(k + 1)) == dec_value(f.take(k)) * 10 + (f[k] as int - '0' as int),
        hex_value(f.take(k + 1)) == hex_value(f.take(k)) * 16 + hex_digit_value(f[k]),
{
    assert(f.take(k + 1).drop_last() =~= f.take(k));
}

/// Value of `v[a..b]` read as a decimal octet, if it is one.
fn octet_value(v: &Vec<char>, a: usize, b: usize) -> (r: Option<u32>)
    requires
        a <= b <= v.len(),
    ensures
        match r {
            Some(x) => dec_octet(v@.subrange(a as int, b as int)) && x as int == dec_value(
                v@.subrange(a as int, b as int),
            ),
            None => !dec_octet(v@.subrange(a as int, b as int)),
        },
{
    let ghost f = v@.subrange(a as int, b as int);
    if b - a < 1 || b - a > 3 {
        return None;
    }
    if b - a > 1 && v[a] == '0' {
        assert(f[0] == v@[a as int]);
        return None;
    }
    let mut val: u32 = 0;
    let mut k: usize = 0;
    while k < b - a
        invariant
            a + k <= b <= v.len(),
            b - a <= 3,
            f == v@.subrange(a as int, b as int),
            forall|i: int| 0 <= i < k ==> is_digit(#[trigger] f[i]),
            val as int == dec_value(f.take(k as int)),
            val as int <= (if k == 0 {
                0int
            } else if k == 1 {
                9
            } else if k == 2 {
                99
            } else {
                999
            }),
        decreases b - a - k,
    {
        let c = v[a + k];
        assert(c == f[k as int]);
        if !('0' <= c && c <= '9') {
            return None;
        }
        proof {
            lemma_dec_step(f, k as int);
        }
        val = val * 10 + (c as u32 - '0' as u32);
        k += 1;
    }
    assert(f.take(f.len() as int) =~= f);
    if val > 255 {
        return None;
    }
    Some(val)
}

/// Value of `v[a..b]` read as an IPv6 group, if it is one.
fn group_value(v: &Vec<char>, a: usize, b: usize) -> (r: Option<u32>)
    requires
        a <= b <= v.len(),
    ensures
        match r {
            Some(x) => hex_group(v@.subrange(a as int, b as int)) && x as int == hex_value(
                v@.subrange(a as int, b as int),
            ),
            None => !hex_group(v@.subrange(a as int, b as int)),
        },
{
    let ghost f = v@.subrange(a as int, b as int);
    if b - a < 1 || b - a > 4 {
        return None;
    }
    let mut val: u32 = 0;
    let mut k: usize = 0;
    while k < b - a
        invariant
            a + k <= b <= v.len(),
            b - a <= 4,
            f == v@.subrange(a as int, b as int),
            forall|i: int| 0 <= i < k ==> hex_digit_value(#[trigger] f[i]) >= 0,
            val as int == hex_value(f.take(k as int)),
            val as int <= (if k == 0 {
                0int
            } else if k == 1 {
                15
            } else if k == 2 {
                255
            } else if k == 3 {
                4095
            } else {
                65535
            }),
        decreases b - a - k,
    {
        let c = v[a + k];
        assert(c == f[k as int]);
        let d: u32 = if '0' <= c && c <= '9' {
            c as u32 - '0' as u32
        } else if 'a' <= c && c <= 'f' {
            c as u32 - 'a' as u32 + 10
        } else if 'A' <= c && c <= 'F' {
            c as u32 - 'A' as u32 + 10
        } else {
            return None;
        };
        proof {
            lemma_dec_step(f, k as int);
        }
        val = val * 16 + d;
        k += 1;
    }
    assert(f.take(f.len() as int) =~= f);
    Some(val)
}

/// The four octets of `v[a..b]` read as an IPv4 literal, if it is one.
fn ipv4_octets(v: &Vec<char>, a: usize, b: usize) -> (r: Option<Vec<u32>>)
    requires
        a <= b <= v.len(),
    ensures
        match r {
            Some(o) => ipv4_text(v@.subrange(a as int, b as int)) && o@.len() == 4 && forall|
                i: int,
            |
                0 <= i < 4 ==> #[trigger] o@[i] as int == dec_value(
                    split(v@.subrange(a as int, b as int), '.')[i],
                ),
            None => !ipv4_text(v@.subrange(a as int, b as int)),
        },
{
    let ghost p = split(v@.subrange(a as int, b as int), '.');
    let (st, en) = split_ranges(v, a, b, '.');
    if st.len() != 4 {
        return None;
    }
    let mut o: Vec<u32> = Vec::new();
    let mut i: usize = 0;
    while i < 4
        invariant
            0 <= i <= 4,
            st@.len() == 4,
            ranges_match(v@, st@, en@, p),
            p == split(v@.subrange(a as int, b as int), '.'),
            o@.len() == i,
            forall|k: int| 0 <= k < i ==> dec_octet(#[trigger] p[k]),
            forall|k: int| 0 <= k < i ==> #[trigger] o@[k] as int == dec_value(p[k]),
        decreases 4 - i,
    {
        assert(p[i as int] == v@.subrange(st@[i as int] as int, en@[i as int] as int));
        match octet_value(v, st[i], en[i]) {
            Some(x) => {
                o.push(x);
            },
            None => {
                return None;
            },
        }
        i += 1;
    }
    Some(o)
}

/// Index of the first `"::"` in `v`, if any.
fn find_double_colon(v: &Vec<char>) -> (r: Option<usize>)
    ensures
        match r {
            Some(i) => i + 1 < v.len() && first_double_colon(v@) == i,
            None => first_double_colon(v@) < 0,
        },
{
    let mut i: usize = 0;
    while i < v.len() && i + 1 < v.len()
        invariant
            forall|k: int| 0 <= k < i ==> !#[trigger] dc_at(v@, k),
            i <= v.len(),
        decreases v.len() - i,
    {
        if v[i] == ':' && v[i + 1] == ':' {
            proof {
                lemma_double_colon_at(v@, i as int);
            }
            return Some(i);
        }
        i += 1;
    }
    proof {
        lemma_double_colon_none(v@);
    }
    None
}

proof fn lemma_double_colon_at(s: Seq<char>, j: int)
    requires
        0 <= j,
        j + 1 < s.len(),
        s[j] == ':' && s[j + 1] == ':',
        forall|k: int| 0 <= k < j ==> !#[trigger] dc_at(s, k),
    ensures
        first_double_colon(s) == j,
    decreases j,
{
    if j > 0 {
        let t = s.drop_first();
        assert forall|k: int| 0 <= k < j - 1 implies !#[trigger] dc_at(t, k) by {
            assert(t[k] == s[k + 1] && t[k + 1] == s[k + 2]);
            assert(!dc_at(s, k + 1));
        }
        assert(t[j - 1] == s[j] && t[j] == s[j + 1]);
        lemma_double_colon_at(t, j - 1);
        assert(!dc_at(s, 0));
    }
}

proof fn lemma_double_colon_none(s: Seq<char>)
    requires
        forall|k: int| 0 <= k && k + 1 < s.len() ==> !#[trigger] dc_at(s, k),
    ensures
        first_double_colon(s) < 0,
    decreases s.len(),
{
    if s.len() >= 2 {
        let t = s.drop_first();
        assert forall|k: int| 0 <= k && k + 1 < t.len() implies !#[trigger] dc_at(t, k) by {
            assert(t[k] == s[k + 1] && t[k + 1] == s[k + 2]);
            assert(!dc_at(s, k + 1));
        }
        lemma_double_colon_none(t);
        assert(!dc_at(s, 0));
    }
}

/// Values of the `:`-separated fields of `v[a..b]` as `group_values` reads them.
fn fields_values(v: &Vec<char>, a: usize, b: usize, empty_is_none: bool) -> (r: Option<
    Vec<u32>,
>)
    requires
        a <= b <= v.len(),
    ensures
        ({
            let fs = if empty_is_none {
                colon_fields(v@.subrange(a as int, b as int))
            } else {
                split(v@.subrange(a as int, b as int), ':')
            };
            match r {
                Some(x) => group_values(fs) is Some && x@.map_values(|y: u32| y as int)
                    == group_values(fs)->0,
                None => group_values(fs) is None,
            }
        }),
{
    let ghost s = v@.subrange(a as int, b as int);
    let ghost fs = if empty_is_none {
        colon_fields(s)
    } else {
        split(s, ':')
    };
    if empty_is_none && a == b {
        let out: Vec<u32> = Vec::new();
        assert(fs =~= Seq::<Seq<char>>::empty());
        assert(all_hex_groups(fs));
        assert(out@.map_values(|y: u32| y as int) =~= hex_values(fs));
        return Some(out);
    }
    let (st, en) = split_ranges(v, a, b, ':');
    assert(fs == split(s, ':'));
    let n = st.len();
    let mut out: Vec<u32> = Vec::new();
    let mut i: usize = 0;
    while i < n
        invariant
            0 <= i <= n,
            n == st@.len(),
            n >= 1,
            ranges_match(v@, st@, en@, fs),
            fs == (if empty_is_none {
                colon_fields(v@.subrange(a as int, b as int))
            } else {
                split(v@.subrange(a as int, b as int), ':')
            }),
            out@.len() == i,
            forall|k: int| 0 <= k < i ==> hex_group(#[trigger] fs[k]),
            forall|k: int| 0 <= k < i ==> #[trigger] out@[k] as int == hex_value(fs[k]),
        decreases n - i,
    {
        assert(fs[i as int] == v@.subrange(st@[i as int] as int, en@[i as int] as int));
        match group_value(v, st[i], en[i]) {
            Some(x) => {
                out.push(x);
            },
            None => {
                if i + 1 == n {
                    // The last field may be an IPv4 literal.
                    match ipv4_octets(v, st[i], en[i]) {
                        Some(o) => {
                            let ghost p = split(fs[i as int], '.');
                            assert(dec_octet(p[0]) && dec_octet(p[1]) && dec_octet(p[2])
                                && dec_octet(p[3]));
                            assert(o@[0] as int == dec_value(p[0]) && o@[1] as int == dec_value(p[1])
                                && o@[2] as int == dec_value(p[2]) && o@[3] as int == dec_value(p[3]));
                            let hi = o[0] * 256 + o[1];
                            let lo = o[2] * 256 + o[3];
                            out.push(hi);
                            out.push(lo);
                            assert(!all_hex_groups(fs));
                            assert(fs.drop_last().len() == i);
                            assert forall|k: int| 0 <= k < fs.drop_last().len() implies hex_group(#[trigger] fs.drop_last()[k]) by {
                                assert(fs.drop_last()[k] == fs[k]);
                            }
                            assert(all_hex_groups(fs.drop_last()));
                            assert(fs.last() == fs[i as int]);
                            let ghost want = hex_values(fs.drop_last()) + ipv4_pair(fs.last());
                            let ghost got = out@.map_values(|y: u32| y as int);
                            assert(got.len() == want.len());
                            assert forall|k: int| 0 <= k < got.len() implies got[k] == want[k] by {
                                if k < i {
                                    assert(fs.drop_last()[k] == fs[k]);
                                    assert(out@[k] as int == hex_value(fs[k]));
                                }
                            }
                            assert(got =~= want);
                            assert(group_values(fs) == Some(want));
                            return Some(out);
                        },
                        None => {
                            assert(!hex_group(fs[i as int]));
                            assert(!all_hex_groups(fs));
                            assert(fs.last() == fs[i as int]);
                            assert(!ipv4_text(fs.last()));
                            assert(group_values(fs) is None);
                            return None;
                        },
                    }
                } else {
                    assert(!hex_group(fs[i as int]));
                    assert(!all_hex_groups(fs));
                    assert(!all_hex_groups(fs.drop_last())) by {
                        assert(fs.drop_last()[i as int] == fs[i as int]);
                    }
                    return None;
                }
            },
        }
        i += 1;
    }
    assert(all_hex_groups(fs));
    assert(out@.map_values(|y: u32| y as int) =~= hex_values(fs));
    Some(out)
}

/// The eight groups of the IPv6 literal `v`, if it is one.
fn ipv6_groups(v: &Vec<char>) -> (r: Option<Vec<u32>>)
    ensures
        match r {
            Some(x) => x@.len() == 8 && ipv6_value(v@) is Some && x@.map_values(|y: u32| y as int) == ipv6_value(
                v@,
            )->0,
            None => ipv6_value(v@) is None,
        },
{
    match find_double_colon(v) {
        Some(i) => {
            assert(v@.take(i as int) =~= v@.subrange(0, i as int));
            assert(v@.skip(i + 2) =~= v@.subrange(i + 2, v@.len() as int));
            let head = match fields_values(v, 0, i, true) {
                Some(h) => h,
                None => {
                    return None;
                },
            };
            let tail = match fields_values(v, i + 2, v.len(), true) {
                Some(t) => t,
                None => {
                    return None;
                },
            };
            let ghost hf = colon_fields(v@.take(i as int));
            assert(group_values(hf) is Some);
            if !(head.len() <= 7 && tail.len() <= 7 - head.len()) {
                return None;
            }
            // The head must hold plain groups only: a trailing IPv4 literal there is refused.
            if !all_plain_groups(v, 0, i) {
                return None;
            }
            assert(all_hex_groups(hf));
            let mut out: Vec<u32> = Vec::new();
            let mut k: usize = 0;
            while k < head.len()
                invariant
                    k <= head.len(),
                    out@ =~= head@.take(k as int),
                decreases head.len() - k,
            {
                out.push(head[k]);
                k += 1;
            }
            let zeros = 8 - head.len() - tail.len();
            let mut z: usize = 0;
            while z < zeros
                invariant
                    z <= zeros,
                    out@ =~= head@ + Seq::new(z as nat, |j: int| 0u32),
                decreases zeros - z,
            {
                out.push(0);
                z += 1;
            }
            let mut t: usize = 0;
            while t < tail.len()
                invariant
                    t <= tail.len(),
                    out@ =~= head@ + Seq::new(zeros as nat, |j: int| 0u32) + tail@.take(t as int),
                decreases tail.len() - t,
            {
                out.push(tail[t]);
                t += 1;
            }
            assert(tail@.take(tail@.len() as int) =~= tail@);
            assert(out@.map_values(|y: u32| y as int) =~= hex_values(hf) + Seq::new(
                (8 - hf.len() - tail@.len()) as nat,
                |j: int| 0int,
            ) + tail@.map_values(|y: u32| y as int));
            Some(out)
        },
        None => {
            assert(v@.subrange(0, v@.len() as int) =~= v@);
            match fields_values(v, 0, v.len(), false) {
                Some(x) => {
                    if x.len() == 8 {
                        Some(x)
                    } else {
                        None
                    }
                },
                None => None,
            }
        },
    }
}

/// Whether every `:`-separated field of `v[a..b]` is a plain hexadecimal group
/// (an empty range has none).
fn all_plain_groups(v: &Vec<char>, a: usize, b: usize) -> (r: bool)
    requires
        a <= b <= v.len(),
    ensures
        r == all_hex_groups(colon_fields(v@.subrange(a as int, b as int))),
{
    let ghost fs = colon_fields(v@.subrange(a as int, b as int));
    if a == b {
        assert(fs =~= Seq::<Seq<char>>::empty());
        return true;
    }
    let (st, en) = split_ranges(v, a, b, ':');
    assert(fs == split(v@.subrange(a as int, b as int), ':'));
    let mut i: usize = 0;
    while i < st.len()
        invariant
            0 <= i <= st@.len(),
            ranges_match(v@, st@, en@, fs),
            fs == colon_fields(v@.subrange(a as int, b as int)),
            forall|k: int| 0 <= k < i ==> hex_group(#[trigger] fs[k]),
        decreases st.len() - i,
    {
        assert(fs[i as int] == v@.subrange(st@[i as int] as int, en@[i as int] as int));
        if group_value(v, st[i], en[i]).is_none() {
            assert(!hex_group(fs[i as int]));
            return false;
        }
        i += 1;
    }
    true
}

pub(crate) fn ascii_lower_char(c: char) -> (d: u32)
    ensures
        d == ascii_lower(c),
{
    if 'A' <= c && c <= 'Z' {
        (c as u32) + 32
    } else {
        c as u32
    }
}

/// Whether `host` names the local machine.
pub fn is_loopback_host(host: &str) -> (b: bool)
    ensures
        b == spec_is_loopback_host(host@),
{
    let v = to_chars(host);
    let name: [char; 9] = ['l', 'o', 'c', 'a', 'l', 'h', 'o', 's', 't'];
    assert(name@ =~= localhost());
    let mut same = v.len() == 9;
    if same {
        let mut i: usize = 0;
        while i < 9
            invariant
                v@.len() == 9,
                i <= 9,
                name@ == localhost(),
                same == forall|k: int| 0 <= k < i ==> ascii_lower(#[trigger] v@[k]) == ascii_lower(
                    localhost()[k],
                ),
            decreases 9 - i,
        {
            if ascii_lower_char(v[i]) != ascii_lower_char(name[i]) {
                same = false;
            }
            i += 1;
        }
    }
    if same {
        return true;
    }
    assert(v@.subrange(0, v@.len() as int) =~= v@);
    match ipv4_octets(&v, 0, v.len()) {
        Some(o) => {
            if o[0] == 127 {
                return true;
            }
        },
        None => {},
    }
    match ipv6_groups(&v) {
        Some(g) => {
            let loop6 = g[0] == 0 && g[1] == 0 && g[2] == 0 && g[3] == 0 && g[4] == 0 && g[5] == 0
                && g[6] == 0 && g[7] == 1;
            proof {
                let gv = g@.map_values(|y: u32| y as int);
                assert(gv.len() == 8);
                if loop6 {
                    assert(gv =~= seq![0int, 0, 0, 0, 0, 0, 0, 1]);
                } else {
                    assert(gv[0] == g@[0] as int && gv[1] == g@[1] as int && gv[2] == g@[2] as int
                        && gv[3] == g@[3] as int && gv[4] == g@[4] as int && gv[5] == g@[5] as int
                        && gv[6] == g@[6] as int && gv[7] == g@[7] as int);
                    assert(gv != seq![0int, 0, 0, 0, 0, 0, 0, 1]) by {
                        if gv == seq![0int, 0, 0, 0, 0, 0, 0, 1] {
                            assert(gv[7] == 1);
                        }
                    }
                }
            }
            loop6
        },
        None => false,
    }
}

/// A non-empty value once trimmed counts as a configured API key.
pub open spec fn spec_key_configured(value: Option<Seq<char>>) -> bool {
    match value {
        Some(v) => trim(v).len() > 0,
        None => false,
    }
}

/// An API key counts as configured only when present and non-empty after
/// trimming: an empty value (such as compose's `${API_KEY:-}` default) is unset.
pub fn api_key_configured(value: Option<&str>) -> (b: bool)
    ensures
        b == spec_key_configured(
            match value {
                Some(v) => Some(v@),
                None => None,
            },
        ),
{
    match value {
        Some(s) => {
            let v = to_chars(s);
            let (a, z) = crate::text::trim_range(&v, 0, v.len());
            assert(v@.subrange(0, v@.len() as int) =~= v@);
            a < z
        },
        None => false,
    }
}

/// Secure-by-default guard: binding a non-loopback address without API_KEY
/// requires an explicit ALLOW_INSECURE=true opt-out.
pub fn validate_bind_security(host: &str, api_key_set: bool, allow_insecure: bool) -> (r: Result<
    (),
    String,
>)
    ensures
        r is Ok <==> (api_key_set || allow_insecure || spec_is_loopback_host(host@)),
        r matches Err(m) ==> m@ == "refusing to serve HTTP on non-loopback address '"@ + host@
            + "' without authentication. Set a non-empty API_KEY to require bearer-token auth on all routes, or set ALLOW_INSECURE=true to accept an unauthenticated server (local development only)."@,
{
    if api_key_set || allow_insecure || is_loopback_host(host) {
        return Ok(());
    }
    let mut msg = String::new();
    crate::text::append_str(
        &mut msg,
        "refusing to serve HTTP on non-loopback address '",
    );
    crate::text::append_str(&mut msg, host);
    crate::text::append_str(
        &mut msg,
        "' without authentication. Set a non-empty API_KEY to require bearer-token auth on all routes, or set ALLOW_INSECURE=true to accept an unauthenticated server (local development only).",
    );
    assert(msg@ =~= "refusing to serve HTTP on non-loopback address '"@ + host@
        + "' without authentication. Set a non-empty API_KEY to require bearer-token auth on all routes, or set ALLOW_INSECURE=true to accept an unauthenticated server (local development only)."@);
    Err(msg)
}

} // verus!
