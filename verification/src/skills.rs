//! Skills as the agent sees them: what a skill declares, the context a
//! session runs under once a skill is bound, and the summary of the
//! available skills shown while none is.

use crate::text::{append_str, join_strings, join_with, to_chars, views};
use vstd::prelude::*;

verus! {

/// A skill package: what it is, what it may use, and what it tells the model.
#[derive(Debug, Clone)]
pub struct Skill {
    pub id: String,
    pub version: String,
    pub description: String,
    pub tags: Vec<String>,
    pub tools: Vec<String>,
    pub activation_domains: Vec<String>,
    pub instructions: String,
    pub documents: Vec<String>,
    pub max_iterations: Option<usize>,
}

/// What a session runs under once a skill is bound to it.
#[derive(Debug, Clone)]
pub struct SkillContext {
    pub skill_id: String,
    pub instructions: String,
    pub documents: Vec<String>,
    /// The tools the skill may call; empty means none.
    pub tools: Vec<String>,
    pub max_iterations: Option<usize>,
}

/// `a` comes strictly before `b` in the order of `str`'s `Ord`: by the first
/// character where they differ, a proper prefix first.
pub open spec fn lex_lt(a: Seq<char>, b: Seq<char>) -> bool
    decreases a.len(),
{
    if b.len() == 0 {
        false
    } else if a.len() == 0 {
        true
    } else if a[0] != b[0] {
        a[0] < b[0]
    } else {
        lex_lt(a.drop_first(), b.drop_first())
    }
}

pub proof fn lemma_lex_irreflexive(a: Seq<char>)
    ensures
        !lex_lt(a, a),
    decreases a.len(),
{
    if a.len() > 0 {
        lemma_lex_irreflexive(a.drop_first());
    }
}

pub proof fn lemma_lex_transitive(a: Seq<char>, b: Seq<char>, c: Seq<char>)
    requires
        lex_lt(a, b),
        lex_lt(b, c),
    ensures
        lex_lt(a, c),
    decreases a.len(),
{
    if a.len() > 0 && b.len() > 0 && c.len() > 0 && a[0] == b[0] && b[0] == c[0] {
        lemma_lex_transitive(a.drop_first(), b.drop_first(), c.drop_first());
    }
}

/// Two texts are equal or one comes strictly before the other.
pub proof fn lemma_lex_total(a: Seq<char>, b: Seq<char>)
    ensures
        a =~= b || lex_lt(a, b) || lex_lt(b, a),
    decreases a.len(),
{
    if a.len() > 0 && b.len() > 0 && a[0] == b[0] {
        lemma_lex_total(a.drop_first(), b.drop_first());
        if a.drop_first() =~= b.drop_first() {
            assert(a =~= seq![a[0]] + a.drop_first());
            assert(b =~= seq![b[0]] + b.drop_first());
        }
    }
}

/// A skill's summary entry: its id and its description.
pub type Entry = (Seq<char>, Seq<char>);

/// Where a new entry goes among sorted ones: after every entry whose id
/// does not come after its own, so equal ids keep their order.
pub open spec fn insert_pos(s: Seq<Entry>, x: Entry) -> int
    decreases s.len(),
{
    if s.len() == 0 || !lex_lt(x.0, s.last().0) {
        s.len() as int
    } else {
        insert_pos(s.drop_last(), x)
    }
}

pub open spec fn insert_sorted(s: Seq<Entry>, x: Entry) -> Seq<Entry> {
    s.insert(insert_pos(s, x), x)
}

/// The entries sorted by id, equal ids in the order they came.
pub open spec fn sort_entries(s: Seq<Entry>) -> Seq<Entry>
    decreases s.len(),
{
    if s.len() == 0 {
        s
    } else {
        insert_sorted(sort_entries(s.drop_last()), s.last())
    }
}

pub open spec fn sorted_by_id(s: Seq<Entry>) -> bool {
    forall|i: int, j: int| 0 <= i < j < s.len() ==> !lex_lt(#[trigger] s[j].0, #[trigger] s[i].0)
}

proof fn lemma_insert_pos(s: Seq<Entry>, x: Entry)
    ensures
        0 <= insert_pos(s, x) <= s.len(),
        forall|k: int| insert_pos(s, x) <= k < s.len() ==> lex_lt(x.0, #[trigger] s[k].0),
        insert_pos(s, x) > 0 ==> !lex_lt(x.0, s[insert_pos(s, x) - 1].0),
    decreases s.len(),
{
    if s.len() > 0 && lex_lt(x.0, s.last().0) {
        lemma_insert_pos(s.drop_last(), x);
        assert forall|k: int| insert_pos(s, x) <= k < s.len() implies lex_lt(x.0, #[trigger] s[k].0) by {
            if k < s.len() - 1 {
                assert(s[k] == s.drop_last()[k]);
            }
        }
    }
}

proof fn lemma_insert_keeps_sorted(s: Seq<Entry>, x: Entry)
    requires
        sorted_by_id(s),
    ensures
        sorted_by_id(insert_sorted(s, x)),
        insert_sorted(s, x).to_multiset() =~= s.to_multiset().insert(x),
        insert_sorted(s, x).len() == s.len() + 1,
{
    let p = insert_pos(s, x);
    let r = insert_sorted(s, x);
    lemma_insert_pos(s, x);
    s.insert_ensures(p, x);
    assert forall|i: int, j: int| 0 <= i < j < r.len() implies !lex_lt(#[trigger] r[j].0, #[trigger] r[i].0) by {
        if i < p && j == p {
            // every entry before the slot does not come after x
            if lex_lt(x.0, s[i].0) {
                lemma_lex_total(x.0, s[p - 1].0);
                if i < p - 1 {
                    if lex_lt(s[p - 1].0, x.0) {
                        lemma_lex_transitive(s[p - 1].0, x.0, s[i].0);
                    } else {
                        assert(x.0 =~= s[p - 1].0);
                    }
                    assert(!lex_lt(s[p - 1].0, s[i].0));
                }
            }
            lemma_lex_asym(s[i].0, x.0);
        } else if i == p {
            lemma_lex_asym(x.0, s[j - 1].0);
        } else if i < p && j > p {
            assert(r[i] == s[i] && r[j] == s[j - 1]);
        } else if j < p {
            assert(r[i] == s[i] && r[j] == s[j]);
        } else {
            assert(r[i] == s[i - 1] && r[j] == s[j - 1]);
        }
    }
    vstd::seq_lib::to_multiset_insert(s, p, x);
}

proof fn lemma_lex_asym(a: Seq<char>, b: Seq<char>)
    ensures
        lex_lt(a, b) ==> !lex_lt(b, a),
{
    if lex_lt(a, b) && lex_lt(b, a) {
        lemma_lex_transitive(a, b, a);
        lemma_lex_irreflexive(a);
    }
}

/// Sorting the skill entries orders them by id and neither loses nor adds one.
pub proof fn lemma_sort_entries(s: Seq<Entry>)
    ensures
        sorted_by_id(sort_entries(s)),
        sort_entries(s).to_multiset() =~= s.to_multiset(),
        sort_entries(s).len() == s.len(),
    decreases s.len(),
{
    if s.len() > 0 {
        lemma_sort_entries(s.drop_last());
        lemma_insert_keeps_sorted(sort_entries(s.drop_last()), s.last());
        assert(s =~= s.drop_last().push(s.last()));
        s.drop_last().to_multiset_ensures();
    }
}

/// Whether `a` comes strictly before `b`.
fn str_lt(a: &String, b: &String) -> (r: bool)
    ensures
        r == lex_lt(a@, b@),
{
    let x = to_chars(a.as_str());
    let y = to_chars(b.as_str());
    let mut i: usize = 0;
    assert(a@.skip(0) =~= a@);
    assert(b@.skip(0) =~= b@);
    while i < x.len() && i < y.len() && x[i] == y[i]
        invariant
            x@ == a@,
            y@ == b@,
            i <= x@.len(),
            i <= y@.len(),
            lex_lt(a@, b@) == lex_lt(a@.skip(i as int), b@.skip(i as int)),
        decreases x.len() - i,
    {
        assert(a@.skip(i as int).drop_first() =~= a@.skip(i + 1));
        assert(b@.skip(i as int).drop_first() =~= b@.skip(i + 1));
        i += 1;
    }
    if i == y.len() {
        false
    } else if i == x.len() {
        true
    } else {
        x[i] < y[i]
    }
}

/// The id and description of each skill, in the given order.
pub open spec fn entries_of(skills: Seq<&Skill>) -> Seq<Entry> {
    skills.map_values(|s: &Skill| (s.id@, s.description@))
}

pub open spec fn entry_line(e: Entry) -> Seq<char> {
    "- "@ + e.0 + ": "@ + e.1
}

/// The summary block shown while no skill is bound: the skills sorted by
/// id, one `- id: description` line each, between a heading and a hint;
/// nothing at all when there are no skills.
pub open spec fn spec_skill_summaries(skills: Seq<&Skill>) -> Seq<char> {
    if skills.len() == 0 {
        Seq::empty()
    } else {
        "## Available Skills\n\n"@ + join_with(
            sort_entries(entries_of(skills)).map_values(|e: Entry| entry_line(e)),
            "\n"@,
        ) + "\n\nYou may use a skill when the user's request matches one of the above."@
    }
}

pub fn format_skill_summaries(skills: &[&Skill]) -> (s: String)
    ensures
        s@ == spec_skill_summaries(skills@),
{
    if skills.len() == 0 {
        return String::new();
    }
    let ghost es = entries_of(skills@);
    let mut sorted: Vec<(String, String)> = Vec::new();
    let mut i: usize = 0;
    while i < skills.len()
        invariant
            i <= skills@.len(),
            es == entries_of(skills@),
            sorted@.map_values(|p: (String, String)| (p.0@, p.1@)) == sort_entries(es.take(i as int)),
        decreases skills.len() - i,
    {
        let sk = skills[i];
        let ghost prev = sorted@.map_values(|p: (String, String)| (p.0@, p.1@));
        let ghost x: Entry = (sk.id@, sk.description@);
        assert(es.take(i + 1).drop_last() =~= es.take(i as int));
        assert(es.take(i + 1).last() == x);
        let mut j = sorted.len();
        assert(prev.take(j as int) =~= prev);
        while j > 0 && str_lt(&sk.id, &sorted[j - 1].0)
            invariant
                j <= sorted@.len(),
                prev == sorted@.map_values(|p: (String, String)| (p.0@, p.1@)),
                x == (sk.id@, sk.description@),
                insert_pos(prev, x) == insert_pos(prev.take(j as int), x),
            decreases j,
        {
            assert(prev.take(j as int).drop_last() =~= prev.take(j - 1));
            assert(prev.take(j as int).last() == prev[j - 1]);
            j -= 1;
        }
        assert(insert_pos(prev.take(j as int), x) == j as int);
        sorted.insert(j, (sk.id.clone(), sk.description.clone()));
        assert(sorted@.map_values(|p: (String, String)| (p.0@, p.1@)) =~= prev.insert(j as int, x));
        i += 1;
    }
    assert(es.take(skills@.len() as int) =~= es);
    let ghost sorted_entries = sort_entries(es);
    let mut lines: Vec<String> = Vec::new();
    let mut k: usize = 0;
    while k < sorted.len()
        invariant
            k <= sorted@.len(),
            sorted@.map_values(|p: (String, String)| (p.0@, p.1@)) == sorted_entries,
            views(lines@) == sorted_entries.take(k as int).map_values(|e: Entry| entry_line(e)),
        decreases sorted.len() - k,
    {
        let mut line = String::from_str("- ");
        append_str(&mut line, sorted[k].0.as_str());
        append_str(&mut line, ": ");
        append_str(&mut line, sorted[k].1.as_str());
        let ghost before = views(lines@);
        lines.push(line);
        assert(views(lines@) =~= before.push(line@));
        assert(sorted_entries[k as int] == (sorted@[k as int].0@, sorted@[k as int].1@));
        assert(sorted_entries.take(k + 1).map_values(|e: Entry| entry_line(e)) =~= sorted_entries.take(
            k as int,
        ).map_values(|e: Entry| entry_line(e)).push(entry_line(sorted_entries[k as int])));
        k += 1;
    }
    assert(sorted_entries.take(sorted@.len() as int) =~= sorted_entries);
    let body = join_strings(&lines, "\n");
    let mut s = String::from_str("## Available Skills\n\n");
    append_str(&mut s, body.as_str());
    append_str(&mut s, "\n\nYou may use a skill when the user's request matches one of the above.");
    s
}

} // verus!
