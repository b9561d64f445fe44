//! The working buffer of recent turns kept per (user, session), so that a
//! session's next turn need not read its history back from storage. An
//! entry left unused for longer than the time-to-live no longer counts.

use crate::circuit::{duration_nanos, elapsed_since, instant_now, nanos_in, secs_as_nanos};
use crate::memory::{message_view, message_views, BlockView, Message, MessageRole};
use vstd::prelude::*;

verus! {

pub type MsgView = (MessageRole, Seq<BlockView>);

/// A session of a user: the user's id and the session's 128-bit id.
pub type CacheKey = (Seq<char>, u128);

struct CacheEntry {
    user: String,
    session: u128,
    messages: Vec<Message>,
    last_used: std::time::Instant,
}

pub struct TurnCache {
    entries: Vec<CacheEntry>,
    ttl_secs: u64,
}

pub open spec fn entry_view(user: Seq<char>, session: u128, messages: Seq<MsgView>) -> (CacheKey, Seq<MsgView>) {
    ((user, session), messages)
}

/// The buffered messages of `key`: those of the last entry with that key.
pub open spec fn buffered(es: Seq<(CacheKey, Seq<MsgView>)>, key: CacheKey) -> Option<Seq<MsgView>>
    decreases es.len(),
{
    if es.len() == 0 {
        None
    } else if es.last().0 == key {
        Some(es.last().1)
    } else {
        buffered(es.drop_last(), key)
    }
}

/// No two entries share a key.
pub open spec fn unique_keys(es: Seq<(CacheKey, Seq<MsgView>)>) -> bool {
    forall|i: int, j: int| 0 <= i < j < es.len() ==> (#[trigger] es[i]).0 != (#[trigger] es[j]).0
}

/// No key of `kept` is the key of an entry of `src` from position `i` on.
pub open spec fn keys_before(kept: Seq<(CacheKey, Seq<MsgView>)>, src: Seq<(CacheKey, Seq<MsgView>)>, i: int) -> bool {
    forall|l: int, j: int| 0 <= l < kept.len() && i <= j < src.len() ==> (#[trigger] kept[l]).0 != (#[trigger] src[j]).0
}

/// The entries that a refill for `key` keeps: every entry of another key
/// that has been idle (`idle`, by position, in nanoseconds) for no longer
/// than `ttl`, in order.
pub open spec fn unexpired(
    es: Seq<(CacheKey, Seq<MsgView>)>,
    idle: Seq<u128>,
    ttl: int,
    key: CacheKey,
) -> Seq<(CacheKey, Seq<MsgView>)>
    decreases es.len(),
{
    if es.len() == 0 {
        Seq::empty()
    } else {
        let rest = unexpired(es.drop_last(), idle, ttl, key);
        if es.last().0 != key && idle[es.len() - 1] <= ttl {
            rest.push(es.last())
        } else {
            rest
        }
    }
}

spec fn view_of_entries(es: Seq<CacheEntry>) -> Seq<(CacheKey, Seq<MsgView>)> {
    es.map_values(|e: CacheEntry| ((e.user@, e.session), message_views(e.messages@)))
}

impl TurnCache {
    #[verifier::type_invariant]
    closed spec fn one_entry_per_session(self) -> bool {
        unique_keys(view_of_entries(self.entries@))
    }

    /// The position of the last entry of a session, if any.
    fn find_entry(&self, user: &String, session: u128) -> (r: Option<usize>)
        ensures
            match r {
                Some(j) => j < self.entries@.len() && self.entries()[j as int].0 == (user@, session)
                    && forall|l: int| j < l < self.entries@.len() ==> (#[trigger] self.entries()[l]).0 != (
                    user@,
                    session,
                ),
                None => forall|l: int|
                    0 <= l < self.entries@.len() ==> (#[trigger] self.entries()[l]).0 != (user@, session),
            },
    {
        let ghost all = self.entries();
        let mut i = self.entries.len();
        while i > 0
            invariant
                i <= self.entries@.len(),
                all == self.entries(),
                forall|l: int| i <= l < self.entries@.len() ==> (#[trigger] all[l]).0 != (user@, session),
            decreases i,
        {
            let e = &self.entries[i - 1];
            assert(all[i - 1] == ((e.user@, e.session), message_views(e.messages@)));
            if e.user == *user && e.session == session {
                return Some(i - 1);
            }
            i -= 1;
        }
        None
    }

    /// Every entry, oldest first, without its time stamp.
    pub closed spec fn entries(&self) -> Seq<(CacheKey, Seq<MsgView>)> {
        view_of_entries(self.entries@)
    }

    pub closed spec fn ttl(&self) -> u64 {
        self.ttl_secs
    }

    /// An empty buffer whose entries expire after `ttl_secs` unused seconds.
    pub fn new(ttl_secs: u64) -> (c: Self)
        ensures
            c.entries().len() == 0,
            c.ttl() == ttl_secs,
    {
        let c = TurnCache { entries: Vec::new(), ttl_secs };
        assert(c.entries() =~= Seq::<(CacheKey, Seq<MsgView>)>::empty());
        c
    }

    /// The buffered history of a session, when there is an entry for it that
    /// has not expired; a copy of its messages.
    pub fn get(&self, user: &str, session: u128) -> (r: Option<Vec<Message>>)
        ensures
            r matches Some(ms) ==> buffered(self.entries(), (user@, session)) == Some(message_views(ms@)),
            buffered(self.entries(), (user@, session)) is None ==> r is None,
    {
        let u = String::from_str(user);
        match self.find_entry(&u, session) {
            Some(j) => {
                let idle = duration_nanos(&elapsed_since(&self.entries[j].last_used));
                self.buffered_unless_expired(user, session, idle)
            },
            None => {
                proof {
                    lemma_buffered_none(self.entries(), (user@, session));
                }
                None
            },
        }
    }

    /// What a lookup answers once the clock has been read: `idle` is how
    /// long, in nanoseconds, the session's entry has gone unused. An entry idle
    /// for longer than the time-to-live has expired and answers nothing;
    /// otherwise the answer is a copy of the buffered history, if there is one.
    pub fn buffered_unless_expired(&self, user: &str, session: u128, idle: u128) -> (r: Option<Vec<Message>>)
        ensures
            idle > nanos_in(self.ttl() as int) ==> r is None,
            idle <= nanos_in(self.ttl() as int) ==> match buffered(self.entries(), (user@, session)) {
                Some(ms) => r matches Some(c) && message_views(c@) == ms,
                None => r is None,
            },
    {
        if idle > secs_as_nanos(self.ttl_secs) {
            return None;
        }
        let u = String::from_str(user);
        match self.find_entry(&u, session) {
            Some(j) => {
                proof {
                    lemma_buffered_at(self.entries(), j as int, (user@, session));
                }
                Some(copy_messages(&self.entries[j].messages))
            },
            None => {
                proof {
                    lemma_buffered_none(self.entries(), (user@, session));
                }
                None
            },
        }
    }

    /// How many entries the buffer holds.
    pub fn len(&self) -> (n: usize)
        ensures
            n == self.entries().len(),
    {
        self.entries.len()
    }

    /// Fills the entry of a session with `history` read from storage, after
    /// dropping every entry that has expired.
    pub fn rehydrate(&mut self, user: &str, session: u128, history: Vec<Message>)
        ensures
            buffered(final(self).entries(), (user@, session)) == Some(message_views(history@)),
            forall|k: CacheKey|
                k != (user@, session) ==> #[trigger] buffered(final(self).entries(), k) is None || buffered(
                    final(self).entries(),
                    k,
                ) == buffered(old(self).entries(), k),
            final(self).ttl() == old(self).ttl(),
    {
        let mut idle: Vec<u128> = Vec::new();
        let mut i: usize = 0;
        while i < self.entries.len()
            invariant
                i <= self.entries@.len(),
                idle@.len() == i,
            decreases self.entries.len() - i,
        {
            idle.push(duration_nanos(&elapsed_since(&self.entries[i].last_used)));
            i += 1;
        }
        self.rehydrate_after(user, session, history, &idle);
    }

    /// Fills the entry of a session with `history` once the clock has been
    /// read: `idle[i]` is how long, in nanoseconds, entry `i` has gone unused.
    /// The session's old entry and every entry idle for longer than the
    /// time-to-live are dropped, the others keep their order, and the filled
    /// entry comes last.
    pub fn rehydrate_after(&mut self, user: &str, session: u128, history: Vec<Message>, idle: &Vec<u128>)
        requires
            idle@.len() == old(self).entries().len(),
        ensures
            final(self).entries() == unexpired(
                old(self).entries(),
                idle@,
                nanos_in(old(self).ttl() as int),
                (user@, session),
            ).push(((user@, session), message_views(history@))),
            buffered(final(self).entries(), (user@, session)) == Some(message_views(history@)),
            forall|k: CacheKey|
                k != (user@, session) ==> #[trigger] buffered(final(self).entries(), k) is None || buffered(
                    final(self).entries(),
                    k,
                ) == buffered(old(self).entries(), k),
            final(self).ttl() == old(self).ttl(),
    {
        proof {
            use_type_invariant(&*self);
        }
        let ttl_ns = secs_as_nanos(self.ttl_secs);
        let total = idle.len();
        let mut n: usize = 0;
        let mut old_entries: Vec<CacheEntry> = Vec::new();
        std::mem::swap(&mut old_entries, &mut self.entries);
        let ghost before = view_of_entries(old_entries@);
        let u = String::from_str(user);
        let mut kept: Vec<CacheEntry> = Vec::new();
        for e in it: old_entries
            invariant
                it.seq() == old(self).entries@,
                u@ == user@,
                n == it.index(),
                total == idle@.len(),
                idle@.len() == before.len(),
                ttl_ns == nanos_in(old(self).ttl() as int),
                view_of_entries(kept@) == unexpired(before.take(it.index() as int), idle@, ttl_ns as int, (user@, session)),
                before == old(self).entries(),
                unique_keys(before),
                unique_keys(view_of_entries(kept@)),
                keys_before(view_of_entries(kept@), before, it.index() as int),
                forall|l: int| 0 <= l < kept@.len() ==> (#[trigger] view_of_entries(kept@)[l]).0 != (user@, session),
                forall|k: CacheKey|
                    k != (user@, session) ==> #[trigger] buffered(view_of_entries(kept@), k) is None
                        || buffered(view_of_entries(kept@), k) == buffered(
                        view_of_entries(it.seq().take(it.index() as int)),
                        k,
                    ),
        {
            let ghost i = it.index() as int;
            let ghost prefix = it.seq().take(i);
            assert(it.seq().take(i + 1).drop_last() =~= prefix);
            assert(it.seq().take(i + 1).last() == e);
            assert(view_of_entries(it.seq().take(i + 1)) =~= view_of_entries(prefix).push(
                ((e.user@, e.session), message_views(e.messages@)),
            ));
            let same = e.user == u && e.session == session;
            let expired = idle[n] > ttl_ns;
            proof {
                assert(before.take(i + 1).drop_last() =~= before.take(i));
                assert(before.take(i + 1).last() == before[i]);
            }
            let ghost kv = view_of_entries(kept@);
            let ghost ev = ((e.user@, e.session), message_views(e.messages@));
            proof {
                assert forall|k: CacheKey| #[trigger] buffered(view_of_entries(prefix).push(ev), k) == if ev.0 == k {
                    Some(ev.1)
                } else {
                    buffered(view_of_entries(prefix), k)
                } by {
                    lemma_buffered_push(view_of_entries(prefix), ev, k);
                }
            }
            proof {
                assert(before[i] == ev);
                assert(view_of_entries(prefix) =~= before.take(i));
                lemma_new_key(kv, before, i);
                lemma_buffered_none(kv, ev.0);
            }
            if !same && !expired {
                kept.push(e);
                assert(view_of_entries(kept@) =~= kv.push(ev));
                proof {
                    assert forall|k: CacheKey| #[trigger] buffered(kv.push(ev), k) == if ev.0 == k {
                        Some(ev.1)
                    } else {
                        buffered(kv, k)
                    } by {
                        lemma_buffered_push(kv, ev, k);
                    }
                    lemma_keys_grow(kv, before, i);
                }
            } else {
                proof {
                    lemma_keys_within_longer(kv, before, i);
                }
            }
            n = n + 1;
        }
        assert(old(self).entries@.take(old(self).entries@.len() as int) =~= old(self).entries@);
        assert(before.take(before.len() as int) =~= before);
        let ghost kv = view_of_entries(kept@);
        let ghost hv = message_views(history@);
        proof {
            assert(unique_keys(kv.push(((user@, session), hv)))) by {
                assert forall|a: int, b: int| 0 <= a < b < kv.len() + 1 implies (#[trigger] kv.push(((user@, session), hv))[a]).0
                    != (#[trigger] kv.push(((user@, session), hv))[b]).0 by {
                    if b == kv.len() {
                        assert(kv[a] == view_of_entries(kept@)[a]);
                    }
                }
            }
        }
        kept.push(CacheEntry { user: u, session, messages: history, last_used: instant_now() });
        assert(view_of_entries(kept@) =~= kv.push(((user@, session), hv)));
        proof {
            assert forall|k: CacheKey| #[trigger] buffered(kv.push(((user@, session), hv)), k) == if (user@, session) == k {
                Some(hv)
            } else {
                buffered(kv, k)
            } by {
                lemma_buffered_push(kv, ((user@, session), hv), k);
            }
        }
        self.entries = kept;
    }

    /// Records a completed turn: the user's and the assistant's messages go
    /// at the end of the session's entry, which is refreshed, or make up a
    /// new entry when there is none (it was dropped during the call).
    pub fn record_turn(&mut self, user: &str, session: u128, user_msg: Message, assistant_msg: Message)
        ensures
            buffered(final(self).entries(), (user@, session)) == Some(
                match buffered(old(self).entries(), (user@, session)) {
                    Some(ms) => ms,
                    None => Seq::<MsgView>::empty(),
                }.push(message_view(user_msg)).push(message_view(assistant_msg)),
            ),
            forall|k: CacheKey|
                k != (user@, session) ==> #[trigger] buffered(final(self).entries(), k) == buffered(
                    old(self).entries(),
                    k,
                ),
            final(self).ttl() == old(self).ttl(),
    {
        proof {
            use_type_invariant(&*self);
        }
        let u = String::from_str(user);
        let ghost all = self.entries();
        let ghost um = message_view(user_msg);
        let ghost am = message_view(assistant_msg);
        let found = self.find_entry(&u, session);
        let mut es: Vec<CacheEntry> = Vec::new();
        std::mem::swap(&mut es, &mut self.entries);
        assert(view_of_entries(es@) == all);
        match found {
            None => {
                proof {
                    lemma_buffered_none(all, (user@, session));
                }
                let mut msgs: Vec<Message> = Vec::new();
                msgs.push(user_msg);
                msgs.push(assistant_msg);
                assert(message_views(msgs@) =~= Seq::<MsgView>::empty().push(um).push(am));
                let ghost nv = message_views(msgs@);
                es.push(CacheEntry { user: u, session, messages: msgs, last_used: instant_now() });
                assert(view_of_entries(es@) =~= all.push(((user@, session), nv)));
                proof {
                    assert forall|k: CacheKey| k != (user@, session) implies #[trigger] buffered(view_of_entries(es@), k)
                        == buffered(all, k) by {
                        lemma_buffered_push(all, ((user@, session), nv), k);
                    }
                    lemma_buffered_push(all, ((user@, session), nv), (user@, session));
                    let n = all.push(((user@, session), nv));
                    assert forall|a: int, b: int| 0 <= a < b < n.len() implies (#[trigger] n[a]).0 != (#[trigger] n[b]).0 by {
                        if b < all.len() {
                            assert(n[a] == all[a] && n[b] == all[b]);
                        } else {
                            assert(n[a] == all[a]);
                        }
                    }
                }
            },
            Some(idx) => {
                proof {
                    lemma_buffered_at(all, idx as int, (user@, session));
                }
                let mut e = es.remove(idx);
                let ghost ev = message_views(e.messages@);
                assert(ev == all[idx as int].1);
                e.messages.push(user_msg);
                e.messages.push(assistant_msg);
                assert(message_views(e.messages@) =~= ev.push(um).push(am));
                e.last_used = instant_now();
                es.insert(idx, e);
                let ghost n = all.update(idx as int, ((user@, session), ev.push(um).push(am)));
                assert(view_of_entries(es@) =~= n);
                proof {
                    lemma_buffered_update(all, idx as int, (user@, session), ev.push(um).push(am));
                    assert forall|a: int, b: int| 0 <= a < b < n.len() implies (#[trigger] n[a]).0 != (#[trigger] n[b]).0 by {
                        assert(n[a].0 == all[a].0 && n[b].0 == all[b].0);
                    }
                }
            },
        }
        self.entries = es;
    }

    /// Drops the entry of a session (its history is stale after a phase change).
    pub fn remove(&mut self, user: &str, session: u128)
        ensures
            buffered(final(self).entries(), (user@, session)) is None,
            forall|k: CacheKey|
                k != (user@, session) ==> #[trigger] buffered(final(self).entries(), k) == buffered(
                    old(self).entries(),
                    k,
                ),
            final(self).ttl() == old(self).ttl(),
    {
        let u = String::from_str(user);
        self.retain_where(&u, Some(session));
    }

    /// Drops every entry of a user.
    pub fn remove_user(&mut self, user: &str)
        ensures
            forall|s: u128| #[trigger] buffered(final(self).entries(), (user@, s)) is None,
            forall|k: CacheKey| k.0 != user@ ==> #[trigger] buffered(final(self).entries(), k) == buffered(
                old(self).entries(),
                k,
            ),
            final(self).ttl() == old(self).ttl(),
    {
        let u = String::from_str(user);
        self.retain_where(&u, None);
    }

    /// Drops the entries of `user` (of `session` only, when given).
    fn retain_where(&mut self, user: &String, session: Option<u128>)
        ensures
            forall|k: CacheKey|
                #![trigger buffered(final(self).entries(), k)]
                dropped(k, user@, session) ==> buffered(final(self).entries(), k) is None,
            forall|k: CacheKey|
                #![trigger buffered(final(self).entries(), k)]
                !dropped(k, user@, session) ==> buffered(final(self).entries(), k) == buffered(
                    old(self).entries(),
                    k,
                ),
            final(self).ttl() == old(self).ttl(),
    {
        proof {
            use_type_invariant(&*self);
        }
        let mut old_entries: Vec<CacheEntry> = Vec::new();
        std::mem::swap(&mut old_entries, &mut self.entries);
        let ghost before = old(self).entries();
        let mut kept: Vec<CacheEntry> = Vec::new();
        for e in it: old_entries
            invariant
                it.seq() == old(self).entries@,
                before == old(self).entries(),
                unique_keys(before),
                unique_keys(view_of_entries(kept@)),
                keys_before(view_of_entries(kept@), before, it.index() as int),
                forall|k: CacheKey|
                    #![trigger buffered(view_of_entries(kept@), k)]
                    dropped(k, user@, session) ==> buffered(view_of_entries(kept@), k) is None,
                forall|k: CacheKey|
                    #![trigger buffered(view_of_entries(kept@), k)]
                    !dropped(k, user@, session) ==> buffered(view_of_entries(kept@), k) == buffered(
                        view_of_entries(it.seq().take(it.index() as int)),
                        k,
                    ),
        {
            let ghost i = it.index() as int;
            let ghost prefix = it.seq().take(i);
            assert(it.seq().take(i + 1).drop_last() =~= prefix);
            assert(it.seq().take(i + 1).last() == e);
            let ghost ev = ((e.user@, e.session), message_views(e.messages@));
            assert(view_of_entries(it.seq().take(i + 1)) =~= view_of_entries(prefix).push(ev));
            let hit = e.user == *user && match session {
                Some(s) => e.session == s,
                None => true,
            };
            let ghost kv = view_of_entries(kept@);
            proof {
                assert forall|k: CacheKey| #[trigger] buffered(view_of_entries(prefix).push(ev), k) == if ev.0 == k {
                    Some(ev.1)
                } else {
                    buffered(view_of_entries(prefix), k)
                } by {
                    lemma_buffered_push(view_of_entries(prefix), ev, k);
                }
            }
            proof {
                assert(before[i] == ev);
                assert(view_of_entries(prefix) =~= before.take(i));
                lemma_new_key(kv, before, i);
            }
            if !hit {
                kept.push(e);
                assert(view_of_entries(kept@) =~= kv.push(ev));
                proof {
                    assert forall|k: CacheKey| #[trigger] buffered(kv.push(ev), k) == if ev.0 == k {
                        Some(ev.1)
                    } else {
                        buffered(kv, k)
                    } by {
                        lemma_buffered_push(kv, ev, k);
                    }
                    lemma_keys_grow(kv, before, i);
                }
            } else {
                proof {
                    lemma_keys_within_longer(kv, before, i);
                }
            }
        }
        assert(old(self).entries@.take(old(self).entries@.len() as int) =~= old(self).entries@);
        self.entries = kept;
    }
}

/// Whether the entries of `k` go when dropping `user`'s (`session`'s only, when given).
pub open spec fn dropped(k: CacheKey, user: Seq<char>, session: Option<u128>) -> bool {
    k.0 == user && match session {
        Some(s) => k.1 == s,
        None => true,
    }
}

/// An entry's key is new to what was kept from the entries before it.
proof fn lemma_new_key(kv: Seq<(CacheKey, Seq<MsgView>)>, before: Seq<(CacheKey, Seq<MsgView>)>, i: int)
    requires
        0 <= i < before.len(),
        keys_before(kv, before, i),
    ensures
        forall|l: int| 0 <= l < kv.len() ==> (#[trigger] kv[l]).0 != before[i].0,
{
    assert forall|l: int| 0 <= l < kv.len() implies (#[trigger] kv[l]).0 != before[i].0 by {
        assert(kv[l].0 != before[i].0);
    }
}

proof fn lemma_keys_grow(kv: Seq<(CacheKey, Seq<MsgView>)>, before: Seq<(CacheKey, Seq<MsgView>)>, i: int)
    requires
        0 <= i < before.len(),
        unique_keys(before),
        unique_keys(kv),
        keys_before(kv, before, i),
    ensures
        unique_keys(kv.push(before[i])),
        keys_before(kv.push(before[i]), before, i + 1),
{
    let n = kv.push(before[i]);
    assert forall|a: int, b: int| 0 <= a < b < n.len() implies (#[trigger] n[a]).0 != (#[trigger] n[b]).0 by {
        if b == kv.len() {
            assert(n[a] == kv[a]);
            assert(kv[a].0 != before[i].0);
        } else {
            assert(n[a] == kv[a] && n[b] == kv[b]);
        }
    }
    assert forall|l: int, j: int| 0 <= l < n.len() && i + 1 <= j < before.len() implies (#[trigger] n[l]).0
        != (#[trigger] before[j]).0 by {
        if l == kv.len() {
            assert(before[i].0 != before[j].0);
        } else {
            assert(n[l] == kv[l]);
            assert(kv[l].0 != before[j].0);
        }
    }
}

proof fn lemma_keys_within_longer(kv: Seq<(CacheKey, Seq<MsgView>)>, before: Seq<(CacheKey, Seq<MsgView>)>, i: int)
    requires
        0 <= i < before.len(),
        keys_before(kv, before, i),
    ensures
        keys_before(kv, before, i + 1),
{
}

proof fn lemma_buffered_push(es: Seq<(CacheKey, Seq<MsgView>)>, e: (CacheKey, Seq<MsgView>), k: CacheKey)
    ensures
        buffered(es.push(e), k) == if e.0 == k {
            Some(e.1)
        } else {
            buffered(es, k)
        },
{
    assert(es.push(e).drop_last() =~= es);
}

/// The buffered messages of a key are those of its last entry.
proof fn lemma_buffered_at(es: Seq<(CacheKey, Seq<MsgView>)>, j: int, k: CacheKey)
    requires
        0 <= j < es.len(),
        es[j].0 == k,
        forall|l: int| j < l < es.len() ==> (#[trigger] es[l]).0 != k,
    ensures
        buffered(es, k) == Some(es[j].1),
    decreases es.len(),
{
    if j < es.len() - 1 {
        assert(es.last() == es[es.len() - 1]);
        lemma_buffered_at(es.drop_last(), j, k);
    }
}

proof fn lemma_buffered_none(es: Seq<(CacheKey, Seq<MsgView>)>, k: CacheKey)
    requires
        forall|l: int| 0 <= l < es.len() ==> (#[trigger] es[l]).0 != k,
    ensures
        buffered(es, k) is None,
    decreases es.len(),
{
    if es.len() > 0 {
        assert(es.last() == es[es.len() - 1]);
        lemma_buffered_none(es.drop_last(), k);
    }
}

proof fn lemma_buffered_update(es: Seq<(CacheKey, Seq<MsgView>)>, idx: int, key: CacheKey, ms: Seq<MsgView>)
    requires
        0 <= idx < es.len(),
        es[idx].0 == key,
        forall|j: int| idx < j < es.len() ==> (#[trigger] es[j]).0 != key,
    ensures
        buffered(es.update(idx, (key, ms)), key) == Some(ms),
        forall|k: CacheKey| k != key ==> #[trigger] buffered(es.update(idx, (key, ms)), k) == buffered(es, k),
    decreases es.len(),
{
    let u = es.update(idx, (key, ms));
    if idx == es.len() - 1 {
        assert(u.drop_last() =~= es.drop_last());
        assert(u.last() == (key, ms));
        assert forall|k: CacheKey| k != key implies #[trigger] buffered(u, k) == buffered(es, k) by {
            assert(buffered(u, k) == buffered(u.drop_last(), k));
            assert(buffered(es, k) == buffered(es.drop_last(), k));
        }
    } else {
        assert(u.drop_last() =~= es.drop_last().update(idx, (key, ms)));
        lemma_buffered_update(es.drop_last(), idx, key, ms);
        assert(u.last() == es.last());
        assert forall|k: CacheKey| k != key implies #[trigger] buffered(u, k) == buffered(es, k) by {
            if es.last().0 != k {
                assert(buffered(u, k) == buffered(u.drop_last(), k));
                assert(buffered(es, k) == buffered(es.drop_last(), k));
            }
        }
    }
}

fn copy_messages(ms: &Vec<Message>) -> (c: Vec<Message>)
    ensures
        message_views(c@) == message_views(ms@),
{
    let mut c: Vec<Message> = Vec::new();
    let mut i: usize = 0;
    while i < ms.len()
        invariant
            i <= ms@.len(),
            message_views(c@) == message_views(ms@).take(i as int),
        decreases ms.len() - i,
    {
        let m = ms[i].copy();
        let ghost before = message_views(c@);
        c.push(m);
        assert(message_views(c@) =~= before.push(message_view(m)));
        assert(message_views(ms@).take(i + 1) =~= message_views(ms@).take(i as int).push(message_view(ms@[i as int])));
        i += 1;
    }
    assert(message_views(ms@).take(ms@.len() as int) =~= message_views(ms@));
    c
}

} // verus!
