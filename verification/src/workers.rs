//! Settings and per-tick decisions of the background workers: turning raw
//! turns into long-term memories, purging expired data, sweeping approvals.

use vstd::prelude::*;

verus! {

/// A span of whole seconds.
#[derive(Debug, Clone, Copy, PartialEq, Eq, PartialOrd, Ord, Hash)]
pub struct Duration {
    secs: u64,
}

impl Duration {
    pub closed spec fn spec_secs(self) -> u64 {
        self.secs
    }

    pub fn from_secs(secs: u64) -> (d: Duration)
        ensures
            d.spec_secs() == secs,
    {
        Duration { secs }
    }

    pub fn as_secs(&self) -> (s: u64)
        ensures
            s == self.spec_secs(),
    {
        self.secs
    }
}

/// When raw turns are turned into long-term memories.
pub struct ConsolidationConfig {
    /// Consolidate when this many unconsolidated turns accumulate.
    pub batch_size: usize,
    /// Consolidate after this much idle time even if `batch_size` is not reached.
    pub idle_timeout: Duration,
    /// How often the worker polls.
    pub poll_interval: Duration,
}

impl Default for ConsolidationConfig {
    /// Ten turns, half an hour idle, polled every minute.
    fn default() -> (c: Self)
        ensures
            c.batch_size == 10,
            c.idle_timeout.spec_secs() == 1800,
            c.poll_interval.spec_secs() == 60,
    {
        ConsolidationConfig {
            batch_size: 10,
            idle_timeout: Duration::from_secs(1800),
            poll_interval: Duration::from_secs(60),
        }
    }
}

/// How long raw turns and ended sessions are kept.
#[derive(Clone)]
pub struct CleanupConfig {
    /// Delete raw turns older than this window, once consolidated.
    pub message_retention: Duration,
    /// Delete a session (and all its messages) this long after it ends.
    pub session_retention: Duration,
    /// How often the worker polls.
    pub poll_interval: Duration,
}

impl Default for CleanupConfig {
    /// Turns kept a day, ended sessions thirty days, polled every five minutes.
    fn default() -> (c: Self)
        ensures
            c.message_retention.spec_secs() == 86400,
            c.session_retention.spec_secs() == 2_592_000,
            c.poll_interval.spec_secs() == 300,
    {
        CleanupConfig {
            message_retention: Duration::from_secs(86400),
            session_retention: Duration::from_secs(2_592_000),
            poll_interval: Duration::from_secs(300),
        }
    }
}

/// How often expired approvals are swept.
pub struct HitlSweepConfig {
    pub poll_interval: Duration,
}

impl Default for HitlSweepConfig {
    /// Every minute.
    fn default() -> (c: Self)
        ensures
            c.poll_interval.spec_secs() == 60,
    {
        HitlSweepConfig { poll_interval: Duration::from_secs(60) }
    }
}

/// A session's turns are consolidated when there are some, and either a
/// full batch has accumulated or the session has been idle long enough.
pub open spec fn spec_should_consolidate(batch_size: int, idle_timeout: int, pending: int, idle_secs: int) -> bool {
    pending > 0 && (pending >= batch_size || idle_secs >= idle_timeout)
}

impl ConsolidationConfig {
    /// Whether a session with `pending` unconsolidated turns, last updated
    /// `idle_secs` seconds ago, is consolidated on this tick.
    pub fn should_consolidate(&self, pending: usize, idle_secs: i64) -> (b: bool)
        ensures
            b == spec_should_consolidate(
                self.batch_size as int,
                self.idle_timeout.spec_secs() as int,
                pending as int,
                idle_secs as int,
            ),
    {
        if pending == 0 {
            return false;
        }
        if pending < self.batch_size {
            let timeout = self.idle_timeout.as_secs();
            if idle_secs < 0 || (idle_secs as u64) < timeout {
                return false;
            }
        }
        true
    }
}

/// The timestamp before which data kept for `retention` has expired at
/// `now`; `None` when it falls outside the range of timestamps.
pub fn retention_cutoff(now: i64, retention: Duration) -> (c: Option<i64>)
    ensures
        match c {
            Some(t) => t == now - retention.spec_secs(),
            None => now - retention.spec_secs() < i64::MIN,
        },
{
    let d: i128 = now as i128 - retention.as_secs() as i128;
    if d >= i64::MIN as i128 {
        Some(d as i64)
    } else {
        None
    }
}

impl CleanupConfig {
    /// Ended sessions last updated before the first timestamp, and
    /// consolidated turns created before the second, are deleted at `now`.
    pub fn cutoffs(&self, now: i64) -> (c: (Option<i64>, Option<i64>))
        ensures
            c.0 == (if now - self.session_retention.spec_secs() >= i64::MIN {
                Some((now - self.session_retention.spec_secs()) as i64)
            } else {
                None
            }),
            c.1 == (if now - self.message_retention.spec_secs() >= i64::MIN {
                Some((now - self.message_retention.spec_secs()) as i64)
            } else {
                None
            }),
    {
        (retention_cutoff(now, self.session_retention), retention_cutoff(now, self.message_retention))
    }
}

/// One step of consolidating a session's turns.
pub enum ConsolidationAction {
    /// Write this turn's content to long-term memory.
    Write { content: String },
    /// Advance the session's watermark past the turn with this sequence number.
    Advance { seq: i64 },
}

/// A consolidation step as the contracts see it.
pub enum ActionView {
    Write(Seq<char>),
    Advance(i64),
}

pub open spec fn action_view(a: ConsolidationAction) -> ActionView {
    match a {
        ConsolidationAction::Write { content } => ActionView::Write(content@),
        ConsolidationAction::Advance { seq } => ActionView::Advance(seq),
    }
}

/// The steps for turns `(seq, content)`, oldest first: each turn's record
/// is written, then the watermark advanced past it.
pub open spec fn spec_consolidation(turns: Seq<(i64, Seq<char>)>) -> Seq<ActionView>
    decreases turns.len(),
{
    if turns.len() == 0 {
        Seq::empty()
    } else {
        spec_consolidation(turns.drop_last()).push(ActionView::Write(turns.last().1)).push(
            ActionView::Advance(turns.last().0),
        )
    }
}

pub open spec fn turn_views(turns: Seq<(i64, String)>) -> Seq<(i64, Seq<char>)> {
    turns.map_values(|t: (i64, String)| (t.0, t.1@))
}

/// The steps that consolidate `turns` (those above the watermark, oldest
/// first). The watermark moves past a turn only once its record is
/// written, so a retry after a failed write repeats no turn and loses none.
pub fn consolidation_plan(turns: &Vec<(i64, String)>) -> (plan: Vec<ConsolidationAction>)
    ensures
        plan@.map_values(|a: ConsolidationAction| action_view(a)) == spec_consolidation(turn_views(turns@)),
{
    let mut plan: Vec<ConsolidationAction> = Vec::new();
    let ghost tv = turn_views(turns@);
    let mut i: usize = 0;
    while i < turns.len()
        invariant
            i <= turns@.len(),
            tv == turn_views(turns@),
            plan@.map_values(|a: ConsolidationAction| action_view(a)) == spec_consolidation(tv.take(i as int)),
        decreases turns.len() - i,
    {
        assert(tv.take(i + 1).drop_last() =~= tv.take(i as int));
        assert(tv.take(i + 1).last() == tv[i as int]);
        let ghost before = plan@.map_values(|a: ConsolidationAction| action_view(a));
        plan.push(ConsolidationAction::Write { content: turns[i].1.clone() });
        plan.push(ConsolidationAction::Advance { seq: turns[i].0 });
        assert(plan@.map_values(|a: ConsolidationAction| action_view(a)) =~= before.push(
            ActionView::Write(tv[i as int].1),
        ).push(ActionView::Advance(tv[i as int].0)));
        i += 1;
    }
    assert(tv.take(turns@.len() as int) =~= tv);
    plan
}

/// Consolidation writes every turn and advances the watermark to every
/// turn, turn `k`'s record at step `2k` and its watermark at step `2k + 1`:
/// the watermark never passes a turn whose record was not written first.
pub proof fn lemma_write_before_advance(turns: Seq<(i64, Seq<char>)>, k: int)
    requires
        0 <= k < turns.len(),
    ensures
        spec_consolidation(turns).len() == 2 * turns.len(),
        spec_consolidation(turns)[2 * k] == ActionView::Write(turns[k].1),
        spec_consolidation(turns)[2 * k + 1] == ActionView::Advance(turns[k].0),
    decreases turns.len(),
{
    lemma_consolidation_len(turns);
    if k < turns.len() - 1 {
        lemma_write_before_advance(turns.drop_last(), k);
    }
}

proof fn lemma_consolidation_len(turns: Seq<(i64, Seq<char>)>)
    ensures
        spec_consolidation(turns).len() == 2 * turns.len(),
    decreases turns.len(),
{
    if turns.len() > 0 {
        lemma_consolidation_len(turns.drop_last());
    }
}

} // verus!
