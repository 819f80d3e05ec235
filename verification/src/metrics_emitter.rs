//! Keeps the notifications on the metrics of a session apart.
use crate::model::SolutionSessionId;
use vstd::prelude::*;

verus! {

/// For how many milliseconds after a notification no other is sent for the same
/// session.
pub const THROTTLE_MS: u64 = 2000;

/// What the notification is called.
pub const METRICS_CHANGED: &'static str = "workspace.session_metrics_changed";

/// When a notification was last sent for each session, on the monotonic clock
/// in nanoseconds. Notifications that are held back are not made up for.
pub struct MetricsEmitter {
    pub last_emit: Vec<(SolutionSessionId, u64)>,
}

/// When a notification was last sent for a session.
pub open spec fn last_sent(log: Seq<(SolutionSessionId, u64)>, id: Seq<char>) -> Option<u64>
    decreases log.len(),
{
    if log.len() == 0 {
        None
    } else if log.last().0@ == id {
        Some(log.last().1)
    } else {
        last_sent(log.drop_last(), id)
    }
}

/// Whether a notification may be sent at `now`, given when the last one was.
/// A clock that stands still or runs back counts as no time at all.
pub open spec fn is_due(last: Option<u64>, now: u64) -> bool {
    match last {
        Some(t) => now > t && (now - t) / 1_000_000 >= THROTTLE_MS,
        None => true,
    }
}

/// No session is there twice.
pub open spec fn has_distinct_ids(log: Seq<(SolutionSessionId, u64)>) -> bool {
    forall|i: int, j: int|
        0 <= i < j < log.len() ==> (#[trigger] log[i]).0@ != (#[trigger] log[j]).0@
}

impl MetricsEmitter {
    /// When a notification was last sent for a session.
    pub open spec fn sent(self, id: Seq<char>) -> Option<u64> {
        last_sent(self.last_emit@, id)
    }

    /// No session is there twice.
    pub open spec fn wf(self) -> bool {
        has_distinct_ids(self.last_emit@)
    }

    pub fn new() -> (r: Self)
        ensures
            r.wf(),
            forall|id: Seq<char>| #[trigger] r.sent(id) is None,
    {
        MetricsEmitter { last_emit: Vec::new() }
    }

    /// Whether to send a notification for a session at `now`; if so, that is
    /// noted.
    pub fn emit_if_ready(&mut self, session_id: &SolutionSessionId, now: u64) -> (r: bool)
        requires
            old(self).wf(),
        ensures
            final(self).wf(),
            r == is_due(old(self).sent(session_id@), now),
            final(self).sent(session_id@) == if r {
                Some(now)
            } else {
                old(self).sent(session_id@)
            },
            forall|id: Seq<char>|
                id != session_id@ ==> #[trigger] final(self).sent(id) == old(self).sent(id),
    {
        let ghost log = self.last_emit@;
        let mut i: usize = 0;
        while i < self.last_emit.len()
            invariant
                i <= self.last_emit@.len(),
                self.last_emit@ == log,
                log == old(self).last_emit@,
                old(self).wf(),
                forall|k: int| 0 <= k < i ==> (#[trigger] log[k]).0@ != session_id@,
            decreases self.last_emit@.len() - i,
        {
            if self.last_emit[i].0.same(session_id) {
                let last: u64 = self.last_emit[i].1;
                proof {
                    lemma_last_sent_at(log, i as int);
                }
                let ready = now > last && (now - last) / 1_000_000 >= THROTTLE_MS;
                if ready {
                    let id = *session_id;
                    self.last_emit.set(i, (id, now));
                    proof {
                        lemma_update_sent(log, i as int, (id, now));
                    }
                }
                return ready;
            }
            i += 1;
        }
        proof {
            lemma_never_sent(log, session_id@);
        }
        let id = *session_id;
        self.last_emit.push((id, now));
        proof {
            assert(log.push((id, now)).drop_last() =~= log);
        }
        true
    }
}

/// What is noted of the session at `i` is what was sent for it.
proof fn lemma_last_sent_at(log: Seq<(SolutionSessionId, u64)>, i: int)
    requires
        has_distinct_ids(log),
        0 <= i < log.len(),
    ensures
        last_sent(log, log[i].0@) == Some(log[i].1),
    decreases log.len(),
{
    if i < log.len() - 1 {
        assert(log[i].0@ != log[log.len() - 1].0@);
        assert(log.drop_last()[i] == log[i]);
        lemma_last_sent_at(log.drop_last(), i);
    }
}

/// Where no entry is for the session, nothing was sent for it.
proof fn lemma_never_sent(log: Seq<(SolutionSessionId, u64)>, id: Seq<char>)
    requires
        forall|k: int| 0 <= k < log.len() ==> (#[trigger] log[k]).0@ != id,
    ensures
        last_sent(log, id) is None,
    decreases log.len(),
{
    if log.len() > 0 {
        assert(log[log.len() - 1].0@ != id);
        assert forall|k: int| 0 <= k < log.len() - 1 implies (
        #[trigger] log.drop_last()[k]).0@ != id by {
            assert(log.drop_last()[k] == log[k]);
        }
        lemma_never_sent(log.drop_last(), id);
    }
}

/// Noting anew when a notification was sent changes that session alone.
proof fn lemma_update_sent(
    log: Seq<(SolutionSessionId, u64)>,
    i: int,
    entry: (SolutionSessionId, u64),
)
    requires
        has_distinct_ids(log),
        0 <= i < log.len(),
        entry.0@ == log[i].0@,
    ensures
        has_distinct_ids(log.update(i, entry)),
        last_sent(log.update(i, entry), entry.0@) == Some(entry.1),
        forall|id: Seq<char>|
            id != entry.0@ ==> #[trigger] last_sent(log.update(i, entry), id) == last_sent(log, id),
    decreases log.len(),
{
    let updated = log.update(i, entry);
    assert forall|a: int, b: int| 0 <= a < b < updated.len() implies (#[trigger] updated[a]).0@ != (
    #[trigger] updated[b]).0@ by {
        assert(log[a].0@ != log[b].0@);
    }
    lemma_last_sent_at(updated, i);
    if i == log.len() - 1 {
        assert(updated.drop_last() =~= log.drop_last());
    } else {
        assert(updated.drop_last() =~= log.drop_last().update(i, entry));
        assert forall|a: int, b: int| 0 <= a < b < log.drop_last().len() implies (
        #[trigger] log.drop_last()[a]).0@ != (#[trigger] log.drop_last()[b]).0@ by {
            assert(log[a].0@ != log[b].0@);
        }
        lemma_update_sent(log.drop_last(), i, entry);
        assert(updated.last() == log.last());
        assert forall|id: Seq<char>| id != entry.0@ implies #[trigger] last_sent(updated, id)
            == last_sent(log, id) by {
            assert(last_sent(updated.drop_last(), id) == last_sent(log.drop_last(), id));
        }
    }
}

/// Two notifications for one session are at least the throttle apart: one that
/// is asked for sooner is held back.
pub proof fn law_notifications_are_apart(last: u64, now: u64)
    requires
        now - last < THROTTLE_MS * 1_000_000,
    ensures
        !is_due(Some(last), now),
{
}

} // verus!
