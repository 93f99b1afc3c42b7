//! The recent-outcome log: a bounded ring buffer over conversion
//! outcomes. Appending at capacity evicts the oldest entry first, so
//! the buffer never grows past its limit; reading returns the entries
//! newest first and changes nothing.

use vstd::prelude::*;
use vstd::string::*;

verus! {

/// How many outcomes the log retains.
pub const RECENT_LOG_LIMIT: usize = 10;

/// One recorded outcome: when, which file, `success` | `failure` |
/// `skip`, and a human-readable reason.
#[derive(Debug)]
pub struct RecentLog {
    pub timestamp_unix_ms: u128,
    pub path: String,
    pub result: String,
    pub reason: String,
}

/// The mathematical value of one log entry.
pub struct LogModel {
    pub timestamp_unix_ms: u128,
    pub path: Seq<char>,
    pub result: Seq<char>,
    pub reason: Seq<char>,
}

impl View for RecentLog {
    type V = LogModel;

    open spec fn view(&self) -> LogModel {
        LogModel {
            timestamp_unix_ms: self.timestamp_unix_ms,
            path: self.path@,
            result: self.result@,
            reason: self.reason@,
        }
    }
}

impl Clone for RecentLog {
    fn clone(&self) -> (r: Self)
        ensures
            r@ == self@,
    {
        RecentLog {
            timestamp_unix_ms: self.timestamp_unix_ms,
            path: self.path.clone(),
            result: self.result.clone(),
            reason: self.reason.clone(),
        }
    }
}

/// What one append does to the buffer's contents, oldest first: evict
/// the oldest entry when full, then append.
pub open spec fn push_model(s: Seq<LogModel>, e: LogModel) -> Seq<LogModel> {
    if s.len() < RECENT_LOG_LIMIT {
        s.push(e)
    } else {
        s.drop_first().push(e)
    }
}

/// The bounded ring buffer of recent outcomes, oldest first.
pub struct RecentLogBuffer {
    entries: Vec<RecentLog>,
}

impl View for RecentLogBuffer {
    type V = Seq<LogModel>;

    closed spec fn view(&self) -> Seq<LogModel> {
        self.entries@.map_values(|e: RecentLog| e@)
    }
}

impl RecentLogBuffer {
    /// The buffer never holds more than the limit.
    pub open spec fn wf(self) -> bool {
        self@.len() <= RECENT_LOG_LIMIT
    }

    /// An empty log.
    pub fn new() -> (r: RecentLogBuffer)
        ensures
            r.wf(),
            r@ == Seq::<LogModel>::empty(),
    {
        let r = RecentLogBuffer { entries: Vec::new() };
        assert(r@ =~= Seq::<LogModel>::empty());
        r
    }

    /// Appends one outcome, evicting the oldest entry when the buffer
    /// is at capacity.
    pub fn push_recent_log(
        &mut self,
        timestamp_unix_ms: u128,
        path: &str,
        result: &str,
        reason: &str,
    )
        requires
            old(self).wf(),
        ensures
            final(self).wf(),
            final(self)@ == push_model(
                old(self)@,
                LogModel {
                    timestamp_unix_ms: timestamp_unix_ms,
                    path: path@,
                    result: result@,
                    reason: reason@,
                },
            ),
    {
        if self.entries.len() >= RECENT_LOG_LIMIT {
            self.entries.remove(0);
        }
        let entry = RecentLog {
            timestamp_unix_ms,
            path: path.to_owned(),
            result: result.to_owned(),
            reason: reason.to_owned(),
        };
        self.entries.push(entry);
        proof {
            assert(self@ =~= push_model(
                old(self)@,
                LogModel {
                    timestamp_unix_ms: timestamp_unix_ms,
                    path: path@,
                    result: result@,
                    reason: reason@,
                },
            ));
        }
    }

    /// The recorded outcomes, newest first. Reading changes nothing.
    pub fn get_recent_logs(&self) -> (r: Vec<RecentLog>)
        ensures
            r@.len() == self@.len(),
            forall|i: int| 0 <= i < r@.len() ==> r@[i]@ == self@[self@.len() - 1 - i],
    {
        let mut r: Vec<RecentLog> = Vec::new();
        let mut i: usize = self.entries.len();
        while i > 0
            invariant
                i <= self.entries@.len(),
                r@.len() == self.entries@.len() - i,
                forall|k: int| 0 <= k < r@.len() ==> r@[k]@ == self@[self@.len() - 1 - k],
            decreases i,
        {
            i = i - 1;
            r.push(self.entries[i].clone());
            assert(r@.last()@ == self@[i as int]);
        }
        r
    }

    /// How many outcomes are currently retained.
    pub fn recent_logs_len(&self) -> (r: usize)
        ensures
            r == self@.len(),
    {
        self.entries.len()
    }
}

/// The contents after a whole sequence of appends, oldest first.
pub open spec fn push_all(s: Seq<LogModel>, es: Seq<LogModel>) -> Seq<LogModel>
    decreases es.len(),
{
    if es.len() == 0 {
        s
    } else {
        push_all(push_model(s, es.first()), es.drop_first())
    }
}

/// The newest at most `RECENT_LOG_LIMIT` entries of `s`.
pub open spec fn latest_of(s: Seq<LogModel>) -> Seq<LogModel> {
    if s.len() <= RECENT_LOG_LIMIT {
        s
    } else {
        s.skip(s.len() - RECENT_LOG_LIMIT)
    }
}

/// Appending any number of entries to a buffer within capacity leaves
/// exactly the newest entries of everything ever appended — never more
/// than the capacity, and exactly the last `RECENT_LOG_LIMIT` once
/// enough have been appended.
pub proof fn lemma_push_all_keeps_latest(s: Seq<LogModel>, es: Seq<LogModel>)
    requires
        s.len() <= RECENT_LOG_LIMIT,
    ensures
        push_all(s, es) == latest_of(s + es),
        push_all(s, es).len() <= RECENT_LOG_LIMIT,
        es.len() >= RECENT_LOG_LIMIT ==> push_all(s, es) == es.skip(
            es.len() - RECENT_LOG_LIMIT,
        ),
    decreases es.len(),
{
    if es.len() == 0 {
        assert(s + es =~= s);
        assert(latest_of(s + es) == s);
    } else {
        let e0 = es.first();
        let s1 = push_model(s, e0);
        let t = s + es;
        assert(s1.len() <= RECENT_LOG_LIMIT);
        lemma_push_all_keeps_latest(s1, es.drop_first());
        if s.len() < RECENT_LOG_LIMIT {
            assert(s1 + es.drop_first() =~= t);
            assert(push_all(s, es) == latest_of(t));
        } else {
            assert(s1 + es.drop_first() =~= t.skip(1));
            assert(push_all(s, es) == latest_of(t.skip(1)));
            assert(latest_of(t.skip(1)) =~= latest_of(t)) by {
                assert(t.len() > RECENT_LOG_LIMIT);
                if t.skip(1).len() <= RECENT_LOG_LIMIT {
                    assert(t.len() - RECENT_LOG_LIMIT == 1);
                    assert(latest_of(t) =~= t.skip(1));
                } else {
                    assert(latest_of(t.skip(1)) =~= t.skip(1).skip(
                        t.skip(1).len() - RECENT_LOG_LIMIT,
                    ));
                    assert(latest_of(t) =~= t.skip(t.len() - RECENT_LOG_LIMIT));
                    assert(t.skip(1).skip(t.skip(1).len() - RECENT_LOG_LIMIT) =~= t.skip(
                        t.len() - RECENT_LOG_LIMIT,
                    ));
                }
            }
        }
        if es.len() >= RECENT_LOG_LIMIT {
            assert(t.skip(t.len() - RECENT_LOG_LIMIT) =~= es.skip(
                es.len() - RECENT_LOG_LIMIT,
            ));
        }
    }
}

} // verus!
