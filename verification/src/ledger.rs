//! The debounce/dedup ledger. For every path it has seen, the ledger
//! keeps the instant of the last admission, the signature admitted
//! then, and whether a job for the path is still in flight. The
//! dispatcher alone mutates it; workers only cause completions to be
//! drained. Admission is refused while a job is in flight, within the
//! debounce window of the previous admission, and — unless a rescan
//! overrides it — when the file's signature has not changed.

use vstd::prelude::*;
use vstd::string::*;

verus! {

/// Minimum distance, in milliseconds, between two admissions of the
/// same path.
pub const DEBOUNCE_WINDOW_MS: u64 = 400;

/// What a file looked like when it was admitted: size plus optional
/// modification stamp. Two signatures are equal exactly when both
/// fields are; an absent stamp equals only an absent stamp.
#[derive(Clone, Copy, Debug, PartialEq, Eq, Structural)]
pub struct FileSignature {
    pub len: u64,
    pub modified: Option<u64>,
}

struct LedgerEntry {
    path: String,
    last_admitted_ms: u64,
    signature: FileSignature,
    in_flight: bool,
}

/// Per-path admission bookkeeping for one watch session.
pub struct DebounceLedger {
    entries: Vec<LedgerEntry>,
}

/// Index of the entry for `p`, or `-1`.
spec fn spec_find(s: Seq<LedgerEntry>, p: Seq<char>) -> int
    decreases s.len(),
{
    if s.len() == 0 {
        -1
    } else if s[0].path@ == p {
        0
    } else {
        let r = spec_find(s.drop_first(), p);
        if r < 0 {
            -1
        } else {
            r + 1
        }
    }
}

proof fn lemma_spec_find(s: Seq<LedgerEntry>, p: Seq<char>)
    ensures
        spec_find(s, p) == -1 ==> forall|k: int| 0 <= k < s.len() ==> s[k].path@ != p,
        spec_find(s, p) >= 0 ==> 0 <= spec_find(s, p) < s.len() && s[spec_find(s, p)].path@ == p
            && forall|k: int| 0 <= k < spec_find(s, p) ==> s[k].path@ != p,
    decreases s.len(),
{
    if s.len() > 0 && s[0].path@ != p {
        let t = s.drop_first();
        lemma_spec_find(t, p);
        if spec_find(s, p) == -1 {
            assert forall|k: int| 0 <= k < s.len() implies s[k].path@ != p by {
                if k >= 1 {
                    assert(t[k - 1] == s[k]);
                }
            }
        } else {
            let m = spec_find(s, p);
            assert(t[m - 1] == s[m]);
            assert forall|k: int| 0 <= k < m implies s[k].path@ != p by {
                if k >= 1 {
                    assert(t[k - 1] == s[k]);
                }
            }
        }
    }
}

proof fn lemma_spec_find_at(s: Seq<LedgerEntry>, p: Seq<char>, m: int)
    requires
        0 <= m < s.len(),
        s[m].path@ == p,
        forall|k: int| 0 <= k < m ==> s[k].path@ != p,
    ensures
        spec_find(s, p) == m,
{
    lemma_spec_find(s, p);
}

proof fn lemma_spec_find_absent(s: Seq<LedgerEntry>, p: Seq<char>)
    requires
        forall|k: int| 0 <= k < s.len() ==> s[k].path@ != p,
    ensures
        spec_find(s, p) == -1,
{
    lemma_spec_find(s, p);
}

impl DebounceLedger {
    /// One entry per path.
    pub closed spec fn wf(self) -> bool {
        forall|i: int, j: int|
            0 <= i < self.entries@.len() && 0 <= j < self.entries@.len() && i != j
                ==> self.entries@[i].path@ != self.entries@[j].path@
    }

    /// Whether the ledger has ever admitted `p` in this session.
    pub closed spec fn known(self, p: Seq<char>) -> bool {
        spec_find(self.entries@, p) >= 0
    }

    /// The instant `p` was last admitted.
    pub closed spec fn last_admitted_ms(self, p: Seq<char>) -> u64 {
        self.entries@[spec_find(self.entries@, p)].last_admitted_ms
    }

    /// The signature `p` was last admitted with.
    pub closed spec fn last_signature(self, p: Seq<char>) -> FileSignature {
        self.entries@[spec_find(self.entries@, p)].signature
    }

    /// Whether a job for `p` is queued or executing.
    pub closed spec fn in_flight(self, p: Seq<char>) -> bool {
        self.known(p) && self.entries@[spec_find(self.entries@, p)].in_flight
    }

    /// The admission policy: a path is admitted when no job for it is
    /// in flight, the debounce window since its last admission has
    /// passed, and — unless `allow_same_signature` — its signature
    /// differs from the one last admitted.
    pub open spec fn should_admit(
        self,
        p: Seq<char>,
        sig: FileSignature,
        now_ms: u64,
        allow_same_signature: bool,
    ) -> bool {
        &&& !self.in_flight(p)
        &&& (self.known(p) ==> now_ms >= self.last_admitted_ms(p) + DEBOUNCE_WINDOW_MS)
        &&& (!allow_same_signature && self.known(p) ==> self.last_signature(p) != sig)
    }

    /// An empty ledger: nothing known, nothing in flight.
    pub fn new() -> (r: DebounceLedger)
        ensures
            r.wf(),
            forall|p: Seq<char>| !r.known(p),
    {
        let r = DebounceLedger { entries: Vec::new() };
        proof {
            assert forall|p: Seq<char>| !r.known(p) by {
                lemma_spec_find_absent(r.entries@, p);
            }
        }
        r
    }

    /// Index of the entry for `path`, if the path is known.
    fn find(&self, path: &str) -> (r: Option<usize>)
        ensures
            match r {
                Option::Some(i) => self.known(path@) && i == spec_find(self.entries@, path@) && i
                    < self.entries@.len() && self.entries@[i as int].path@ == path@,
                Option::None => !self.known(path@),
            },
    {
        let mut i: usize = 0;
        while i < self.entries.len()
            invariant
                i <= self.entries@.len(),
                forall|k: int| 0 <= k < i ==> self.entries@[k].path@ != path@,
            decreases self.entries@.len() - i,
        {
            if self.entries[i].path.as_str().eq(path) {
                proof {
                    lemma_spec_find_at(self.entries@, path@, i as int);
                }
                return Option::Some(i);
            }

            i = i + 1;
        }
        proof {
            lemma_spec_find_absent(self.entries@, path@);
        }
        Option::None
    }

    /// The admission decision for `path` as observed `now_ms`, with
    /// `signature` freshly sampled. Decides only; records nothing.
    pub fn should_enqueue_path(
        &self,
        path: &str,
        signature: &FileSignature,
        now_ms: u64,
        allow_same_signature: bool,
    ) -> (r: bool)
        ensures
            r == self.should_admit(path@, *signature, now_ms, allow_same_signature),
    {
        match self.find(path) {
            Option::None => true,
            Option::Some(i) => {
                let e = &self.entries[i];
                if e.in_flight {
                    return false;
                }
                if !(now_ms >= e.last_admitted_ms && now_ms - e.last_admitted_ms
                    >= DEBOUNCE_WINDOW_MS) {
                    return false;
                }
                if !allow_same_signature && e.signature == *signature {
                    return false;
                }
                true
            },
        }
    }

    /// Records an admission of `path`: stores the instant and the
    /// signature and marks the path in flight. Every other path's
    /// record is untouched.
    pub fn record_admission(&mut self, path: &str, signature: FileSignature, now_ms: u64)
        requires
            old(self).wf(),
        ensures
            final(self).wf(),
            final(self).known(path@),
            final(self).last_admitted_ms(path@) == now_ms,
            final(self).last_signature(path@) == signature,
            final(self).in_flight(path@),
            forall|q: Seq<char>| q != path@ ==> final(self).known(q) == old(self).known(q),
            forall|q: Seq<char>|
                q != path@ ==> final(self).in_flight(q) == old(self).in_flight(q),
            forall|q: Seq<char>|
                q != path@ && old(self).known(q) ==> final(self).last_admitted_ms(q) == old(
                    self,
                ).last_admitted_ms(q) && final(self).last_signature(q) == old(
                    self,
                ).last_signature(q) && final(self).in_flight(q) == old(self).in_flight(q),
    {
        let entry = LedgerEntry {
            path: path.to_owned(),
            last_admitted_ms: now_ms,
            signature,
            in_flight: true,
        };
        let found = self.find(path);
        let ghost old_entries = self.entries@;
        match found {
            Option::Some(i) => {
                proof {
                    lemma_spec_find(old_entries, path@);
                }
                self.entries[i] = entry;
                proof {
                    let s = self.entries@;
                    lemma_spec_find_at(s, path@, i as int);
                    assert forall|q: Seq<char>| q != path@ implies spec_find(s, q) == spec_find(
                        old_entries,
                        q,
                    ) && (spec_find(old_entries, q) >= 0 ==> s[spec_find(old_entries, q)]
                        == old_entries[spec_find(old_entries, q)]) by {
                        lemma_spec_find(old_entries, q);
                        if spec_find(old_entries, q) >= 0 {
                            let m = spec_find(old_entries, q);
                            assert(m != i);
                            assert(s[m] == old_entries[m]);
                            lemma_spec_find_at(s, q, m);
                        } else {
                            lemma_spec_find_absent(s, q);
                        }
                    }
                }
            },
            Option::None => {
                proof {
                    lemma_spec_find(old_entries, path@);
                }
                self.entries.push(entry);
                proof {
                    let s = self.entries@;
                    let n = old_entries.len() as int;
                    lemma_spec_find_at(s, path@, n);
                    assert forall|q: Seq<char>| q != path@ implies spec_find(s, q) == spec_find(
                        old_entries,
                        q,
                    ) && (spec_find(old_entries, q) >= 0 ==> s[spec_find(old_entries, q)]
                        == old_entries[spec_find(old_entries, q)]) by {
                        lemma_spec_find(old_entries, q);
                        if spec_find(old_entries, q) >= 0 {
                            let m = spec_find(old_entries, q);
                            assert(s[m] == old_entries[m]);
                            lemma_spec_find_at(s, q, m);
                        } else {
                            lemma_spec_find_absent(s, q);
                        }
                    }
                }
            },
        }
    }

    /// Drains one completion notice: the path's job is no longer in
    /// flight. Its admission instant and signature are kept for
    /// debouncing. Unknown paths are ignored.
    pub fn mark_completed(&mut self, path: &str)
        requires
            old(self).wf(),
        ensures
            final(self).wf(),
            forall|q: Seq<char>| final(self).known(q) == old(self).known(q),
            !final(self).in_flight(path@),
            forall|q: Seq<char>|
                q != path@ ==> final(self).in_flight(q) == old(self).in_flight(q),
            old(self).known(path@) ==> final(self).last_admitted_ms(path@) == old(
                self,
            ).last_admitted_ms(path@) && final(self).last_signature(path@) == old(
                self,
            ).last_signature(path@),
            forall|q: Seq<char>|
                q != path@ && old(self).known(q) ==> final(self).last_admitted_ms(q) == old(
                    self,
                ).last_admitted_ms(q) && final(self).last_signature(q) == old(
                    self,
                ).last_signature(q) && final(self).in_flight(q) == old(self).in_flight(q),
    {
        let found = self.find(path);
        let ghost old_entries = self.entries@;
        match found {
            Option::Some(i) => {
                proof {
                    lemma_spec_find(old_entries, path@);
                }
                let updated = LedgerEntry {
                    path: self.entries[i].path.clone(),
                    last_admitted_ms: self.entries[i].last_admitted_ms,
                    signature: self.entries[i].signature,
                    in_flight: false,
                };
                self.entries[i] = updated;
                proof {
                    let s = self.entries@;
                    lemma_spec_find_at(s, path@, i as int);
                    assert forall|q: Seq<char>| q != path@ implies spec_find(s, q) == spec_find(
                        old_entries,
                        q,
                    ) && (spec_find(old_entries, q) >= 0 ==> s[spec_find(old_entries, q)]
                        == old_entries[spec_find(old_entries, q)]) by {
                        lemma_spec_find(old_entries, q);
                        if spec_find(old_entries, q) >= 0 {
                            let m = spec_find(old_entries, q);
                            assert(m != i);
                            assert(s[m] == old_entries[m]);
                            lemma_spec_find_at(s, q, m);
                        } else {
                            lemma_spec_find_absent(s, q);
                        }
                    }
                }
            },
            Option::None => {},
        }
    }
}

/// A path with a job in flight is refused admission, whatever its
/// signature, however late the notification, and whether or not a
/// rescan would override the signature check: at most one job per path
/// exists until the completion notice for it is drained.
pub proof fn lemma_in_flight_blocks_admission(
    l: DebounceLedger,
    p: Seq<char>,
    sig: FileSignature,
    now_ms: u64,
    allow_same_signature: bool,
)
    requires
        l.in_flight(p),
    ensures
        !l.should_admit(p, sig, now_ms, allow_same_signature),
{
}

/// After an admission of `p` is recorded at instant `t` with signature
/// `s`, the strict policy admits no re-notification of `p` that falls
/// inside the debounce window or carries the same signature.
pub proof fn lemma_admission_idempotent(
    l: DebounceLedger,
    p: Seq<char>,
    s: FileSignature,
    t: u64,
    s2: FileSignature,
    t2: u64,
)
    requires
        l.known(p),
        l.last_admitted_ms(p) == t,
        l.last_signature(p) == s,
        t2 < t + DEBOUNCE_WINDOW_MS || s2 == s,
    ensures
        !l.should_admit(p, s2, t2, false),
{
}

} // verus!
