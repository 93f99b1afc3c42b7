//! The dispatcher's decisions: whether the engine starts at all, how
//! the configured rescan interval is clamped, which files a rescan
//! sweep considers pending, whether a notified path is admitted as a
//! job, and how completion notices clear the in-flight markers. The
//! surrounding process owns the channels, the OS watcher and the
//! clock; it hands every observation here as plain values.

use vstd::prelude::*;
use vstd::string::*;
use crate::config::AppConfig;
use crate::ledger::{DebounceLedger, FileSignature};
use crate::output::{jpeg_sibling_of, view_seq};
use crate::pathname::is_target_ext_spec;

verus! {

/// How many workers pull from the job queue.
pub const WORKER_COUNT: usize = 2;

/// How long, in milliseconds, the dispatcher and the workers wait on
/// their channels before re-checking the stop signal.
pub const POLL_TIMEOUT_MS: u64 = 200;

/// The smallest accepted rescan interval, in seconds.
pub const MIN_RESCAN_INTERVAL_SECS: u64 = 15;

/// The largest accepted rescan interval, in seconds.
pub const MAX_RESCAN_INTERVAL_SECS: u64 = 3600;

/// The configured rescan interval clamped into the accepted range.
pub open spec fn clamped_rescan_interval(configured: u64) -> u64 {
    if configured < MIN_RESCAN_INTERVAL_SECS {
        MIN_RESCAN_INTERVAL_SECS
    } else if configured > MAX_RESCAN_INTERVAL_SECS {
        MAX_RESCAN_INTERVAL_SECS
    } else {
        configured
    }
}

/// The rescan interval the engine actually uses: out-of-range values
/// are clamped to the nearest bound, in-range values pass unchanged.
pub fn effective_rescan_interval_secs(configured: u64) -> (r: u64)
    ensures
        r == clamped_rescan_interval(configured),
        MIN_RESCAN_INTERVAL_SECS <= r <= MAX_RESCAN_INTERVAL_SECS,
{
    if configured < MIN_RESCAN_INTERVAL_SECS {
        MIN_RESCAN_INTERVAL_SECS
    } else if configured > MAX_RESCAN_INTERVAL_SECS {
        MAX_RESCAN_INTERVAL_SECS
    } else {
        configured
    }
}

/// Whether a configuration is worth starting an engine for: not
/// paused, and at least one folder to watch.
pub fn should_start_watcher(config: &AppConfig) -> (r: bool)
    ensures
        r == (!config@.paused && config@.watch_folders.len() > 0),
{
    !config.paused && config.watch_folders.len() > 0
}

/// Whether a file from a sweep is plausibly pending: it has a source
/// extension and no converted sibling among the files present.
pub open spec fn pending_pred(present: Seq<Seq<char>>) -> spec_fn(Seq<char>) -> bool {
    |p: Seq<char>| is_target_ext_spec(p) && !present.contains(jpeg_sibling_of(p))
}

/// The files of one sweep that a rescan yields for admission: those
/// with a source extension whose converted sibling is not already
/// among the files present, in sweep order.
pub fn collect_pending_files(files: &Vec<String>) -> (r: Vec<String>)
    ensures
        view_seq(r@) == view_seq(files@).filter(pending_pred(view_seq(files@))),
{
    broadcast use vstd::seq_lib::group_seq_properties;

    let ghost present = view_seq(files@);
    let mut r: Vec<String> = Vec::new();
    let mut i: usize = 0;
    assert(view_seq(files@).take(0) =~= Seq::<Seq<char>>::empty());
    assert(view_seq(r@) =~= view_seq(files@).take(0).filter(pending_pred(present)));
    while i < files.len()
        invariant
            i <= files@.len(),
            present == view_seq(files@),
            view_seq(r@) == view_seq(files@).take(i as int).filter(pending_pred(present)),
        decreases files@.len() - i,
    {
        let keep = crate::pathname::is_target_extension(files[i].as_str())
            && !crate::output::has_jpeg_sibling(files[i].as_str(), files);
        assert(view_seq(files@)[i as int] == files@[i as int]@);
        if keep {
            r.push(files[i].clone());
            assert(view_seq(r@) =~= view_seq(files@).take(i as int).filter(
                pending_pred(present),
            ).push(files@[i as int]@));
        }
        proof {
            let taken = view_seq(files@).take(i as int);
            let taken1 = view_seq(files@).take(i + 1);
            assert(taken1 =~= taken.push(view_seq(files@)[i as int]));
            taken.lemma_filter_push(view_seq(files@)[i as int], pending_pred(present));
            if keep {
            } else {
                assert(view_seq(r@) =~= taken1.filter(pending_pred(present)));
            }
        }
        i = i + 1;
    }
    assert(view_seq(files@).take(files@.len() as int) =~= view_seq(files@));
    r
}

/// Admits one candidate path into the ledger, or refuses it. A path
/// whose signature could not be read is refused outright; otherwise
/// the ledger's admission policy decides, and an admission is
/// recorded at `now_ms`. Exactly the admitted path becomes a job.
pub fn enqueue_conversion_job(
    ledger: &mut DebounceLedger,
    path: &str,
    signature: Option<FileSignature>,
    now_ms: u64,
    allow_same_signature: bool,
) -> (enqueued: bool)
    requires
        old(ledger).wf(),
    ensures
        final(ledger).wf(),
        enqueued == (signature matches Option::Some(sig) && old(ledger).should_admit(
            path@,
            sig,
            now_ms,
            allow_same_signature,
        )),
        !enqueued ==> *final(ledger) == *old(ledger),
        enqueued ==> final(ledger).known(path@) && final(ledger).in_flight(path@)
            && final(ledger).last_admitted_ms(path@) == now_ms
            && final(ledger).last_signature(path@) == signature->Some_0,
        enqueued ==> forall|q: Seq<char>|
            q != path@ ==> final(ledger).known(q) == old(ledger).known(q),
        enqueued ==> forall|q: Seq<char>|
            q != path@ && old(ledger).known(q)
                ==> final(ledger).last_admitted_ms(q) == old(ledger).last_admitted_ms(q)
                && final(ledger).last_signature(q) == old(ledger).last_signature(q)
                && final(ledger).in_flight(q) == old(ledger).in_flight(q),
{
    match signature {
        Option::None => false,
        Option::Some(sig) => {
            if ledger.should_enqueue_path(path, &sig, now_ms, allow_same_signature) {
                ledger.record_admission(path, sig, now_ms);
                true
            } else {
                false
            }
        },
    }
}

/// Drains a batch of completion notices: afterwards none of the
/// completed paths is in flight, and no other path's record moved.
pub fn drain_completed_jobs(ledger: &mut DebounceLedger, completed: &Vec<String>)
    requires
        old(ledger).wf(),
    ensures
        final(ledger).wf(),
        forall|q: Seq<char>| final(ledger).known(q) == old(ledger).known(q),
        forall|q: Seq<char>|
            old(ledger).known(q)
                ==> final(ledger).last_admitted_ms(q) == old(ledger).last_admitted_ms(q)
                && final(ledger).last_signature(q) == old(ledger).last_signature(q),
        forall|k: int| 0 <= k < completed@.len() ==> !final(ledger).in_flight(completed@[k]@),
        forall|q: Seq<char>|
            !view_seq(completed@).contains(q)
                ==> final(ledger).in_flight(q) == old(ledger).in_flight(q),
{
    let mut i: usize = 0;
    while i < completed.len()
        invariant
            i <= completed@.len(),
            ledger.wf(),
            forall|q: Seq<char>| ledger.known(q) == old(ledger).known(q),
            forall|q: Seq<char>|
                old(ledger).known(q)
                    ==> ledger.last_admitted_ms(q) == old(ledger).last_admitted_ms(q)
                    && ledger.last_signature(q) == old(ledger).last_signature(q),
            forall|k: int| 0 <= k < i ==> !ledger.in_flight(completed@[k]@),
            forall|q: Seq<char>|
                !view_seq(completed@).contains(q)
                    ==> ledger.in_flight(q) == old(ledger).in_flight(q),
        decreases completed@.len() - i,
    {
        ledger.mark_completed(completed[i].as_str());
        assert(view_seq(completed@)[i as int] == completed@[i as int]@);
        i = i + 1;
    }
}

/// The dispatcher's rescan clock: when the next periodic sweep is due
/// and how far apart sweeps lie.
pub struct RescanClock {
    interval_secs: u64,
    next_due_ms: u64,
}

impl RescanClock {
    /// The clamped sweep interval, in seconds.
    pub closed spec fn spec_interval_secs(self) -> u64 {
        self.interval_secs
    }

    /// When the next sweep is due, in milliseconds.
    pub closed spec fn spec_next_due_ms(self) -> u64 {
        self.next_due_ms
    }

    /// A clock whose first sweep falls one clamped interval after
    /// `now_ms`.
    pub fn new(configured_interval_secs: u64, now_ms: u64) -> (r: RescanClock)
        requires
            now_ms + MAX_RESCAN_INTERVAL_SECS * 1000 <= u64::MAX,
        ensures
            r.spec_interval_secs() == clamped_rescan_interval(configured_interval_secs),
            r.spec_next_due_ms() == now_ms + r.spec_interval_secs() * 1000,
    {
        let interval_secs = effective_rescan_interval_secs(configured_interval_secs);
        RescanClock { interval_secs, next_due_ms: now_ms + interval_secs * 1000 }
    }

    /// Whether the periodic sweep is due at `now_ms`.
    pub fn rescan_due(&self, now_ms: u64) -> (r: bool)
        ensures
            r == (now_ms >= self.spec_next_due_ms()),
    {
        now_ms >= self.next_due_ms
    }

    /// Schedules the following sweep one interval after `now_ms`.
    pub fn advance(&mut self, now_ms: u64)
        requires
            now_ms + MAX_RESCAN_INTERVAL_SECS * 1000 <= u64::MAX,
            old(self).spec_interval_secs() <= MAX_RESCAN_INTERVAL_SECS,
        ensures
            final(self).spec_interval_secs() == old(self).spec_interval_secs(),
            final(self).spec_next_due_ms() == now_ms + old(self).spec_interval_secs() * 1000,
    {
        self.next_due_ms = now_ms + self.interval_secs * 1000;
    }
}

} // verus!
