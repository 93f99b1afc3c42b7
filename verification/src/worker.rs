//! The conversion pipeline, as a state machine. A worker job moves
//! through stabilization sampling, output-path resolution, the
//! external conversion call, the atomic publishing rename, and the
//! optional retirement of the original; every decision between those
//! steps is made here, from plain values. The surrounding process
//! performs each emitted action — sampling sizes, listing the output
//! directory, running the conversion tool, renaming, retiring — and
//! feeds the observed result back as the next event.

use vstd::prelude::*;
use vstd::string::*;
use crate::chars::{chars_of, contains_chars, contains_seq, lower_char, lower_seq, to_lower};
use crate::config::OutputPolicy;
use crate::output::{resolve_output_path, resolved_candidate, tmp_output_path_for, view_seq};
use crate::pathname::{dir_prefix_of, is_lock_ext_spec, is_lock_file, stem_of};

verus! {

/// How many size-sample pairs a job may take before it gives up on a
/// file that will not stabilize.
pub const MAX_STABILIZE_RETRIES: u64 = 3;

/// How long, in milliseconds, the two size samples of one
/// stabilization attempt lie apart.
pub const STABLE_WINDOW_MS: u64 = 300;

/// Which failure family a conversion diagnostic belongs to, judged by
/// its text alone: `permission`, `decode`, or plain `io`.
pub open spec fn classification_of(e: Seq<char>) -> Seq<char> {
    if contains_seq(lower_seq(e), "permission denied"@) || contains_seq(
        lower_seq(e),
        "operation not permitted"@,
    ) {
        "permission"@
    } else if contains_seq(lower_seq(e), "sips exited"@) {
        "decode"@
    } else {
        "io"@
    }
}

/// Lowercases ASCII letters in the characters of `v`.
fn lower_chars(v: &Vec<char>) -> (r: Vec<char>)
    ensures
        r@ == lower_seq(v@),
{
    let mut r: Vec<char> = Vec::new();
    let mut i: usize = 0;
    while i < v.len()
        invariant
            i <= v@.len(),
            r@.len() == i,
            forall|k: int| 0 <= k < i ==> r@[k] == to_lower(v@[k]),
        decreases v@.len() - i,
    {
        r.push(lower_char(v[i]));
        i = i + 1;
    }
    assert(r@ =~= lower_seq(v@));
    r
}

/// The failure family of a conversion diagnostic.
pub fn classify_conversion_error(err: &str) -> (r: &'static str)
    ensures
        r@ == classification_of(err@),
{
    let low = lower_chars(&chars_of(err));
    let permission_denied = chars_of("permission denied");
    let not_permitted = chars_of("operation not permitted");
    let sips_exited = chars_of("sips exited");
    if contains_chars(&low, &permission_denied) || contains_chars(&low, &not_permitted) {
        "permission"
    } else if contains_chars(&low, &sips_exited) {
        "decode"
    } else {
        "io"
    }
}

/// The diagnostic reported when the conversion tool exits unsuccessfully.
pub open spec fn sips_failure_of(status: Seq<char>, stderr: Seq<char>) -> Seq<char> {
    "sips exited with status "@ + status + ": "@ + (if stderr.len() == 0 {
        "no stderr output"@
    } else {
        stderr
    })
}

/// Composes the diagnostic for an unsuccessful conversion-tool exit
/// from the rendered exit status and the trimmed standard-error text.
pub fn sips_failure_message(status: &str, stderr: &str) -> (r: String)
    ensures
        r@ == sips_failure_of(status@, stderr@),
{
    let mut s = String::new();
    s.append("sips exited with status ");
    s.append(status);
    s.append(": ");
    if stderr.unicode_len() == 0 {
        s.append("no stderr output");
    } else {
        s.append(stderr);
    }
    s
}

/// A failure outcome's reason: the classified family in brackets,
/// then the diagnostic itself.
pub open spec fn failure_reason(e: Seq<char>) -> Seq<char> {
    "["@ + classification_of(e) + "] "@ + e
}

/// The diagnostic recorded when the publishing rename fails.
pub open spec fn publish_error_of(output: Seq<char>, e: Seq<char>) -> Seq<char> {
    "failed to finalize output "@ + output + ": "@ + e
}

/// Where a job stands in the pipeline.
pub enum JobPhase {
    /// Waiting for the next pair of size samples.
    Stabilizing { attempts_used: u64 },
    /// Stable; waiting for the listing of the output directory.
    ResolvingOutput,
    /// The conversion tool is writing the temporary output.
    Converting { output_path: String, tmp_output_path: String },
    /// The tool succeeded; the rename into place is pending.
    Publishing { output_path: String, tmp_output_path: String },
    /// Published; the original's retirement is pending.
    Retiring { output_path: String },
    /// The job ended with this outcome.
    Done { result: String, reason: String },
}

/// What the surrounding process observed for the job.
pub enum JobEvent {
    /// Two file sizes sampled one stabilization window apart.
    SizesSampled { first: u64, second: u64 },
    /// A metadata read failed while sampling.
    SizeSampleFailed { message: String },
    /// The paths currently present in the output directory.
    OutputListing { existing: Vec<String> },
    /// The conversion tool finished; `None` is success.
    ConversionFinished { error: Option<String> },
    /// The rename of the temporary output finished; `None` is success.
    PublishFinished { error: Option<String> },
    /// The retirement of the original finished; `None` is success.
    RetireFinished { error: Option<String> },
}

/// What the surrounding process must do next for the job.
pub enum JobAction {
    /// Sample the file's size twice, one stabilization window apart.
    SampleSizes,
    /// List the paths present in the directory the output goes to.
    ListOutputDirectory,
    /// Run the conversion tool from the input to the temporary path.
    RunConversion { input_path: String, tmp_output_path: String, quality: u8 },
    /// Atomically rename the finished temporary output into place.
    PublishOutput { tmp_output_path: String, output_path: String },
    /// Retire the original to the recycle location.
    RetireOriginal { path: String },
    /// Append the outcome to the recent-outcome log and report the
    /// job's completion to the dispatcher.
    RecordOutcome { result: String, reason: String },
}

/// Whether an event is of the kind the phase is waiting for.
pub open spec fn event_fits(phase: JobPhase, event: JobEvent) -> bool {
    match (phase, event) {
        (JobPhase::Stabilizing { .. }, JobEvent::SizesSampled { .. }) => true,
        (JobPhase::Stabilizing { .. }, JobEvent::SizeSampleFailed { .. }) => true,
        (JobPhase::ResolvingOutput, JobEvent::OutputListing { .. }) => true,
        (JobPhase::Converting { .. }, JobEvent::ConversionFinished { .. }) => true,
        (JobPhase::Publishing { .. }, JobEvent::PublishFinished { .. }) => true,
        (JobPhase::Retiring { .. }, JobEvent::RetireFinished { .. }) => true,
        _ => false,
    }
}

/// Both the next phase and the action record the same final outcome.
pub open spec fn done_with(
    next: JobPhase,
    action: JobAction,
    result: Seq<char>,
    reason: Seq<char>,
) -> bool {
    &&& next matches JobPhase::Done { result: r1, reason: m1 } && r1@ == result && m1@ == reason
    &&& action matches JobAction::RecordOutcome { result: r2, reason: m2 } && r2@ == result && m2@
        == reason
}

/// The pipeline's transition relation: what phase and action must
/// follow from observing `event` in `phase`, for the job on `input`.
pub open spec fn step_ok(
    policy: OutputPolicy,
    quality: u8,
    input: Seq<char>,
    phase: JobPhase,
    event: JobEvent,
    next: JobPhase,
    action: JobAction,
) -> bool {
    match (phase, event) {
        (JobPhase::Stabilizing { attempts_used }, JobEvent::SizesSampled { first, second }) => {
            if first == second {
                next is ResolvingOutput && action is ListOutputDirectory
            } else if attempts_used + 1 < MAX_STABILIZE_RETRIES {
                (next matches JobPhase::Stabilizing { attempts_used: a2 } && a2 == attempts_used
                    + 1) && action is SampleSizes
            } else {
                done_with(next, action, "skip"@, "did not stabilize within retry limit"@)
            }
        },
        (JobPhase::Stabilizing { .. }, JobEvent::SizeSampleFailed { message }) => done_with(
            next,
            action,
            "skip"@,
            "access error: "@ + message@,
        ),
        (JobPhase::ResolvingOutput, JobEvent::OutputListing { existing }) => {
            &&& next matches JobPhase::Converting { output_path, tmp_output_path }
                && resolved_candidate(
                dir_prefix_of(input) + stem_of(input),
                seq!['.', 'j', 'p', 'g'],
                view_seq(existing@),
                output_path@,
            ) && tmp_output_path@ == output_path@ + ".tmp"@ && (
            action matches JobAction::RunConversion {
                input_path: ip,
                tmp_output_path: tp,
                quality: q,
            } && ip@ == input && tp@ == tmp_output_path@ && q == quality)
        },
        (
            JobPhase::Converting { output_path, tmp_output_path },
            JobEvent::ConversionFinished { error },
        ) => {
            match error {
                Option::None => {
                    &&& next matches JobPhase::Publishing { output_path: o2, tmp_output_path: t2 }
                        && o2@ == output_path@ && t2@ == tmp_output_path@
                    &&& action matches JobAction::PublishOutput {
                        tmp_output_path: tp,
                        output_path: op,
                    } && tp@ == tmp_output_path@ && op@ == output_path@
                },
                Option::Some(e) => done_with(next, action, "failure"@, failure_reason(e@)),
            }
        },
        (
            JobPhase::Publishing { output_path, tmp_output_path: _ },
            JobEvent::PublishFinished { error },
        ) => {
            match error {
                Option::None => {
                    match policy {
                        OutputPolicy::Replace => {
                            &&& next matches JobPhase::Retiring { output_path: o2 } && o2@
                                == output_path@
                            &&& action matches JobAction::RetireOriginal { path } && path@ == input
                        },
                        OutputPolicy::Coexist => done_with(
                            next,
                            action,
                            "success"@,
                            "converted to jpeg"@,
                        ),
                    }
                },
                Option::Some(e) => done_with(
                    next,
                    action,
                    "failure"@,
                    failure_reason(publish_error_of(output_path@, e@)),
                ),
            }
        },
        (JobPhase::Retiring { .. }, JobEvent::RetireFinished { error }) => {
            match error {
                Option::None => done_with(next, action, "success"@, "converted to jpeg"@),
                Option::Some(e) => done_with(next, action, "failure"@, failure_reason(e@)),
            }
        },
        _ => false,
    }
}

/// Begins a job for `input_path`. A lock or sidecar file is skipped
/// outright — it is never stabilized, converted, or retired — and its
/// outcome is recorded at once; any other file enters stabilization.
pub fn start_job(input_path: &str) -> (r: (JobPhase, JobAction))
    ensures
        is_lock_ext_spec(input_path@) ==> done_with(r.0, r.1, "skip"@, "lock file"@),
        !is_lock_ext_spec(input_path@) ==> (r.0 matches JobPhase::Stabilizing { attempts_used }
            && attempts_used == 0) && r.1 is SampleSizes,
{
    if is_lock_file(input_path) {
        let result = "skip".to_owned();
        let reason = "lock file".to_owned();
        let result2 = "skip".to_owned();
        let reason2 = "lock file".to_owned();
        (
            JobPhase::Done { result, reason },
            JobAction::RecordOutcome { result: result2, reason: reason2 },
        )
    } else {
        (JobPhase::Stabilizing { attempts_used: 0 }, JobAction::SampleSizes)
    }
}

/// One transition of the pipeline: consumes the phase and the observed
/// event and yields the next phase and the action to perform. Yields
/// nothing exactly when the event is not of the kind the phase awaits
/// (a finished job among them).
pub fn worker_step(
    policy: &OutputPolicy,
    quality: u8,
    input_path: &str,
    phase: JobPhase,
    event: JobEvent,
) -> (r: Option<(JobPhase, JobAction)>)
    ensures
        r is Some <==> event_fits(phase, event),
        r matches Option::Some(pa) ==> step_ok(
            *policy,
            quality,
            input_path@,
            phase,
            event,
            pa.0,
            pa.1,
        ),
{
    match (phase, event) {
        (JobPhase::Stabilizing { attempts_used }, JobEvent::SizesSampled { first, second }) => {
            if first == second {
                Option::Some((JobPhase::ResolvingOutput, JobAction::ListOutputDirectory))
            } else if attempts_used < MAX_STABILIZE_RETRIES - 1 {
                Option::Some(
                    (
                        JobPhase::Stabilizing { attempts_used: attempts_used + 1 },
                        JobAction::SampleSizes,
                    ),
                )
            } else {
                let reason = "did not stabilize within retry limit".to_owned();
                let reason2 = reason.clone();
                Option::Some(
                    (
                        JobPhase::Done { result: "skip".to_owned(), reason },
                        JobAction::RecordOutcome {
                            result: "skip".to_owned(),
                            reason: reason2,
                        },
                    ),
                )
            }
        },
        (JobPhase::Stabilizing { .. }, JobEvent::SizeSampleFailed { message }) => {
            let mut reason = "access error: ".to_owned();
            reason.append(message.as_str());
            let reason2 = reason.clone();
            Option::Some(
                (
                    JobPhase::Done { result: "skip".to_owned(), reason },
                    JobAction::RecordOutcome {
                        result: "skip".to_owned(),
                        reason: reason2,
                    },
                ),
            )
        },
        (JobPhase::ResolvingOutput, JobEvent::OutputListing { existing }) => {
            let output_path = resolve_output_path(input_path, &existing);
            let tmp_output_path = tmp_output_path_for(output_path.as_str());
            proof {
                reveal_strlit(".tmp");
                assert(".tmp"@ =~= seq!['.', 't', 'm', 'p']);
            }
            let tmp2 = tmp_output_path.clone();
            let input_owned = input_path.to_owned();
            Option::Some(
                (
                    JobPhase::Converting { output_path, tmp_output_path },
                    JobAction::RunConversion {
                        input_path: input_owned,
                        tmp_output_path: tmp2,
                        quality,
                    },
                ),
            )
        },
        (
            JobPhase::Converting { output_path, tmp_output_path },
            JobEvent::ConversionFinished { error },
        ) => {
            match error {
                Option::None => {
                    let tmp2 = tmp_output_path.clone();
                    let output2 = output_path.clone();
                    Option::Some(
                        (
                            JobPhase::Publishing { output_path, tmp_output_path },
                            JobAction::PublishOutput {
                                tmp_output_path: tmp2,
                                output_path: output2,
                            },
                        ),
                    )
                },
                Option::Some(e) => {
                    let category = classify_conversion_error(e.as_str());
                    let mut reason = "[".to_owned();
                    reason.append(category);
                    reason.append("] ");
                    reason.append(e.as_str());
                    let reason2 = reason.clone();
                    Option::Some(
                        (
                            JobPhase::Done { result: "failure".to_owned(), reason },
                            JobAction::RecordOutcome {
                                result: "failure".to_owned(),
                                reason: reason2,
                            },
                        ),
                    )
                },
            }
        },
        (
            JobPhase::Publishing { output_path, tmp_output_path: _ },
            JobEvent::PublishFinished { error },
        ) => {
            match error {
                Option::None => {
                    match policy {
                        OutputPolicy::Replace => {
                            let input_owned = input_path.to_owned();
                            Option::Some(
                                (
                                    JobPhase::Retiring { output_path },
                                    JobAction::RetireOriginal { path: input_owned },
                                ),
                            )
                        },
                        OutputPolicy::Coexist => {
                            let reason = "converted to jpeg".to_owned();
                            let reason2 = reason.clone();
                            Option::Some(
                                (
                                    JobPhase::Done {
                                        result: "success".to_owned(),
                                        reason,
                                    },
                                    JobAction::RecordOutcome {
                                        result: "success".to_owned(),
                                        reason: reason2,
                                    },
                                ),
                            )
                        },
                    }
                },
                Option::Some(e) => {
                    let mut diagnostic = "failed to finalize output ".to_owned();
                    diagnostic.append(output_path.as_str());
                    diagnostic.append(": ");
                    diagnostic.append(e.as_str());
                    let category = classify_conversion_error(diagnostic.as_str());
                    let mut reason = "[".to_owned();
                    reason.append(category);
                    reason.append("] ");
                    reason.append(diagnostic.as_str());
                    let reason2 = reason.clone();
                    Option::Some(
                        (
                            JobPhase::Done { result: "failure".to_owned(), reason },
                            JobAction::RecordOutcome {
                                result: "failure".to_owned(),
                                reason: reason2,
                            },
                        ),
                    )
                },
            }
        },
        (JobPhase::Retiring { .. }, JobEvent::RetireFinished { error }) => {
            match error {
                Option::None => {
                    let reason = "converted to jpeg".to_owned();
                    let reason2 = reason.clone();
                    Option::Some(
                        (
                            JobPhase::Done { result: "success".to_owned(), reason },
                            JobAction::RecordOutcome {
                                result: "success".to_owned(),
                                reason: reason2,
                            },
                        ),
                    )
                },
                Option::Some(e) => {
                    let category = classify_conversion_error(e.as_str());
                    let mut reason = "[".to_owned();
                    reason.append(category);
                    reason.append("] ");
                    reason.append(e.as_str());
                    let reason2 = reason.clone();
                    Option::Some(
                        (
                            JobPhase::Done { result: "failure".to_owned(), reason },
                            JobAction::RecordOutcome {
                                result: "failure".to_owned(),
                                reason: reason2,
                            },
                        ),
                    )
                },
            }
        },
        (_, _) => Option::None,
    }
}

/// A finished job takes no further step.
pub proof fn lemma_done_is_terminal(
    policy: OutputPolicy,
    quality: u8,
    input: Seq<char>,
    phase: JobPhase,
    event: JobEvent,
    next: JobPhase,
    action: JobAction,
)
    requires
        phase is Done,
    ensures
        !step_ok(policy, quality, input, phase, event, next, action),
{
}

/// Publication is atomic: the conversion tool is only ever pointed at
/// the temporary path, which differs from the final output path, and
/// the final path is only ever the destination of the publishing
/// rename, which is issued exactly on the tool's reported success.
pub proof fn lemma_atomic_publish(
    policy: OutputPolicy,
    quality: u8,
    input: Seq<char>,
    phase: JobPhase,
    event: JobEvent,
    next: JobPhase,
    action: JobAction,
)
    requires
        step_ok(policy, quality, input, phase, event, next, action),
    ensures
        action matches JobAction::RunConversion { tmp_output_path, .. } ==> (
        next matches JobPhase::Converting { output_path: o, tmp_output_path: t } && t@
            == tmp_output_path@ && tmp_output_path@ == o@ + ".tmp"@ && tmp_output_path@ != o@),
        action matches JobAction::PublishOutput { tmp_output_path, output_path } ==> (
        phase matches JobPhase::Converting { output_path: o, tmp_output_path: t } && o@
            == output_path@ && t@ == tmp_output_path@) && (
        event matches JobEvent::ConversionFinished { error } && error is None),
{
    reveal_strlit(".tmp");
    match next {
        JobPhase::Converting { output_path: o, tmp_output_path: t } => {
            if t@ == o@ + ".tmp"@ {
                assert(t@.len() == o@.len() + 4);
            }
        },
        _ => {},
    }
}

/// A retirement failure ends the job as a recorded failure, and
/// nothing more: the machine has no action that touches the published
/// output again, so a conversion success is never undone by a later
/// retirement failure.
pub proof fn lemma_retirement_failure_keeps_output(
    policy: OutputPolicy,
    quality: u8,
    input: Seq<char>,
    phase: JobPhase,
    event: JobEvent,
    next: JobPhase,
    action: JobAction,
    e: Seq<char>,
)
    requires
        step_ok(policy, quality, input, phase, event, next, action),
        phase is Retiring,
        event matches JobEvent::RetireFinished { error } && error matches Option::Some(msg) && msg@
            == e,
    ensures
        done_with(next, action, "failure"@, failure_reason(e)),
        !(action is RunConversion),
        !(action is PublishOutput),
{
}

/// A trace: each event, observed in the phase the previous step left,
/// yields the recorded phase and action under the transition relation.
pub open spec fn trace_ok(
    policy: OutputPolicy,
    quality: u8,
    input: Seq<char>,
    start: JobPhase,
    events: Seq<JobEvent>,
    phases: Seq<JobPhase>,
    actions: Seq<JobAction>,
) -> bool {
    &&& phases.len() == events.len()
    &&& actions.len() == events.len()
    &&& forall|i: int|
        0 <= i < events.len() ==> step_ok(
            policy,
            quality,
            input,
            if i == 0 {
                start
            } else {
                phases[i - 1]
            },
            events[i],
            #[trigger] phases[i],
            actions[i],
        )
}

/// A file that never produces two equal size samples is never
/// converted: along any trace from the start of stabilization in
/// which every sample pair differs, the conversion tool is never
/// invoked, nothing is published or retired, and any recorded outcome
/// is a skip.
pub proof fn lemma_unstable_file_never_converted(
    policy: OutputPolicy,
    quality: u8,
    input: Seq<char>,
    events: Seq<JobEvent>,
    phases: Seq<JobPhase>,
    actions: Seq<JobAction>,
    i: int,
)
    requires
        trace_ok(
            policy,
            quality,
            input,
            JobPhase::Stabilizing { attempts_used: 0 },
            events,
            phases,
            actions,
        ),
        forall|k: int|
            0 <= k < events.len() ==> (#[trigger] events[k] matches JobEvent::SizesSampled {
                first,
                second,
            } ==> first != second),
        0 <= i < events.len(),
    ensures
        phases[i] is Stabilizing || phases[i] is Done,
        phases[i] matches JobPhase::Done { result, .. } ==> result@ == "skip"@,
        !(actions[i] is RunConversion),
        !(actions[i] is PublishOutput),
        !(actions[i] is RetireOriginal),
        actions[i] matches JobAction::RecordOutcome { result, .. } ==> result@ == "skip"@,
        (forall|k: int| 0 <= k < events.len() ==> events[k] is SizesSampled) ==> (
        phases[i] matches JobPhase::Done { reason, .. } ==> reason@
            == "did not stabilize within retry limit"@),
    decreases i,
{
    if i > 0 {
        lemma_unstable_file_never_converted(policy, quality, input, events, phases, actions, i - 1);
    }
}

} // verus!
