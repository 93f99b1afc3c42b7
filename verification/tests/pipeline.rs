use heic_ready::config::OutputPolicy;
use heic_ready::dispatch::enqueue_conversion_job;
use heic_ready::ledger::{DebounceLedger, FileSignature};
use heic_ready::outcome_log::RecentLogBuffer;
use heic_ready::worker::{
    classify_conversion_error, sips_failure_message, start_job, worker_step, JobAction, JobEvent,
    JobPhase,
};

#[test]
fn conversion_error_is_classified() {
    assert_eq!(classify_conversion_error("Permission denied"), "permission");
    assert_eq!(
        classify_conversion_error("sips exited with status 1"),
        "decode"
    );
    assert_eq!(classify_conversion_error("failed to finalize output"), "io");
}

#[test]
fn operation_not_permitted_is_a_permission_error() {
    assert_eq!(
        classify_conversion_error("rename: Operation not permitted"),
        "permission"
    );
}

#[test]
fn sips_failure_message_names_status_and_stderr() {
    assert_eq!(
        sips_failure_message("1", "bad input"),
        "sips exited with status 1: bad input".to_string()
    );
    assert_eq!(
        sips_failure_message("2", ""),
        "sips exited with status 2: no stderr output".to_string()
    );
}

#[test]
fn lock_file_is_skipped_immediately() {
    let (phase, action) = start_job("/d/busy.heic.lock");
    match phase {
        JobPhase::Done { result, reason } => {
            assert_eq!(result, "skip");
            assert_eq!(reason, "lock file");
        }
        _ => panic!("lock file must finish immediately"),
    }
    match action {
        JobAction::RecordOutcome { result, reason } => {
            assert_eq!(result, "skip");
            assert_eq!(reason, "lock file");
        }
        _ => panic!("lock file outcome must be recorded"),
    }
}

#[test]
fn stable_file_returns_true() {
    let (phase, action) = start_job("/d/stable.heic");
    assert!(matches!(phase, JobPhase::Stabilizing { attempts_used: 0 }));
    assert!(matches!(action, JobAction::SampleSizes));

    let (phase, action) = worker_step(
        &OutputPolicy::Coexist,
        92,
        "/d/stable.heic",
        phase,
        JobEvent::SizesSampled { first: 3, second: 3 },
    )
    .expect("event fits");
    assert!(matches!(phase, JobPhase::ResolvingOutput));
    assert!(matches!(action, JobAction::ListOutputDirectory));
}

#[test]
fn unstable_file_is_skipped_without_conversion() {
    let policy = OutputPolicy::Coexist;
    let input = "/d/growing.heic";
    let (mut phase, _) = start_job(input);
    let samples = [(1u64, 2u64), (2, 3), (3, 4)];
    let mut finished = false;
    for (first, second) in samples {
        let (next, action) = worker_step(
            &policy,
            92,
            input,
            phase,
            JobEvent::SizesSampled { first, second },
        )
        .expect("event fits");
        assert!(!matches!(action, JobAction::RunConversion { .. }));
        phase = next;
        if let JobPhase::Done { ref result, ref reason } = phase {
            assert_eq!(result, "skip");
            assert_eq!(reason, "did not stabilize within retry limit");
            finished = true;
        }
    }
    assert!(finished, "the retry budget must be exhausted");
}

#[test]
fn metadata_error_skips_with_access_error() {
    let (phase, _) = start_job("/d/gone.heic");
    let (phase, action) = worker_step(
        &OutputPolicy::Coexist,
        92,
        "/d/gone.heic",
        phase,
        JobEvent::SizeSampleFailed {
            message: "No such file or directory".to_string(),
        },
    )
    .expect("event fits");
    assert!(matches!(phase, JobPhase::Done { .. }));
    match action {
        JobAction::RecordOutcome { result, reason } => {
            assert_eq!(result, "skip");
            assert_eq!(reason, "access error: No such file or directory");
        }
        _ => panic!("access error must be recorded"),
    }
}

#[test]
fn conversion_failure_is_classified_and_recorded() {
    let input = "/d/bad.heic";
    let (phase, _) = start_job(input);
    let (phase, _) = worker_step(
        &OutputPolicy::Coexist,
        92,
        input,
        phase,
        JobEvent::SizesSampled { first: 5, second: 5 },
    )
    .expect("event fits");
    let (phase, action) = worker_step(
        &OutputPolicy::Coexist,
        92,
        input,
        phase,
        JobEvent::OutputListing { existing: vec![] },
    )
    .expect("event fits");
    match &action {
        JobAction::RunConversion {
            input_path,
            tmp_output_path,
            quality,
        } => {
            assert_eq!(input_path, input);
            assert_eq!(tmp_output_path, "/d/bad.jpg.tmp");
            assert_eq!(*quality, 92);
        }
        _ => panic!("a stable file must be converted"),
    }
    let (phase, action) = worker_step(
        &OutputPolicy::Coexist,
        92,
        input,
        phase,
        JobEvent::ConversionFinished {
            error: Some("sips exited with status 1: no stderr output".to_string()),
        },
    )
    .expect("event fits");
    assert!(matches!(phase, JobPhase::Done { .. }));
    match action {
        JobAction::RecordOutcome { result, reason } => {
            assert_eq!(result, "failure");
            assert_eq!(
                reason,
                "[decode] sips exited with status 1: no stderr output"
            );
        }
        _ => panic!("the failure must be recorded"),
    }
}

#[test]
fn engine_converts_pending_file_and_skips_unchanged_rescan() {
    // The seeding rescan finds a stable source with no converted
    // sibling, the worker publishes its conversion, and a second
    // sweep with an unchanged signature does not re-admit it.
    let root_listing = vec!["/root/IMG_01.heic".to_string()];
    let pending = heic_ready::dispatch::collect_pending_files(&root_listing);
    assert_eq!(pending, vec!["/root/IMG_01.heic".to_string()]);

    let input = "/root/IMG_01.heic";
    let signature = FileSignature {
        len: 900,
        modified: Some(77),
    };
    let mut ledger = DebounceLedger::new();
    assert!(enqueue_conversion_job(
        &mut ledger,
        input,
        Some(signature),
        1_000,
        false
    ));

    let policy = OutputPolicy::Coexist;
    let (phase, _) = start_job(input);
    let (phase, _) = worker_step(
        &policy,
        92,
        input,
        phase,
        JobEvent::SizesSampled {
            first: 900,
            second: 900,
        },
    )
    .expect("event fits");
    let (phase, action) = worker_step(
        &policy,
        92,
        input,
        phase,
        JobEvent::OutputListing {
            existing: root_listing.clone(),
        },
    )
    .expect("event fits");
    match &action {
        JobAction::RunConversion {
            tmp_output_path, ..
        } => assert_eq!(tmp_output_path, "/root/IMG_01.jpg.tmp"),
        _ => panic!("the stable file must be converted"),
    }
    let (phase, action) = worker_step(
        &policy,
        92,
        input,
        phase,
        JobEvent::ConversionFinished { error: None },
    )
    .expect("event fits");
    match &action {
        JobAction::PublishOutput {
            tmp_output_path,
            output_path,
        } => {
            assert_eq!(tmp_output_path, "/root/IMG_01.jpg.tmp");
            assert_eq!(output_path, "/root/IMG_01.jpg");
        }
        _ => panic!("a finished conversion must be published"),
    }
    let (phase, action) = worker_step(
        &policy,
        92,
        input,
        phase,
        JobEvent::PublishFinished { error: None },
    )
    .expect("event fits");
    assert!(matches!(phase, JobPhase::Done { .. }));
    let mut log = RecentLogBuffer::new();
    match action {
        JobAction::RecordOutcome { result, reason } => {
            assert_eq!(result, "success");
            assert_eq!(reason, "converted to jpeg");
            log.push_recent_log(1_500, input, &result, &reason);
        }
        _ => panic!("the success must be recorded"),
    }
    assert_eq!(log.recent_logs_len(), 1);
    heic_ready::dispatch::drain_completed_jobs(&mut ledger, &vec![input.to_string()]);

    // The converted sibling now exists, so the next sweep yields
    // nothing for this file.
    let after_listing = vec![
        "/root/IMG_01.heic".to_string(),
        "/root/IMG_01.jpg".to_string(),
    ];
    assert!(heic_ready::dispatch::collect_pending_files(&after_listing).is_empty());

    // And even if it were offered again, the unchanged signature is
    // not re-admitted under the strict rescan policy.
    assert!(!enqueue_conversion_job(
        &mut ledger,
        input,
        Some(signature),
        60_000,
        false
    ));
}

#[test]
fn retirement_failure_keeps_published_output() {
    // With the replace policy, a failing retirement is recorded as a
    // failure while the already-published conversion stands: no
    // further action touches the output path.
    let policy = OutputPolicy::Replace;
    let input = "/root/IMG_02.heic";
    let (phase, _) = start_job(input);
    let (phase, _) = worker_step(
        &policy,
        85,
        input,
        phase,
        JobEvent::SizesSampled { first: 7, second: 7 },
    )
    .expect("event fits");
    let (phase, _) = worker_step(
        &policy,
        85,
        input,
        phase,
        JobEvent::OutputListing { existing: vec![] },
    )
    .expect("event fits");
    let (phase, _) = worker_step(
        &policy,
        85,
        input,
        phase,
        JobEvent::ConversionFinished { error: None },
    )
    .expect("event fits");
    let (phase, action) = worker_step(
        &policy,
        85,
        input,
        phase,
        JobEvent::PublishFinished { error: None },
    )
    .expect("event fits");
    match &action {
        JobAction::RetireOriginal { path } => assert_eq!(path, input),
        _ => panic!("the replace policy must retire the original"),
    }
    assert!(matches!(phase, JobPhase::Retiring { .. }));
    let (phase, action) = worker_step(
        &policy,
        85,
        input,
        phase,
        JobEvent::RetireFinished {
            error: Some("failed to move file to trash /t/IMG_02.heic: cross-device".to_string()),
        },
    )
    .expect("event fits");
    match phase {
        JobPhase::Done { result, .. } => assert_eq!(result, "failure"),
        _ => panic!("the retirement failure must end the job"),
    }
    match action {
        JobAction::RecordOutcome { result, reason } => {
            assert_eq!(result, "failure");
            assert_eq!(
                reason,
                "[io] failed to move file to trash /t/IMG_02.heic: cross-device"
            );
        }
        _ => panic!("the retirement failure must be recorded"),
    }
}

#[test]
fn publish_failure_is_an_io_failure() {
    let input = "/d/p.heic";
    let (phase, _) = start_job(input);
    let (phase, _) = worker_step(
        &OutputPolicy::Coexist,
        92,
        input,
        phase,
        JobEvent::SizesSampled { first: 1, second: 1 },
    )
    .expect("event fits");
    let (phase, _) = worker_step(
        &OutputPolicy::Coexist,
        92,
        input,
        phase,
        JobEvent::OutputListing { existing: vec![] },
    )
    .expect("event fits");
    let (phase, _) = worker_step(
        &OutputPolicy::Coexist,
        92,
        input,
        phase,
        JobEvent::ConversionFinished { error: None },
    )
    .expect("event fits");
    let (_, action) = worker_step(
        &OutputPolicy::Coexist,
        92,
        input,
        phase,
        JobEvent::PublishFinished {
            error: Some("read-only file system".to_string()),
        },
    )
    .expect("event fits");
    match action {
        JobAction::RecordOutcome { result, reason } => {
            assert_eq!(result, "failure");
            assert_eq!(
                reason,
                "[io] failed to finalize output /d/p.jpg: read-only file system"
            );
        }
        _ => panic!("the publish failure must be recorded"),
    }
}

#[test]
fn mismatched_event_is_refused() {
    let (phase, _) = start_job("/d/x.heic");
    assert!(worker_step(
        &OutputPolicy::Coexist,
        92,
        "/d/x.heic",
        phase,
        JobEvent::ConversionFinished { error: None },
    )
    .is_none());
}
