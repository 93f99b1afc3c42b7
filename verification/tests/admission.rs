use heic_ready::dispatch::{
    collect_pending_files, drain_completed_jobs, effective_rescan_interval_secs,
    enqueue_conversion_job, should_start_watcher, RescanClock,
};
use heic_ready::config::{AppConfig, AppLocale, OutputPolicy};
use heic_ready::ledger::{DebounceLedger, FileSignature};

#[test]
fn duplicate_signature_is_not_enqueued() {
    let path = "/tmp/sample.heic";
    let signature = FileSignature {
        len: 123,
        modified: None,
    };
    let mut ledger = DebounceLedger::new();
    ledger.record_admission(path, signature, 10_000);
    ledger.mark_completed(path);

    // Two seconds later the debounce window has passed, but the
    // signature is unchanged.
    assert!(!ledger.should_enqueue_path(path, &signature, 12_000, false));
}

#[test]
fn in_flight_path_is_not_enqueued() {
    let path = "/tmp/sample.heic";
    let signature = FileSignature {
        len: 123,
        modified: None,
    };
    let mut ledger = DebounceLedger::new();
    ledger.record_admission(path, signature, 10_000);

    assert!(!ledger.should_enqueue_path(path, &signature, 20_000, false));
}

#[test]
fn rescan_interval_is_clamped_to_safe_range() {
    assert_eq!(effective_rescan_interval_secs(1), 15);
    assert_eq!(effective_rescan_interval_secs(60), 60);
    assert_eq!(effective_rescan_interval_secs(99999), 3600);
}

#[test]
fn changed_signature_is_enqueued_after_window() {
    let path = "/tmp/sample.heic";
    let first = FileSignature {
        len: 123,
        modified: Some(1),
    };
    let second = FileSignature {
        len: 456,
        modified: Some(2),
    };
    let mut ledger = DebounceLedger::new();
    ledger.record_admission(path, first, 10_000);
    ledger.mark_completed(path);

    // Within the window even a changed file is rejected.
    assert!(!ledger.should_enqueue_path(path, &second, 10_300, false));
    // After the window a changed file is admitted again.
    assert!(ledger.should_enqueue_path(path, &second, 10_400, false));
}

#[test]
fn rescan_can_override_same_signature() {
    let path = "/tmp/sample.heic";
    let signature = FileSignature {
        len: 123,
        modified: None,
    };
    let mut ledger = DebounceLedger::new();
    ledger.record_admission(path, signature, 10_000);
    ledger.mark_completed(path);

    assert!(!ledger.should_enqueue_path(path, &signature, 20_000, false));
    assert!(ledger.should_enqueue_path(path, &signature, 20_000, true));
}

#[test]
fn missing_signature_is_never_enqueued() {
    let mut ledger = DebounceLedger::new();
    assert!(!enqueue_conversion_job(
        &mut ledger,
        "/tmp/gone.heic",
        None,
        10_000,
        true
    ));
}

#[test]
fn completion_notice_clears_in_flight_marker() {
    let path = "/tmp/sample.heic";
    let first = FileSignature {
        len: 1,
        modified: Some(1),
    };
    let second = FileSignature {
        len: 2,
        modified: Some(2),
    };
    let mut ledger = DebounceLedger::new();
    assert!(enqueue_conversion_job(
        &mut ledger,
        path,
        Some(first),
        10_000,
        false
    ));
    assert!(!enqueue_conversion_job(
        &mut ledger,
        path,
        Some(second),
        20_000,
        false
    ));
    drain_completed_jobs(&mut ledger, &vec![path.to_string()]);
    assert!(enqueue_conversion_job(
        &mut ledger,
        path,
        Some(second),
        20_000,
        false
    ));
}

#[test]
fn pending_files_filter_extension_and_sibling() {
    let files = vec![
        "/d/IMG_1.heic".to_string(),
        "/d/IMG_2.heic".to_string(),
        "/d/IMG_2.jpg".to_string(),
        "/d/notes.txt".to_string(),
        "/d/IMG_3.HEIF".to_string(),
    ];
    let pending = collect_pending_files(&files);
    assert_eq!(
        pending,
        vec!["/d/IMG_1.heic".to_string(), "/d/IMG_3.HEIF".to_string()]
    );
}

#[test]
fn watcher_starts_only_with_folders_and_unpaused() {
    let mut config = AppConfig::default();
    assert!(!should_start_watcher(&config));
    config.watch_folders.push("/d".to_string());
    assert!(should_start_watcher(&config));
    config.paused = true;
    assert!(!should_start_watcher(&config));
    assert_eq!(config.locale, AppLocale::En);
    assert_eq!(config.output_policy, OutputPolicy::Coexist);
}

#[test]
fn rescan_clock_fires_after_clamped_interval() {
    let mut clock = RescanClock::new(1, 1_000);
    assert!(!clock.rescan_due(15_999));
    assert!(clock.rescan_due(16_000));
    clock.advance(16_000);
    assert!(!clock.rescan_due(30_999));
    assert!(clock.rescan_due(31_000));
}
