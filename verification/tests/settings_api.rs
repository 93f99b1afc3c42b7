use heic_ready::config::{
    config_file_path, default_locale, default_rescan_interval_secs, tmp_path_for, AppConfig,
    AppLocale, ConfigStore, OutputPolicy,
};
use heic_ready::settings::{
    apply_replace_permission_policy, verify_replace_permissions, verify_writable_dir,
    AppConfigDto, DirStatus, OutputPolicyDto, UpdateConfigResult,
};

fn replace_config(folder: &str) -> AppConfig {
    AppConfig {
        watch_folders: vec![folder.to_string()],
        recursive_watch: false,
        output_policy: OutputPolicy::Replace,
        jpeg_quality: 92,
        rescan_interval_secs: 60,
        paused: false,
        locale: default_locale(),
    }
}

#[test]
fn replace_policy_falls_back_to_coexist_on_permission_probe_failure() {
    let config = replace_config("/path/does/not/exist");
    let check = verify_replace_permissions(
        "/home/user/.Trash",
        &DirStatus::Writable,
        &config.watch_folders,
        &vec![DirStatus::Missing],
    );

    let (updated, warning) = apply_replace_permission_policy(config, check);
    assert!(matches!(updated.output_policy, OutputPolicy::Coexist));
    assert!(warning.is_some());
}

#[test]
fn coexist_policy_is_unchanged() {
    let mut config = replace_config("/path/does/not/exist");
    config.output_policy = OutputPolicy::Coexist;
    let check = verify_replace_permissions(
        "/home/user/.Trash",
        &DirStatus::Writable,
        &config.watch_folders,
        &vec![DirStatus::Missing],
    );

    let (updated, warning) = apply_replace_permission_policy(config, check);
    assert!(matches!(updated.output_policy, OutputPolicy::Coexist));
    assert!(warning.is_none());
}

#[test]
fn permission_issues_are_joined_in_probe_order() {
    let folders = vec!["/a".to_string(), "/b".to_string()];
    let statuses = vec![
        DirStatus::Missing,
        DirStatus::NotWritable {
            detail: "Permission denied".to_string(),
        },
    ];
    let err = verify_replace_permissions("/t", &DirStatus::NotDirectory, &folders, &statuses)
        .expect_err("all probes failed");
    assert_eq!(
        err,
        "trash: not directory (/t)\nwatch folder: missing (/a)\nwatch folder: not writable (/b) - Permission denied"
    );
}

#[test]
fn writable_directories_pass_the_check() {
    let folders = vec!["/a".to_string()];
    let statuses = vec![DirStatus::Writable];
    assert!(verify_replace_permissions("/t", &DirStatus::Writable, &folders, &statuses).is_ok());
    assert!(verify_writable_dir("/t", "trash", &DirStatus::Writable).is_ok());
}

#[test]
fn probe_cleanup_failure_is_reported() {
    let issue = verify_writable_dir(
        "/w",
        "watch folder",
        &DirStatus::ProbeCleanupFailed {
            tmp_path: "/w/.probe".to_string(),
            detail: "busy".to_string(),
        },
    )
    .expect_err("issue");
    assert_eq!(issue, "watch folder: probe cleanup failed (/w/.probe) - busy");
}

fn dto(folders: Vec<&str>, quality: u8, rescan: u64) -> AppConfigDto {
    AppConfigDto {
        watch_folders: folders.into_iter().map(|f| f.to_string()).collect(),
        recursive_watch: true,
        output_policy: OutputPolicyDto::Replace,
        jpeg_quality: quality,
        rescan_interval_secs: rescan,
        paused: false,
    }
}

#[test]
fn try_from_rejects_out_of_range_quality() {
    let err = AppConfig::try_from(dto(vec![], 101, 60)).expect_err("must fail");
    assert_eq!(err, "jpeg_quality must be in range 0..=100");
}

#[test]
fn try_from_rejects_out_of_range_rescan_interval() {
    let err = AppConfig::try_from(dto(vec![], 92, 10)).expect_err("must fail");
    assert_eq!(err, "rescan_interval_secs must be in range 15..=3600");
    let err = AppConfig::try_from(dto(vec![], 92, 4000)).expect_err("must fail");
    assert_eq!(err, "rescan_interval_secs must be in range 15..=3600");
}

#[test]
fn try_from_rejects_relative_folder() {
    let err = AppConfig::try_from(dto(vec!["relative/dir"], 92, 60)).expect_err("must fail");
    assert_eq!(err, "watch folder must be absolute: relative/dir");
}

#[test]
fn try_from_normalizes_and_deduplicates_folders() {
    let config = AppConfig::try_from(dto(
        vec![" /a/b/ ", "", "/a//b", "/c"],
        88,
        120,
    ))
    .expect("valid");
    assert_eq!(config.watch_folders, vec!["/a/b".to_string(), "/c".to_string()]);
    assert!(config.recursive_watch);
    assert!(matches!(config.output_policy, OutputPolicy::Replace));
    assert_eq!(config.jpeg_quality, 88);
    assert_eq!(config.rescan_interval_secs, 120);
    assert!(!config.paused);
    assert_eq!(config.locale, AppLocale::En);
}

#[test]
fn dto_round_trip_keeps_fields() {
    let config = AppConfig {
        watch_folders: vec!["/drop".to_string()],
        recursive_watch: true,
        output_policy: OutputPolicy::Replace,
        jpeg_quality: 88,
        rescan_interval_secs: 120,
        paused: true,
        locale: AppLocale::Ja,
    };
    let dto = AppConfigDto::from(config);
    assert_eq!(dto.watch_folders, vec!["/drop".to_string()]);
    assert!(dto.recursive_watch);
    assert!(matches!(dto.output_policy, OutputPolicyDto::Replace));
    assert_eq!(dto.jpeg_quality, 88);
    assert_eq!(dto.rescan_interval_secs, 120);
    assert!(dto.paused);

    let result = UpdateConfigResult {
        config: dto,
        warning: None,
    };
    assert!(result.warning.is_none());
}

#[test]
fn policy_conversions_are_inverse() {
    assert!(matches!(
        OutputPolicy::from(OutputPolicyDto::Coexist),
        OutputPolicy::Coexist
    ));
    assert!(matches!(
        OutputPolicyDto::from(OutputPolicy::Replace),
        OutputPolicyDto::Replace
    ));
}

#[test]
fn config_store_holds_values() {
    let mut store = ConfigStore::new("/cfg/heic-ready/config.json".to_string(), AppConfig::default());
    assert_eq!(store.config_path(), "/cfg/heic-ready/config.json");
    assert!(!store.config().paused);
    store.set_paused(true);
    assert!(store.config().paused);
    store.set_locale(AppLocale::Ja);
    assert_eq!(store.config().locale, AppLocale::Ja);

    let mut replacement = AppConfig::default();
    replacement.jpeg_quality = 50;
    store.replace_config(replacement);
    assert_eq!(store.config().jpeg_quality, 50);
    assert_eq!(store.config().rescan_interval_secs, default_rescan_interval_secs());
}

#[test]
fn config_paths_are_composed() {
    assert_eq!(
        config_file_path("/home/user/.config"),
        "/home/user/.config/heic-ready/config.json"
    );
    assert_eq!(
        tmp_path_for("/home/user/.config/heic-ready/config.json"),
        "/home/user/.config/heic-ready/config.json.tmp"
    );
}
