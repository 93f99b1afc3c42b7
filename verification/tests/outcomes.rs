use heic_ready::outcome_log::RecentLogBuffer;

#[test]
fn recent_log_buffer_keeps_only_latest_ten_items() {
    let mut buffer = RecentLogBuffer::new();
    for idx in 0..12 {
        buffer.push_recent_log(idx as u128, "/tmp/recent.heic", "skip", &format!("reason-{idx}"));
    }

    assert_eq!(buffer.recent_logs_len(), 10);
}

#[test]
fn recent_logs_are_read_newest_first() {
    let mut buffer = RecentLogBuffer::new();
    for idx in 0..12 {
        buffer.push_recent_log(idx as u128, "/tmp/recent.heic", "skip", &format!("reason-{idx}"));
    }

    let logs = buffer.get_recent_logs();
    assert_eq!(logs.len(), 10);
    assert_eq!(logs[0].reason, "reason-11");
    assert_eq!(logs[9].reason, "reason-2");
    assert_eq!(logs[0].path, "/tmp/recent.heic");
    assert_eq!(logs[0].result, "skip");
    assert_eq!(logs[0].timestamp_unix_ms, 11);

    // Reading twice yields the same view.
    let again = buffer.get_recent_logs();
    assert_eq!(again.len(), 10);
    assert_eq!(again[0].reason, "reason-11");
}

#[test]
fn short_log_is_kept_whole() {
    let mut buffer = RecentLogBuffer::new();
    buffer.push_recent_log(7, "/a.heic", "success", "converted to jpeg");
    buffer.push_recent_log(9, "/b.heic", "failure", "[io] broken");

    let logs = buffer.get_recent_logs();
    assert_eq!(logs.len(), 2);
    assert_eq!(logs[0].path, "/b.heic");
    assert_eq!(logs[0].result, "failure");
    assert_eq!(logs[1].path, "/a.heic");
    assert_eq!(logs[1].timestamp_unix_ms, 7);
}
