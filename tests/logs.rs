use plotinator::{parse_timestamp, LogKind, MotorState, StatusLog, StatusLogEntry, SupportedLogs};

#[test]
fn timestamp_formats_time_of_day() {
    assert_eq!(parse_timestamp(0), "00:00:00.000");
    assert_eq!(parse_timestamp(3_723_004), "01:02:03.004");
    assert_eq!(parse_timestamp(59_999), "00:00:59.999");
    assert_eq!(parse_timestamp(86_399_999), "23:59:59.999");
    // whole days are dropped
    assert_eq!(parse_timestamp(90_000_010), "01:00:00.010");
    assert_eq!(parse_timestamp(u32::MAX), "17:02:47.295");
}

fn entry(t: u32, code: u8) -> StatusLogEntry {
    StatusLogEntry { timestamp_ms: t, motor_state: MotorState { code } }
}

#[test]
fn state_changes_are_recorded_once_per_change() {
    let log = StatusLog::from_entries(vec![
        entry(0, 1),
        entry(10, 1),
        entry(20, 2),
        entry(30, 2),
        entry(40, 1),
        entry(50, 3),
    ]);
    let changes: Vec<(u32, u8)> =
        log.timestamps_with_state_changes().iter().map(|(t, s)| (*t, s.code)).collect();
    assert_eq!(changes, vec![(0, 1), (20, 2), (40, 1), (50, 3)]);
    assert_eq!(log.entries().len(), 6);
}

#[test]
fn state_changes_of_empty_log() {
    let log = StatusLog::from_entries(Vec::new());
    assert!(log.timestamps_with_state_changes().is_empty());
}

#[test]
fn logs_are_listed_by_kind() {
    let mut logs: SupportedLogs<&str> = SupportedLogs::new();
    logs.add_log(LogKind::GeneratorLog, "gen");
    logs.add_log(LogKind::StatusLogV2, "status2");
    logs.add_log(LogKind::PidLogV1, "pid1-a");
    logs.add_log(LogKind::PidLogV1, "pid1-b");
    logs.add_log(LogKind::StatusLogV1, "status1");
    logs.add_log(LogKind::PidLogV2, "pid2");
    let listed: Vec<&str> = logs.logs().into_iter().copied().collect();
    assert_eq!(listed, vec!["pid1-a", "pid1-b", "pid2", "status1", "status2", "gen"]);
    let taken = logs.take_logs();
    assert_eq!(taken, vec!["pid1-a", "pid1-b", "pid2", "status1", "status2", "gen"]);
    assert!(logs.logs().is_empty());
    assert!(logs.take_logs().is_empty());
}
