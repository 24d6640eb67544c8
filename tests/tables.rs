use dontpanic::events::{frame_log_messages, truncate_backtrace, EventLog};
use dontpanic::model::Organization;
use dontpanic::quota::{apply_quota, check_quota, QUOTA_WINDOW_SECS};
use dontpanic::reports::{report_transition, ReportStatus, ReportTable};
use dontpanic::stats::{bucket_of, StatTable, SECONDS_PER_DAY, SECONDS_PER_HOUR};

fn org(limit: Option<u32>, count: u32, start: i64) -> Organization {
    Organization {
        organization_id: 1,
        name: "Org".to_string(),
        is_enabled: true,
        requests_limit: limit,
        requests_count: count,
        requests_count_start: start,
        requests_alert_threshold: None,
    }
}

#[test]
fn quota_without_limit_accepts() {
    let c = check_quota(&org(None, 5, 100), 1_000_000_000);
    assert!(c.accepted);
    assert!(!c.alert);
    assert_eq!(c.requests_count, 5);
    assert_eq!(c.requests_count_start, 100);
}

#[test]
fn quota_spent_rejects_in_window() {
    let start = 1_700_000_000;
    let c = check_quota(&org(Some(10), 10, start), start + 3600);
    assert!(!c.accepted);
    assert_eq!(c.requests_count, 10);
    assert_eq!(c.requests_count_start, start);
}

#[test]
fn quota_window_restarts_after_thirty_days() {
    let start = 1_700_000_000;
    let now = start + QUOTA_WINDOW_SECS + 1;
    let mut o = org(Some(10), 10, start);
    let c = check_quota(&o, now);
    assert!(c.accepted);
    assert_eq!(c.requests_count, 1);
    assert_eq!(c.requests_count_start, now);
    apply_quota(&mut o, &c);
    assert_eq!(o.requests_count, 1);
    assert_eq!(o.requests_count_start, now);
    // exactly thirty days is still inside the window
    let c = check_quota(&org(Some(10), 10, start), start + QUOTA_WINDOW_SECS);
    assert!(!c.accepted);
}

#[test]
fn quota_alerts_at_nine_tenths() {
    let c = check_quota(&org(Some(10), 9, 0), 10);
    assert!(c.accepted);
    assert!(c.alert);
    assert_eq!(c.requests_count, 10);
    let c = check_quota(&org(Some(10), 8, 0), 10);
    assert!(c.accepted && !c.alert);
    assert_eq!(c.requests_count, 9);
    let c = check_quota(&org(Some(15), 13, 0), 10);
    assert!(c.alert);
}

#[test]
fn transitions() {
    assert_eq!(report_transition(None), Some(ReportStatus::New));
    assert_eq!(report_transition(Some(true)), Some(ReportStatus::Regressed));
    assert_eq!(report_transition(Some(false)), None);
}

#[test]
fn regression_is_announced_once() {
    let mut t = ReportTable::new();
    let uid = "K".to_string();
    let (id, s) = t.upsert(1, None, &uid, &"a".to_string(), 10).unwrap();
    assert_eq!((id, s), (1, Some(ReportStatus::New)));
    t.rows[0].is_resolved = true;
    t.rows[0].is_seen = true;
    let (id2, s2) = t.upsert(1, None, &uid, &"b".to_string(), 20).unwrap();
    assert_eq!((id2, s2), (1, Some(ReportStatus::Regressed)));
    assert!(!t.rows[0].is_resolved);
    assert!(!t.rows[0].is_seen);
    let (_, s3) = t.upsert(1, None, &uid, &"c".to_string(), 30).unwrap();
    assert_eq!(s3, None);
    assert_eq!(t.rows.len(), 1);
    assert_eq!(t.rows[0].title, "c");
    assert_eq!(t.rows[0].last_seen, 30);
    assert_eq!(t.rows[0].created, 10);
}

#[test]
fn active_report_keeps_seen_flag() {
    let mut t = ReportTable::new();
    let uid = "K".to_string();
    t.upsert(1, Some(4), &uid, &"a".to_string(), 10).unwrap();
    t.rows[0].is_seen = true;
    let (_, s) = t.upsert(1, Some(4), &uid, &"a".to_string(), 11).unwrap();
    assert_eq!(s, None);
    assert!(t.rows[0].is_seen);
    assert_eq!(t.rows[0].project_environment_id, Some(4));
}

#[test]
fn distinct_keys_make_distinct_reports() {
    let mut t = ReportTable::new();
    let (a, _) = t.upsert(1, None, &"A".to_string(), &"x".to_string(), 1).unwrap();
    let (b, sb) = t.upsert(1, None, &"B".to_string(), &"x".to_string(), 1).unwrap();
    assert_eq!((a, b), (1, 2));
    assert_eq!(sb, Some(ReportStatus::New));
}

#[test]
fn retention_keeps_five_newest() {
    let mut log = EventLog::new();
    let mut ids = Vec::new();
    for i in 0..6 {
        let e = log.insert_retained(7, format!("bt{}", i), "[]".to_string(), i).unwrap();
        ids.push(e.project_report_event_id);
        // another report's event in between
        log.insert_retained(8, "other".to_string(), "[]".to_string(), i).unwrap();
    }
    let mine: Vec<u32> =
        log.rows.iter().filter(|e| e.project_report_id == 7).map(|e| e.project_report_event_id).collect();
    assert_eq!(mine, ids[1..].to_vec());
    assert_eq!(log.rows.iter().filter(|e| e.project_report_id == 8).count(), 5);
}

#[test]
fn retention_under_cap_keeps_all() {
    let mut log = EventLog::new();
    log.insert_retained(1, "a".to_string(), "[]".to_string(), 0).unwrap();
    log.insert_retained(1, "b".to_string(), "[]".to_string(), 1).unwrap();
    assert_eq!(log.rows.len(), 2);
    assert_eq!(log.rows[1].backtrace, "b");
}

#[test]
fn log_batch_frames_messages() {
    assert_eq!(frame_log_messages(&vec![]), "[]");
    let msgs = vec!["{\"a\":1}".to_string(), "{\"b\":2}".to_string()];
    assert_eq!(frame_log_messages(&msgs), "[{\"a\":1},{\"b\":2}]");
}

#[test]
fn log_batch_keeps_newest_within_budget() {
    // each message costs its length plus one; the batch starts at two
    let big = "x".repeat(40000);
    let small = "y".repeat(10);
    let msgs = vec![small.clone(), big.clone(), big.clone()];
    assert_eq!(frame_log_messages(&msgs), format!("[{}]", big));
    let fits = "z".repeat(64997);
    assert_eq!(frame_log_messages(&vec![fits.clone()]), format!("[{}]", fits));
    let too_big = "z".repeat(64998);
    assert_eq!(frame_log_messages(&vec![too_big]), "[]");
}

#[test]
fn backtrace_is_cut_by_characters() {
    let long: String = std::iter::repeat('ß').take(10001).collect();
    assert_eq!(truncate_backtrace(&long).chars().count(), 10000);
    assert_eq!(truncate_backtrace("short"), "short");
}

#[test]
fn buckets() {
    assert_eq!(bucket_of(7199, SECONDS_PER_HOUR), 3600);
    assert_eq!(bucket_of(7200, SECONDS_PER_HOUR), 7200);
    assert_eq!(bucket_of(0, SECONDS_PER_DAY), 0);
    assert_eq!(bucket_of(-1, SECONDS_PER_HOUR), -3600);
    assert_eq!(bucket_of(1738255164, SECONDS_PER_DAY), 1738195200);
}

#[test]
fn hundred_increments_count_hundred() {
    let mut t = StatTable::new();
    let c = "event".to_string();
    let n = "total_count".to_string();
    for i in 0..100 {
        assert!(t.record(5, &c, &n, 3600, i == 0));
    }
    assert_eq!(t.get(5, &c, &n, 3600), 100);
    assert_eq!(t.rows.len(), 1);
    assert!(t.rows[0].flag);
    assert_eq!(t.get(5, &c, &n, 7200), 0);
}

#[test]
fn saturated_counter_stays() {
    let mut t = StatTable::new();
    let c = "event".to_string();
    t.record(1, &c, &c, 0, false);
    t.rows[0].count = u64::MAX;
    assert!(!t.record(1, &c, &c, 0, false));
    assert_eq!(t.get(1, &c, &c, 0), u64::MAX);
}
