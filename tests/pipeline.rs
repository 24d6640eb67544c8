use dontpanic::event::{EventData, EventFileLocation};
use dontpanic::fingerprint::{compose_title, environment_hash, normalize_title, uid_from_signature};
use dontpanic::ingest::{occurrence_fingerprint, IngestError, Store};
use dontpanic::model::{Organization, Project};
use dontpanic::reports::ReportStatus;
use dontpanic::stats::SECONDS_PER_HOUR;

const NOW: i64 = 1_738_255_164;

fn project(id: u32, org: u32, key: &str) -> Project {
    Project {
        project_id: id,
        organization_id: org,
        name: "Test Project".to_string(),
        api_key: key.to_string(),
        slack_bot_token: None,
        slack_channel: None,
        slack_webhook: None,
        teams_webhook: None,
        webhook: None,
    }
}

fn organization(id: u32, enabled: bool, limit: Option<u32>, count: u32) -> Organization {
    Organization {
        organization_id: id,
        name: "Org".to_string(),
        is_enabled: enabled,
        requests_limit: limit,
        requests_count: count,
        requests_count_start: NOW - 100,
        requests_alert_threshold: None,
    }
}

fn data(title: &str, file: &str, line: u32) -> EventData {
    EventData {
        title: title.to_string(),
        location: Some(EventFileLocation { file: file.to_string(), line, column: None }),
        version: Some("1.0.0".to_string()),
        os: "linux".to_string(),
        arch: "x86_64".to_string(),
        thread_id: None,
        thread_name: None,
        backtrace: "backtrace".to_string(),
        log_messages: vec![],
    }
}

fn store() -> Store {
    let mut s = Store::new();
    s.add_organization(organization(1, true, None, 0));
    s.add_organization(organization(2, false, None, 0));
    s.add_organization(organization(3, true, Some(10), 10));
    s.add_project(project(1, 1, "ABC123"));
    s.add_project(project(2, 2, "DISABLED"));
    s.add_project(project(3, 3, "LIMITED"));
    s.add_project(project(4, 9, "ORPHAN"));
    s
}

#[test]
fn unknown_key_is_refused() {
    assert_eq!(store().accept(&"nope".to_string()), Err(IngestError::InvalidKey));
}

#[test]
fn disabled_organization_is_refused() {
    assert_eq!(store().accept(&"DISABLED".to_string()), Err(IngestError::OrganizationDisabled));
}

#[test]
fn project_without_organization_fails_inside() {
    assert_eq!(store().accept(&"ORPHAN".to_string()), Err(IngestError::Internal));
}

#[test]
fn refusals_carry_messages() {
    assert_eq!(IngestError::InvalidKey.to_error().to_message(), "API key not found or organization disabled");
    assert_eq!(IngestError::QuotaExceeded.to_error().to_message(), "Organization requests limit exceeded");
    assert_eq!(IngestError::OrganizationDisabled.to_error().to_message(), "Organization disabled");
    assert_eq!(IngestError::OrganizationDisabled.to_error().status_code(), 400);
    assert_eq!(IngestError::Internal.to_error().status_code(), 500);
}

#[test]
fn first_and_second_occurrence() {
    let mut s = store();
    let a = s.accept(&"ABC123".to_string()).unwrap();
    let d = data("called unwrap on an empty value", "main", 10);
    let first = s.ingest(a, &d, &None, &vec![], NOW).unwrap();
    assert_eq!(first.status, Some(ReportStatus::New));
    assert_eq!(first.report.title, "called unwrap on an empty value in main:10");
    let signature = normalize_title("called unwrap on an empty value in main:10");
    assert_eq!(signature, "called unwrap on an empty value in main:<num>");
    assert_eq!(first.report.uid, uid_from_signature(1, environment_hash(None), &signature));
    assert_eq!(s.report_events(first.report.project_report_id).len(), 1);
    assert!(first.notification(&s.projects[0]).is_some());

    let second = s.ingest(a, &d, &None, &vec![], NOW + 60).unwrap();
    assert_eq!(second.status, None);
    assert_eq!(second.report.project_report_id, first.report.project_report_id);
    assert_eq!(second.report.uid, first.report.uid);
    assert_eq!(second.report.last_seen, NOW + 60);
    assert_eq!(s.reports.rows.len(), 1);
    assert_eq!(s.report_events(first.report.project_report_id).len(), 2);
    assert!(second.notification(&s.projects[0]).is_none());
}

#[test]
fn resolved_report_regresses_once() {
    let mut s = store();
    let a = s.accept(&"ABC123".to_string()).unwrap();
    let d = data("Test Error", "main.rs", 10);
    let first = s.ingest(a, &d, &Some("production".to_string()), &vec![], NOW).unwrap();
    assert!(s.set_resolved(first.report.project_report_id, true));
    let again = s.ingest(a, &d, &Some("production".to_string()), &vec![], NOW + 1).unwrap();
    assert_eq!(again.status, Some(ReportStatus::Regressed));
    assert!(!again.report.is_resolved);
    let n = again.notification(&s.projects[0]).unwrap();
    assert_eq!(n.status, Some(ReportStatus::Regressed));
    assert_eq!(n.environment.unwrap().name, "production");
    let third = s.ingest(a, &d, &Some("production".to_string()), &vec![], NOW + 2).unwrap();
    assert_eq!(third.status, None);
    assert!(!s.set_resolved(99, true));
}

#[test]
fn numbers_in_titles_share_one_report() {
    let mut s = store();
    let a = s.accept(&"ABC123".to_string()).unwrap();
    let one = s.ingest(a, &data("user 42 not found", "db.rs", 7), &None, &vec![], NOW).unwrap();
    let two = s.ingest(a, &data("user 1337 not found", "db.rs", 7), &None, &vec![], NOW).unwrap();
    assert_eq!(one.report.project_report_id, two.report.project_report_id);
    assert_eq!(s.reports.rows.len(), 1);
    assert_eq!(two.report.title, "user 1337 not found in db.rs:7");
}

#[test]
fn environments_keep_reports_apart() {
    let mut s = store();
    let a = s.accept(&"ABC123".to_string()).unwrap();
    let d = data("Test Error", "main.rs", 10);
    let p = s.ingest(a, &d, &Some("production".to_string()), &vec![], NOW).unwrap();
    let q = s.ingest(a, &d, &Some("staging".to_string()), &vec![], NOW).unwrap();
    assert_ne!(p.report.uid, q.report.uid);
    assert_eq!(q.status, Some(ReportStatus::New));
    assert_eq!(s.environments.len(), 2);
    let again = s.ingest(a, &d, &Some("production".to_string()), &vec![], NOW).unwrap();
    assert_eq!(again.environment.unwrap().project_environment_id, p.environment.unwrap().project_environment_id);
    assert_eq!(s.environments.len(), 2);
}

#[test]
fn sixth_event_drops_the_oldest() {
    let mut s = store();
    let a = s.accept(&"ABC123".to_string()).unwrap();
    let d = data("Test Error", "main.rs", 10);
    let mut ids = Vec::new();
    let mut report = 0;
    for i in 0..6 {
        let out = s.ingest(a, &d, &None, &vec![], NOW + i).unwrap();
        ids.push(out.event.project_report_event_id);
        report = out.report.project_report_id;
    }
    let kept: Vec<u32> = s.report_events(report).iter().map(|e| e.project_report_event_id).collect();
    assert_eq!(kept, ids[1..].to_vec());
}

#[test]
fn counters_follow_occurrences() {
    let mut s = store();
    let a = s.accept(&"ABC123".to_string()).unwrap();
    let d = data("Test Error", "main.rs", 10);
    let mut report = 0;
    for _ in 0..100 {
        report = s.ingest(a, &d, &None, &vec![], NOW).unwrap().report.project_report_id;
    }
    let hour = NOW - NOW % SECONDS_PER_HOUR;
    assert_eq!(s.report_stat(report, &"event".to_string(), &"total_count".to_string(), hour), 100);
    assert_eq!(s.report_stat(report, &"os".to_string(), &"linux".to_string(), hour), 100);
    assert_eq!(s.report_stat(report, &"version".to_string(), &"1.0.0".to_string(), hour), 100);
    let day = 1738195200;
    assert_eq!(s.organization_stat(1, &"event".to_string(), &"total_count".to_string(), day), 100);
    assert_eq!(s.organization_stat(1, &"new_project_report".to_string(), &"1".to_string(), day), 1);
}

#[test]
fn spent_quota_rejects_then_window_restarts() {
    let mut s = store();
    let a = s.accept(&"LIMITED".to_string()).unwrap();
    let d = data("Test Error", "main.rs", 10);
    assert_eq!(s.ingest(a, &d, &None, &vec![], NOW).err(), Some(IngestError::QuotaExceeded));
    assert_eq!(s.organizations[2].requests_count, 10);
    assert_eq!(s.reports.rows.len(), 0);
    let later = NOW - 100 + 30 * 86400 + 1;
    let out = s.ingest(a, &d, &None, &vec![], later).unwrap();
    assert_eq!(out.status, Some(ReportStatus::New));
    assert_eq!(s.organizations[2].requests_count, 1);
    assert_eq!(s.organizations[2].requests_count_start, later);
}

#[test]
fn stored_event_holds_batch_and_backtrace() {
    let mut s = store();
    let a = s.accept(&"ABC123".to_string()).unwrap();
    let d = data("Test Error", "main.rs", 10);
    let log = vec!["{\"msg\":\"Error message\"}".to_string()];
    let out = s.ingest(a, &d, &None, &log, NOW).unwrap();
    assert_eq!(out.event.log, "[{\"msg\":\"Error message\"}]");
    assert_eq!(out.event.backtrace, "backtrace");
    assert_eq!(out.event.created, NOW);
}

#[test]
fn fingerprint_matches_report_key() {
    let mut s = store();
    let a = s.accept(&"ABC123".to_string()).unwrap();
    let d = data("Test Error", "main.rs", 10);
    let env = Some("production".to_string());
    let out = s.ingest(a, &d, &env, &vec![], NOW).unwrap();
    assert_eq!(occurrence_fingerprint(1, &env, &d), out.report.uid);
    assert_eq!(compose_title(&d.title, &d.location), "Test Error in main.rs:10");
    assert_eq!(s.report_by_uid(&out.report.uid).unwrap().project_report_id, out.report.project_report_id);
}

#[test]
fn exhausted_ids_change_nothing() {
    let mut s = store();
    let a = s.accept(&"LIMITED".to_string()).unwrap();
    s.events.next_id = u32::MAX;
    let d = data("Test Error", "main.rs", 10);
    assert_eq!(s.ingest(a, &d, &Some("production".to_string()), &vec![], NOW).err(), Some(IngestError::Internal));
    assert_eq!(s.organizations[2].requests_count, 10);
    assert_eq!(s.environments.len(), 0);
    assert_eq!(s.reports.rows.len(), 0);
    assert_eq!(s.organization_stats.rows.len(), 0);
}

#[test]
fn refused_occurrence_leaves_tables() {
    let mut s = store();
    let a = s.accept(&"LIMITED".to_string()).unwrap();
    let d = data("Test Error", "main.rs", 10);
    assert_eq!(s.ingest(a, &d, &Some("production".to_string()), &vec![], NOW).err(), Some(IngestError::QuotaExceeded));
    assert_eq!(s.environments.len(), 0);
    assert_eq!(s.events.rows.len(), 0);
    assert_eq!(s.report_stats.rows.len(), 0);
    assert_eq!(s.organization_stats.rows.len(), 0);
}
