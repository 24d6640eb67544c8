use std::collections::HashMap;

use dontpanic::api_response::{ApiError, ApiResponse};
use dontpanic::error::Error;
use dontpanic::event::EventData;
use dontpanic::model::{Environment, Project, Report, ReportEvent};
use dontpanic::notify::{
    card_heading, chat_markdown, chat_text, email_template, headline, plan_deliveries, report_url, Delivery,
    Notification, Subscriber,
};
use dontpanic::reports::ReportStatus;

fn env(name: &str) -> Option<Environment> {
    Some(Environment { project_environment_id: 1, project_id: 1, name: name.to_string() })
}

fn notification(status: Option<ReportStatus>, with_channels: bool) -> Notification {
    let hook = |s: &str| if with_channels { Some(s.to_string()) } else { None };
    Notification {
        status,
        project: Project {
            project_id: 1,
            organization_id: 1,
            name: "Shop".to_string(),
            api_key: "k".to_string(),
            slack_bot_token: hook("xoxb"),
            slack_channel: hook("#alerts"),
            slack_webhook: hook("https://chat.example/hook"),
            teams_webhook: hook("https://cards.example/hook"),
            webhook: hook("https://example.com/hook"),
        },
        event: ReportEvent {
            project_report_event_id: 1,
            project_report_id: 3,
            backtrace: String::new(),
            log: "[]".to_string(),
            created: 0,
        },
        report: Report {
            project_report_id: 3,
            project_id: 1,
            project_environment_id: None,
            uid: "U".to_string(),
            title: "boom in main:1".to_string(),
            last_seen: 0,
            created: 0,
            is_resolved: false,
            is_seen: false,
        },
        environment: None,
    }
}

#[test]
fn texts_of_a_new_report() {
    assert_eq!(headline(ReportStatus::New, "Shop", "boom", &None), "New report on Shop received 'boom'");
    assert_eq!(
        headline(ReportStatus::New, "Shop", "boom", &env("prod")),
        "New report on Shop received 'boom' in prod"
    );
    assert_eq!(chat_text(ReportStatus::New, "Shop", "boom", &env("prod")), ":boom: New report on Shop received boom in prod");
    assert_eq!(
        chat_markdown(ReportStatus::New, "Shop", "boom", &env("prod")),
        ":boom: New report on *Shop* received boom in *prod*"
    );
    assert_eq!(card_heading(ReportStatus::New, "Shop"), "New report on Shop received");
    assert_eq!(email_template(ReportStatus::New), "email/new_report");
}

#[test]
fn texts_of_a_regressed_report() {
    assert_eq!(
        headline(ReportStatus::Regressed, "Shop", "boom", &None),
        "Resolved report on Shop reappeared: 'boom'"
    );
    assert_eq!(chat_text(ReportStatus::Regressed, "Shop", "boom", &None), "Resolved report on Shop reappeared: boom");
    assert_eq!(
        chat_markdown(ReportStatus::Regressed, "Shop", "boom", &None),
        "Resolved report on *Shop* reappeared: boom"
    );
    assert_eq!(card_heading(ReportStatus::Regressed, "Shop"), "Resolved report on Shop reappeared");
    assert_eq!(email_template(ReportStatus::Regressed), "email/regressed_report");
}

#[test]
fn report_link() {
    assert_eq!(report_url("https", "dontpanic.rs", 42), "https://dontpanic.rs/view-report/42");
}

#[test]
fn no_status_no_deliveries() {
    let subs = vec![Subscriber {
        email: "a@b.c".to_string(),
        pushover_user_key: Some("u".to_string()),
        notify_email: true,
        notify_pushover: true,
    }];
    assert!(plan_deliveries(&notification(None, true), &subs, &Some("t".to_string())).is_empty());
}

#[test]
fn deliveries_in_order() {
    let subs = vec![
        Subscriber {
            email: "a@b.c".to_string(),
            pushover_user_key: Some("ukey".to_string()),
            notify_email: true,
            notify_pushover: true,
        },
        Subscriber { email: "x@y.z".to_string(), pushover_user_key: None, notify_email: false, notify_pushover: true },
    ];
    let plan = plan_deliveries(&notification(Some(ReportStatus::New), true), &subs, &Some("app".to_string()));
    assert_eq!(plan.len(), 6);
    match &plan[0] {
        Delivery::Email { to, subject, template } => {
            assert_eq!(to, "a@b.c");
            assert_eq!(subject, "New report on Shop received 'boom in main:1'");
            assert_eq!(template, "email/new_report");
        },
        _ => panic!("expected an email"),
    }
    match &plan[1] {
        Delivery::Pushover { token, user_key, message } => {
            assert_eq!((token.as_str(), user_key.as_str()), ("app", "ukey"));
            assert_eq!(message, "New report on Shop received 'boom in main:1'");
        },
        _ => panic!("expected a push"),
    }
    assert!(matches!(&plan[2], Delivery::SlackApp { token, channel } if token == "xoxb" && channel == "#alerts"));
    assert!(matches!(&plan[3], Delivery::SlackWebhook { url } if url == "https://chat.example/hook"));
    assert!(matches!(&plan[4], Delivery::TeamsWebhook { url } if url == "https://cards.example/hook"));
    assert!(matches!(&plan[5], Delivery::Webhook { url } if url == "https://example.com/hook"));
}

#[test]
fn push_needs_application_token() {
    let subs = vec![Subscriber {
        email: "a@b.c".to_string(),
        pushover_user_key: Some("ukey".to_string()),
        notify_email: false,
        notify_pushover: true,
    }];
    assert!(plan_deliveries(&notification(Some(ReportStatus::Regressed), false), &subs, &None).is_empty());
}

#[test]
fn error_statuses_and_messages() {
    assert_eq!(Error::NotFound.status_code(), 404);
    assert_eq!(Error::LoginRequired.status_code(), 401);
    assert_eq!(Error::new("bad").status_code(), 400);
    assert_eq!(Error::Fields(HashMap::new()).status_code(), 400);
    assert_eq!(Error::Internal("x".to_string()).status_code(), 500);
    assert_eq!(Error::new("bad").to_message(), "bad");
    assert_eq!(Error::NotFound.to_message(), "Not Found");
    assert_eq!(Error::LoginRequired.to_message(), "Unauthorized");
    assert_eq!(Error::Fields(HashMap::new()).to_message(), "Bad Request");
    assert_eq!(
        Error::Internal("x".to_string()).to_message(),
        "An internal error occurred. Please try again later."
    );
    match Error::new_with_type("not_found", "gone") {
        Error::User(m) => {
            assert_eq!(m.kind.as_deref(), Some("not_found"));
            assert_eq!(m.message, "gone");
        },
        _ => panic!("expected a user error"),
    }
}

#[test]
fn api_responses() {
    let r: ApiResponse<u32> = ApiResponse::new(5);
    assert_eq!(r.status_code(), 200);
    assert!(matches!(r, ApiResponse::Data(5)));
    let e: ApiResponse<u32> = ApiResponse::error("nope");
    assert_eq!(e.status_code(), 400);
    assert!(matches!(e, ApiResponse::Error(ref m) if m == "nope"));
    let mut fields = HashMap::new();
    fields.insert("name".to_string(), ApiError { kind: "server".to_string(), message: "required".to_string() });
    let f: ApiResponse<u32> = ApiResponse::errors(fields);
    assert_eq!(f.status_code(), 400);
}

#[test]
fn example_event() {
    let e = EventData::example();
    assert_eq!(e.title(), "called `Option::unwrap()` on a `None` value");
    assert_eq!(e.log_messages.len(), 1);
    assert!(e.log_messages[0].timestamp > 0);
    assert!(e.backtrace.starts_with("stack backtrace:"));
}
