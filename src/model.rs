//! The rows that the ingestion core reads and writes. Timestamps are Unix
//! seconds in UTC.
use vstd::prelude::*;

verus! {

/// An organization and its monthly request budget.
pub struct Organization {
    pub organization_id: u32,
    pub name: String,
    pub is_enabled: bool,
    /// The budget of one window; `None` for no limit.
    pub requests_limit: Option<u32>,
    /// Requests accepted in the current window.
    pub requests_count: u32,
    /// When the current window began.
    pub requests_count_start: i64,
    pub requests_alert_threshold: Option<u32>,
}

/// A project and the channels that its notifications go to.
pub struct Project {
    pub project_id: u32,
    pub organization_id: u32,
    pub name: String,
    pub api_key: String,
    pub slack_bot_token: Option<String>,
    pub slack_channel: Option<String>,
    pub slack_webhook: Option<String>,
    pub teams_webhook: Option<String>,
    pub webhook: Option<String>,
}

/// A named environment of a project, created when first seen.
pub struct Environment {
    pub project_environment_id: u32,
    pub project_id: u32,
    pub name: String,
}

/// A deduplicated report.
pub struct Report {
    pub project_report_id: u32,
    pub project_id: u32,
    pub project_environment_id: Option<u32>,
    pub uid: String,
    pub title: String,
    pub last_seen: i64,
    pub created: i64,
    pub is_resolved: bool,
    pub is_seen: bool,
}

/// One stored occurrence of a report.
pub struct ReportEvent {
    pub project_report_event_id: u32,
    pub project_report_id: u32,
    pub backtrace: String,
    pub log: String,
    pub created: i64,
}

impl Clone for Organization {
    fn clone(&self) -> (r: Self)
        ensures
            r == *self,
    {
        Organization {
            organization_id: self.organization_id,
            name: self.name.clone(),
            is_enabled: self.is_enabled,
            requests_limit: self.requests_limit,
            requests_count: self.requests_count,
            requests_count_start: self.requests_count_start,
            requests_alert_threshold: self.requests_alert_threshold,
        }
    }
}

impl Clone for Project {
    fn clone(&self) -> (r: Self)
        ensures
            r == *self,
    {
        Project {
            project_id: self.project_id,
            organization_id: self.organization_id,
            name: self.name.clone(),
            api_key: self.api_key.clone(),
            slack_bot_token: self.slack_bot_token.clone(),
            slack_channel: self.slack_channel.clone(),
            slack_webhook: self.slack_webhook.clone(),
            teams_webhook: self.teams_webhook.clone(),
            webhook: self.webhook.clone(),
        }
    }
}

impl Clone for Environment {
    fn clone(&self) -> (r: Self)
        ensures
            r == *self,
    {
        Environment {
            project_environment_id: self.project_environment_id,
            project_id: self.project_id,
            name: self.name.clone(),
        }
    }
}

impl Clone for Report {
    fn clone(&self) -> (r: Self)
        ensures
            r == *self,
    {
        Report {
            project_report_id: self.project_report_id,
            project_id: self.project_id,
            project_environment_id: self.project_environment_id,
            uid: self.uid.clone(),
            title: self.title.clone(),
            last_seen: self.last_seen,
            created: self.created,
            is_resolved: self.is_resolved,
            is_seen: self.is_seen,
        }
    }
}

impl Clone for ReportEvent {
    fn clone(&self) -> (r: Self)
        ensures
            r == *self,
    {
        ReportEvent {
            project_report_event_id: self.project_report_event_id,
            project_report_id: self.project_report_id,
            backtrace: self.backtrace.clone(),
            log: self.log.clone(),
            created: self.created,
        }
    }
}

} // verus!
