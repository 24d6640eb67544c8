//! The ingestion pipeline over the service's tables: the ingress checks,
//! then quota, fingerprint, report upsert, event retention and statistics.
use vstd::prelude::*;
use vstd::string::*;

use crate::error::Error;
use crate::event::{EventData, EventFileLocation};
use crate::events::{after_insert, events_of, frame_log_messages, log_batch, truncate_backtrace, truncated_backtrace, EventLog};
use crate::fingerprint::{
    compose_title, environment_hash, environment_hash_of, event_title, normalize_title, normalized,
    uid_from_signature, uid_of,
};
use crate::model::{Environment, Organization, Project, Report, ReportEvent};
use crate::notify::{opt_view, Notification};
use crate::quota::{apply_quota, check_quota, quota_decision};
use crate::reports::{status_for, upserted, ReportStatus, ReportTable};
use crate::stats::{bucket_of, bucket_start, StatKey, StatTable, SECONDS_PER_DAY, SECONDS_PER_HOUR};
use crate::text::{decimal, push_decimal};

verus! {

/// Why an occurrence was not taken in.
#[derive(PartialEq, Eq, Structural, Clone, Copy, Debug)]
pub enum IngestError {
    /// No project has the API key.
    InvalidKey,
    /// The project's organization is disabled.
    OrganizationDisabled,
    /// The organization's budget for the window is spent.
    QuotaExceeded,
    /// The service could not complete the work.
    Internal,
}

impl IngestError {
    /// The error that a caller is shown.
    pub fn to_error(&self) -> (r: Error)
        ensures
            match self {
                IngestError::InvalidKey => r matches Error::User(m) && m.message@
                    == "API key not found or organization disabled"@,
                IngestError::OrganizationDisabled => r matches Error::User(m) && m.message@
                    == "Organization disabled"@,
                IngestError::QuotaExceeded => r matches Error::User(m) && m.message@
                    == "Organization requests limit exceeded"@,
                IngestError::Internal => r is Internal,
            },
    {
        match self {
            IngestError::InvalidKey => Error::new("API key not found or organization disabled"),
            IngestError::OrganizationDisabled => Error::new("Organization disabled"),
            IngestError::QuotaExceeded => Error::new("Organization requests limit exceeded"),
            IngestError::Internal => Error::Internal(String::from_str("the occurrence could not be stored")),
        }
    }
}

/// Where an accepted occurrence belongs: positions in the project and
/// organization tables.
#[derive(PartialEq, Eq, Structural, Clone, Copy, Debug)]
pub struct Accepted {
    pub project: usize,
    pub organization: usize,
}

/// What the pipeline did with an occurrence.
pub struct IngestOutcome {
    /// The transition to announce, if any.
    pub status: Option<ReportStatus>,
    pub report: Report,
    pub event: ReportEvent,
    pub environment: Option<Environment>,
    /// The organization has just reached nine tenths of its budget.
    pub quota_alert: bool,
}

impl IngestOutcome {
    /// The message for the dispatcher: one for a transition, none without.
    pub fn notification(&self, project: &Project) -> (r: Option<Notification>)
        ensures
            r is Some <==> self.status is Some,
            r matches Some(n) ==> {
                &&& n.status == self.status
                &&& n.project == *project
                &&& n.report == self.report
                &&& n.event == self.event
                &&& n.environment == self.environment
            },
    {
        match self.status {
            None => None,
            Some(_) => Some(
                Notification {
                    status: self.status,
                    project: project.clone(),
                    event: self.event.clone(),
                    report: self.report.clone(),
                    environment: match &self.environment {
                        Some(e) => Some(e.clone()),
                        None => None,
                    },
                },
            ),
        }
    }
}

/// The deduplication key of an occurrence.
pub open spec fn occurrence_uid(
    project_id: u32,
    environment: Option<Seq<char>>,
    title: Seq<char>,
    location: Option<EventFileLocation>,
) -> Seq<char> {
    uid_of(project_id, environment_hash_of(environment), normalized(event_title(title, location)))
}

/// The key of a report counter.
pub open spec fn report_stat_key(report_id: u32, category: Seq<char>, name: Seq<char>, hour: i64) -> StatKey {
    StatKey { owner_id: report_id, category, name, date: hour }
}

/// The counter under `k` went up by one, unless it was at its maximum.
pub open spec fn counted_once(before: StatTable, after: StatTable, k: StatKey) -> bool {
    after.count(k) == if before.count(k) < u64::MAX {
        before.count(k) + 1
    } else {
        before.count(k)
    }
}

/// The keys of the report counters that one occurrence adds to.
pub open spec fn is_occurrence_stat_key(k: StatKey, report_id: u32, data: EventData, hour: i64) -> bool {
    ||| k == report_stat_key(report_id, "event"@, "total_count"@, hour)
    ||| k == report_stat_key(report_id, "os"@, data.os@, hour)
    ||| k == report_stat_key(report_id, "arch"@, data.arch@, hour)
    ||| (data.version matches Some(v) && k == report_stat_key(report_id, "version"@, v@, hour))
}

/// The ids of environments, events or reports that the occurrence would
/// need have run out.
pub open spec fn out_of_ids(before: Store, environment: Option<String>, uid: Seq<char>) -> bool {
    ||| (environment is Some && before.environments@.len() >= u32::MAX)
    ||| before.events.next_id == u32::MAX
    ||| (before.reports.row_of(uid) is None && before.reports.rows@.len() + 1 >= u32::MAX)
}

/// The environment id of an optional environment.
pub open spec fn environment_id_of(e: Option<Environment>) -> Option<u32> {
    match e {
        Some(env) => Some(env.project_environment_id),
        None => None,
    }
}

/// What `Store::ingest` does with one occurrence: its contract.
#[verifier::opaque]
pub open spec fn ingested(
    before: Store,
    after: Store,
    accepted: Accepted,
    data: EventData,
    environment: Option<String>,
    log: Seq<String>,
    now: i64,
    r: Result<IngestOutcome, IngestError>,
) -> bool {
    let org = before.organizations@[accepted.organization as int];
    let project = before.projects@[accepted.project as int];
    let q = quota_decision(org.requests_limit, org.requests_count, org.requests_count_start, now);
    let uid = occurrence_uid(project.project_id, opt_view(environment), data.title@, data.location);
    let full = out_of_ids(before, environment, uid);
    let prev = before.reports.row_of(uid);
    &&& (r == Err::<IngestOutcome, IngestError>(IngestError::Internal) <==> full)
    &&& (r == Err::<IngestOutcome, IngestError>(IngestError::QuotaExceeded) <==> !full && !q.accepted)
    &&& (r is Ok <==> !full && q.accepted)
    &&& full ==> after == before
    &&& after.projects == before.projects
    &&& !full ==> {
        &&& after.organizations@.len() == before.organizations@.len()
        &&& after.organizations@[accepted.organization as int] == Organization {
            requests_count: q.requests_count,
            requests_count_start: q.requests_count_start,
            ..org
        }
        &&& forall|i: int|
            0 <= i < before.organizations@.len() && i != accepted.organization ==> #[trigger] after.organizations@[i]
                == before.organizations@[i]
    }
    &&& !full && !q.accepted ==> {
        &&& after.environments == before.environments
        &&& after.reports == before.reports
        &&& after.events == before.events
        &&& after.report_stats == before.report_stats
        &&& after.organization_stats == before.organization_stats
    }
    &&& r matches Ok(out) ==> {
        &&& out.quota_alert == q.alert
        &&& out.status == status_for(
            match prev {
                Some(row) => Some(row.is_resolved),
                None => None,
            },
        )
        &&& upserted(
            before.reports,
            after.reports,
            project.project_id,
            environment_id_of(out.environment),
            uid,
            event_title(data.title@, data.location),
            now,
            Some((out.report.project_report_id, out.status)),
        )
        &&& after.reports.row_of(uid) == Some(out.report)
        &&& out.report.uid@ == uid
        &&& out.event.project_report_id == out.report.project_report_id
        &&& out.event.backtrace@ == truncated_backtrace(data.backtrace@)
        &&& out.event.log@ == log_batch(log.map_values(|m: String| m@))
        &&& out.event.created == now
        &&& after.events.rows@ == after_insert(before.events.rows@, out.event)
        &&& ({
            let hour = bucket_start(now, SECONDS_PER_HOUR) as i64;
            let id = out.report.project_report_id;
            &&& forall|k: StatKey|
                is_occurrence_stat_key(k, id, data, hour) ==> counted_once(
                    before.report_stats,
                    after.report_stats,
                    k,
                )
            &&& forall|k: StatKey|
                !is_occurrence_stat_key(k, id, data, hour) ==> #[trigger] after.report_stats.count(k)
                    == before.report_stats.count(k)
        })
        &&& ({
            let day = bucket_start(now, SECONDS_PER_DAY) as i64;
            let org_event = StatKey {
                owner_id: org.organization_id,
                category: "event"@,
                name: "total_count"@,
                date: day,
            };
            let org_new = StatKey {
                owner_id: org.organization_id,
                category: "new_project_report"@,
                name: decimal(project.project_id as nat),
                date: day,
            };
            &&& counted_once(before.organization_stats, after.organization_stats, org_event)
            &&& out.status == Some(ReportStatus::New) ==> counted_once(
                before.organization_stats,
                after.organization_stats,
                org_new,
            )
            &&& forall|k: StatKey|
                k != org_event && (k != org_new || out.status != Some(ReportStatus::New))
                    ==> #[trigger] after.organization_stats.count(k) == before.organization_stats.count(k)
        })
        &&& (environment is Some <==> out.environment is Some)
        &&& environment is None ==> after.environments == before.environments
        &&& out.environment matches Some(e) ==> {
            &&& e.project_id == project.project_id
            &&& Some(e.name@) == opt_view(environment)
            &&& after.environments@.contains(e)
            &&& after.environments@ == before.environments@ || after.environments@ == before.environments@.push(e)
        }
    }
}

/// The service's tables.
pub struct Store {
    pub organizations: Vec<Organization>,
    pub projects: Vec<Project>,
    pub environments: Vec<Environment>,
    pub reports: ReportTable,
    pub events: EventLog,
    pub report_stats: StatTable,
    pub organization_stats: StatTable,
}

impl Store {
    pub open spec fn wf(&self) -> bool {
        &&& self.reports.wf()
        &&& self.events.wf()
        &&& self.report_stats.wf()
        &&& self.organization_stats.wf()
    }

    pub fn new() -> (r: Self)
        ensures
            r.wf(),
            r.organizations@.len() == 0,
            r.projects@.len() == 0,
            r.environments@.len() == 0,
            r.reports.rows@.len() == 0,
            r.events.rows@.len() == 0,
            forall|k: StatKey| #[trigger] r.report_stats.count(k) == 0,
            forall|k: StatKey| #[trigger] r.organization_stats.count(k) == 0,
    {
        Store {
            organizations: Vec::new(),
            projects: Vec::new(),
            environments: Vec::new(),
            reports: ReportTable::new(),
            events: EventLog::new(),
            report_stats: StatTable::new(),
            organization_stats: StatTable::new(),
        }
    }

    /// Adds an organization; organizations are managed outside the pipeline.
    pub fn add_organization(&mut self, org: Organization)
        requires
            old(self).wf(),
        ensures
            final(self).wf(),
            *final(self) == (Store { organizations: final(self).organizations, ..*old(self) }),
            final(self).organizations@ == old(self).organizations@.push(org),
    {
        self.organizations.push(org);
    }

    /// Adds a project; projects are managed outside the pipeline.
    pub fn add_project(&mut self, project: Project)
        requires
            old(self).wf(),
        ensures
            final(self).wf(),
            *final(self) == (Store { projects: final(self).projects, ..*old(self) }),
            final(self).projects@ == old(self).projects@.push(project),
    {
        self.projects.push(project);
    }

    /// The report with the deduplication key, if any.
    pub fn report_by_uid(&self, uid: &String) -> (r: Option<Report>)
        requires
            self.wf(),
        ensures
            r == self.reports.row_of(uid@),
    {
        match self.reports.position(uid) {
            Some(i) => {
                proof {
                    self.reports.lemma_unique_uid(i as int);
                }
                Some(self.reports.rows[i].clone())
            },
            None => None,
        }
    }

    /// The stored events of a report, oldest first.
    pub fn report_events(&self, report_id: u32) -> (r: Vec<ReportEvent>)
        ensures
            r@ == events_of(self.events.rows@, report_id),
    {
        let ghost rows = self.events.rows@;
        let ghost is_mine = |e: ReportEvent| e.project_report_id == report_id;
        let mut r: Vec<ReportEvent> = Vec::new();
        let mut i: usize = 0;
        while i < self.events.rows.len()
            invariant
                rows == self.events.rows@,
                is_mine == (|e: ReportEvent| e.project_report_id == report_id),
                i <= rows.len(),
                r@ == rows.subrange(0, i as int).filter(is_mine),
            decreases rows.len() - i,
        {
            let e = self.events.rows[i].clone();
            proof {
                assert(rows.subrange(0, i + 1) =~= rows.subrange(0, i as int).push(e));
                rows.subrange(0, i as int).lemma_filter_push(e, is_mine);
            }
            if e.project_report_id == report_id {
                r.push(e);
            }
            i = i + 1;
        }
        proof {
            assert(rows.subrange(0, rows.len() as int) =~= rows);
        }
        r
    }

    /// A report counter: the count under (report, category, name, hour).
    pub fn report_stat(&self, report_id: u32, category: &String, name: &String, hour: i64) -> (r: u64)
        requires
            self.wf(),
        ensures
            r == self.report_stats.count(report_stat_key(report_id, category@, name@, hour)),
    {
        self.report_stats.get(report_id, category, name, hour)
    }

    /// An organization counter: the count under (organization, category,
    /// name, day).
    pub fn organization_stat(&self, organization_id: u32, category: &String, name: &String, day: i64) -> (r: u64)
        requires
            self.wf(),
        ensures
            r == self.organization_stats.count(
                StatKey { owner_id: organization_id, category: category@, name: name@, date: day },
            ),
    {
        self.organization_stats.get(organization_id, category, name, day)
    }

    /// The synchronous checks of the ingress: the first project with the
    /// key, then the first organization with the project's organization id,
    /// which must be enabled.
    pub fn accept(&self, key: &String) -> (r: Result<Accepted, IngestError>)
        ensures
            r == Err::<Accepted, IngestError>(IngestError::InvalidKey) <==> forall|i: int|
                0 <= i < self.projects@.len() ==> #[trigger] self.projects@[i].api_key@ != key@,
            r matches Ok(a) ==> {
                &&& a.project < self.projects@.len()
                &&& a.organization < self.organizations@.len()
                &&& self.projects@[a.project as int].api_key@ == key@
                &&& forall|j: int| 0 <= j < a.project ==> #[trigger] self.projects@[j].api_key@ != key@
                &&& self.organizations@[a.organization as int].organization_id
                    == self.projects@[a.project as int].organization_id
                &&& self.organizations@[a.organization as int].is_enabled
            },
            r == Err::<Accepted, IngestError>(IngestError::OrganizationDisabled) ==> exists|p: int, o: int|
                {
                    &&& 0 <= p < self.projects@.len()
                    &&& 0 <= o < self.organizations@.len()
                    &&& #[trigger] self.projects@[p].api_key@ == key@
                    &&& forall|j: int| 0 <= j < p ==> #[trigger] self.projects@[j].api_key@ != key@
                    &&& #[trigger] self.organizations@[o].organization_id == self.projects@[p].organization_id
                    &&& !self.organizations@[o].is_enabled
                },
            r == Err::<Accepted, IngestError>(IngestError::Internal) ==> exists|p: int|
                {
                    &&& 0 <= p < self.projects@.len()
                    &&& #[trigger] self.projects@[p].api_key@ == key@
                    &&& forall|o: int|
                        0 <= o < self.organizations@.len() ==> #[trigger] self.organizations@[o].organization_id
                            != self.projects@[p].organization_id
                },
            r != Err::<Accepted, IngestError>(IngestError::QuotaExceeded),
    {
        let p = match self.find_project(key) {
            Some(p) => p,
            None => {
                return Err(IngestError::InvalidKey);
            },
        };
        let org_id = self.projects[p].organization_id;
        let o = match self.find_organization(org_id) {
            Some(o) => o,
            None => {
                return Err(IngestError::Internal);
            },
        };
        if !self.organizations[o].is_enabled {
            return Err(IngestError::OrganizationDisabled);
        }
        Ok(Accepted { project: p, organization: o })
    }

    /// Position of the first project with the API key.
    pub fn find_project(&self, key: &String) -> (r: Option<usize>)
        ensures
            match r {
                Some(p) => p < self.projects@.len() && self.projects@[p as int].api_key@ == key@ && forall|j: int|
                    0 <= j < p ==> #[trigger] self.projects@[j].api_key@ != key@,
                None => forall|j: int| 0 <= j < self.projects@.len() ==> #[trigger] self.projects@[j].api_key@ != key@,
            },
    {
        let mut p: usize = 0;
        while p < self.projects.len()
            invariant
                p <= self.projects@.len(),
                forall|j: int| 0 <= j < p ==> #[trigger] self.projects@[j].api_key@ != key@,
            decreases self.projects@.len() - p,
        {
            if self.projects[p].api_key == *key {
                return Some(p);
            }
            p = p + 1;
        }
        None
    }

    /// Position of the first organization with the id.
    pub fn find_organization(&self, organization_id: u32) -> (r: Option<usize>)
        ensures
            match r {
                Some(o) => o < self.organizations@.len() && self.organizations@[o as int].organization_id
                    == organization_id,
                None => forall|j: int|
                    0 <= j < self.organizations@.len() ==> #[trigger] self.organizations@[j].organization_id
                        != organization_id,
            },
    {
        let mut o: usize = 0;
        while o < self.organizations.len()
            invariant
                o <= self.organizations@.len(),
                forall|j: int| 0 <= j < o ==> #[trigger] self.organizations@[j].organization_id != organization_id,
            decreases self.organizations@.len() - o,
        {
            if self.organizations[o].organization_id == organization_id {
                return Some(o);
            }
            o = o + 1;
        }
        None
    }

    /// The environment of a project with the given name, created where the
    /// project has none of that name. `None` where ids ran out.
    pub fn environment_for(&mut self, project_id: u32, name: &String) -> (r: Option<Environment>)
        ensures
            r matches Some(e) ==> e.project_id == project_id && e.name@ == name@,
            r matches Some(e) ==> final(self).environments@.contains(e),
            (exists|j: int|
                0 <= j < old(self).environments@.len() && #[trigger] old(self).environments@[j].project_id == project_id
                    && old(self).environments@[j].name@ == name@) ==> r is Some && final(self).environments@ == old(
                self).environments@,
            r is Some && final(self).environments@ != old(self).environments@ ==> final(self).environments@
                == old(self).environments@.push(r->Some_0),
            old(self).environments@.len() < u32::MAX ==> r is Some,
            final(self).organizations == old(self).organizations,
            final(self).projects == old(self).projects,
            final(self).reports == old(self).reports,
            final(self).events == old(self).events,
            final(self).report_stats == old(self).report_stats,
            final(self).organization_stats == old(self).organization_stats,
    {
        let mut i: usize = 0;
        while i < self.environments.len()
            invariant
                i <= self.environments@.len(),
                forall|j: int|
                    0 <= j < i ==> !(#[trigger] self.environments@[j].project_id == project_id
                        && self.environments@[j].name@ == name@),
            decreases self.environments@.len() - i,
        {
            let e = &self.environments[i];
            if e.project_id == project_id && e.name == *name {
                let r = e.clone();
                assert(self.environments@[i as int] == r);
                return Some(r);
            }
            i = i + 1;
        }
        if self.environments.len() >= u32::MAX as usize {
            return None;
        }
        let ghost before = self.environments@;
        let e = Environment {
            project_environment_id: (self.environments.len() + 1) as u32,
            project_id,
            name: name.clone(),
        };
        self.environments.push(e.clone());
        assert(self.environments@[self.environments@.len() - 1] == e);
        assert(self.environments@ == before.push(e));
        Some(e)
    }

    /// Marks a report resolved or not: the user's action, outside the
    /// pipeline. Returns `false` where no report has the id.
    pub fn set_resolved(&mut self, report_id: u32, resolved: bool) -> (r: bool)
        requires
            old(self).wf(),
        ensures
            final(self).wf(),
            r == (1 <= report_id <= old(self).reports.rows@.len()),
            r ==> final(self).reports.rows@ == old(self).reports.rows@.update(
                report_id - 1,
                Report { is_resolved: resolved, ..old(self).reports.rows@[report_id - 1] },
            ),
            !r ==> final(self).reports.rows@ == old(self).reports.rows@,
            final(self).events == old(self).events,
    {
        if report_id == 0 || report_id as usize > self.reports.rows.len() {
            return false;
        }
        let i = (report_id - 1) as usize;
        let mut row = self.reports.rows[i].clone();
        row.is_resolved = resolved;
        let ghost before = self.reports.rows@;
        self.reports.rows.set(i, row);
        proof {
            assert forall|a: int, b: int|
                0 <= a < b < self.reports.rows@.len() implies #[trigger] self.reports.rows@[a].uid@
                != #[trigger] self.reports.rows@[b].uid@ by {
                assert(self.reports.rows@[a].uid == before[a].uid);
                assert(self.reports.rows@[b].uid == before[b].uid);
            }
            assert forall|a: int| 0 <= a < self.reports.rows@.len() implies #[trigger] self.reports.rows@[a].project_report_id
                == a + 1 by {
                assert(self.reports.rows@[a].project_report_id == before[a].project_report_id);
            }
        }
        true
    }

    #[verifier::rlimit(80)]
    #[verifier::spinoff_prover]
    /// The work that follows the ingress checks, for one occurrence of
    /// `data` in the environment named `environment`, whose log messages
    /// come serialized and oldest first in `log`, at time `now`.
    pub fn ingest(
        &mut self,
        accepted: Accepted,
        data: &EventData,
        environment: &Option<String>,
        log: &Vec<String>,
        now: i64,
    ) -> (r: Result<IngestOutcome, IngestError>)
        requires
            old(self).wf(),
            accepted.project < old(self).projects@.len(),
            accepted.organization < old(self).organizations@.len(),
            now >= i64::MIN + SECONDS_PER_DAY,
        ensures
            final(self).wf(),
            final(self).projects == old(self).projects,
            ingested(*old(self), *final(self), accepted, *data, *environment, log@, now, r),
    {
        proof {
            reveal(ingested);
        }
        let org_idx = accepted.organization;
        let project_id = self.projects[accepted.project].project_id;
        let title = compose_title(data.title.as_str(), &data.location);
        let uid = occurrence_fingerprint(project_id, environment, data);
        let known = match self.reports.position(&uid) {
            Some(i) => {
                proof {
                    self.reports.lemma_unique_uid(i as int);
                }
                true
            },
            None => false,
        };
        let envs_full = environment.is_some() && self.environments.len() >= u32::MAX as usize;
        let reports_full = !known && self.reports.rows.len() + 1 >= u32::MAX as usize;
        if envs_full || self.events.next_id == u32::MAX || reports_full {
            return Err(IngestError::Internal);
        }
        let check = self.guard_quota(org_idx, now);
        if !check.accepted {
            return Err(IngestError::QuotaExceeded);
        }
        let org_id = self.organizations[org_idx].organization_id;
        let day = bucket_of(now, SECONDS_PER_DAY);
        proof {
            reveal_strlit("event");
            reveal_strlit("new_project_report");
            assert("event"@.len() != "new_project_report"@.len());
        }
        self.organization_stats.record(org_id, &String::from_str("event"), &String::from_str("total_count"), day, false);
        let env = match environment {
            Some(name) => match self.environment_for(project_id, name) {
                Some(e) => Some(e),
                None => {
                    return Err(IngestError::Internal);
                },
            },
            None => None,
        };
        let env_id = match &env {
            Some(e) => Some(e.project_environment_id),
            None => None,
        };
        let (report, status) = match self.store_report(project_id, env_id, &uid, &title, now) {
            Some(x) => x,
            None => {
                return Err(IngestError::Internal);
            },
        };
        if status == Some(ReportStatus::New) {
            let mut name = String::new();
            push_decimal(&mut name, project_id as u64);
            self.organization_stats.record(org_id, &String::from_str("new_project_report"), &name, day, false);
        }
        let batch = frame_log_messages(log);
        let backtrace = truncate_backtrace(data.backtrace.as_str());
        let event = match self.events.insert_retained(report.project_report_id, backtrace, batch, now) {
            Some(e) => e,
            None => {
                return Err(IngestError::Internal);
            },
        };
        let hour = bucket_of(now, SECONDS_PER_HOUR);
        record_report_stats(&mut self.report_stats, report.project_report_id, data, hour, status.is_some());
        Ok(IngestOutcome { status, report, event, environment: env, quota_alert: check.alert })
    }

    /// The quota guard: checks the organization's budget and stores the
    /// budget state that the check decided.
    fn guard_quota(&mut self, org_idx: usize, now: i64) -> (r: crate::quota::QuotaCheck)
        requires
            org_idx < old(self).organizations@.len(),
        ensures
            ({
                let org = old(self).organizations@[org_idx as int];
                &&& r == quota_decision(org.requests_limit, org.requests_count, org.requests_count_start, now)
                &&& final(self).organizations@ == old(self).organizations@.update(
                    org_idx as int,
                    Organization {
                        requests_count: r.requests_count,
                        requests_count_start: r.requests_count_start,
                        ..org
                    },
                )
            }),
            final(self).projects == old(self).projects,
            final(self).environments == old(self).environments,
            final(self).reports == old(self).reports,
            final(self).events == old(self).events,
            final(self).report_stats == old(self).report_stats,
            final(self).organization_stats == old(self).organization_stats,
    {
        let mut org = self.organizations[org_idx].clone();
        let check = check_quota(&org, now);
        apply_quota(&mut org, &check);
        self.organizations.set(org_idx, org);
        proof {
            let o = old(self).organizations@[org_idx as int];
            assert(self.organizations@ =~= old(self).organizations@.update(
                org_idx as int,
                Organization {
                    requests_count: check.requests_count,
                    requests_count_start: check.requests_count_start,
                    ..o
                },
            ));
        }
        check
    }

    /// Upserts the report of `uid` and returns its row and the status that
    /// the occurrence emits.
    fn store_report(&mut self, project_id: u32, env_id: Option<u32>, uid: &String, title: &String, now: i64) -> (r:
        Option<(Report, Option<ReportStatus>)>)
        requires
            old(self).wf(),
        ensures
            final(self).wf(),
            final(self).organizations == old(self).organizations,
            final(self).projects == old(self).projects,
            final(self).environments == old(self).environments,
            final(self).events == old(self).events,
            final(self).report_stats == old(self).report_stats,
            final(self).organization_stats == old(self).organization_stats,
            old(self).reports.row_of(uid@) is Some || old(self).reports.rows@.len() + 1 < u32::MAX ==> r is Some,
            r matches Some((row, status)) ==> {
                &&& upserted(
                    old(self).reports,
                    final(self).reports,
                    project_id,
                    env_id,
                    uid@,
                    title@,
                    now,
                    Some((row.project_report_id, status)),
                )
                &&& final(self).reports.row_of(uid@) == Some(row)
                &&& row.uid@ == uid@
            },
    {
        let (_id, status) = match self.reports.upsert(project_id, env_id, uid, title, now) {
            Some(x) => x,
            None => {
                return None;
            },
        };
        match self.reports.position(uid) {
            Some(i) => {
                proof {
                    self.reports.lemma_unique_uid(i as int);
                }
                Some((self.reports.rows[i].clone(), status))
            },
            None => None,
        }
    }
}

/// The deduplication key of an occurrence.
pub fn occurrence_fingerprint(project_id: u32, environment: &Option<String>, data: &EventData) -> (r: String)
    ensures
        r@ == occurrence_uid(project_id, opt_view(*environment), data.title@, data.location),
{
    let title = compose_title(data.title.as_str(), &data.location);
    let env_hash = environment_hash(
        match environment {
            Some(name) => Some(name.as_str()),
            None => None,
        },
    );
    let signature = normalize_title(title.as_str());
    uid_from_signature(project_id, env_hash, signature.as_str())
}

/// Adds one to the hour's counters of a report: all events, the operating
/// system, the architecture and, where given, the version.
fn record_report_stats(stats: &mut StatTable, report_id: u32, data: &EventData, hour: i64, is_new_report: bool)
    requires
        old(stats).wf(),
    ensures
        final(stats).wf(),
        forall|k: StatKey|
            is_occurrence_stat_key(k, report_id, *data, hour) ==> counted_once(*old(stats), *final(stats), k),
        forall|k: StatKey|
            !is_occurrence_stat_key(k, report_id, *data, hour) ==> #[trigger] final(stats).count(k) == old(
                stats).count(k),
{
    proof {
        reveal_strlit("event");
        reveal_strlit("os");
        reveal_strlit("arch");
        reveal_strlit("version");
        assert("os"@.len() != "event"@.len());
        assert("arch"@.len() != "event"@.len());
        assert("version"@.len() != "event"@.len());
        assert("arch"@.len() != "os"@.len());
        assert("version"@.len() != "os"@.len());
        assert("version"@.len() != "arch"@.len());
    }
    let ghost k_event = report_stat_key(report_id, "event"@, "total_count"@, hour);
    let ghost k_os = report_stat_key(report_id, "os"@, data.os@, hour);
    let ghost k_arch = report_stat_key(report_id, "arch"@, data.arch@, hour);
    let ghost t0 = *stats;
    stats.record(report_id, &String::from_str("event"), &String::from_str("total_count"), hour, is_new_report);
    let ghost t1 = *stats;
    stats.record(report_id, &String::from_str("os"), &data.os, hour, is_new_report);
    let ghost t2 = *stats;
    stats.record(report_id, &String::from_str("arch"), &data.arch, hour, is_new_report);
    let ghost t3 = *stats;
    assert(counted_once(t0, t3, k_event));
    assert(counted_once(t0, t3, k_os));
    assert(counted_once(t0, t3, k_arch));
    assert forall|k: StatKey| k != k_event && k != k_os && k != k_arch implies #[trigger] t3.count(k) == t0.count(k) by {
        assert(t1.count(k) == t0.count(k));
        assert(t2.count(k) == t1.count(k));
    }
    match &data.version {
        Some(v) => {
            stats.record(report_id, &String::from_str("version"), v, hour, is_new_report);
            let ghost k_version = report_stat_key(report_id, "version"@, v@, hour);
            assert(counted_once(t0, *stats, k_version));
            assert(counted_once(t0, *stats, k_event));
            assert(counted_once(t0, *stats, k_os));
            assert(counted_once(t0, *stats, k_arch));
            assert forall|k: StatKey| !is_occurrence_stat_key(k, report_id, *data, hour) implies #[trigger] stats.count(k)
                == t0.count(k) by {
                assert(t3.count(k) == t0.count(k));
            }
        },
        None => {},
    }
}

} // verus!
