//! Properties of the pipeline that relate several calls, stated over the
//! contracts of the functions involved.
use vstd::prelude::*;

use crate::events::{after_insert, events_of, lemma_events_after_insert, newest, EVENTS_PER_REPORT};
use crate::event::EventData;
use crate::fingerprint::{environment_hash_of, normalized, uid_of};
use crate::ingest::{ingested, occurrence_uid, out_of_ids, Accepted, IngestError, IngestOutcome, Store};
use crate::notify::opt_view;
use crate::model::ReportEvent;
use crate::quota::{quota_decision, window_expired};
use crate::reports::{upserted, ReportStatus, ReportTable};
use crate::stats::{recorded, StatKey, StatTable};

verus! {

/// Normalization is a function of the text: equal titles have equal
/// signatures, and so equal keys within one project and environment.
pub proof fn law_normalization_is_deterministic(
    a: Seq<char>,
    b: Seq<char>,
    project_id: u32,
    environment: Option<Seq<char>>,
)
    requires
        a == b,
    ensures
        normalized(a) == normalized(b),
        uid_of(project_id, environment_hash_of(environment), normalized(a)) == uid_of(
            project_id,
            environment_hash_of(environment),
            normalized(b),
        ),
{
}

/// Two occurrences with the same key land in one report: the second
/// upsert adds no row and answers with the first one's id.
pub proof fn law_same_key_one_report(
    t0: ReportTable,
    t1: ReportTable,
    t2: ReportTable,
    uid: Seq<char>,
    project_id: u32,
    environment_id: Option<u32>,
    titles: (Seq<char>, Seq<char>),
    times: (i64, i64),
    r1: Option<(u32, Option<ReportStatus>)>,
    r2: Option<(u32, Option<ReportStatus>)>,
)
    requires
        upserted(t0, t1, project_id, environment_id, uid, titles.0, times.0, r1),
        upserted(t1, t2, project_id, environment_id, uid, titles.1, times.1, r2),
        r1 is Some,
        r2 is Some,
    ensures
        t2.rows@.len() == t0.rows@.len() + (if t0.row_of(uid) is None { 1int } else { 0 }),
        r1 matches Some((id1, _)) && r2 matches Some((id2, _)) && id1 == id2,
        r1 matches Some((id1, _)) && t2.row_of(uid) matches Some(row) && row.project_report_id == id1,
{
}

/// A resolved report that sees its key again becomes unresolved and emits
/// `Regressed` once; the next occurrence emits nothing.
pub proof fn law_regression_announced_once(
    t0: ReportTable,
    t1: ReportTable,
    t2: ReportTable,
    uid: Seq<char>,
    project_id: u32,
    environment_id: Option<u32>,
    titles: (Seq<char>, Seq<char>),
    times: (i64, i64),
    r1: Option<(u32, Option<ReportStatus>)>,
    r2: Option<(u32, Option<ReportStatus>)>,
)
    requires
        t0.row_of(uid) matches Some(row) && row.is_resolved,
        upserted(t0, t1, project_id, environment_id, uid, titles.0, times.0, r1),
        upserted(t1, t2, project_id, environment_id, uid, titles.1, times.1, r2),
    ensures
        r1 matches Some((_, status)) && status == Some(ReportStatus::Regressed),
        t1.row_of(uid) matches Some(row) && !row.is_resolved,
        r2 matches Some((_, status)) && status is None,
        t2.row_of(uid) matches Some(row) && !row.is_resolved,
{
}

/// The stored events after inserting `es` in order.
pub open spec fn after_inserts(rows: Seq<ReportEvent>, es: Seq<ReportEvent>) -> Seq<ReportEvent>
    decreases es.len(),
{
    if es.len() == 0 {
        rows
    } else {
        after_insert(after_inserts(rows, es.drop_last()), es.last())
    }
}

proof fn lemma_newest_push<A>(s: Seq<A>, e: A, k: nat)
    requires
        k > 0,
    ensures
        newest(newest(s, k).push(e), k) == newest(s.push(e), k),
{
    assert(newest(newest(s, k).push(e), k) =~= newest(s.push(e), k));
}

/// Retention: after a report's events `es` are inserted in order, into a
/// log that held none of that report, exactly the newest five remain (all
/// of them where there are fewer), in insertion order.
pub proof fn law_retention_keeps_newest(rows: Seq<ReportEvent>, es: Seq<ReportEvent>, report_id: u32)
    requires
        events_of(rows, report_id).len() == 0,
        forall|i: int| 0 <= i < es.len() ==> (#[trigger] es[i]).project_report_id == report_id,
    ensures
        events_of(after_inserts(rows, es), report_id) == newest(es, EVENTS_PER_REPORT as nat),
        events_of(after_inserts(rows, es), report_id).len() == if es.len() < EVENTS_PER_REPORT {
            es.len()
        } else {
            EVENTS_PER_REPORT as nat
        },
    decreases es.len(),
{
    if es.len() == 0 {
        assert(events_of(rows, report_id) =~= es);
    } else {
        let pre = es.drop_last();
        let e = es.last();
        law_retention_keeps_newest(rows, pre, report_id);
        let before = after_inserts(rows, pre);
        lemma_events_after_insert(before, e);
        lemma_newest_push(pre, e, EVENTS_PER_REPORT as nat);
        assert(pre.push(e) =~= es);
    }
}

/// Increments do not get lost: a chain of `n` records under one key, none
/// at the counter's maximum, adds exactly `n`.
pub proof fn law_counts_add_up(tables: Seq<StatTable>, k: StatKey, flags: Seq<bool>, results: Seq<bool>)
    requires
        tables.len() >= 1,
        flags.len() == tables.len() - 1,
        results.len() == tables.len() - 1,
        forall|i: int|
            0 <= i < tables.len() - 1 ==> recorded(
                #[trigger] tables[i],
                tables[i + 1],
                k,
                flags[i],
                results[i],
            ),
        tables[0].count(k) + tables.len() - 1 < u64::MAX,
    ensures
        tables.last().count(k) == tables[0].count(k) + tables.len() - 1,
    decreases tables.len(),
{
    if tables.len() > 1 {
        let pre = tables.drop_last();
        assert forall|i: int| 0 <= i < pre.len() - 1 implies recorded(
            #[trigger] pre[i],
            pre[i + 1],
            k,
            flags.drop_last()[i],
            results.drop_last()[i],
        ) by {
            assert(recorded(tables[i], tables[i + 1], k, flags[i], results[i]));
        }
        law_counts_add_up(pre, k, flags.drop_last(), results.drop_last());
        let n = tables.len() - 2;
        assert(recorded(tables[n], tables[n + 1], k, flags[n], results[n]));
    }
}

/// Inside the window a spent budget rejects, and changes nothing.
pub proof fn law_spent_budget_rejects(limit: u32, count: u32, start: i64, now: i64)
    requires
        count >= limit,
        !window_expired(start, now),
    ensures
        !quota_decision(Some(limit), count, start, now).accepted,
        quota_decision(Some(limit), count, start, now).requests_count == count,
        quota_decision(Some(limit), count, start, now).requests_count_start == start,
{
}

/// Once the window has run for more than thirty days the next occurrence
/// starts a new window at `now` and is counted as its first.
pub proof fn law_window_restarts(limit: u32, count: u32, start: i64, now: i64)
    requires
        window_expired(start, now),
        limit > 0,
    ensures
        quota_decision(Some(limit), count, start, now).accepted,
        quota_decision(Some(limit), count, start, now).requests_count == 1,
        quota_decision(Some(limit), count, start, now).requests_count_start == now,
{
}

/// The store takes in an occurrence at `now`: the organization's budget
/// admits it and no ids have run out.
pub open spec fn takes_in(s: Store, accepted: Accepted, data: EventData, environment: Option<String>, now: i64) -> bool {
    let org = s.organizations@[accepted.organization as int];
    let uid = occurrence_uid(
        s.projects@[accepted.project as int].project_id,
        opt_view(environment),
        data.title@,
        data.location,
    );
    &&& quota_decision(org.requests_limit, org.requests_count, org.requests_count_start, now).accepted
    &&& !out_of_ids(s, environment, uid)
}

/// What an occurrence that the store takes in leaves behind.
proof fn lemma_taken_in(
    before: Store,
    after: Store,
    accepted: Accepted,
    data: EventData,
    environment: Option<String>,
    log: Seq<String>,
    now: i64,
    r: Result<IngestOutcome, IngestError>,
)
    requires
        takes_in(before, accepted, data, environment, now),
        ingested(before, after, accepted, data, environment, log, now, r),
    ensures
        r is Ok,
        after.projects == before.projects,
        ({
            let uid = occurrence_uid(
                before.projects@[accepted.project as int].project_id,
                opt_view(environment),
                data.title@,
                data.location,
            );
            let prev = before.reports.row_of(uid);
            let out = r->Ok_0;
            &&& out.status == crate::reports::status_for(
                match prev {
                    Some(row) => Some(row.is_resolved),
                    None => None,
                },
            )
            &&& after.reports.row_of(uid) == Some(out.report)
            &&& out.report.uid@ == uid
            &&& out.report.last_seen == now
            &&& !out.report.is_resolved
            &&& (prev matches Some(p) ==> out.report.project_report_id == p.project_report_id)
            &&& out.event.project_report_id == out.report.project_report_id
            &&& after.events.rows@ == after_insert(before.events.rows@, out.event)
        }),
{
    reveal(ingested);
}

/// Through the whole pipeline: an occurrence of a resolved report that the
/// store takes in is announced `Regressed` once and leaves the report
/// unresolved; the same occurrence right after announces nothing.
pub proof fn law_pipeline_regression_once(
    s0: Store,
    s1: Store,
    s2: Store,
    accepted: Accepted,
    data: EventData,
    environment: Option<String>,
    logs: (Seq<String>, Seq<String>),
    times: (i64, i64),
    r1: Result<IngestOutcome, IngestError>,
    r2: Result<IngestOutcome, IngestError>,
)
    requires
        accepted.project < s0.projects@.len(),
        accepted.organization < s0.organizations@.len(),
        s0.reports.row_of(
            occurrence_uid(
                s0.projects@[accepted.project as int].project_id,
                opt_view(environment),
                data.title@,
                data.location,
            ),
        ) matches Some(row) && row.is_resolved,
        takes_in(s0, accepted, data, environment, times.0),
        takes_in(s1, accepted, data, environment, times.1),
        ingested(s0, s1, accepted, data, environment, logs.0, times.0, r1),
        ingested(s1, s2, accepted, data, environment, logs.1, times.1, r2),
    ensures
        r1 matches Ok(o) && o.status == Some(ReportStatus::Regressed) && !o.report.is_resolved,
        r2 matches Ok(o) && o.status is None && !o.report.is_resolved,
        r1 matches Ok(o1) && r2 matches Ok(o2) && o1.report.project_report_id == o2.report.project_report_id,
{
    lemma_taken_in(s0, s1, accepted, data, environment, logs.0, times.0, r1);
    lemma_taken_in(s1, s2, accepted, data, environment, logs.1, times.1, r2);
}

/// Through the whole pipeline: the first occurrence of a key that the store
/// takes in creates its report and is announced `New`; an identical second
/// one finds the same report, advances its last sighting, appends its
/// event next to the first, and announces nothing.
pub proof fn law_pipeline_repeat_is_quiet(
    s0: Store,
    s1: Store,
    s2: Store,
    accepted: Accepted,
    data: EventData,
    environment: Option<String>,
    log: Seq<String>,
    times: (i64, i64),
    r1: Result<IngestOutcome, IngestError>,
    r2: Result<IngestOutcome, IngestError>,
)
    requires
        accepted.project < s0.projects@.len(),
        accepted.organization < s0.organizations@.len(),
        s0.reports.row_of(
            occurrence_uid(
                s0.projects@[accepted.project as int].project_id,
                opt_view(environment),
                data.title@,
                data.location,
            ),
        ) is None,
        takes_in(s0, accepted, data, environment, times.0),
        takes_in(s1, accepted, data, environment, times.1),
        ingested(s0, s1, accepted, data, environment, log, times.0, r1),
        ingested(s1, s2, accepted, data, environment, log, times.1, r2),
    ensures
        r1 matches Ok(o) && o.status == Some(ReportStatus::New),
        r2 matches Ok(o) && o.status is None && o.report.last_seen == times.1,
        r1 matches Ok(o1) && r2 matches Ok(o2) && {
            &&& o1.report.project_report_id == o2.report.project_report_id
            &&& o1.report.uid@ == o2.report.uid@
            &&& (events_of(s0.events.rows@, o1.report.project_report_id).len() == 0 ==> events_of(
                s2.events.rows@,
                o1.report.project_report_id,
            ) == seq![o1.event, o2.event])
        },
{
    lemma_taken_in(s0, s1, accepted, data, environment, log, times.0, r1);
    lemma_taken_in(s1, s2, accepted, data, environment, log, times.1, r2);
    let o1 = r1->Ok_0;
    let o2 = r2->Ok_0;
    if events_of(s0.events.rows@, o1.report.project_report_id).len() == 0 {
        lemma_two_inserts(s0.events.rows@, o1.event, o2.event);
    }
}

proof fn lemma_two_inserts(rows: Seq<ReportEvent>, e1: ReportEvent, e2: ReportEvent)
    requires
        events_of(rows, e1.project_report_id).len() == 0,
        e2.project_report_id == e1.project_report_id,
    ensures
        events_of(after_insert(after_insert(rows, e1), e2), e1.project_report_id) == seq![e1, e2],
{
    let id = e1.project_report_id;
    let es = seq![e1, e2];
    assert(es.drop_last() =~= seq![e1]);
    assert(seq![e1].drop_last() =~= Seq::<ReportEvent>::empty());
    assert(after_inserts(rows, Seq::<ReportEvent>::empty()) == rows);
    assert(seq![e1].last() == e1);
    assert(es.last() == e2);
    assert(after_inserts(rows, seq![e1]) == after_insert(rows, e1));
    assert(after_inserts(rows, es) == after_insert(after_insert(rows, e1), e2));
    law_retention_keeps_newest(rows, es, id);
    assert(newest(es, EVENTS_PER_REPORT as nat) == es);
}

} // verus!
