//! Stored occurrences: the bounded log-message batch, the truncated
//! backtrace, and the retention of the newest events of each report.
use vstd::prelude::*;
use vstd::string::*;
use vstd::utf8::encode_utf8;

use crate::model::ReportEvent;

verus! {

broadcast use vstd::seq_lib::group_seq_properties;

/// Events kept per report.
pub const EVENTS_PER_REPORT: usize = 5;

/// Characters of a backtrace that are stored.
pub const BACKTRACE_LIMIT: usize = 10000;

/// Bytes allowed for a stored log-message batch.
pub const LOG_BATCH_LIMIT: usize = 65000;

/// The first `BACKTRACE_LIMIT` characters.
pub open spec fn truncated_backtrace(trace: Seq<char>) -> Seq<char> {
    if trace.len() <= BACKTRACE_LIMIT {
        trace
    } else {
        trace.subrange(0, BACKTRACE_LIMIT as int)
    }
}

/// Cuts a backtrace to its stored length, counting characters.
pub fn truncate_backtrace(trace: &str) -> (r: String)
    ensures
        r@ == truncated_backtrace(trace@),
{
    let n = trace.unicode_len();
    if n <= BACKTRACE_LIMIT {
        trace.to_owned()
    } else {
        trace.substring_char(0, BACKTRACE_LIMIT).to_owned()
    }
}

/// UTF-8 length of a text, as `str::len` reports it.
pub open spec fn byte_len(s: Seq<char>) -> nat {
    (encode_utf8(s).len() as usize) as nat
}

/// How many of `messages`, taken from the newest (the last) backwards, fit
/// when the running size starts at `size` and each adds its bytes and one
/// separator.
pub open spec fn newest_fitting(messages: Seq<Seq<char>>, size: nat) -> nat
    decreases messages.len(),
{
    if messages.len() == 0 {
        0
    } else {
        let next = size + byte_len(messages.last()) + 1;
        if next > LOG_BATCH_LIMIT {
            0
        } else {
            1 + newest_fitting(messages.drop_last(), next)
        }
    }
}

/// The messages joined with commas.
pub open spec fn joined(messages: Seq<Seq<char>>) -> Seq<char>
    decreases messages.len(),
{
    if messages.len() == 0 {
        Seq::empty()
    } else if messages.len() == 1 {
        messages[0]
    } else {
        joined(messages.drop_last()) + ","@ + messages.last()
    }
}

/// The stored batch: the newest messages that fit, in their order, as a
/// JSON array of the serialized messages.
pub open spec fn log_batch(messages: Seq<Seq<char>>) -> Seq<char> {
    let k = newest_fitting(messages, 2);
    "["@ + joined(messages.subrange(messages.len() - k, messages.len() as int)) + "]"@
}

/// Frames serialized log messages, given oldest first, into one batch.
pub fn frame_log_messages(messages: &Vec<String>) -> (r: String)
    ensures
        r@ == log_batch(messages@.map_values(|m: String| m@)),
{
    let ghost all = messages@.map_values(|m: String| m@);
    let n = messages.len();
    let mut size: usize = 2;
    let mut k: usize = 0;
    let mut full = false;
    proof {
        assert(all.subrange(0, n as int) =~= all);
    }
    while k < n && !full
        invariant
            n == messages@.len(),
            all == messages@.map_values(|m: String| m@),
            k <= n,
            size <= LOG_BATCH_LIMIT,
            newest_fitting(all, 2) == k + newest_fitting(all.subrange(0, n - k), size as nat),
            full ==> newest_fitting(all.subrange(0, n - k), size as nat) == 0,
        decreases n - k + (if full { 0int } else { 1int }),
    {
        let m = &messages[n - 1 - k];
        let len = m.as_str().len();
        let ghost pre = all.subrange(0, n - k);
        proof {
            assert(pre.last() == m@);
            assert(pre.drop_last() =~= all.subrange(0, n - k - 1));
            assert(len == byte_len(m@));
        }
        if len >= LOG_BATCH_LIMIT || size + len + 1 > LOG_BATCH_LIMIT {
            full = true;
        } else {
            size = size + len + 1;
            k = k + 1;
        }
    }
    proof {
        if !full {
            assert(all.subrange(0, n - k).len() == 0);
        }
        assert(newest_fitting(all, 2) == k);
    }
    let mut r = String::from_str("[");
    let start = n - k;
    let mut i: usize = start;
    while i < n
        invariant
            n == messages@.len(),
            all == messages@.map_values(|m: String| m@),
            start <= i <= n,
            r@ == "["@ + joined(all.subrange(start as int, i as int)),
        decreases n - i,
    {
        proof {
            let next = all.subrange(start as int, i + 1);
            assert(next.drop_last() =~= all.subrange(start as int, i as int));
            assert(next.last() == messages@[i as int]@);
        }
        if i > start {
            r.append(",");
        }
        r.append(messages[i].as_str());
        proof {
            let next = all.subrange(start as int, i + 1);
            if i == start {
                assert(next.len() == 1);
                assert(all.subrange(start as int, i as int).len() == 0);
            }
        }
        i = i + 1;
    }
    r.append("]");
    r
}

/// The events of report `id`, oldest first.
pub open spec fn events_of(rows: Seq<ReportEvent>, id: u32) -> Seq<ReportEvent> {
    rows.filter(|e: ReportEvent| e.project_report_id == id)
}

/// The events of other reports.
pub open spec fn events_besides(rows: Seq<ReportEvent>, id: u32) -> Seq<ReportEvent> {
    rows.filter(|e: ReportEvent| e.project_report_id != id)
}

/// The last `k` elements, or all of them where there are fewer.
pub open spec fn newest<A>(s: Seq<A>, k: nat) -> Seq<A> {
    if s.len() <= k {
        s
    } else {
        s.subrange(s.len() - k, s.len() as int)
    }
}

proof fn lemma_filter_all(s: Seq<ReportEvent>, id: u32)
    requires
        forall|i: int| 0 <= i < s.len() ==> (#[trigger] s[i]).project_report_id == id,
    ensures
        events_of(s, id) == s,
        events_besides(s, id).len() == 0,
    decreases s.len(),
{
    reveal(Seq::filter);
    if s.len() > 0 {
        lemma_filter_all(s.drop_last(), id);
    }
}

proof fn lemma_filter_none(s: Seq<ReportEvent>, id: u32)
    requires
        forall|i: int| 0 <= i < s.len() ==> (#[trigger] s[i]).project_report_id != id,
    ensures
        events_of(s, id).len() == 0,
    decreases s.len(),
{
    reveal(Seq::filter);
    if s.len() > 0 {
        lemma_filter_none(s.drop_last(), id);
    }
}

/// After an insertion of `e`, the events of its report are the newest of
/// those before and `e`.
pub proof fn lemma_events_after_insert(rows: Seq<ReportEvent>, e: ReportEvent)
    ensures
        events_of(
            events_besides(rows, e.project_report_id) + newest(
                events_of(rows, e.project_report_id).push(e),
                EVENTS_PER_REPORT as nat,
            ),
            e.project_report_id,
        ) == newest(events_of(rows, e.project_report_id).push(e), EVENTS_PER_REPORT as nat),
{
    let id = e.project_report_id;
    let others = events_besides(rows, id);
    let mine = events_of(rows, id).push(e);
    let kept = newest(mine, EVENTS_PER_REPORT as nat);
    assert forall|i: int| 0 <= i < others.len() implies (#[trigger] others[i]).project_report_id != id by {
        rows.lemma_filter_pred(|x: ReportEvent| x.project_report_id != id, i);
    }
    assert forall|i: int| 0 <= i < mine.len() implies (#[trigger] mine[i]).project_report_id == id by {
        if i < mine.len() - 1 {
            rows.lemma_filter_pred(|x: ReportEvent| x.project_report_id == id, i);
        }
    }
    assert forall|i: int| 0 <= i < kept.len() implies (#[trigger] kept[i]).project_report_id == id by {
        if mine.len() > EVENTS_PER_REPORT {
            assert(kept[i] == mine[mine.len() - EVENTS_PER_REPORT + i]);
        }
    }
    lemma_filter_none(others, id);
    lemma_filter_all(kept, id);
    Seq::filter_distributes_over_add(others, kept, |x: ReportEvent| x.project_report_id == id);
    assert(events_of(others, id) + events_of(kept, id) =~= kept);
}

/// The stored events after an insertion of `e`: those of other reports,
/// then the newest of its report's, `e` last.
pub open spec fn after_insert(rows: Seq<ReportEvent>, e: ReportEvent) -> Seq<ReportEvent> {
    events_besides(rows, e.project_report_id) + newest(
        events_of(rows, e.project_report_id).push(e),
        EVENTS_PER_REPORT as nat,
    )
}

/// All stored events, in the order in which they were inserted.
pub struct EventLog {
    pub rows: Vec<ReportEvent>,
    pub next_id: u32,
}

impl EventLog {
    /// Every id given out is below `next_id`.
    pub open spec fn wf(&self) -> bool {
        forall|i: int| 0 <= i < self.rows@.len() ==> #[trigger] self.rows@[i].project_report_event_id < self.next_id
    }

    pub fn new() -> (r: Self)
        ensures
            r.wf(),
            r.rows@.len() == 0,
    {
        EventLog { rows: Vec::new(), next_id: 1 }
    }

    /// Inserts an event of report `report_id` and, in the same step, deletes
    /// the events of that report beyond the `EVENTS_PER_REPORT` newest.
    /// Returns the new event; `None`, with nothing changed, where ids ran out.
    pub fn insert_retained(&mut self, report_id: u32, backtrace: String, log: String, created: i64) -> (r: Option<ReportEvent>)
        requires
            old(self).wf(),
        ensures
            final(self).wf(),
            r is None <==> old(self).next_id == u32::MAX,
            r is None ==> final(self).rows@ == old(self).rows@,
            r matches Some(e) ==> {
                &&& e.project_report_event_id == old(self).next_id
                &&& e.project_report_id == report_id
                &&& e.backtrace == backtrace
                &&& e.log == log
                &&& e.created == created
                &&& final(self).rows@ == after_insert(old(self).rows@, e)
            },
    {
        if self.next_id == u32::MAX {
            return None;
        }
        let id = self.next_id;
        let event = ReportEvent { project_report_event_id: id, project_report_id: report_id, backtrace, log, created };
        let ghost old_rows = self.rows@;
        let ghost is_mine = |e: ReportEvent| e.project_report_id == report_id;
        let ghost not_mine = |e: ReportEvent| e.project_report_id != report_id;
        let mut others: Vec<ReportEvent> = Vec::new();
        let mut mine: Vec<ReportEvent> = Vec::new();
        let mut i: usize = 0;
        let n = self.rows.len();
        while i < n
            invariant
                self.rows@ == old_rows,
                n == old_rows.len(),
                is_mine == (|e: ReportEvent| e.project_report_id == report_id),
                not_mine == (|e: ReportEvent| e.project_report_id != report_id),
                old(self).wf(),
                id == old(self).next_id,
                forall|k: int| 0 <= k < others@.len() ==> #[trigger] others@[k].project_report_event_id < id,
                forall|k: int| 0 <= k < mine@.len() ==> #[trigger] mine@[k].project_report_event_id < id,
                i <= n,
                others@ == old_rows.subrange(0, i as int).filter(not_mine),
                mine@ == old_rows.subrange(0, i as int).filter(is_mine),
            decreases n - i,
        {
            let e = self.rows[i].clone();
            proof {
                assert(e == old_rows[i as int]);
                assert(old_rows.subrange(0, i + 1) =~= old_rows.subrange(0, i as int).push(e));
                old_rows.subrange(0, i as int).lemma_filter_push(e, not_mine);
                old_rows.subrange(0, i as int).lemma_filter_push(e, is_mine);
            }
            if e.project_report_id == report_id {
                mine.push(e);
            } else {
                others.push(e);
            }
            i = i + 1;
        }
        proof {
            assert(old_rows.subrange(0, n as int) =~= old_rows);
        }
        mine.push(event.clone());
        let ghost mine_all = mine@;
        let m = mine.len();
        let skip: usize = if m > EVENTS_PER_REPORT { m - EVENTS_PER_REPORT } else { 0 };
        let mut j: usize = skip;
        while j < m
            invariant
                skip <= j <= m,
                m == mine@.len(),
                mine@ == mine_all,
                is_mine == (|e: ReportEvent| e.project_report_id == report_id),
                not_mine == (|e: ReportEvent| e.project_report_id != report_id),
                forall|k: int| 0 <= k < others@.len() ==> #[trigger] others@[k].project_report_event_id <= id,
                forall|k: int| 0 <= k < mine@.len() ==> #[trigger] mine@[k].project_report_event_id <= id,
                others@ == old_rows.filter(not_mine) + mine_all.subrange(skip as int, j as int),
            decreases m - j,
        {
            proof {
                assert(mine_all.subrange(skip as int, j + 1) =~= mine_all.subrange(skip as int, j as int).push(mine@[j as int]));
            }
            others.push(mine[j].clone());
            j = j + 1;
        }
        proof {
            assert(newest(mine_all, EVENTS_PER_REPORT as nat) =~= mine_all.subrange(skip as int, m as int));
            assert(events_of(old_rows, report_id) == old_rows.filter(is_mine));
            assert(events_besides(old_rows, report_id) == old_rows.filter(not_mine));
        }
        self.rows = others;
        self.next_id = id + 1;
        Some(event)
    }
}

} // verus!
