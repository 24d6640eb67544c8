//! The report table and its state machine: New, Active, Resolved.
use vstd::prelude::*;

use crate::model::Report;

verus! {

/// The transition that an occurrence caused, where one is announced.
#[derive(PartialEq, Eq, Structural, Clone, Copy, Debug)]
pub enum ReportStatus {
    New,
    Regressed,
}

/// The status that an occurrence emits for a report in a given state:
/// `None` for no row, `Some(resolved)` for an existing one.
pub open spec fn status_for(existing: Option<bool>) -> Option<ReportStatus> {
    match existing {
        None => Some(ReportStatus::New),
        Some(true) => Some(ReportStatus::Regressed),
        Some(false) => None,
    }
}

/// Decides the status that an occurrence emits.
pub fn report_transition(existing: Option<bool>) -> (r: Option<ReportStatus>)
    ensures
        r == status_for(existing),
{
    match existing {
        None => Some(ReportStatus::New),
        Some(true) => Some(ReportStatus::Regressed),
        Some(false) => None,
    }
}

/// All reports, keyed by their deduplication key.
pub struct ReportTable {
    pub rows: Vec<Report>,
}

/// Index of the row with deduplication key `uid`, if any.
pub open spec fn find_uid(rows: Seq<Report>, uid: Seq<char>) -> Option<int> {
    if exists|i: int| 0 <= i < rows.len() && rows[i].uid@ == uid {
        Some(choose|i: int| 0 <= i < rows.len() && rows[i].uid@ == uid)
    } else {
        None
    }
}

/// What an upsert does: the contract of `ReportTable::upsert`.
pub open spec fn upserted(
    before: ReportTable,
    after: ReportTable,
    project_id: u32,
    environment_id: Option<u32>,
    uid: Seq<char>,
    title: Seq<char>,
    now: i64,
    r: Option<(u32, Option<ReportStatus>)>,
) -> bool {
    &&& r is None <==> (before.row_of(uid) is None && before.rows@.len() + 1 >= u32::MAX)
    &&& r is None ==> after.rows@ == before.rows@
    &&& r matches Some((id, status)) ==> {
        &&& status == status_for(
            match before.row_of(uid) {
                Some(row) => Some(row.is_resolved),
                None => None,
            },
        )
        &&& after.row_of(uid) matches Some(row) && {
            &&& row.project_report_id == id
            &&& row.title@ == title
            &&& row.last_seen == now
            &&& !row.is_resolved
            &&& match before.row_of(uid) {
                Some(prev) => {
                    &&& row.project_report_id == prev.project_report_id
                    &&& row.project_id == prev.project_id
                    &&& row.project_environment_id == prev.project_environment_id
                    &&& row.created == prev.created
                    &&& row.is_seen == (prev.is_seen && !prev.is_resolved)
                },
                None => {
                    &&& row.project_id == project_id
                    &&& row.project_environment_id == environment_id
                    &&& row.created == now
                    &&& !row.is_seen
                },
            }
        }
        &&& after.rows@.len() == before.rows@.len() + (if before.row_of(uid) is None { 1int } else { 0 })
        &&& forall|k: Seq<char>| k != uid ==> #[trigger] after.row_of(k) == before.row_of(k)
    }
}

impl ReportTable {
    /// Keys are unique; a row's id is its position plus one.
    pub open spec fn wf(&self) -> bool {
        &&& self.rows@.len() < u32::MAX
        &&& forall|i: int| 0 <= i < self.rows@.len() ==> #[trigger] self.rows@[i].project_report_id == i + 1
        &&& forall|i: int, j: int|
            0 <= i < j < self.rows@.len() ==> #[trigger] self.rows@[i].uid@ != #[trigger] self.rows@[j].uid@
    }

    /// The row of a key, if any.
    pub open spec fn row_of(&self, uid: Seq<char>) -> Option<Report> {
        match find_uid(self.rows@, uid) {
            Some(i) => Some(self.rows@[i]),
            None => None,
        }
    }

    /// With unique keys, the row of a key is the one that holds it.
    pub proof fn lemma_unique_uid(&self, i: int)
        requires
            self.wf(),
            0 <= i < self.rows@.len(),
        ensures
            find_uid(self.rows@, self.rows@[i].uid@) == Some(i),
    {
        let uid = self.rows@[i].uid@;
        let c = choose|j: int| 0 <= j < self.rows@.len() && self.rows@[j].uid@ == uid;
        if c != i {
            if c < i {
                assert(self.rows@[c].uid@ != self.rows@[i].uid@);
            } else {
                assert(self.rows@[i].uid@ != self.rows@[c].uid@);
            }
        }
    }

    pub fn new() -> (r: Self)
        ensures
            r.wf(),
            r.rows@.len() == 0,
    {
        ReportTable { rows: Vec::new() }
    }

    /// Position of the row with key `uid`.
    pub fn position(&self, uid: &String) -> (r: Option<usize>)
        ensures
            match r {
                Some(i) => i < self.rows@.len() && self.rows@[i as int].uid@ == uid@,
                None => forall|i: int| 0 <= i < self.rows@.len() ==> #[trigger] self.rows@[i].uid@ != uid@,
            },
    {
        let mut i: usize = 0;
        while i < self.rows.len()
            invariant
                i <= self.rows@.len(),
                forall|j: int| 0 <= j < i ==> #[trigger] self.rows@[j].uid@ != uid@,
            decreases self.rows@.len() - i,
        {
            if self.rows[i].uid == *uid {
                return Some(i);
            }
            i = i + 1;
        }
        None
    }

    /// Records an occurrence under `uid`: inserts a row for a new key, else
    /// advances the existing one; an existing resolved row becomes
    /// unresolved and unseen. Returns the row's id and the status emitted.
    /// `None` where the table holds `u32::MAX - 1` rows and the key is new.
    pub fn upsert(
        &mut self,
        project_id: u32,
        environment_id: Option<u32>,
        uid: &String,
        title: &String,
        now: i64,
    ) -> (r: Option<(u32, Option<ReportStatus>)>)
        requires
            old(self).wf(),
        ensures
            final(self).wf(),
            upserted(*old(self), *final(self), project_id, environment_id, uid@, title@, now, r),
    {
        let pos = self.position(uid);
        match pos {
            Some(i) => {
                proof {
                    assert(find_uid(self.rows@, uid@) == Some(i as int));
                }
                let old_row = &self.rows[i];
                let was_resolved = old_row.is_resolved;
                let row = Report {
                    project_report_id: old_row.project_report_id,
                    project_id: old_row.project_id,
                    project_environment_id: old_row.project_environment_id,
                    uid: old_row.uid.clone(),
                    title: title.clone(),
                    last_seen: now,
                    created: old_row.created,
                    is_resolved: false,
                    is_seen: old_row.is_seen && !was_resolved,
                };
                let id = row.project_report_id;
                let ghost old_rows = self.rows@;
                self.rows.set(i, row);
                proof {
                    assert forall|j: int| 0 <= j < self.rows@.len() implies #[trigger] self.rows@[j].uid@
                        == old_rows[j].uid@ by {
                        if j == i {
                        }
                    }
                    let c = choose|j: int| 0 <= j < self.rows@.len() && self.rows@[j].uid@ == uid@;
                    assert(self.rows@[i as int].uid@ == uid@);
                    if c != i {
                        if c < i {
                            assert(old_rows[c].uid@ != old_rows[i as int].uid@);
                        } else {
                            assert(old_rows[i as int].uid@ != old_rows[c].uid@);
                        }
                    }
                    assert(find_uid(self.rows@, uid@) == Some(i as int));
                    assert forall|k: Seq<char>| k != uid@ implies #[trigger] self.row_of(k) == old(self).row_of(k) by {
                        if find_uid(old_rows, k) is Some {
                            assert(self.rows@[find_uid(old_rows, k)->0].uid@ == k);
                        }
                    }
                }
                Some((id, report_transition(Some(was_resolved))))
            },
            None => {
                if self.rows.len() >= u32::MAX as usize - 1 {
                    return None;
                }
                let id = (self.rows.len() + 1) as u32;
                let row = Report {
                    project_report_id: id,
                    project_id,
                    project_environment_id: environment_id,
                    uid: uid.clone(),
                    title: title.clone(),
                    last_seen: now,
                    created: now,
                    is_resolved: false,
                    is_seen: false,
                };
                let ghost old_rows = self.rows@;
                self.rows.push(row);
                proof {
                    let n = old_rows.len() as int;
                    assert(self.rows@[n].uid@ == uid@);
                    assert(find_uid(self.rows@, uid@) == Some(n));
                    assert forall|k: Seq<char>| k != uid@ implies #[trigger] self.row_of(k) == old(self).row_of(k) by {
                        if find_uid(old_rows, k) is Some {
                            assert(self.rows@[find_uid(old_rows, k)->0].uid@ == k);
                        }
                        if find_uid(self.rows@, k) is Some {
                            assert(old_rows[find_uid(self.rows@, k)->0].uid@ == k);
                        }
                    }
                }
                Some((id, report_transition(None)))
            },
        }
    }
}

} // verus!
