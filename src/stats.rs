//! Usage counters, bucketed by time: per report by the hour, per
//! organization by the day.
use vstd::prelude::*;

verus! {

pub const SECONDS_PER_HOUR: i64 = 3600;

pub const SECONDS_PER_DAY: i64 = 86400;

/// The start of the bucket of length `unit` that holds `ts`: the multiple
/// of `unit` at or below `ts` and within `unit` of it.
pub open spec fn is_bucket_start(r: int, ts: i64, unit: i64) -> bool {
    &&& r <= ts < r + unit
    &&& r % (unit as int) == 0
}

/// The start of the bucket of length `unit` that holds `ts`, as a formula.
pub open spec fn bucket_start(ts: i64, unit: i64) -> int {
    ts - (ts as int % unit as int)
}

/// The start of the bucket of length `unit` that holds `ts`.
pub fn bucket_of(ts: i64, unit: i64) -> (r: i64)
    requires
        unit > 0,
        ts >= i64::MIN + unit,
    ensures
        is_bucket_start(r as int, ts, unit),
        r == bucket_start(ts, unit),
{
    if ts >= 0 {
        let t = ts as u64;
        let u = unit as u64;
        let m = t % u;
        proof {
            vstd::arithmetic::div_mod::lemma_fundamental_div_mod(t as int, u as int);
            lemma_multiple_mod((t / u) as int, u as int);
            assert(t - m == (t / u) * u) by (nonlinear_arith)
                requires
                    t == u * (t / u) + m,
            ;
            vstd::arithmetic::div_mod::lemma_fundamental_div_mod_converse(
                ts as int,
                unit as int,
                (t / u) as int,
                m as int,
            );
        }
        (t - m) as i64
    } else {
        let p = (-(ts + 1)) as u64;
        let u = unit as u64;
        let m = p % u;
        proof {
            vstd::arithmetic::div_mod::lemma_fundamental_div_mod(p as int, u as int);
            lemma_multiple_mod(-((p / u) as int + 1), u as int);
            assert(ts - (unit - 1 - m) == (-((p / u) as int + 1)) * u) by (nonlinear_arith)
                requires
                    p == u * (p / u) + m,
                    ts == -(p + 1),
                    unit == u,
            ;
            vstd::arithmetic::div_mod::lemma_fundamental_div_mod_converse(
                ts as int,
                unit as int,
                -((p / u) as int + 1),
                unit - 1 - m,
            );
        }
        ts - (unit - 1 - m as i64)
    }
}

proof fn lemma_multiple_mod(q: int, u: int)
    requires
        u > 0,
    ensures
        (q * u) % u == 0,
{
    assert((q * u) % u == 0) by (nonlinear_arith)
        requires
            u > 0,
    ;
}

/// One counter row; its key is (owner, category, name, date).
pub struct StatRow {
    pub owner_id: u32,
    pub category: String,
    pub name: String,
    pub date: i64,
    pub count: u64,
    /// Set when the row is created, never recomputed.
    pub flag: bool,
}

/// The key of a counter, as values.
pub struct StatKey {
    pub owner_id: u32,
    pub category: Seq<char>,
    pub name: Seq<char>,
    pub date: i64,
}

pub open spec fn key_of(row: StatRow) -> StatKey {
    StatKey { owner_id: row.owner_id, category: row.category@, name: row.name@, date: row.date }
}

/// Index of the row with key `k`, if any.
pub open spec fn find_key(rows: Seq<StatRow>, k: StatKey) -> Option<int> {
    if exists|i: int| 0 <= i < rows.len() && key_of(rows[i]) == k {
        Some(choose|i: int| 0 <= i < rows.len() && key_of(rows[i]) == k)
    } else {
        None
    }
}

/// What recording under `k` does: the contract of `StatTable::record`.
pub open spec fn recorded(before: StatTable, after: StatTable, k: StatKey, flag: bool, r: bool) -> bool {
    &&& r == (before.count(k) < u64::MAX)
    &&& r ==> after.count(k) == before.count(k) + 1
    &&& !r ==> after.count(k) == before.count(k)
    &&& after.flag(k) == match before.flag(k) {
        Some(f) => Some(f),
        None => Some(flag),
    }
    &&& forall|o: StatKey| o != k ==> #[trigger] after.count(o) == before.count(o) && after.flag(o) == before.flag(o)
}

proof fn lemma_recorded(before: StatTable, after: StatTable, k: StatKey, flag: bool, r: bool)
    requires
        r == (before.count(k) < u64::MAX),
        r ==> after.count(k) == before.count(k) + 1,
        !r ==> after.count(k) == before.count(k),
        after.flag(k) == match before.flag(k) {
            Some(f) => Some(f),
            None => Some(flag),
        },
        forall|o: StatKey| o != k ==> #[trigger] after.count(o) == before.count(o) && after.flag(o) == before.flag(o),
    ensures
        recorded(before, after, k, flag, r),
{
}

/// A counter table with a uniqueness constraint over the key.
pub struct StatTable {
    pub rows: Vec<StatRow>,
}

impl StatTable {
    pub open spec fn wf(&self) -> bool {
        forall|i: int, j: int|
            0 <= i < j < self.rows@.len() ==> key_of(#[trigger] self.rows@[i]) != key_of(#[trigger] self.rows@[j])
    }

    /// The count under a key; 0 where no row has it.
    pub open spec fn count(&self, k: StatKey) -> nat {
        match find_key(self.rows@, k) {
            Some(i) => self.rows@[i].count as nat,
            None => 0,
        }
    }

    /// The flag of the row under a key, if any.
    pub open spec fn flag(&self, k: StatKey) -> Option<bool> {
        match find_key(self.rows@, k) {
            Some(i) => Some(self.rows@[i].flag),
            None => None,
        }
    }

    pub fn new() -> (r: Self)
        ensures
            r.wf(),
            forall|k: StatKey| #[trigger] r.count(k) == 0,
    {
        StatTable { rows: Vec::new() }
    }

    /// Position of the row with the given key.
    pub fn position(&self, owner_id: u32, category: &String, name: &String, date: i64) -> (r: Option<usize>)
        ensures
            ({
                let k = StatKey { owner_id, category: category@, name: name@, date };
                match r {
                    Some(i) => i < self.rows@.len() && key_of(self.rows@[i as int]) == k,
                    None => forall|i: int| 0 <= i < self.rows@.len() ==> key_of(#[trigger] self.rows@[i]) != k,
                }
            }),
    {
        let mut i: usize = 0;
        while i < self.rows.len()
            invariant
                i <= self.rows@.len(),
                forall|j: int|
                    0 <= j < i ==> key_of(#[trigger] self.rows@[j]) != (StatKey {
                        owner_id,
                        category: category@,
                        name: name@,
                        date,
                    }),
            decreases self.rows@.len() - i,
        {
            let row = &self.rows[i];
            if row.owner_id == owner_id && row.date == date && row.category == *category && row.name == *name {
                return Some(i);
            }
            i = i + 1;
        }
        None
    }

    /// The count under a key.
    pub fn get(&self, owner_id: u32, category: &String, name: &String, date: i64) -> (r: u64)
        requires
            self.wf(),
        ensures
            r == self.count(StatKey { owner_id, category: category@, name: name@, date }),
    {
        let ghost k = StatKey { owner_id, category: category@, name: name@, date };
        match self.position(owner_id, category, name, date) {
            Some(i) => {
                proof {
                    self.lemma_find(k, i as int);
                }
                self.rows[i].count
            },
            None => 0,
        }
    }

    proof fn lemma_find(&self, k: StatKey, i: int)
        requires
            self.wf(),
            0 <= i < self.rows@.len(),
            key_of(self.rows@[i]) == k,
        ensures
            find_key(self.rows@, k) == Some(i),
    {
        let c = choose|j: int| 0 <= j < self.rows@.len() && key_of(self.rows@[j]) == k;
        if c != i {
            if c < i {
                assert(key_of(self.rows@[c]) != key_of(self.rows@[i]));
            } else {
                assert(key_of(self.rows@[i]) != key_of(self.rows@[c]));
            }
        }
    }

    /// Adds one under a key: inserts the row with count 1 and the given flag,
    /// or adds 1 to the existing row and keeps its flag. Returns `false`,
    /// with nothing changed, where the count is already `u64::MAX`.
    #[verifier::spinoff_prover]
    pub fn record(&mut self, owner_id: u32, category: &String, name: &String, date: i64, flag: bool) -> (r: bool)
        requires
            old(self).wf(),
        ensures
            final(self).wf(),
            recorded(*old(self), *final(self), StatKey { owner_id, category: category@, name: name@, date }, flag, r),
    {
        let ghost k = StatKey { owner_id, category: category@, name: name@, date };
        let ghost old_rows = self.rows@;
        match self.position(owner_id, category, name, date) {
            Some(i) => {
                proof {
                    self.lemma_find(k, i as int);
                }
                let c = self.rows[i].count;
                if c == u64::MAX {
                    proof {
                        lemma_recorded(*old(self), *self, k, flag, false);
                    }
                    return false;
                }
                let row = StatRow {
                    owner_id,
                    category: category.clone(),
                    name: name.clone(),
                    date,
                    count: c + 1,
                    flag: self.rows[i].flag,
                };
                self.rows.set(i, row);
                proof {
                    assert forall|j: int| 0 <= j < self.rows@.len() implies key_of(#[trigger] self.rows@[j])
                        == key_of(old_rows[j]) by {
                        if j == i {
                        }
                    }
                    self.lemma_find(k, i as int);
                    let after = *self;
                    let before = *old(self);
                    assert(before.rows@ == old_rows);
                    assert forall|o: StatKey| o != k implies #[trigger] after.count(o) == before.count(o)
                        && after.flag(o) == before.flag(o) by {
                        if find_key(old_rows, o) is Some {
                            assert(key_of(after.rows@[find_key(old_rows, o)->0]) == o);
                        }
                        if find_key(after.rows@, o) is Some {
                            assert(key_of(old_rows[find_key(after.rows@, o)->0]) == o);
                        }
                    }
                    assert(after.count(k) == before.count(k) + 1);
                    assert(after.flag(k) == before.flag(k));
                    assert(before.flag(k) is Some);
                    assert forall|o: StatKey| o != k implies #[trigger] after.flag(o) == before.flag(o) by {
                        assert(after.count(o) == before.count(o));
                    }
                    lemma_recorded(before, after, k, flag, true);
                }
                true
            },
            None => {
                let row = StatRow { owner_id, category: category.clone(), name: name.clone(), date, count: 1, flag };
                self.rows.push(row);
                proof {
                    let n = old_rows.len() as int;
                    assert(key_of(self.rows@[n]) == k);
                    assert(find_key(old_rows, k) is None);
                    assert forall|i: int, j: int| 0 <= i < j < self.rows@.len() implies key_of(
                        #[trigger] self.rows@[i],
                    ) != key_of(#[trigger] self.rows@[j]) by {
                        if j < n {
                            assert(key_of(old_rows[i]) != key_of(old_rows[j]));
                        } else {
                            assert(key_of(old_rows[i]) != k);
                        }
                    }
                    self.lemma_find(k, n);
                    assert forall|o: StatKey| o != k implies #[trigger] self.count(o) == old(self).count(o)
                        && self.flag(o) == old(self).flag(o) by {
                        if find_key(old_rows, o) is Some {
                            assert(key_of(self.rows@[find_key(old_rows, o)->0]) == o);
                        }
                        if find_key(self.rows@, o) is Some {
                            assert(key_of(old_rows[find_key(self.rows@, o)->0]) == o);
                        }
                    }
                    assert(old(self).count(k) == 0 && old(self).flag(k) is None);
                    assert(self.count(k) == 1 && self.flag(k) == Some(flag));
                    assert forall|o: StatKey| o != k implies #[trigger] self.flag(o) == old(self).flag(o) by {
                        assert(self.count(o) == old(self).count(o));
                    }
                    lemma_recorded(*old(self), *self, k, flag, true);
                }
                true
            },
        }
    }
}

} // verus!
