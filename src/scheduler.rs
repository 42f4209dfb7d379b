//! Per-package scheduling: when a package may be checked again, and how each
//! outcome moves that time (a backoff of 2, then 4, then at most 6 days).
//! Also the failure log, one entry per build-plan identifier.
//!
//! Times are whole seconds since the Unix epoch.
use vstd::prelude::*;
use crate::text::{chars_of, occurs_at, matches_at, push_all};

verus! {

pub const SECONDS_PER_DAY: i64 = 86400;

/// Latest time the scheduler works with (about the year 33658).
pub const MAX_TIME: i64 = 1000000000000;

/// The scheduling record of one package.
#[derive(Debug, Clone)]
pub struct UpdateRecord {
    pub attr_path: String,
    pub last_attempted: Option<i64>,
    pub next_attempt: Option<i64>,
    pub current_version: Option<String>,
    /// The version last proposed and not yet merged.
    pub proposed_version: Option<String>,
    pub latest_upstream_version: Option<String>,
}

/// One failed update attempt.
#[derive(Debug, Clone)]
pub struct UpdateLog {
    pub drv_path: String,
    pub attr_path: String,
    pub timestamp: i64,
    pub status: String,
    pub error_log: String,
    pub old_version: Option<String>,
    pub new_version: Option<String>,
}

pub open spec fn time_ok(t: Option<i64>) -> bool {
    t matches Some(v) ==> 0 <= v <= MAX_TIME + 7 * SECONDS_PER_DAY
}

impl UpdateRecord {
    /// Its times are in range, and the next attempt never precedes the last.
    pub open spec fn wf(&self) -> bool {
        &&& time_ok(self.last_attempted)
        &&& time_ok(self.next_attempt)
        &&& (self.last_attempted matches Some(l) && self.next_attempt matches Some(n) ==> l <= n)
    }
}

/// Whole days from `last` to `now`, rounded toward zero.
pub open spec fn days_between(last: int, now: int) -> int {
    if now >= last {
        (now - last) / 86400
    } else {
        -((last - now) / 86400)
    }
}

/// The backoff after a check that found nothing new: 2 days at first, 4 when
/// the last attempt was at most 2 days ago, else 6.
pub open spec fn backoff_days(record: Option<UpdateRecord>, now: int) -> int {
    match record {
        None => 2,
        Some(r) => match r.last_attempted {
            None => 2,
            Some(l) => {
                let d = days_between(l as int, now);
                if 0 <= d <= 2 {
                    4
                } else {
                    6
                }
            },
        },
    }
}

/// A package may be checked when it has no record, no next attempt, or one
/// that is due.
pub open spec fn eligible(record: Option<UpdateRecord>, now: int) -> bool {
    match record {
        None => true,
        Some(r) => match r.next_attempt {
            None => true,
            Some(n) => n <= now,
        },
    }
}

pub open spec fn opt_str(o: Option<String>) -> Option<Seq<char>> {
    match o {
        Some(s) => Some(s@),
        None => None,
    }
}

/// Whether the record (if any) lets the package be checked at `now`.
pub fn should_check_record(record: Option<&UpdateRecord>, now: i64) -> (r: bool)
    ensures
        r == eligible(
            match record {
                Some(x) => Some(*x),
                None => None,
            },
            now as int,
        ),
{
    match record {
        None => true,
        Some(rec) => match rec.next_attempt {
            None => true,
            Some(n) => n <= now,
        },
    }
}

/// Days to wait after a check that found no update.
pub fn no_update_backoff(record: Option<&UpdateRecord>, now: i64) -> (r: i64)
    requires
        0 <= now <= MAX_TIME,
        record matches Some(x) ==> x.wf(),
    ensures
        r == backoff_days(
            match record {
                Some(x) => Some(*x),
                None => None,
            },
            now as int,
        ),
{
    match record {
        None => 2,
        Some(rec) => match rec.last_attempted {
            None => 2,
            Some(l) => {
                let d: i64 = if now >= l {
                    (now - l) / SECONDS_PER_DAY
                } else {
                    -((l - now) / SECONDS_PER_DAY)
                };
                if 0 <= d && d <= 2 {
                    4
                } else {
                    6
                }
            },
        },
    }
}

fn copy_opt(o: &Option<String>) -> (r: Option<String>)
    ensures
        opt_str(r) == opt_str(*o),
{
    match o {
        Some(s) => Some(s.clone()),
        None => None,
    }
}

fn some_string(s: &str) -> (r: Option<String>)
    ensures
        opt_str(r) == Some(s@),
{
    Some(string_of_str(s))
}

fn string_of_str(s: &str) -> (r: String)
    ensures
        r@ == s@,
{
    crate::text::string_of(&chars_of(s))
}

/// The record after a check that found no update at `now`: the backoff
/// grows, the proposed version stays.
pub fn record_after_no_update(
    record: Option<&UpdateRecord>,
    attr_path: &str,
    current_version: &str,
    latest_upstream_version: &str,
    now: i64,
) -> (r: UpdateRecord)
    requires
        0 <= now <= MAX_TIME,
        record matches Some(x) ==> x.wf(),
    ensures
        r.wf(),
        r.attr_path@ == attr_path@,
        r.last_attempted == Some(now),
        r.next_attempt == Some(
            (now + backoff_days(
                match record {
                    Some(x) => Some(*x),
                    None => None,
                },
                now as int,
            ) * 86400) as i64,
        ),
        opt_str(r.current_version) == Some(current_version@),
        opt_str(r.latest_upstream_version) == Some(latest_upstream_version@),
        opt_str(r.proposed_version) == match record {
            Some(x) => opt_str(x.proposed_version),
            None => None,
        },
{
    let days = no_update_backoff(record, now);
    let proposed = match record {
        Some(rec) => copy_opt(&rec.proposed_version),
        None => None,
    };
    UpdateRecord {
        attr_path: string_of_str(attr_path),
        last_attempted: Some(now),
        next_attempt: Some(now + days * SECONDS_PER_DAY),
        current_version: some_string(current_version),
        proposed_version: proposed,
        latest_upstream_version: some_string(latest_upstream_version),
    }
}

/// The record after a successful update at `now`: checked again in 2 days,
/// the proposal cleared, current and latest set to the new version.
pub fn record_after_success(attr_path: &str, new_version: &str, now: i64) -> (r: UpdateRecord)
    requires
        0 <= now <= MAX_TIME,
    ensures
        r.wf(),
        r.attr_path@ == attr_path@,
        r.last_attempted == Some(now),
        r.next_attempt == Some((now + 2 * 86400) as i64),
        opt_str(r.current_version) == Some(new_version@),
        opt_str(r.latest_upstream_version) == Some(new_version@),
        r.proposed_version is None,
{
    UpdateRecord {
        attr_path: string_of_str(attr_path),
        last_attempted: Some(now),
        next_attempt: Some(now + 2 * SECONDS_PER_DAY),
        current_version: some_string(new_version),
        proposed_version: None,
        latest_upstream_version: some_string(new_version),
    }
}

/// Three checks in a row that find no update, starting from no record and
/// each made when the package is due, wait 2, then 4, then 6 days.
pub proof fn lemma_backoff_grows(t0: int, t1: int, t2: int, r1: UpdateRecord, r2: UpdateRecord)
    requires
        0 <= t0,
        r1.last_attempted == Some(t0 as i64),
        r1.next_attempt == Some((t0 + 2 * 86400) as i64),
        t0 + 2 * 86400 <= t1 < t0 + 3 * 86400,
        r2.last_attempted == Some(t1 as i64),
        r2.next_attempt == Some((t1 + 4 * 86400) as i64),
        t1 + 4 * 86400 <= t2,
        t2 <= MAX_TIME,
    ensures
        backoff_days(None, t0) == 2,
        backoff_days(Some(r1), t1) == 4,
        backoff_days(Some(r2), t2) == 6,
{
}

/// Once a record waits 6 days, a check made when it is due waits 6 days again.
pub proof fn lemma_backoff_stays_at_six(r: UpdateRecord, now: int)
    requires
        r.last_attempted matches Some(l) && r.next_attempt == Some((l + 6 * 86400) as i64),
        r.wf(),
        eligible(Some(r), now),
        now <= MAX_TIME,
    ensures
        backoff_days(Some(r), now) == 6,
{
}

/// The backoff never exceeds 6 days nor falls below 2.
pub proof fn lemma_backoff_bounds(record: Option<UpdateRecord>, now: int)
    ensures
        2 <= backoff_days(record, now) <= 6,
{
}

/// The record for `attr` in `rs`, if one holds it.
pub open spec fn lookup_record(rs: Seq<UpdateRecord>, attr: Seq<char>) -> Option<UpdateRecord> {
    if exists|i: int| 0 <= i < rs.len() && rs[i].attr_path@ == attr {
        let i = choose|i: int| 0 <= i < rs.len() && rs[i].attr_path@ == attr;
        Some(rs[i])
    } else {
        None
    }
}

/// The log for `drv` in `ls`, if one holds it.
pub open spec fn lookup_log(ls: Seq<UpdateLog>, drv: Seq<char>) -> Option<UpdateLog> {
    if exists|i: int| 0 <= i < ls.len() && ls[i].drv_path@ == drv {
        let i = choose|i: int| 0 <= i < ls.len() && ls[i].drv_path@ == drv;
        Some(ls[i])
    } else {
        None
    }
}

proof fn lemma_lookup_record(rs: Seq<UpdateRecord>, i: int)
    requires
        0 <= i < rs.len(),
        forall|a: int, b: int| 0 <= a < b < rs.len() ==> rs[a].attr_path@ != rs[b].attr_path@,
    ensures
        lookup_record(rs, rs[i].attr_path@) == Some(rs[i]),
{
    let j = choose|j: int| 0 <= j < rs.len() && rs[j].attr_path@ == rs[i].attr_path@;
    if j < i {
        assert(rs[j].attr_path@ != rs[i].attr_path@);
    } else if j > i {
        assert(rs[i].attr_path@ != rs[j].attr_path@);
    }
}

proof fn lemma_lookup_log(ls: Seq<UpdateLog>, i: int)
    requires
        0 <= i < ls.len(),
        forall|a: int, b: int| 0 <= a < b < ls.len() ==> ls[a].drv_path@ != ls[b].drv_path@,
    ensures
        lookup_log(ls, ls[i].drv_path@) == Some(ls[i]),
{
    let j = choose|j: int| 0 <= j < ls.len() && ls[j].drv_path@ == ls[i].drv_path@;
    if j < i {
        assert(ls[j].drv_path@ != ls[i].drv_path@);
    } else if j > i {
        assert(ls[i].drv_path@ != ls[j].drv_path@);
    }
}

/// The in-memory store of records (one per attribute path) and failure logs
/// (one per build-plan identifier).
pub struct Database {
    records: Vec<UpdateRecord>,
    logs: Vec<UpdateLog>,
}

impl Database {
    /// Every record is well formed; attribute paths, and log identifiers, are
    /// unique; every log records a failure.
    pub closed spec fn wf(&self) -> bool {
        &&& forall|i: int| 0 <= i < self.logs@.len() ==> (#[trigger] self.logs@[i]).status@ == "failed"@
        &&& forall|i: int| 0 <= i < self.records@.len() ==> (#[trigger] self.records@[i]).wf()
        &&& forall|i: int, j: int|
            0 <= i < j < self.records@.len() ==> self.records@[i].attr_path@
                != self.records@[j].attr_path@
        &&& forall|i: int, j: int|
            0 <= i < j < self.logs@.len() ==> self.logs@[i].drv_path@ != self.logs@[j].drv_path@
    }

    /// The record kept for an attribute path.
    pub closed spec fn record_of(&self, attr: Seq<char>) -> Option<UpdateRecord> {
        lookup_record(self.records@, attr)
    }

    /// The log kept for a build-plan identifier.
    pub closed spec fn log_of(&self, drv: Seq<char>) -> Option<UpdateLog> {
        lookup_log(self.logs@, drv)
    }

    /// An empty store.
    pub fn new() -> (r: Database)
        ensures
            r.wf(),
            forall|a: Seq<char>| r.record_of(a) is None,
            forall|d: Seq<char>| r.log_of(d) is None,
    {
        Database { records: Vec::new(), logs: Vec::new() }
    }

    fn find_record(&self, attr: &str) -> (r: Option<usize>)
        requires
            self.wf(),
        ensures
            r matches Some(i) ==> i < self.records@.len() && self.records@[i as int].attr_path@
                == attr@ && self.record_of(attr@) == Some(self.records@[i as int]),
            r is None ==> self.record_of(attr@) is None,
    {
        let key = string_of_str(attr);
        let mut i: usize = 0;
        while i < self.records.len()
            invariant
                self.wf(),
                key@ == attr@,
                i <= self.records@.len(),
                forall|k: int| 0 <= k < i ==> self.records@[k].attr_path@ != attr@,
            decreases self.records@.len() - i,
        {
            if self.records[i].attr_path == key {
                proof {
                    lemma_lookup_record(self.records@, i as int);
                }
                return Some(i);
            }
            i += 1;
        }
        None
    }

    /// The record kept for `attr_path`, if any.
    pub fn get_update_record(&self, attr_path: &str) -> (r: Option<&UpdateRecord>)
        requires
            self.wf(),
        ensures
            match r {
                Some(x) => self.record_of(attr_path@) == Some(*x),
                None => self.record_of(attr_path@) is None,
            },
    {
        match self.find_record(attr_path) {
            Some(i) => Some(&self.records[i]),
            None => None,
        }
    }

    /// Whether the package may be checked at `now`.
    pub fn should_check_update(&self, attr_path: &str, now: i64) -> (r: bool)
        requires
            self.wf(),
        ensures
            r == eligible(self.record_of(attr_path@), now as int),
    {
        should_check_record(self.get_update_record(attr_path), now)
    }

    fn upsert(&mut self, rec: UpdateRecord)
        requires
            old(self).wf(),
            rec.wf(),
        ensures
            final(self).wf(),
            final(self).record_of(rec.attr_path@) == Some(rec),
            forall|a: Seq<char>| a != rec.attr_path@ ==> final(self).record_of(a) == old(self).record_of(a),
            forall|d: Seq<char>| final(self).log_of(d) == old(self).log_of(d),
    {
        let ghost r = rec;
        match self.find_record(rec.attr_path.as_str()) {
            Some(i) => {
                self.records.set(i, rec);
                assert(self.records@[i as int] == r);
            },
            None => {
                self.records.push(rec);
                assert(self.records@[self.records@.len() - 1] == r);
                assert forall|j: int| 0 <= j < old(self).records@.len() implies old(
                    self,
                ).records@[j].attr_path@ != r.attr_path@ by {
                    if old(self).records@[j].attr_path@ == r.attr_path@ {
                        lemma_lookup_record(old(self).records@, j);
                    }
                }
            },
        }
        proof {
            let olds = old(self).records@;
            let news = self.records@;
            assert forall|i: int, j: int|
                0 <= i < j < news.len() implies news[i].attr_path@ != news[j].attr_path@ by {
                if i < olds.len() && j < olds.len() {
                    assert(olds[i].attr_path@ != olds[j].attr_path@);
                }
            }
            assert forall|i: int| 0 <= i < news.len() implies (#[trigger] news[i]).wf() by {
                if i < olds.len() {
                    assert(olds[i].wf());
                }
            }
            let k = choose|k: int| 0 <= k < news.len() && news[k] == rec;
            lemma_lookup_record(news, k);
            assert forall|a: Seq<char>| a != rec.attr_path@ implies lookup_record(news, a)
                == lookup_record(olds, a) by {
                if exists|j: int| 0 <= j < news.len() && news[j].attr_path@ == a {
                    let j = choose|j: int| 0 <= j < news.len() && news[j].attr_path@ == a;
                    assert(j != k);
                    assert(news[j] == olds[j]);
                    lemma_lookup_record(news, j);
                    lemma_lookup_record(olds, j);
                } else {
                    assert forall|j: int| 0 <= j < olds.len() implies olds[j].attr_path@ != a by {
                        if j != k {
                            assert(news[j] == olds[j]);
                        }
                    }
                }
            }
        }
    }

    /// Records a check that found no update: the backoff grows, the proposed
    /// version is kept.
    pub fn record_no_update(
        &mut self,
        attr_path: &str,
        current_version: &str,
        latest_upstream_version: &str,
        now: i64,
    )
        requires
            old(self).wf(),
            0 <= now <= MAX_TIME,
        ensures
            final(self).wf(),
            final(self).record_of(attr_path@) matches Some(r) && r.last_attempted == Some(now)
                && r.next_attempt == Some(
                (now + backoff_days(old(self).record_of(attr_path@), now as int) * 86400) as i64,
            ) && opt_str(r.current_version) == Some(current_version@) && opt_str(
                r.latest_upstream_version,
            ) == Some(latest_upstream_version@) && opt_str(r.proposed_version) == match old(
                self,
            ).record_of(attr_path@) {
                Some(x) => opt_str(x.proposed_version),
                None => None,
            },
            forall|a: Seq<char>| a != attr_path@ ==> final(self).record_of(a) == old(self).record_of(a),
            forall|d: Seq<char>| final(self).log_of(d) == old(self).log_of(d),
    {
        let rec = record_after_no_update(
            self.get_update_record(attr_path),
            attr_path,
            current_version,
            latest_upstream_version,
            now,
        );
        self.upsert(rec);
    }

    /// Records a successful update: checked again in 2 days, proposal cleared.
    pub fn record_successful_update(
        &mut self,
        attr_path: &str,
        old_version: &str,
        new_version: &str,
        now: i64,
    )
        requires
            old(self).wf(),
            0 <= now <= MAX_TIME,
        ensures
            final(self).wf(),
            final(self).record_of(attr_path@) matches Some(r) && r.last_attempted == Some(now)
                && r.next_attempt == Some((now + 2 * 86400) as i64) && opt_str(r.current_version)
                == Some(new_version@) && opt_str(r.latest_upstream_version) == Some(new_version@)
                && r.proposed_version is None,
            forall|a: Seq<char>| a != attr_path@ ==> final(self).record_of(a) == old(self).record_of(a),
            forall|d: Seq<char>| final(self).log_of(d) == old(self).log_of(d),
    {
        let rec = record_after_success(attr_path, new_version, now);
        self.upsert(rec);
    }
}

impl Database {
    /// Puts back a record kept from an earlier run, replacing any record of
    /// the same attribute path.
    pub fn restore_record(&mut self, rec: UpdateRecord)
        requires
            old(self).wf(),
            rec.wf(),
        ensures
            final(self).wf(),
            final(self).record_of(rec.attr_path@) == Some(rec),
            forall|a: Seq<char>| a != rec.attr_path@ ==> final(self).record_of(a) == old(self).record_of(a),
    {
        self.upsert(rec);
    }

    /// The records, one per attribute path, for keeping until the next run.
    pub fn records(&self) -> (r: &Vec<UpdateRecord>)
        requires
            self.wf(),
        ensures
            forall|i: int| 0 <= i < r@.len() ==> self.record_of((#[trigger] r@[i]).attr_path@) == Some(r@[i]),
    {
        proof {
            assert forall|i: int| 0 <= i < self.records@.len() implies self.record_of(
                (#[trigger] self.records@[i]).attr_path@,
            ) == Some(self.records@[i]) by {
                lemma_lookup_record(self.records@, i);
            }
        }
        &self.records
    }

    /// The failure logs, for keeping until the next run.
    pub fn logs(&self) -> (r: &Vec<UpdateLog>)
        ensures
            r@ == self.logs_view(),
    {
        &self.logs
    }

    /// The failure logs in the order they were first recorded.
    pub closed spec fn logs_view(&self) -> Seq<UpdateLog> {
        self.logs@
    }

    fn find_log(&self, drv_path: &str) -> (r: Option<usize>)
        requires
            self.wf(),
        ensures
            r matches Some(i) ==> i < self.logs@.len() && self.logs@[i as int].drv_path@ == drv_path@
                && self.log_of(drv_path@) == Some(self.logs@[i as int]),
            r is None ==> self.log_of(drv_path@) is None,
    {
        let key = string_of_str(drv_path);
        let mut i: usize = 0;
        while i < self.logs.len()
            invariant
                self.wf(),
                key@ == drv_path@,
                i <= self.logs@.len(),
                forall|k: int| 0 <= k < i ==> self.logs@[k].drv_path@ != drv_path@,
            decreases self.logs@.len() - i,
        {
            if self.logs[i].drv_path == key {
                proof {
                    lemma_lookup_log(self.logs@, i as int);
                }
                return Some(i);
            }
            i += 1;
        }
        None
    }

    /// Records a failed attempt for a build plan. A second failure of the same
    /// plan replaces the time, error text and versions of the first; its
    /// attribute path stays. Every log has the status `failed`.
    pub fn record_failed_update(
        &mut self,
        drv_path: &str,
        attr_path: &str,
        error_log: &str,
        old_version: Option<&str>,
        new_version: Option<&str>,
        now: i64,
    )
        requires
            old(self).wf(),
        ensures
            final(self).wf(),
            final(self).log_of(drv_path@) matches Some(l) && l.timestamp == now && l.error_log@
                == error_log@ && opt_str(l.old_version) == crate::rewrite::opt_view(old_version)
                && opt_str(l.new_version) == crate::rewrite::opt_view(new_version) && l.status@
                == "failed"@ && l.drv_path@ == drv_path@ && match old(self).log_of(drv_path@) {
                Some(prev) => l.attr_path@ == prev.attr_path@,
                None => l.attr_path@ == attr_path@,
            },
            forall|d: Seq<char>| d != drv_path@ ==> final(self).log_of(d) == old(self).log_of(d),
            forall|a: Seq<char>| final(self).record_of(a) == old(self).record_of(a),
    {
        let ov = match old_version {
            Some(v) => Some(string_of_str(v)),
            None => None,
        };
        let nv = match new_version {
            Some(v) => Some(string_of_str(v)),
            None => None,
        };
        let ghost olds = self.logs@;
        match self.find_log(drv_path) {
            Some(i) => {
                let prev = &self.logs[i];
                let entry = UpdateLog {
                    drv_path: prev.drv_path.clone(),
                    attr_path: prev.attr_path.clone(),
                    timestamp: now,
                    status: string_of_str("failed"),
                    error_log: string_of_str(error_log),
                    old_version: ov,
                    new_version: nv,
                };
                let ghost e = entry;
                self.logs.set(i, entry);
                proof {
                    self.lemma_logs_replaced(olds, i as int, e);
                }
            },
            None => {
                let entry = UpdateLog {
                    drv_path: string_of_str(drv_path),
                    attr_path: string_of_str(attr_path),
                    timestamp: now,
                    status: string_of_str("failed"),
                    error_log: string_of_str(error_log),
                    old_version: ov,
                    new_version: nv,
                };
                let ghost e = entry;
                self.logs.push(entry);
                proof {
                    assert forall|j: int| 0 <= j < olds.len() implies olds[j].drv_path@
                        != e.drv_path@ by {
                        if olds[j].drv_path@ == e.drv_path@ {
                            lemma_lookup_log(olds, j);
                        }
                    }
                    self.lemma_logs_replaced(olds, olds.len() as int, e);
                }
            },
        }
    }

    proof fn lemma_logs_replaced(&self, olds: Seq<UpdateLog>, k: int, e: UpdateLog)
        requires
            0 <= k < self.logs@.len(),
            self.logs@[k] == e,
            k < olds.len() ==> olds[k].drv_path@ == e.drv_path@ && self.logs@ == olds.update(k, e),
            k == olds.len() ==> self.logs@ == olds.push(e) && forall|j: int|
                0 <= j < olds.len() ==> olds[j].drv_path@ != e.drv_path@,
            k <= olds.len(),
            forall|a: int, b: int| 0 <= a < b < olds.len() ==> olds[a].drv_path@ != olds[b].drv_path@,
            forall|i: int| 0 <= i < olds.len() ==> (#[trigger] olds[i]).status@ == "failed"@,
            e.status@ == "failed"@,
            forall|i: int| 0 <= i < self.records@.len() ==> (#[trigger] self.records@[i]).wf(),
            forall|i: int, j: int|
                0 <= i < j < self.records@.len() ==> self.records@[i].attr_path@
                    != self.records@[j].attr_path@,
        ensures
            self.wf(),
            lookup_log(self.logs@, e.drv_path@) == Some(e),
            forall|d: Seq<char>| d != e.drv_path@ ==> lookup_log(self.logs@, d) == lookup_log(olds, d),
    {
        let news = self.logs@;
        assert forall|i: int| 0 <= i < news.len() implies (#[trigger] news[i]).status@ == "failed"@ by {
            if i != k {
                assert(news[i] == olds[i]);
            }
        }
        assert forall|a: int, b: int| 0 <= a < b < news.len() implies news[a].drv_path@
            != news[b].drv_path@ by {
            if a != k && b != k {
                assert(olds[a].drv_path@ != olds[b].drv_path@);
            } else if a == k && b < olds.len() {
                assert(olds[a].drv_path@ != olds[b].drv_path@);
            } else if b == k && a < olds.len() && k < olds.len() {
                assert(olds[a].drv_path@ != olds[b].drv_path@);
            }
        }
        lemma_lookup_log(news, k);
        assert forall|d: Seq<char>| d != e.drv_path@ implies lookup_log(news, d) == lookup_log(
            olds,
            d,
        ) by {
            if exists|j: int| 0 <= j < news.len() && news[j].drv_path@ == d {
                let j = choose|j: int| 0 <= j < news.len() && news[j].drv_path@ == d;
                assert(j != k);
                assert(news[j] == olds[j]);
                lemma_lookup_log(news, j);
                lemma_lookup_log(olds, j);
            } else {
                assert forall|j: int| 0 <= j < olds.len() implies olds[j].drv_path@ != d by {
                    if j != k {
                        assert(news[j] == olds[j]);
                    }
                }
            }
        }
    }

    /// The log of a build plan: by its exact path, or, for an identifier that
    /// does not start with `/nix/store/`, the first log whose path ends in
    /// `/<identifier>`.
    pub fn get_log_by_drv(&self, drv_identifier: &str) -> (r: Option<&UpdateLog>)
        requires
            self.wf(),
        ensures
            self.log_of(drv_identifier@) matches Some(l) ==> r == Some(&l),
            self.log_of(drv_identifier@) is None && occurs_at(drv_identifier@, "/nix/store/"@, 0)
                ==> r is None,
            self.log_of(drv_identifier@) is None && !occurs_at(drv_identifier@, "/nix/store/"@, 0)
                ==> match r {
                Some(l) => ends_with_segment(l.drv_path@, drv_identifier@),
                None => forall|i: int|
                    0 <= i < self.logs_view().len() ==> !ends_with_segment(
                        #[trigger] self.logs_view()[i].drv_path@,
                        drv_identifier@,
                    ),
            },
    {
        match self.find_log(drv_identifier) {
            Some(i) => {
                return Some(&self.logs[i]);
            },
            None => {},
        }
        let id = chars_of(drv_identifier);
        if matches_at(&id, &chars_of("/nix/store/"), 0) {
            return None;
        }
        let mut tail = chars_of("/");
        push_all(&mut tail, &id);
        let mut i: usize = 0;
        while i < self.logs.len()
            invariant
                i <= self.logs@.len(),
                tail@ == "/"@ + drv_identifier@,
                self.log_of(drv_identifier@) is None,
                !occurs_at(drv_identifier@, "/nix/store/"@, 0),
                forall|k: int|
                    0 <= k < i ==> !ends_with_segment(
                        #[trigger] self.logs@[k].drv_path@,
                        drv_identifier@,
                    ),
            decreases self.logs@.len() - i,
        {
            let p = chars_of(self.logs[i].drv_path.as_str());
            if p.len() >= tail.len() && matches_at(&p, &tail, p.len() - tail.len()) {
                return Some(&self.logs[i]);
            }
            i += 1;
        }
        None
    }
}

/// `idx` lists positions of `logs` in order of decreasing timestamp.
pub open spec fn sorted_by_time(logs: Seq<UpdateLog>, idx: Seq<usize>) -> bool {
    &&& forall|k: int| 0 <= k < idx.len() ==> (#[trigger] idx[k]) < logs.len()
    &&& forall|a: int, b: int|
        0 <= a < b < idx.len() ==> logs[idx[a] as int].timestamp >= logs[idx[b] as int].timestamp
}

/// Puts position `i` into `idx` before the first entry with an earlier time.
fn insert_by_time(idx: &mut Vec<usize>, logs: &Vec<UpdateLog>, i: usize)
    requires
        sorted_by_time(logs@, old(idx)@),
        i < logs@.len(),
    ensures
        sorted_by_time(logs@, final(idx)@),
        final(idx)@.to_multiset() == old(idx)@.to_multiset().insert(i),
{
    let t = logs[i].timestamp;
    let mut p: usize = 0;
    while p < idx.len() && logs[idx[p]].timestamp >= t
        invariant
            p <= idx@.len(),
            sorted_by_time(logs@, idx@),
            t == logs@[i as int].timestamp,
            forall|k: int| 0 <= k < p ==> logs@[idx@[k] as int].timestamp >= t,
        decreases idx@.len() - p,
    {
        p += 1;
    }
    let ghost before = idx@;
    idx.insert(p, i);
    proof {
        before.insert_ensures(p as int, i);
        vstd::seq_lib::to_multiset_insert(before, p as int, i);
        assert forall|k: int| 0 <= k < idx@.len() implies (#[trigger] idx@[k]) < logs@.len() by {
            if k < p {
                assert(idx@[k] == before[k]);
            } else if k > p {
                assert(idx@[k] == before[k - 1]);
            }
        }
        assert forall|a: int, b: int| 0 <= a < b < idx@.len() implies logs@[idx@[a] as int].timestamp
            >= logs@[idx@[b] as int].timestamp by {
            if b < p {
                assert(idx@[a] == before[a] && idx@[b] == before[b]);
            } else if b == p {
                assert(idx@[a] == before[a]);
            } else if a < p {
                assert(idx@[a] == before[a] && idx@[b] == before[b - 1]);
                assert(logs@[before[p as int] as int].timestamp < t);
            } else if a == p {
                assert(idx@[b] == before[b - 1]);
                assert(logs@[before[p as int] as int].timestamp < t);
            } else {
                assert(idx@[a] == before[a - 1] && idx@[b] == before[b - 1]);
            }
        }
    }
}

impl Database {
    /// All logs of an attribute path, the most recent first.
    pub fn get_all_failed_logs_by_attr(&self, attr_path: &str) -> (r: Vec<&UpdateLog>)
        ensures
            exists|idx: Seq<usize>|
                #[trigger] sorted_by_time(self.logs_view(), idx) && idx.len() == r@.len()
                    && (forall|k: int| 0 <= k < r@.len() ==> *r@[k] == self.logs_view()[#[trigger] idx[k] as int])
                    && (forall|i: int| 0 <= i < self.logs_view().len() ==> (idx.to_multiset().count(i as usize)
                    == if (#[trigger] self.logs_view()[i]).attr_path@ == attr_path@ { 1nat } else { 0nat })),
    {
        let key = string_of_str(attr_path);
        let mut idx: Vec<usize> = Vec::new();
        let mut j: usize = 0;
        proof {
            broadcast use vstd::seq_lib::group_to_multiset_ensures;
        }
        while j < self.logs.len()
            invariant
                j <= self.logs@.len(),
                key@ == attr_path@,
                sorted_by_time(self.logs@, idx@),
                forall|i: int| 0 <= i < self.logs@.len() ==> (idx@.to_multiset().count(i as usize)
                    == if i < j && (#[trigger] self.logs@[i]).attr_path@ == attr_path@ { 1nat } else { 0nat }),
            decreases self.logs@.len() - j,
        {
            if self.logs[j].attr_path == key {
                insert_by_time(&mut idx, &self.logs, j);
            }
            proof {
                assert forall|i: int| 0 <= i < self.logs@.len() implies (idx@.to_multiset().count(i as usize)
                    == if i < j + 1 && (#[trigger] self.logs@[i]).attr_path@ == attr_path@ { 1nat } else { 0nat }) by {
                    if i == j {
                    } else {
                        assert(i as usize != j);
                    }
                }
            }
            j += 1;
        }
        let mut out: Vec<&UpdateLog> = Vec::new();
        let mut k: usize = 0;
        while k < idx.len()
            invariant
                k <= idx@.len(),
                out@.len() == k,
                sorted_by_time(self.logs@, idx@),
                forall|m: int| 0 <= m < k ==> *out@[m] == self.logs@[#[trigger] idx@[m] as int],
            decreases idx@.len() - k,
        {
            out.push(&self.logs[idx[k]]);
            k += 1;
        }
        assert(sorted_by_time(self.logs_view(), idx@));
        out
    }
}

/// `path` ends in `/` followed by `id`.
pub open spec fn ends_with_segment(path: Seq<char>, id: Seq<char>) -> bool {
    let t = "/"@ + id;
    path.len() >= t.len() && occurs_at(path, t, path.len() - t.len())
}

} // verus!
