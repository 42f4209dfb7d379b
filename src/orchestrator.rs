//! Run bookkeeping for the concurrent scheduler: which discovered packages
//! are checked, when a task may start, and the run's counters.
//!
//! The caller owns the task pool; it asks here before each start and reports
//! each completion, so the number of running tasks never exceeds the limit.
use vstd::prelude::*;

verus! {

/// How a package task ended.
#[derive(Debug, Clone, Copy, PartialEq, Eq, Structural)]
pub enum TaskOutcome {
    Updated,
    DryRun,
    NoUpdateNeeded,
    Skipped,
    /// The task returned an error.
    Failed,
    /// The task panicked: counted neither as an update nor as a failure.
    Panicked,
}

/// What to do with a discovered package.
#[derive(Debug, Clone, Copy, PartialEq, Eq, Structural)]
pub enum Admission {
    /// Not due yet.
    Skip,
    /// Due, and kept for its group's batch.
    Group,
    /// Due: run it once a slot is free.
    Run,
}

/// The run's counts as plain numbers.
pub struct RunCounts {
    pub limit: int,
    pub active: int,
    pub checked: int,
    pub skipped: int,
    pub updated: int,
    pub failed: int,
}

/// What happens during a run.
pub enum RunEvent {
    Discovered { eligible: bool, grouped: bool },
    Started,
    Finished { outcome: TaskOutcome },
}

/// The counts after one event.
pub open spec fn apply_event(c: RunCounts, e: RunEvent) -> RunCounts {
    match e {
        RunEvent::Discovered { eligible, .. } => if eligible {
            RunCounts { checked: c.checked + 1, ..c }
        } else {
            RunCounts { skipped: c.skipped + 1, ..c }
        },
        RunEvent::Started => RunCounts { active: c.active + 1, ..c },
        RunEvent::Finished { outcome } => RunCounts {
            active: c.active - 1,
            updated: if outcome == TaskOutcome::Updated || outcome == TaskOutcome::DryRun {
                c.updated + 1
            } else {
                c.updated
            },
            failed: if outcome == TaskOutcome::Failed {
                c.failed + 1
            } else {
                c.failed
            },
            ..c
        },
    }
}

/// An event may happen: a start needs a free slot, a completion a running task.
pub open spec fn event_allowed(c: RunCounts, e: RunEvent) -> bool {
    match e {
        RunEvent::Started => c.active < c.limit,
        RunEvent::Finished { .. } => c.active > 0,
        _ => true,
    }
}

/// The counts after a sequence of events.
pub open spec fn run_counts(c: RunCounts, es: Seq<RunEvent>) -> RunCounts
    decreases es.len(),
{
    if es.len() == 0 {
        c
    } else {
        apply_event(run_counts(c, es.drop_last()), es.last())
    }
}

/// Every event of the sequence was allowed when it happened.
pub open spec fn run_allowed(c: RunCounts, es: Seq<RunEvent>) -> bool
    decreases es.len(),
{
    if es.len() == 0 {
        true
    } else {
        run_allowed(c, es.drop_last()) && event_allowed(run_counts(c, es.drop_last()), es.last())
    }
}

/// How many discoveries in `es` were due.
pub open spec fn eligible_count(es: Seq<RunEvent>) -> int
    decreases es.len(),
{
    if es.len() == 0 {
        0
    } else {
        eligible_count(es.drop_last()) + if es.last() matches RunEvent::Discovered {
            eligible: true,
            ..
        } {
            1int
        } else {
            0int
        }
    }
}

proof fn lemma_run(c: RunCounts, es: Seq<RunEvent>)
    requires
        0 <= c.active <= c.limit,
        run_allowed(c, es),
    ensures
        0 <= run_counts(c, es).active <= c.limit,
        run_counts(c, es).limit == c.limit,
        run_counts(c, es).checked == c.checked + eligible_count(es),
    decreases es.len(),
{
    if es.len() > 0 {
        lemma_run(c, es.drop_last());
    }
}

proof fn lemma_prefix_allowed(c: RunCounts, es: Seq<RunEvent>, k: int)
    requires
        run_allowed(c, es),
        0 <= k <= es.len(),
    ensures
        run_allowed(c, es.subrange(0, k)),
    decreases es.len() - k,
{
    if k < es.len() {
        assert(es.drop_last() =~= es.subrange(0, es.len() - 1));
        lemma_prefix_allowed(c, es.drop_last(), k);
        assert(es.drop_last().subrange(0, k) =~= es.subrange(0, k));
    } else {
        assert(es.subrange(0, k) =~= es);
    }
}

/// A run that starts tasks only into free slots never has more tasks running
/// than the limit, at any point; and the number of packages checked is the
/// number of discovered packages that were due.
pub proof fn lemma_run_respects_limit(c: RunCounts, es: Seq<RunEvent>)
    requires
        0 <= c.active <= c.limit,
        c.checked == 0,
        run_allowed(c, es),
    ensures
        forall|k: int|
            0 <= k <= es.len() ==> #[trigger] run_counts(c, es.subrange(0, k)).active <= c.limit,
        run_counts(c, es).checked == eligible_count(es),
{
    assert forall|k: int| 0 <= k <= es.len() implies #[trigger] run_counts(
        c,
        es.subrange(0, k),
    ).active <= c.limit by {
        lemma_prefix_allowed(c, es, k);
        lemma_run(c, es.subrange(0, k));
    }
    lemma_run(c, es);
}

/// The number of tasks to run at once: the override if given, else a quarter
/// of the processors; never less than one.
pub fn concurrency_limit(override_limit: Option<usize>, processors: usize) -> (r: usize)
    ensures
        r >= 1,
        override_limit matches Some(n) ==> r == if n >= 1 {
            n
        } else {
            1
        },
        override_limit is None ==> r == if processors / 4 >= 1 {
            processors / 4
        } else {
            1
        },
{
    let n = match override_limit {
        Some(n) => n,
        None => processors / 4,
    };
    if n >= 1 {
        n
    } else {
        1
    }
}

/// A group's batch: its name and the due members in discovery order.
#[derive(Debug)]
pub struct GroupBatch {
    pub name: String,
    pub members: Vec<String>,
}

pub open spec fn batch_view(b: GroupBatch) -> (Seq<char>, Seq<Seq<char>>) {
    (b.name@, b.members@.map_values(|m: String| m@))
}

/// The first batch at or after `i` with the name `g`.
pub open spec fn batch_index(bs: Seq<(Seq<char>, Seq<Seq<char>>)>, g: Seq<char>, i: int) -> Option<int>
    decreases bs.len() - i,
{
    if i < 0 || i >= bs.len() {
        None
    } else if bs[i].0 == g {
        Some(i)
    } else {
        batch_index(bs, g, i + 1)
    }
}

/// The batches once `m` joins group `g`: appended to its batch, or in a new
/// batch at the end.
pub open spec fn add_member(bs: Seq<(Seq<char>, Seq<Seq<char>>)>, g: Seq<char>, m: Seq<char>) -> Seq<
    (Seq<char>, Seq<Seq<char>>),
> {
    match batch_index(bs, g, 0) {
        Some(i) => bs.update(i, (g, bs[i].1.push(m))),
        None => bs.push((g, seq![m])),
    }
}

/// The run's state.
#[derive(Debug)]
pub struct Orchestrator {
    limit: usize,
    active: usize,
    checked: u64,
    skipped: u64,
    updated: u64,
    failed: u64,
    eval_errors: u64,
    batches: Vec<GroupBatch>,
}

impl Orchestrator {
    pub closed spec fn view(&self) -> RunCounts {
        RunCounts {
            limit: self.limit as int,
            active: self.active as int,
            checked: self.checked as int,
            skipped: self.skipped as int,
            updated: self.updated as int,
            failed: self.failed as int,
        }
    }

    pub closed spec fn wf(&self) -> bool {
        1 <= self.limit && self.active <= self.limit
    }

    pub closed spec fn batches_view(&self) -> Seq<(Seq<char>, Seq<Seq<char>>)> {
        self.batches@.map_values(|b: GroupBatch| batch_view(b))
    }

    /// A run with at most `limit` tasks at once and nothing counted yet.
    pub fn new(limit: usize) -> (r: Orchestrator)
        requires
            limit >= 1,
        ensures
            r.wf(),
            r.view() == (RunCounts {
                limit: limit as int,
                active: 0,
                checked: 0,
                skipped: 0,
                updated: 0,
                failed: 0,
            }),
            r.batches_view().len() == 0,
    {
        Orchestrator {
            limit,
            active: 0,
            checked: 0,
            skipped: 0,
            updated: 0,
            failed: 0,
            eval_errors: 0,
            batches: Vec::new(),
        }
    }

    pub fn limit(&self) -> (r: usize)
        ensures
            r as int == self.view().limit,
    {
        self.limit
    }

    pub fn active(&self) -> (r: usize)
        ensures
            r as int == self.view().active,
    {
        self.active
    }

    /// Whether a task may start now.
    pub fn has_free_slot(&self) -> (r: bool)
        ensures
            r == (self.view().active < self.view().limit),
    {
        self.active < self.limit
    }

    /// Counts a discovered package and says what to do with it. `eligible` is
    /// the scheduler's answer; `group` is the batch the package belongs to.
    pub fn on_discovered(&mut self, attr_path: &str, eligible: bool, group: Option<&str>) -> (r:
        Admission)
        requires
            old(self).wf(),
            old(self).view().checked < u64::MAX,
            old(self).view().skipped < u64::MAX,
        ensures
            final(self).wf(),
            final(self).view() == apply_event(
                old(self).view(),
                RunEvent::Discovered { eligible, grouped: group is Some },
            ),
            !eligible ==> r == Admission::Skip,
            eligible && group is Some ==> r == Admission::Group,
            eligible && group is None ==> r == Admission::Run,
            !(eligible && group is Some) ==> final(self).batches_view() == old(self).batches_view(),
            eligible && group is Some ==> final(self).batches_view() == add_member(
                old(self).batches_view(),
                group->0@,
                attr_path@,
            ),
    {
        if !eligible {
            self.skipped = self.skipped + 1;
            return Admission::Skip;
        }
        self.checked = self.checked + 1;
        match group {
            Some(g) => {
                self.add_to_batch(g, attr_path);
                Admission::Group
            },
            None => Admission::Run,
        }
    }

    fn add_to_batch(&mut self, group: &str, attr_path: &str)
        ensures
            final(self).view() == old(self).view(),
            final(self).limit == old(self).limit,
            final(self).active == old(self).active,
            final(self).batches_view() == add_member(old(self).batches_view(), group@, attr_path@),
    {
        let key = crate::text::string_of(&crate::text::chars_of(group));
        let member = crate::text::string_of(&crate::text::chars_of(attr_path));
        let ghost bs = old(self).batches_view();
        let mut i: usize = 0;
        while i < self.batches.len()
            invariant
                self.view() == old(self).view(),
                self.limit == old(self).limit,
                self.active == old(self).active,
                self.batches == old(self).batches,
                bs == old(self).batches_view(),
                key@ == group@,
                member@ == attr_path@,
                i <= self.batches@.len(),
                batch_index(bs, group@, 0) == batch_index(bs, group@, i as int),
            decreases self.batches@.len() - i,
        {
            if self.batches[i].name == key {
                let ghost before = self.batches@;
                let mut b = self.batches.remove(i);
                let ghost old_members = b.members@;
                b.members.push(member);
                let ghost nb = b;
                self.batches.insert(i, b);
                proof {
                    assert(bs[i as int] == batch_view(before[i as int]));
                    assert(self.batches@ =~= before.update(i as int, nb));
                    assert(nb.members@.map_values(|m: String| m@) =~= old_members.map_values(
                        |m: String| m@,
                    ).push(attr_path@));
                    assert(self.batches_view() =~= bs.update(
                        i as int,
                        (group@, bs[i as int].1.push(attr_path@)),
                    ));
                }
                return;
            }
            i += 1;
        }
        let mut members: Vec<String> = Vec::new();
        members.push(member);
        let ghost before = self.batches@;
        self.batches.push(GroupBatch { name: key, members });
        proof {
            assert(members@.map_values(|m: String| m@) =~= seq![attr_path@]);
            assert(self.batches_view() =~= bs.push((group@, seq![attr_path@])));
        }
    }

    /// Notes that a task started.
    pub fn start_task(&mut self)
        requires
            old(self).wf(),
            old(self).view().active < old(self).view().limit,
        ensures
            final(self).wf(),
            final(self).view() == apply_event(old(self).view(), RunEvent::Started),
    {
        self.active = self.active + 1;
    }

    /// Notes that a task ended, and how.
    pub fn finish_task(&mut self, outcome: TaskOutcome)
        requires
            old(self).wf(),
            old(self).view().active > 0,
            old(self).view().updated < u64::MAX,
            old(self).view().failed < u64::MAX,
        ensures
            final(self).wf(),
            final(self).view() == apply_event(old(self).view(), RunEvent::Finished { outcome }),
    {
        self.active = self.active - 1;
        match outcome {
            TaskOutcome::Updated | TaskOutcome::DryRun => {
                self.updated = self.updated + 1;
            },
            TaskOutcome::Failed => {
                self.failed = self.failed + 1;
            },
            _ => {},
        }
    }

    pub closed spec fn eval_error_count(&self) -> int {
        self.eval_errors as int
    }

    pub fn checked(&self) -> (r: u64)
        ensures
            r as int == self.view().checked,
    {
        self.checked
    }

    pub fn skipped(&self) -> (r: u64)
        ensures
            r as int == self.view().skipped,
    {
        self.skipped
    }

    pub fn updated(&self) -> (r: u64)
        ensures
            r as int == self.view().updated,
    {
        self.updated
    }

    pub fn failed(&self) -> (r: u64)
        ensures
            r as int == self.view().failed,
    {
        self.failed
    }

    pub fn eval_errors(&self) -> (r: u64)
        ensures
            r as int == self.eval_error_count(),
    {
        self.eval_errors
    }

    /// Notes an evaluation error reported by discovery.
    pub fn on_eval_error(&mut self)
        requires
            old(self).eval_error_count() < u64::MAX,
        ensures
            final(self).eval_error_count() == old(self).eval_error_count() + 1,
            final(self).view() == old(self).view(),
            final(self).wf() == old(self).wf(),
    {
        self.eval_errors = self.eval_errors + 1;
    }

    /// Hands over the group batches gathered so far, leaving none.
    pub fn take_batches(&mut self) -> (r: Vec<GroupBatch>)
        ensures
            final(self).view() == old(self).view(),
            final(self).wf() == old(self).wf(),
            final(self).batches_view().len() == 0,
            r@.map_values(|b: GroupBatch| batch_view(b)) == old(self).batches_view(),
    {
        let mut out: Vec<GroupBatch> = Vec::new();
        std::mem::swap(&mut out, &mut self.batches);
        out
    }
}

} // verus!
