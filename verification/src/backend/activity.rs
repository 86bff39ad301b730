//! Keyed activity accounting and the idle deadline.

use std::collections::{HashMap, HashSet};

use vstd::prelude::*;

use crate::session::{ConnectionId, SessionId};

verus! {

broadcast use vstd::std_specs::hash::group_hash_axioms;

/// Activity counts at one generation.
#[derive(Clone, Copy, Debug, PartialEq, Eq, Structural)]
pub struct ActivitySnapshot {
    /// Number of live client connections.
    pub connections: usize,
    /// Number of sessions with an active run.
    pub active_runs: usize,
    /// Number of running jobs of all sessions.
    pub running_jobs: usize,
    /// Number of title-generation tasks.
    pub title_tasks: u32,
    /// A number that grows with every real change.
    pub generation: u64,
}

impl ActivitySnapshot {
    /// Nothing is connected and nothing runs.
    pub open spec fn idle(self) -> bool {
        self.connections == 0 && self.active_runs == 0 && self.running_jobs == 0
            && self.title_tasks == 0
    }

    /// Whether nothing is connected and nothing runs.
    pub fn is_idle(self) -> (idle: bool)
        ensures
            idle == self.idle(),
    {
        self.connections == 0 && self.active_runs == 0 && self.running_jobs == 0
            && self.title_tasks == 0
    }
}

/// An idle timeout that was checked against the latest activity.
#[derive(Clone, Copy, Debug, PartialEq, Eq, Structural)]
pub struct IdleDeadline {
    /// The activity that stayed idle for the whole timeout.
    pub snapshot: ActivitySnapshot,
}

/// The activity of the backend.
pub ghost struct ActivityView {
    pub connections: Set<u64>,
    pub active_runs: Set<u64>,
    pub running_jobs: Map<u64, usize>,
    pub title_tasks: u32,
    pub generation: u64,
}

/// The number of running jobs of all sessions.
pub open spec fn job_total(jobs: Map<u64, usize>) -> nat
    decreases jobs.dom().len(),
    when jobs.dom().finite()
{
    if jobs.dom().len() == 0 {
        0
    } else {
        let id = jobs.dom().choose();
        if jobs.dom().contains(id) {
            jobs[id] as nat + job_total(jobs.remove(id))
        } else {
            0
        }
    }
}

proof fn lemma_job_total_parts(jobs: Map<u64, usize>, id: u64)
    requires
        jobs.dom().finite(),
        jobs.dom().contains(id),
    ensures
        job_total(jobs) == jobs[id] + job_total(jobs.remove(id)),
    decreases jobs.dom().len(),
{
    let first = jobs.dom().choose();
    assert(jobs.dom().len() > 0) by {
        if jobs.dom().len() == 0 {
            assert(jobs.dom() =~= Set::empty());
        }
    }
    assert(jobs.dom().contains(first));
    if first != id {
        let rest = jobs.remove(first);
        assert(rest.dom() =~= jobs.dom().remove(first));
        lemma_job_total_parts(rest, id);
        let other = jobs.remove(id);
        assert(other.dom() =~= jobs.dom().remove(id));
        lemma_job_total_parts(other, first);
        assert(rest.remove(id) =~= other.remove(first));
    }
}

/// The job count that a session has.
pub open spec fn job_count(jobs: Map<u64, usize>, id: u64) -> usize {
    if jobs.contains_key(id) {
        jobs[id]
    } else {
        0
    }
}

impl ActivityView {
    /// No activity yet.
    pub open spec fn initial() -> ActivityView {
        ActivityView {
            connections: Set::empty(),
            active_runs: Set::empty(),
            running_jobs: Map::empty(),
            title_tasks: 0,
            generation: 0,
        }
    }

    /// The counts of this activity.
    pub open spec fn counts(self) -> ActivitySnapshot {
        ActivitySnapshot {
            connections: self.connections.len() as usize,
            active_runs: self.active_runs.len() as usize,
            running_jobs: job_total(self.running_jobs) as usize,
            title_tasks: self.title_tasks,
            generation: self.generation,
        }
    }

    pub open spec fn advanced(self) -> ActivityView {
        ActivityView { generation: (self.generation + 1) as u64, ..self }
    }

    pub open spec fn with_connection(self, id: ConnectionId, connected: bool) -> ActivityView {
        if self.connections.contains(id.0) == connected {
            self
        } else {
            ActivityView {
                connections: if connected {
                    self.connections.insert(id.0)
                } else {
                    self.connections.remove(id.0)
                },
                ..self
            }.advanced()
        }
    }

    pub open spec fn with_run(self, id: SessionId, running: bool) -> ActivityView {
        if self.active_runs.contains(id.number) == running {
            self
        } else {
            ActivityView {
                active_runs: if running {
                    self.active_runs.insert(id.number)
                } else {
                    self.active_runs.remove(id.number)
                },
                ..self
            }.advanced()
        }
    }

    pub open spec fn with_jobs(self, id: SessionId, count: usize) -> ActivityView {
        if job_count(self.running_jobs, id.number) == count {
            self
        } else {
            ActivityView {
                running_jobs: if count == 0 {
                    self.running_jobs.remove(id.number)
                } else {
                    self.running_jobs.insert(id.number, count)
                },
                ..self
            }.advanced()
        }
    }
}

/// The generation grows exactly when the activity really changes.
pub proof fn lemma_generation_marks_real_changes(
    activity: ActivityView,
    connection: ConnectionId,
    session: SessionId,
    present: bool,
    count: usize,
)
    requires
        activity.generation < u64::MAX,
    ensures
        activity.with_connection(connection, present) != activity <==> activity.with_connection(
            connection,
            present,
        ).generation == activity.generation + 1,
        activity.with_run(session, present) != activity <==> activity.with_run(
            session,
            present,
        ).generation == activity.generation + 1,
        activity.with_jobs(session, count) != activity <==> activity.with_jobs(
            session,
            count,
        ).generation == activity.generation + 1,
{
}

/// Recording the same activity again changes nothing.
pub proof fn lemma_recording_is_idempotent(
    activity: ActivityView,
    connection: ConnectionId,
    session: SessionId,
    present: bool,
    count: usize,
)
    ensures
        activity.with_connection(connection, present).with_connection(connection, present)
            == activity.with_connection(connection, present),
        activity.with_run(session, present).with_run(session, present) == activity.with_run(
            session,
            present,
        ),
        activity.with_jobs(session, count).with_jobs(session, count) == activity.with_jobs(
            session,
            count,
        ),
{
}

/// Counts connections, runs, jobs and title tasks, each once per key.
pub struct ActivityTracker {
    connections: HashSet<u64>,
    active_runs: HashSet<u64>,
    jobs: JobCounts,
    title_tasks: u32,
    generation: u64,
}

/// The running jobs of each session and their number.
struct JobCounts {
    counts: HashMap<u64, usize>,
    total: usize,
}

impl JobCounts {
    spec fn wf(&self) -> bool {
        self.total == job_total(self.counts@)
    }

    fn replace(&mut self, id: u64, before: usize, count: usize)
        requires
            old(self).wf(),
            before == job_count(old(self).counts@, id),
            before != count,
            old(self).total - before + count <= usize::MAX,
        ensures
            final(self).wf(),
            final(self).counts@ == if count == 0 {
                old(self).counts@.remove(id)
            } else {
                old(self).counts@.insert(id, count)
            },
    {
        proof {
            let jobs = self.counts@;
            let others = jobs.remove(id);
            if jobs.contains_key(id) {
                lemma_job_total_parts(jobs, id);
            } else {
                assert(others =~= jobs);
            }
            let inserted = jobs.insert(id, count);
            assert(inserted.remove(id) =~= others);
            lemma_job_total_parts(inserted, id);
        }
        self.total = self.total - before + count;
        if count == 0 {
            self.counts.remove(&id);
        } else {
            self.counts.insert(id, count);
        }
    }
}

impl ActivityTracker {
    /// The recorded activity. The number of all jobs, which is kept beside their counts, is no part
    /// of it: it follows from the counts of a valid tracker.
    pub closed spec fn activity(&self) -> ActivityView {
        ActivityView {
            connections: self.connections@,
            active_runs: self.active_runs@,
            running_jobs: self.jobs.counts@,
            title_tasks: self.title_tasks,
            generation: self.generation,
        }
    }

    /// The number of jobs that is kept is the number of all recorded jobs.
    pub closed spec fn wf(&self) -> bool {
        self.jobs.wf()
    }

    /// A tracker without activity, at generation zero.
    pub fn new() -> (tracker: Self)
        ensures
            tracker.activity() == ActivityView::initial(),
            tracker.wf(),
    {
        ActivityTracker {
            connections: HashSet::new(),
            active_runs: HashSet::new(),
            jobs: JobCounts { counts: HashMap::new(), total: 0 },
            title_tasks: 0,
            generation: 0,
        }
    }

    /// The counts of the recorded activity.
    pub fn snapshot(&self) -> (snapshot: ActivitySnapshot)
        requires
            self.wf(),
        ensures
            snapshot == self.activity().counts(),
            snapshot.connections == self.activity().connections.len(),
            snapshot.active_runs == self.activity().active_runs.len(),
            snapshot.running_jobs == job_total(self.activity().running_jobs),
    {
        ActivitySnapshot {
            connections: self.connections.len(),
            active_runs: self.active_runs.len(),
            running_jobs: self.jobs.total,
            title_tasks: self.title_tasks,
            generation: self.generation,
        }
    }

    /// The number of running jobs of one session.
    pub fn running_jobs(&self, id: SessionId) -> (count: usize)
        ensures
            count == job_count(self.activity().running_jobs, id.number),
    {
        match self.jobs.counts.get(&id.number) {
            Some(count) => *count,
            None => 0,
        }
    }

    /// Records whether a connection is live, and tells whether that is a change.
    pub fn set_connection(&mut self, id: ConnectionId, connected: bool) -> (changed: bool)
        requires
            old(self).wf(),
            old(self).activity().connections.contains(id.0) != connected ==> old(self).activity().generation < u64::MAX,
        ensures
            final(self).wf(),
            final(self).activity() == old(self).activity().with_connection(id, connected),
            changed == (old(self).activity().connections.contains(id.0) != connected),
    {
        if self.connections.contains(&id.0) == connected {
            return false;
        }
        self.generation = self.generation + 1;
        if connected {
            self.connections.insert(id.0);
        } else {
            self.connections.remove(&id.0);
        }
        true
    }

    /// Records whether a session has an active run, and tells whether that is a change.
    pub fn set_run(&mut self, id: SessionId, running: bool) -> (changed: bool)
        requires
            old(self).wf(),
            old(self).activity().active_runs.contains(id.number) != running ==> old(self).activity().generation < u64::MAX,
        ensures
            final(self).wf(),
            final(self).activity() == old(self).activity().with_run(id, running),
            changed == (old(self).activity().active_runs.contains(id.number) != running),
    {
        if self.active_runs.contains(&id.number) == running {
            return false;
        }
        self.generation = self.generation + 1;
        if running {
            self.active_runs.insert(id.number);
        } else {
            self.active_runs.remove(&id.number);
        }
        true
    }

    /// Records the number of running jobs of a session, and tells whether that is a change.
    pub fn set_running_jobs(&mut self, id: SessionId, count: usize) -> (changed: bool)
        requires
            old(self).wf(),
            job_count(old(self).activity().running_jobs, id.number) != count ==> old(self).activity().generation < u64::MAX,
            job_total(old(self).activity().running_jobs) - job_count(
                old(self).activity().running_jobs,
                id.number,
            ) + count <= usize::MAX,
        ensures
            final(self).wf(),
            final(self).activity() == old(self).activity().with_jobs(id, count),
            changed == (job_count(old(self).activity().running_jobs, id.number) != count),
    {
        let before: usize = self.running_jobs(id);
        if before == count {
            return false;
        }
        self.jobs.replace(id.number, before, count);
        self.generation = self.generation + 1;
        true
    }

    /// Starts a title-generation task, which keeps the backend from stopping by itself.
    pub fn begin_title_task(&mut self)
        requires
            old(self).wf(),
            old(self).activity().generation < u64::MAX,
            old(self).activity().title_tasks < u32::MAX,
        ensures
            final(self).wf(),
            final(self).activity() == (ActivityView {
                title_tasks: (old(self).activity().title_tasks + 1) as u32,
                ..old(self).activity()
            }).advanced(),
    {
        self.title_tasks = self.title_tasks + 1;
        self.generation = self.generation + 1;
    }

    /// Ends a title-generation task.
    pub fn finish_title_task(&mut self)
        requires
            old(self).wf(),
            old(self).activity().generation < u64::MAX,
            old(self).activity().title_tasks > 0,
        ensures
            final(self).wf(),
            final(self).activity() == (ActivityView {
                title_tasks: (old(self).activity().title_tasks - 1) as u32,
                ..old(self).activity()
            }).advanced(),
    {
        self.title_tasks = self.title_tasks - 1;
        self.generation = self.generation + 1;
    }
}

/// What to wait for.
#[derive(Clone, Copy, Debug, PartialEq, Eq, Structural)]
pub enum IdleStep {
    /// Wait for a change of the activity.
    AwaitChange,
    /// Wait for the whole idle timeout or a change, whichever comes first.
    AwaitTimeout,
}

/// Waits until one unchanged idle generation has lasted for the whole timeout.
#[derive(Clone, Copy, Debug, PartialEq, Eq, Structural)]
pub struct IdleWaiter {
    /// The idle activity whose timeout runs.
    pub eligible: Option<ActivitySnapshot>,
}

impl IdleWaiter {
    /// A waiter that has seen nothing.
    pub fn new() -> (waiter: Self)
        ensures
            waiter.eligible is None,
    {
        IdleWaiter { eligible: None }
    }

    /// Takes the current activity, at the beginning and after every change.
    pub fn observe(&mut self, snapshot: ActivitySnapshot) -> (step: IdleStep)
        ensures
            if snapshot.idle() {
                final(self).eligible == Some(snapshot) && step == IdleStep::AwaitTimeout
            } else {
                final(self).eligible is None && step == IdleStep::AwaitChange
            },
    {
        if snapshot.is_idle() {
            self.eligible = Some(snapshot);
            IdleStep::AwaitTimeout
        } else {
            self.eligible = None;
            IdleStep::AwaitChange
        }
    }

    /// Takes the current activity once the timeout ran out. Where it is not the idle generation
    /// that the timeout began with, the activity has to be observed again.
    pub fn timeout(&self, current: ActivitySnapshot) -> (deadline: Option<IdleDeadline>)
        ensures
            deadline == match self.eligible {
                Some(snapshot) => if current.idle() && current.generation == snapshot.generation {
                    Some(IdleDeadline { snapshot: current })
                } else {
                    None
                },
                None => None,
            },
    {
        match self.eligible {
            Some(snapshot) => {
                if current.is_idle() && current.generation == snapshot.generation {
                    Some(IdleDeadline { snapshot: current })
                } else {
                    None
                }
            },
            None => None,
        }
    }
}

proof fn lemma_job_total_covers(jobs: Map<u64, usize>, id: u64)
    requires
        jobs.dom().finite(),
        jobs.contains_key(id),
    ensures
        jobs[id] <= job_total(jobs),
{
    lemma_job_total_parts(jobs, id);
}

proof fn lemma_no_jobs_total_nothing(jobs: Map<u64, usize>)
    requires
        jobs.dom().finite(),
        forall|id: u64| jobs.contains_key(id) ==> jobs[id] == 0,
    ensures
        job_total(jobs) == 0,
    decreases jobs.dom().len(),
{
    if jobs.dom().len() > 0 {
        let id = jobs.dom().choose();
        assert(jobs.dom().contains(id)) by {
            if !jobs.dom().contains(id) {
                assert(jobs.dom() =~= Set::empty());
            }
        }
        let rest = jobs.remove(id);
        assert(rest.dom() =~= jobs.dom().remove(id));
        lemma_no_jobs_total_nothing(rest);
    }
}

/// Every live connection, every active run, every running job and every title task keeps the
/// backend from being idle, and nothing else does.
pub proof fn lemma_idle_means_that_nothing_is_left(activity: ActivityView)
    requires
        activity.connections.finite(),
        activity.connections.len() <= usize::MAX,
        activity.active_runs.finite(),
        activity.active_runs.len() <= usize::MAX,
        activity.running_jobs.dom().finite(),
        job_total(activity.running_jobs) <= usize::MAX,
    ensures
        activity.counts().idle() <==> {
            &&& forall|id: u64| !activity.connections.contains(id)
            &&& forall|id: u64| !activity.active_runs.contains(id)
            &&& forall|id: u64|
                activity.running_jobs.contains_key(id) ==> activity.running_jobs[id] == 0
            &&& activity.title_tasks == 0
        },
{
    let jobs = activity.running_jobs;
    if activity.connections.len() == 0 {
        assert(activity.connections =~= Set::empty());
    }
    if activity.active_runs.len() == 0 {
        assert(activity.active_runs =~= Set::empty());
    }
    if forall|id: u64| !activity.connections.contains(id) {
        assert(activity.connections =~= Set::empty());
    }
    if forall|id: u64| !activity.active_runs.contains(id) {
        assert(activity.active_runs =~= Set::empty());
    }
    if job_total(jobs) == 0 {
        assert forall|id: u64| jobs.contains_key(id) implies jobs[id] == 0 by {
            lemma_job_total_covers(jobs, id);
        }
    }
    if forall|id: u64| jobs.contains_key(id) ==> jobs[id] == 0 {
        lemma_no_jobs_total_nothing(jobs);
    }
}

/// Counts are idle exactly where all four of them are zero, at whatever generation.
pub proof fn lemma_idle_counts_are_zero(snapshot: ActivitySnapshot)
    ensures
        snapshot.idle() <==> snapshot.connections == 0 && snapshot.active_runs == 0
            && snapshot.running_jobs == 0 && snapshot.title_tasks == 0,
{
}

/// What is recorded is what the activity then tells: of the key that it was recorded for, and of
/// no other.
pub proof fn lemma_recorded_activity_is_told(
    activity: ActivityView,
    connection: ConnectionId,
    session: SessionId,
    present: bool,
    count: usize,
    other: u64,
)
    ensures
        activity.with_connection(connection, present).connections.contains(connection.0)
            == present,
        activity.with_run(session, present).active_runs.contains(session.number) == present,
        job_count(activity.with_jobs(session, count).running_jobs, session.number) == count,
        other != connection.0 ==> activity.with_connection(
            connection,
            present,
        ).connections.contains(other) == activity.connections.contains(other),
        other != session.number ==> activity.with_run(session, present).active_runs.contains(other)
            == activity.active_runs.contains(other) && job_count(
            activity.with_jobs(session, count).running_jobs,
            other,
        ) == job_count(activity.running_jobs, other),
        activity.with_connection(connection, present).active_runs == activity.active_runs,
        activity.with_connection(connection, present).running_jobs == activity.running_jobs,
        activity.with_connection(connection, present).title_tasks == activity.title_tasks,
        activity.with_run(session, present).connections == activity.connections,
        activity.with_run(session, present).running_jobs == activity.running_jobs,
        activity.with_run(session, present).title_tasks == activity.title_tasks,
        activity.with_jobs(session, count).connections == activity.connections,
        activity.with_jobs(session, count).active_runs == activity.active_runs,
        activity.with_jobs(session, count).title_tasks == activity.title_tasks,
{
}

/// The idle timeout never begins while anything is left, and begins where nothing is. What was
/// observed is what the timeout is for.
pub proof fn lemma_idle_timeout_begins_with_nothing_left()
    ensures
        forall|waiter: &mut IdleWaiter, snapshot: ActivitySnapshot, step: IdleStep|
            #[trigger] call_ensures(IdleWaiter::observe, (waiter, snapshot), step) ==> {
                &&& step == IdleStep::AwaitTimeout <==> snapshot.connections == 0
                    && snapshot.active_runs == 0 && snapshot.running_jobs == 0
                    && snapshot.title_tasks == 0
                &&& step == IdleStep::AwaitTimeout ==> final(waiter).eligible == Some(snapshot)
                &&& step == IdleStep::AwaitChange ==> final(waiter).eligible is None
            },
{
}

/// The idle timeout has run out only where nothing is left and nothing changed since it began.
pub proof fn lemma_idle_deadline_is_unchanged(
    waiter: IdleWaiter,
    current: ActivitySnapshot,
    deadline: Option<IdleDeadline>,
)
    requires
        call_ensures(IdleWaiter::timeout, (&waiter, current), deadline),
        deadline is Some,
    ensures
        deadline->0.snapshot == current,
        waiter.eligible is Some,
        waiter.eligible->0.generation == current.generation,
        current.connections == 0 && current.active_runs == 0 && current.running_jobs == 0
            && current.title_tasks == 0,
{
}

/// What is recorded is what is there: a connection, a run or the jobs of a session are set as they
/// are told, nothing else changes, and the change is told where there was one.
pub proof fn lemma_recorded_changes_are_kept()
    ensures
        forall|tracker: &mut ActivityTracker, id: ConnectionId, connected: bool, changed: bool|
         #[trigger]
            call_ensures(ActivityTracker::set_connection, (tracker, id, connected), changed) ==> {
                let before = tracker.activity();
                let after = final(tracker).activity();
                &&& after.connections.contains(id.0) == connected
                &&& changed == (before.connections.contains(id.0) != connected)
                &&& forall|other: u64|
                    other != id.0 ==> #[trigger] after.connections.contains(other)
                        == before.connections.contains(other)
                &&& after.active_runs == before.active_runs && after.running_jobs
                    == before.running_jobs && after.title_tasks == before.title_tasks
                &&& !changed ==> after.generation == before.generation
            },
        forall|tracker: &mut ActivityTracker, id: SessionId, running: bool, changed: bool|
         #[trigger]
            call_ensures(ActivityTracker::set_run, (tracker, id, running), changed) ==> {
                let before = tracker.activity();
                let after = final(tracker).activity();
                &&& after.active_runs.contains(id.number) == running
                &&& changed == (before.active_runs.contains(id.number) != running)
                &&& forall|other: u64|
                    other != id.number ==> #[trigger] after.active_runs.contains(other)
                        == before.active_runs.contains(other)
                &&& after.connections == before.connections && after.running_jobs
                    == before.running_jobs && after.title_tasks == before.title_tasks
            },
        forall|tracker: &mut ActivityTracker, id: SessionId, count: usize, changed: bool|
         #[trigger]
            call_ensures(ActivityTracker::set_running_jobs, (tracker, id, count), changed) ==> {
                let before = tracker.activity();
                let after = final(tracker).activity();
                &&& job_count(after.running_jobs, id.number) == count
                &&& forall|other: u64|
                    other != id.number ==> #[trigger] job_count(after.running_jobs, other)
                        == job_count(before.running_jobs, other)
                &&& after.connections == before.connections && after.active_runs
                    == before.active_runs && after.title_tasks == before.title_tasks
            },
        forall|tracker: &mut ActivityTracker, done: ()| #[trigger]
            call_ensures(ActivityTracker::begin_title_task, (tracker,), done)
                && tracker.activity().title_tasks < u32::MAX ==> final(
                tracker).activity().title_tasks == tracker.activity().title_tasks + 1 && final(
                tracker).activity().connections == tracker.activity().connections,
        forall|tracker: &mut ActivityTracker, done: ()| #[trigger]
            call_ensures(ActivityTracker::finish_title_task, (tracker,), done)
                && tracker.activity().title_tasks > 0 ==> final(tracker).activity().title_tasks
                == tracker.activity().title_tasks - 1 && final(tracker).activity().connections
                == tracker.activity().connections,
        forall|tracker: ActivityTracker| #[trigger]
            call_ensures(ActivityTracker::new, (), tracker) ==> {
                &&& forall|id: u64| !tracker.activity().connections.contains(id)
                &&& forall|id: u64| !tracker.activity().active_runs.contains(id)
                &&& forall|id: u64| job_count(tracker.activity().running_jobs, id) == 0
                &&& tracker.activity().title_tasks == 0
            },
{
}

} // verus!
