use vstd::prelude::*;
use std::collections::HashMap;
use crate::catalog::JobCatalog;
use crate::commands::{Commands, Entity, HostCommand};
use crate::job::{
    attach_current, detach_current, spec_advance, spec_fail, spec_jump, Job, JobData,
    JobDataView, JobStatus, JobView, Outcome,
};
use crate::scheduler::{due_instant, due_jobs, due_on_hour, JobScheduler, JobTrigger};
use crate::task::{JobID, JobSchedule, Task, WaitTask};

verus! {

broadcast use vstd::std_specs::hash::group_hash_axioms;

/// Why the engine could not act.
#[derive(Clone, Copy, Debug, PartialEq, Eq, Structural)]
pub enum JobError {
    /// No template is registered under the identity.
    TemplateNotFound,
    /// The entity has no live job.
    EntityNotBound,
}

/// The jobs of the entities after a job-level transition: a job that ended is dropped.
pub open spec fn settle(m: Map<Entity, JobView>, e: Entity, j: JobView, o: Outcome) -> Map<Entity, JobView> {
    if o.spec_ends_job() {
        m.remove(e)
    } else {
        m.insert(e, j)
    }
}

/// The state after a job-level transition `t` of the job of `e`.
pub open spec fn on_bound(
    m: Map<Entity, JobView>,
    e: Entity,
    t: (JobView, Seq<HostCommand>, Outcome),
) -> (Map<Entity, JobView>, Seq<HostCommand>, Result<Outcome, JobError>) {
    (settle(m, e, t.0, t.2), t.1, Ok(t.2))
}

/// Nothing changes, and the entity is reported unbound.
pub open spec fn unbound(m: Map<Entity, JobView>, c: Seq<HostCommand>) -> (Map<Entity, JobView>, Seq<HostCommand>, Result<Outcome, JobError>) {
    (m, c, Err(JobError::EntityNotBound))
}

/// Engine-level advance of the job of `e`.
pub open spec fn store_advance(m: Map<Entity, JobView>, c: Seq<HostCommand>, e: Entity) -> (Map<Entity, JobView>, Seq<HostCommand>, Result<Outcome, JobError>) {
    if m.contains_key(e) { on_bound(m, e, spec_advance(m[e], c, e)) } else { unbound(m, c) }
}

/// Engine-level jump of the job of `e`.
pub open spec fn store_jump(m: Map<Entity, JobView>, c: Seq<HostCommand>, e: Entity, id: u32) -> (Map<Entity, JobView>, Seq<HostCommand>, Result<Outcome, JobError>) {
    if m.contains_key(e) { on_bound(m, e, spec_jump(m[e], c, e, id)) } else { unbound(m, c) }
}

/// Engine-level failure of the job of `e`.
pub open spec fn store_fail(m: Map<Entity, JobView>, c: Seq<HostCommand>, e: Entity) -> (Map<Entity, JobView>, Seq<HostCommand>, Result<Outcome, JobError>) {
    if m.contains_key(e) { on_bound(m, e, spec_fail(m[e], c, e)) } else { unbound(m, c) }
}

/// A job freshly made from template `d`, as catalog assignment makes it.
pub open spec fn fresh_job(d: JobDataView) -> JobView {
    JobView { data: d, loopk: 0, status: JobStatus::Active }
}

/// Assignment of template `id` to entity `e`: a job already there is detached and replaced.
pub open spec fn store_assign(
    m: Map<Entity, JobView>,
    c: Seq<HostCommand>,
    cat: Map<JobID, JobDataView>,
    e: Entity,
    id: JobID,
) -> (Map<Entity, JobView>, Seq<HostCommand>, Result<(), JobError>) {
    if !cat.contains_key(id) {
        (m, c, Err(JobError::TemplateNotFound))
    } else {
        let c1 = if m.contains_key(e) { c + detach_current(m[e], e) } else { c };
        let j = fresh_job(cat[id]);
        (m.insert(e, j), c1 + attach_current(j, e), Ok(()))
    }
}

/// Start of template `id` on the newly reserved entity `fresh`.
pub open spec fn store_start(
    m: Map<Entity, JobView>,
    c: Seq<HostCommand>,
    cat: Map<JobID, JobDataView>,
    id: JobID,
    fresh: Entity,
) -> (Map<Entity, JobView>, Seq<HostCommand>, Option<Entity>) {
    if !cat.contains_key(id) {
        (m, c, None)
    } else {
        let j = fresh_job(cat[id]);
        match j.current_node() {
            Some(n) => (m.insert(fresh, j), c.push(HostCommand::Spawn { entity: fresh, task: n.task }), Some(fresh)),
            None => (m, c, None),
        }
    }
}

/// Nothing changes.
pub open spec fn unchanged(j: JobView, c: Seq<HostCommand>) -> (JobView, Seq<HostCommand>, Outcome) {
    (j, c, Outcome::Unchanged)
}

/// One run of a loop node: below the bound, count and re-enter at `start_id`; at the bound,
/// reset the counter and advance past the loop. A loop without a bound never exits.
pub open spec fn spec_loop(j: JobView, c: Seq<HostCommand>, e: Entity) -> (JobView, Seq<HostCommand>, Outcome) {
    match j.current_node() {
        Some(n) => match n.task {
            Task::Loop(lt) => match lt.maxk {
                Some(k) => if j.loopk >= k {
                    spec_advance(j.with_loopk(0), c, e)
                } else {
                    spec_jump(j.with_loopk((j.loopk + 1) as u32), c, e, lt.start_id)
                },
                None => unchanged(j, c),
            },
            _ => unchanged(j, c),
        },
        None => unchanged(j, c),
    }
}

/// One run of a decision node with the draw `draw`.
pub open spec fn spec_decision(j: JobView, c: Seq<HostCommand>, e: Entity, draw: u32) -> (JobView, Seq<HostCommand>, Outcome) {
    match j.current_node() {
        Some(n) => match n.task {
            Task::Decision(d) => spec_jump(j, c, e, d.spec_pick(draw)),
            _ => unchanged(j, c),
        },
        None => unchanged(j, c),
    }
}

/// One run of a despawn node: the entity is destroyed and the job is done.
pub open spec fn spec_despawn(j: JobView, c: Seq<HostCommand>, e: Entity) -> (JobView, Seq<HostCommand>, Outcome) {
    match j.current_node() {
        Some(n) => match n.task {
            Task::Despawn(_) => (j.with_status(JobStatus::Done), c.push(HostCommand::Despawn { entity: e }), Outcome::Despawned),
            _ => unchanged(j, c),
        },
        None => unchanged(j, c),
    }
}

/// Which of the tasks that complete at once a node holds.
pub open spec fn is_instant(t: Task, kind: InstantKind) -> bool {
    match kind {
        InstantKind::Show => t is Show,
        InstantKind::Hide => t is Hide,
        InstantKind::Teleport => t is Teleport,
    }
}

/// One run of a task that completes at once: advance when the current node is of `kind`.
pub open spec fn spec_instant(j: JobView, c: Seq<HostCommand>, e: Entity, kind: InstantKind) -> (JobView, Seq<HostCommand>, Outcome) {
    match j.current_node() {
        Some(n) => if is_instant(n.task, kind) { spec_advance(j, c, e) } else { unchanged(j, c) },
        None => unchanged(j, c),
    }
}

/// A handler's run on the job of `e`: an unbound entity is reported, a paused job is left alone.
pub open spec fn store_handle(
    m: Map<Entity, JobView>,
    c: Seq<HostCommand>,
    e: Entity,
    t: (JobView, Seq<HostCommand>, Outcome),
) -> (Map<Entity, JobView>, Seq<HostCommand>, Result<Outcome, JobError>) {
    if !m.contains_key(e) {
        unbound(m, c)
    } else if m[e].status == JobStatus::Paused {
        (m, c, Ok(Outcome::Unchanged))
    } else {
        on_bound(m, e, t)
    }
}

/// A real-time wait after `elapsed_ms` more milliseconds, and whether it was already due.
pub open spec fn spec_wait_time(w: WaitTask, elapsed_ms: u32) -> (WaitTask, bool) {
    match w.schedule {
        JobSchedule::RealDelay(d) => if d > 0 {
            (WaitTask { schedule: JobSchedule::RealDelay(if d > elapsed_ms { (d - elapsed_ms) as u32 } else { 0 }) }, false)
        } else {
            (w, true)
        },
        _ => (w, false),
    }
}

/// A calendar wait after one more in-game hour, at `hour` of `weekday`, and whether it is due.
pub open spec fn spec_wait_hour(w: WaitTask, hour: u8, weekday: u8) -> (WaitTask, bool) {
    match w.schedule {
        JobSchedule::Cron(cron) => (w, cron.spec_is_time(hour, weekday)),
        JobSchedule::Delay(d) => if d > 0 {
            (WaitTask { schedule: JobSchedule::Delay((d - 1) as u8) }, false)
        } else {
            (w, true)
        },
        _ => (w, false),
    }
}

/// The handler of `e` acts: its job exists and is not paused.
pub open spec fn acts(m: Map<Entity, JobView>, e: Entity) -> bool {
    m.contains_key(e) && m[e].status != JobStatus::Paused
}

/// Advance when `due`, else nothing.
pub open spec fn advance_if(j: JobView, c: Seq<HostCommand>, e: Entity, due: bool) -> (JobView, Seq<HostCommand>, Outcome) {
    if due { spec_advance(j, c, e) } else { unchanged(j, c) }
}

/// The siblings started for the first `n` listed templates, the `i`-th on `fresh[i]`.
pub open spec fn start_all(
    m: Map<Entity, JobView>,
    c: Seq<HostCommand>,
    cat: Map<JobID, JobDataView>,
    ids: Seq<JobID>,
    fresh: Seq<Entity>,
    n: nat,
) -> (Map<Entity, JobView>, Seq<HostCommand>)
    decreases n,
{
    if n == 0 {
        (m, c)
    } else {
        let prev = start_all(m, c, cat, ids, fresh, (n - 1) as nat);
        let t = store_start(prev.0, prev.1, cat, ids[n - 1], fresh[n - 1]);
        (t.0, t.1)
    }
}

/// One run of a spawn-group node of `e`: a sibling job for each listed template that has an
/// entity reserved for it, then one advance of the job of `e`.
pub open spec fn store_spawn_group(
    m: Map<Entity, JobView>,
    c: Seq<HostCommand>,
    cat: Map<JobID, JobDataView>,
    e: Entity,
    fresh: Seq<Entity>,
) -> (Map<Entity, JobView>, Seq<HostCommand>, Result<Outcome, JobError>) {
    if !acts(m, e) {
        store_handle(m, c, e, unchanged(m[e], c))
    } else {
        match m[e].current_node() {
            Some(node) => match node.task {
                Task::SpawnGroup(g) => {
                    let n = if g.data@.len() < fresh.len() { g.data@.len() } else { fresh.len() };
                    let s = start_all(m.remove(e), c, cat, g.data@, fresh, n);
                    let t = spec_advance(m[e], s.1, e);
                    (settle(s.0, e, t.0, t.2), t.1, Ok(t.2))
                },
                _ => (m, c, Ok(Outcome::Unchanged)),
            },
            None => (m, c, Ok(Outcome::Unchanged)),
        }
    }
}

/// The kinds of task that complete as soon as their handler runs.
#[derive(Clone, Copy, Debug, PartialEq, Eq, Structural)]
pub enum InstantKind {
    Show,
    Hide,
    Teleport,
}

/// A request to drop the job of an entity.
#[derive(Clone, Copy, Debug, PartialEq)]
pub struct StopJobEvent {
    pub entity: Entity,
}

/// A request to assign a registered job to an entity.
#[derive(Clone, Copy, Debug, PartialEq)]
pub struct StartJobEvent {
    pub job_id: JobID,
    pub entity: Entity,
}

impl JobData {
    /// Binds a fresh job of this template to `entity` and asks the host to attach its
    /// current task; a job already there is detached and replaced.
    pub fn assign(&self, jobs: &mut Jobs, commands: &mut Commands, entity: Entity)
        ensures
            ({
                let m = old(jobs)@;
                let c1 = if m.contains_key(entity) { old(commands)@ + detach_current(m[entity], entity) } else { old(commands)@ };
                &&& final(jobs)@ == m.insert(entity, fresh_job(self@))
                &&& final(commands)@ == c1 + attach_current(fresh_job(self@), entity)
            }),
    {
        jobs.remove_all_clean(commands, entity);
        let mut job = Job::new(self.clone());
        job.assign(commands, entity);
        jobs.upsert(entity, job);
        proof {
            assert(old(jobs)@.remove(entity).insert(entity, job@) =~= old(jobs)@.insert(entity, job@));
        }
    }

    /// Starts a fresh job of this template on `fresh`, an entity the host has just reserved:
    /// the host is asked to create it with the current task on it. `None`, with nothing done,
    /// when the template has no current task.
    pub fn start(&self, jobs: &mut Jobs, commands: &mut Commands, fresh: Entity) -> (r: Option<Entity>)
        ensures
            match fresh_job(self@).current_node() {
                Some(n) => r == Some(fresh)
                    && final(jobs)@ == old(jobs)@.insert(fresh, fresh_job(self@))
                    && final(commands)@ == old(commands)@.push(HostCommand::Spawn { entity: fresh, task: n.task }),
                None => r == None::<Entity> && final(jobs)@ == old(jobs)@ && final(commands)@ == old(commands)@,
            },
    {
        let mut job = Job::new(self.clone());
        match job.start(commands, fresh) {
            Some(e) => {
                jobs.upsert(e, job);
                Some(e)
            },
            None => None,
        }
    }
}

/// The jobs of the host's entities, each entity owning at most one.
#[derive(Debug)]
pub struct Jobs {
    data: HashMap<u64, Job>,
}

impl View for Jobs {
    type V = Map<Entity, JobView>;

    closed spec fn view(&self) -> Map<Entity, JobView> {
        self.data@.map_values(|j: Job| j@)
    }
}

impl Jobs {
    pub fn init() -> (r: Self)
        ensures
            r@ == Map::<Entity, JobView>::empty(),
    {
        let r = Jobs { data: HashMap::new() };
        assert(r@ =~= Map::<Entity, JobView>::empty());
        r
    }

    /// The job of `entity`, if it has one.
    pub fn get(&self, entity: Entity) -> (r: Option<&Job>)
        ensures
            match r {
                Some(j) => self@.contains_key(entity) && j@ == self@[entity],
                None => !self@.contains_key(entity),
            },
    {
        self.data.get(&entity)
    }

    /// Number of entities with a job.
    pub fn len(&self) -> (r: usize)
        ensures
            r == self@.len(),
    {
        proof {
            assert(self@.dom() =~= self.data@.dom());
        }
        self.data.len()
    }

    /// Takes the job of `entity` out of the store.
    fn take(&mut self, entity: Entity) -> (r: Option<Job>)
        ensures
            match r {
                Some(j) => old(self)@.contains_key(entity) && j@ == old(self)@[entity],
                None => !old(self)@.contains_key(entity),
            },
            final(self)@ == old(self)@.remove(entity),
    {
        let r = self.data.remove(&entity);
        assert(self@ =~= old(self)@.remove(entity));
        r
    }

    /// Binds `job` to `entity`, replacing any job there.
    pub fn upsert(&mut self, entity: Entity, job: Job)
        ensures
            final(self)@ == old(self)@.insert(entity, job@),
    {
        let ghost v = job@;
        self.data.insert(entity, job);
        assert(self@ =~= old(self)@.insert(entity, v));
    }

    /// Puts back a job that went through a transition, unless the transition ended it.
    fn settle(&mut self, entity: Entity, job: Job, o: Outcome)
        ensures
            final(self)@ == settle(old(self)@, entity, job@, o),
    {
        if o.ends_job() {
            let _ = self.take(entity);
        } else {
            self.upsert(entity, job);
        }
    }

    /// Drops the job of `entity`, if any, without asking the host for anything.
    pub fn remove_all(&mut self, entity: Entity)
        ensures
            final(self)@ == old(self)@.remove(entity),
    {
        let _ = self.take(entity);
    }

    /// Detaches the current task of the job of `entity`, if any, and drops the job.
    pub fn remove_all_clean(&mut self, commands: &mut Commands, entity: Entity)
        ensures
            final(self)@ == old(self)@.remove(entity),
            final(commands)@ == if old(self)@.contains_key(entity) {
                old(commands)@ + detach_current(old(self)@[entity], entity)
            } else {
                old(commands)@
            },
    {
        match self.take(entity) {
            Some(job) => job.remove_current(commands, entity),
            None => {},
        }
    }

    /// Drops every job.
    pub fn clear(&mut self)
        ensures
            final(self)@ == Map::<Entity, JobView>::empty(),
    {
        self.data.clear();
        assert(self@ =~= Map::<Entity, JobView>::empty());
    }

    /// Advances the job of `entity`: see `spec_advance`.
    pub fn next_task(&mut self, commands: &mut Commands, entity: Entity) -> (r: Result<Outcome, JobError>)
        ensures
            (final(self)@, final(commands)@, r) == store_advance(old(self)@, old(commands)@, entity),
    {
        match self.take(entity) {
            None => Err(JobError::EntityNotBound),
            Some(mut job) => {
                let o = job.next_task(commands, entity);
                self.settle(entity, job, o);
                proof { assert(old(self)@.remove(entity).insert(entity, job@) =~= old(self)@.insert(entity, job@)); }
                Ok(o)
            },
        }
    }

    /// Jumps the job of `entity` to `next_task_id`: see `spec_jump`.
    pub fn jump_task(&mut self, commands: &mut Commands, entity: Entity, next_task_id: u32) -> (r: Result<Outcome, JobError>)
        ensures
            (final(self)@, final(commands)@, r) == store_jump(old(self)@, old(commands)@, entity, next_task_id),
    {
        match self.take(entity) {
            None => Err(JobError::EntityNotBound),
            Some(mut job) => {
                let o = job.jump_task(commands, entity, next_task_id);
                self.settle(entity, job, o);
                proof { assert(old(self)@.remove(entity).insert(entity, job@) =~= old(self)@.insert(entity, job@)); }
                Ok(o)
            },
        }
    }

    /// Applies the failure policy of the job of `entity`: see `spec_fail`.
    pub fn fail_task(&mut self, commands: &mut Commands, entity: Entity) -> (r: Result<Outcome, JobError>)
        ensures
            (final(self)@, final(commands)@, r) == store_fail(old(self)@, old(commands)@, entity),
    {
        match self.take(entity) {
            None => Err(JobError::EntityNotBound),
            Some(mut job) => {
                let o = job.fail(commands, entity);
                self.settle(entity, job, o);
                proof { assert(old(self)@.remove(entity).insert(entity, job@) =~= old(self)@.insert(entity, job@)); }
                Ok(o)
            },
        }
    }

    /// Detaches the current task of the job of `entity` and drops the job; the entity stays.
    pub fn cancel(&mut self, commands: &mut Commands, entity: Entity) -> (r: Result<(), JobError>)
        ensures
            old(self)@.contains_key(entity) ==> r == Ok::<(), JobError>(())
                && final(self)@ == old(self)@.remove(entity)
                && final(commands)@ == old(commands)@ + detach_current(old(self)@[entity], entity),
            !old(self)@.contains_key(entity) ==> r == Err::<(), JobError>(JobError::EntityNotBound)
                && final(self)@ == old(self)@ && final(commands)@ == old(commands)@,
    {
        match self.take(entity) {
            None => Err(JobError::EntityNotBound),
            Some(mut job) => {
                job.cancel(commands, entity);
                Ok(())
            },
        }
    }

    /// Pauses the job of `entity`: its status becomes `Paused` and nothing is detached.
    pub fn pause(&mut self, commands: &mut Commands, entity: Entity) -> (r: Result<(), JobError>)
        ensures
            old(self)@.contains_key(entity) ==> r == Ok::<(), JobError>(())
                && final(self)@ == old(self)@.insert(entity, old(self)@[entity].with_status(JobStatus::Paused))
                && final(commands)@ == old(commands)@.push(HostCommand::Pause { entity }),
            !old(self)@.contains_key(entity) ==> r == Err::<(), JobError>(JobError::EntityNotBound)
                && final(self)@ == old(self)@ && final(commands)@ == old(commands)@,
    {
        match self.take(entity) {
            None => Err(JobError::EntityNotBound),
            Some(mut job) => {
                job.pause(commands, entity);
                self.upsert(entity, job);
                proof { assert(old(self)@.remove(entity).insert(entity, job@) =~= old(self)@.insert(entity, job@)); }
                Ok(())
            },
        }
    }

    /// Resumes the job of `entity`: its status becomes `Active`.
    pub fn unpause(&mut self, commands: &mut Commands, entity: Entity) -> (r: Result<(), JobError>)
        ensures
            old(self)@.contains_key(entity) ==> r == Ok::<(), JobError>(())
                && final(self)@ == old(self)@.insert(entity, old(self)@[entity].with_status(JobStatus::Active))
                && final(commands)@ == old(commands)@.push(HostCommand::Unpause { entity }),
            !old(self)@.contains_key(entity) ==> r == Err::<(), JobError>(JobError::EntityNotBound)
                && final(self)@ == old(self)@ && final(commands)@ == old(commands)@,
    {
        match self.take(entity) {
            None => Err(JobError::EntityNotBound),
            Some(mut job) => {
                job.unpause(commands, entity);
                self.upsert(entity, job);
                proof { assert(old(self)@.remove(entity).insert(entity, job@) =~= old(self)@.insert(entity, job@)); }
                Ok(())
            },
        }
    }

    /// Assigns template `job_id` of `catalog` to `entity`; see `store_assign`. On a lookup
    /// miss the entity is left as it was.
    pub fn assign(&mut self, commands: &mut Commands, catalog: &JobCatalog, entity: Entity, job_id: JobID) -> (r: Result<(), JobError>)
        requires
            catalog.wf(),
        ensures
            (final(self)@, final(commands)@, r) == store_assign(old(self)@, old(commands)@, catalog@, entity, job_id),
    {
        match catalog.get(job_id) {
            None => Err(JobError::TemplateNotFound),
            Some(jobdata) => {
                jobdata.assign(self, commands, entity);
                Ok(())
            },
        }
    }

    /// Starts template `job_id` of `catalog` on `fresh`, an entity the host has just reserved;
    /// see `store_start`.
    pub fn start(&mut self, commands: &mut Commands, catalog: &JobCatalog, job_id: JobID, fresh: Entity) -> (r: Option<Entity>)
        requires
            catalog.wf(),
        ensures
            (final(self)@, final(commands)@, r) == store_start(old(self)@, old(commands)@, catalog@, job_id, fresh),
    {
        match catalog.get(job_id) {
            None => None,
            Some(jobdata) => jobdata.start(self, commands, fresh),
        }
    }

    /// Runs the loop node of `entity`: see `spec_loop`.
    pub fn loop_task(&mut self, commands: &mut Commands, entity: Entity) -> (r: Result<Outcome, JobError>)
        ensures
            (final(self)@, final(commands)@, r) == store_handle(old(self)@, old(commands)@, entity,
                spec_loop(old(self)@[entity], old(commands)@, entity)),
    {
        match self.take(entity) {
            None => Err(JobError::EntityNotBound),
            Some(mut job) => {
                if job.get_status() == JobStatus::Paused {
                    self.upsert(entity, job);
                    proof { assert(old(self)@.remove(entity).insert(entity, job@) =~= old(self)@); }
                    return Ok(Outcome::Unchanged);
                }
                let o = match job.current_task() {
                    Some(node) => match node.task {
                        Task::Loop(lt) => match lt.maxk {
                            Some(maxk) => if job.loopk() >= maxk {
                                job.loop_reset();
                                job.next_task(commands, entity)
                            } else {
                                job.loop_incr();
                                job.jump_task(commands, entity, lt.start_id)
                            },
                            None => Outcome::Unchanged,
                        },
                        _ => Outcome::Unchanged,
                    },
                    None => Outcome::Unchanged,
                };
                self.settle(entity, job, o);
                proof { assert(old(self)@.remove(entity).insert(entity, job@) =~= old(self)@.insert(entity, job@)); }
                Ok(o)
            },
        }
    }

    /// Runs the decision node of `entity` with the draw `draw`: see `spec_decision`.
    pub fn decision_task(&mut self, commands: &mut Commands, entity: Entity, draw: u32) -> (r: Result<Outcome, JobError>)
        ensures
            (final(self)@, final(commands)@, r) == store_handle(old(self)@, old(commands)@, entity,
                spec_decision(old(self)@[entity], old(commands)@, entity, draw)),
    {
        match self.take(entity) {
            None => Err(JobError::EntityNotBound),
            Some(mut job) => {
                if job.get_status() == JobStatus::Paused {
                    self.upsert(entity, job);
                    proof { assert(old(self)@.remove(entity).insert(entity, job@) =~= old(self)@); }
                    return Ok(Outcome::Unchanged);
                }
                let o = match job.current_task() {
                    Some(node) => match node.task {
                        Task::Decision(d) => job.jump_task(commands, entity, d.pick(draw)),
                        _ => Outcome::Unchanged,
                    },
                    None => Outcome::Unchanged,
                };
                self.settle(entity, job, o);
                proof { assert(old(self)@.remove(entity).insert(entity, job@) =~= old(self)@.insert(entity, job@)); }
                Ok(o)
            },
        }
    }

    /// Runs the despawn node of `entity`: see `spec_despawn`.
    pub fn despawn_task(&mut self, commands: &mut Commands, entity: Entity) -> (r: Result<Outcome, JobError>)
        ensures
            (final(self)@, final(commands)@, r) == store_handle(old(self)@, old(commands)@, entity,
                spec_despawn(old(self)@[entity], old(commands)@, entity)),
    {
        match self.take(entity) {
            None => Err(JobError::EntityNotBound),
            Some(mut job) => {
                if job.get_status() == JobStatus::Paused {
                    self.upsert(entity, job);
                    proof { assert(old(self)@.remove(entity).insert(entity, job@) =~= old(self)@); }
                    return Ok(Outcome::Unchanged);
                }
                let o = match job.current_task() {
                    Some(node) => match node.task {
                        Task::Despawn(_) => {
                            commands.push(HostCommand::Despawn { entity });
                            job.set_done();
                            Outcome::Despawned
                        },
                        _ => Outcome::Unchanged,
                    },
                    None => Outcome::Unchanged,
                };
                self.settle(entity, job, o);
                proof { assert(old(self)@.remove(entity).insert(entity, job@) =~= old(self)@.insert(entity, job@)); }
                Ok(o)
            },
        }
    }

    /// Runs a node that completes at once: see `spec_instant`.
    fn instant_task(&mut self, commands: &mut Commands, entity: Entity, kind: InstantKind) -> (r: Result<Outcome, JobError>)
        ensures
            (final(self)@, final(commands)@, r) == store_handle(old(self)@, old(commands)@, entity,
                spec_instant(old(self)@[entity], old(commands)@, entity, kind)),
    {
        match self.take(entity) {
            None => Err(JobError::EntityNotBound),
            Some(mut job) => {
                if job.get_status() == JobStatus::Paused {
                    self.upsert(entity, job);
                    proof { assert(old(self)@.remove(entity).insert(entity, job@) =~= old(self)@); }
                    return Ok(Outcome::Unchanged);
                }
                let o = match job.current_task() {
                    Some(node) => {
                        let hit = match (node.task, kind) {
                            (Task::Show(_), InstantKind::Show) => true,
                            (Task::Hide(_), InstantKind::Hide) => true,
                            (Task::Teleport(_), InstantKind::Teleport) => true,
                            _ => false,
                        };
                        if hit { job.next_task(commands, entity) } else { Outcome::Unchanged }
                    },
                    None => Outcome::Unchanged,
                };
                self.settle(entity, job, o);
                proof { assert(old(self)@.remove(entity).insert(entity, job@) =~= old(self)@.insert(entity, job@)); }
                Ok(o)
            },
        }
    }

    /// Runs the show node of `entity`: the host makes it visible, the job advances.
    pub fn show_task(&mut self, commands: &mut Commands, entity: Entity) -> (r: Result<Outcome, JobError>)
        ensures
            (final(self)@, final(commands)@, r) == store_handle(old(self)@, old(commands)@, entity,
                spec_instant(old(self)@[entity], old(commands)@, entity, InstantKind::Show)),
    {
        self.instant_task(commands, entity, InstantKind::Show)
    }

    /// Runs the hide node of `entity`: the host hides it, the job advances.
    pub fn hide_task(&mut self, commands: &mut Commands, entity: Entity) -> (r: Result<Outcome, JobError>)
        ensures
            (final(self)@, final(commands)@, r) == store_handle(old(self)@, old(commands)@, entity,
                spec_instant(old(self)@[entity], old(commands)@, entity, InstantKind::Hide)),
    {
        self.instant_task(commands, entity, InstantKind::Hide)
    }

    /// Runs the teleport node of `entity`: the host moves it, the job advances.
    pub fn teleport_task(&mut self, commands: &mut Commands, entity: Entity) -> (r: Result<Outcome, JobError>)
        ensures
            (final(self)@, final(commands)@, r) == store_handle(old(self)@, old(commands)@, entity,
                spec_instant(old(self)@[entity], old(commands)@, entity, InstantKind::Teleport)),
    {
        self.instant_task(commands, entity, InstantKind::Teleport)
    }

    /// Runs the real-time wait of `entity`, whose attached component is `wait`, after
    /// `elapsed_ms` milliseconds: counts down, and advances once the delay has run out.
    pub fn wait_task_time(&mut self, commands: &mut Commands, entity: Entity, wait: &mut WaitTask, elapsed_ms: u32) -> (r: Result<Outcome, JobError>)
        ensures
            *final(wait) == if acts(old(self)@, entity) { spec_wait_time(*old(wait), elapsed_ms).0 } else { *old(wait) },
            (final(self)@, final(commands)@, r) == store_handle(old(self)@, old(commands)@, entity,
                advance_if(old(self)@[entity], old(commands)@, entity, spec_wait_time(*old(wait), elapsed_ms).1)),
    {
        match self.take(entity) {
            None => Err(JobError::EntityNotBound),
            Some(mut job) => {
                if job.get_status() == JobStatus::Paused {
                    self.upsert(entity, job);
                    proof { assert(old(self)@.remove(entity).insert(entity, job@) =~= old(self)@); }
                    return Ok(Outcome::Unchanged);
                }
                let due = match wait.schedule {
                    JobSchedule::RealDelay(d) => if d > 0 {
                        let left = if d > elapsed_ms { d - elapsed_ms } else { 0 };
                        wait.schedule = JobSchedule::RealDelay(left);
                        false
                    } else {
                        true
                    },
                    _ => false,
                };
                let o = if due { job.next_task(commands, entity) } else { Outcome::Unchanged };
                self.settle(entity, job, o);
                proof { assert(old(self)@.remove(entity).insert(entity, job@) =~= old(self)@.insert(entity, job@)); }
                Ok(o)
            },
        }
    }

    /// Runs the calendar wait of `entity`, whose attached component is `wait`, on a new
    /// in-game hour `hour` of `weekday`: a pattern advances when it matches, a delay counts
    /// down and advances once it has run out.
    pub fn wait_idle_calendar(&mut self, commands: &mut Commands, entity: Entity, wait: &mut WaitTask, hour: u8, weekday: u8) -> (r: Result<Outcome, JobError>)
        ensures
            *final(wait) == if acts(old(self)@, entity) { spec_wait_hour(*old(wait), hour, weekday).0 } else { *old(wait) },
            (final(self)@, final(commands)@, r) == store_handle(old(self)@, old(commands)@, entity,
                advance_if(old(self)@[entity], old(commands)@, entity, spec_wait_hour(*old(wait), hour, weekday).1)),
    {
        match self.take(entity) {
            None => Err(JobError::EntityNotBound),
            Some(mut job) => {
                if job.get_status() == JobStatus::Paused {
                    self.upsert(entity, job);
                    proof { assert(old(self)@.remove(entity).insert(entity, job@) =~= old(self)@); }
                    return Ok(Outcome::Unchanged);
                }
                let due = match wait.schedule {
                    JobSchedule::Cron(cron) => cron.is_time(hour, weekday),
                    JobSchedule::Delay(d) => if d > 0 {
                        wait.schedule = JobSchedule::Delay(d - 1);
                        false
                    } else {
                        true
                    },
                    _ => false,
                };
                let o = if due { job.next_task(commands, entity) } else { Outcome::Unchanged };
                self.settle(entity, job, o);
                proof { assert(old(self)@.remove(entity).insert(entity, job@) =~= old(self)@.insert(entity, job@)); }
                Ok(o)
            },
        }
    }

    /// Runs the decision node of `entity` with a draw from `0..=100`: the result is that of
    /// `decision_task` for some such draw.
    pub fn run_decision_task(&mut self, commands: &mut Commands, entity: Entity) -> (r: Result<Outcome, JobError>)
        ensures
            exists|draw: u32| draw <= 100 && (final(self)@, final(commands)@, r) == #[trigger] store_handle(old(self)@, old(commands)@, entity,
                spec_decision(old(self)@[entity], old(commands)@, entity, draw)),
    {
        let draw = crate::random::get_random_range_u32(0, 100);
        self.decision_task(commands, entity, draw)
    }

    /// Runs the spawn-group node of `entity`: starts the `i`-th listed template on `fresh[i]`,
    /// for every listed template that has an entity reserved for it, then advances the job of
    /// `entity` once, whatever the siblings did; see `store_spawn_group`.
    pub fn spawn_group_task(&mut self, commands: &mut Commands, catalog: &JobCatalog, entity: Entity, fresh: &Vec<Entity>) -> (r: Result<Outcome, JobError>)
        requires
            catalog.wf(),
        ensures
            (final(self)@, final(commands)@, r) == store_spawn_group(old(self)@, old(commands)@, catalog@, entity, fresh@),
    {
        match self.take(entity) {
            None => Err(JobError::EntityNotBound),
            Some(mut job) => {
                if job.get_status() == JobStatus::Paused {
                    self.upsert(entity, job);
                    proof { assert(old(self)@.remove(entity).insert(entity, job@) =~= old(self)@); }
                    return Ok(Outcome::Unchanged);
                }
                match job.current_task() {
                    Some(node) => match node.task {
                        Task::SpawnGroup(g) => {
                            self.start_many(commands, catalog, g.data, fresh.as_slice());
                            let o = job.next_task(commands, entity);
                            self.settle(entity, job, o);
                            Ok(o)
                        },
                        _ => {
                            self.upsert(entity, job);
                            proof { assert(old(self)@.remove(entity).insert(entity, job@) =~= old(self)@); }
                            Ok(Outcome::Unchanged)
                        },
                    },
                    None => {
                        self.upsert(entity, job);
                        proof { assert(old(self)@.remove(entity).insert(entity, job@) =~= old(self)@); }
                        Ok(Outcome::Unchanged)
                    },
                }
            },
        }
    }

    /// Starts the `i`-th listed template on `fresh[i]`, for every listed template that has an
    /// entity reserved for it; a template that is missing or has no current task starts
    /// nothing and does not stop the others.
    pub fn start_many(&mut self, commands: &mut Commands, catalog: &JobCatalog, ids: &[JobID], fresh: &[Entity])
        requires
            catalog.wf(),
        ensures
            (final(self)@, final(commands)@) == start_all(old(self)@, old(commands)@, catalog@, ids@, fresh@,
                if ids@.len() < fresh@.len() { ids@.len() } else { fresh@.len() }),
    {
        let n: usize = if ids.len() < fresh.len() { ids.len() } else { fresh.len() };
        let mut i: usize = 0;
        while i < n
            invariant
                catalog.wf(),
                i <= n,
                n as int == (if ids@.len() < fresh@.len() { ids@.len() } else { fresh@.len() }),
                (self@, commands@) == start_all(old(self)@, old(commands)@, catalog@, ids@, fresh@, i as nat),
            decreases n - i,
        {
            let _ = self.start(commands, catalog, ids[i], fresh[i]);
            i = i + 1;
        }
    }

    /// Starts the job of every active instant trigger of `scheduler`, in order, the `i`-th on
    /// `fresh[i]`, for as many as have an entity reserved.
    pub fn trigger_jobs_time(&mut self, commands: &mut Commands, scheduler: &JobScheduler, catalog: &JobCatalog, fresh: &[Entity])
        requires
            catalog.wf(),
        ensures
            ({
                let due = due_jobs(scheduler.data@, scheduler.data@.len(), |t: JobTrigger| due_instant(t));
                (final(self)@, final(commands)@) == start_all(old(self)@, old(commands)@, catalog@, due, fresh@,
                    if due.len() < fresh@.len() { due.len() } else { fresh@.len() })
            }),
    {
        let due = scheduler.due_instant();
        self.start_many(commands, catalog, due.as_slice(), fresh);
    }

    /// Starts the job of every active calendar trigger of `scheduler` whose pattern matches
    /// hour `hour` of `weekday`, in order, the `i`-th on `fresh[i]`, for as many as have an
    /// entity reserved.
    pub fn trigger_jobs_calendar(&mut self, commands: &mut Commands, scheduler: &JobScheduler, catalog: &JobCatalog, hour: u8, weekday: u8, fresh: &[Entity])
        requires
            catalog.wf(),
        ensures
            ({
                let due = due_jobs(scheduler.data@, scheduler.data@.len(), |t: JobTrigger| due_on_hour(t, hour, weekday));
                (final(self)@, final(commands)@) == start_all(old(self)@, old(commands)@, catalog@, due, fresh@,
                    if due.len() < fresh@.len() { due.len() } else { fresh@.len() })
            }),
    {
        let due = scheduler.due_on_hour(hour, weekday);
        self.start_many(commands, catalog, due.as_slice(), fresh);
    }

    /// Detaches the current task of the job of `entity` and drops the job, when that job was
    /// made from template `job_id`; otherwise changes nothing.
    pub fn remove(&mut self, commands: &mut Commands, job_id: JobID, entity: Entity)
        ensures
            old(self)@.contains_key(entity) && old(self)@[entity].data.id == job_id ==>
                final(self)@ == old(self)@.remove(entity)
                && final(commands)@ == old(commands)@ + detach_current(old(self)@[entity], entity),
            !(old(self)@.contains_key(entity) && old(self)@[entity].data.id == job_id) ==>
                final(self)@ == old(self)@ && final(commands)@ == old(commands)@,
    {
        let hit = match self.get(entity) {
            Some(job) => job.job_id() == job_id,
            None => false,
        };
        if hit {
            self.remove_all_clean(commands, entity);
        }
    }

    /// Handles a stop request: the job of the entity, if any, is detached and dropped.
    pub fn stop_job(&mut self, commands: &mut Commands, ev: StopJobEvent)
        ensures
            final(self)@ == old(self)@.remove(ev.entity),
            final(commands)@ == if old(self)@.contains_key(ev.entity) {
                old(commands)@ + detach_current(old(self)@[ev.entity], ev.entity)
            } else {
                old(commands)@
            },
    {
        self.remove_all_clean(commands, ev.entity);
    }

    /// Handles a start request: see `assign`.
    pub fn start_job(&mut self, commands: &mut Commands, catalog: &JobCatalog, ev: StartJobEvent) -> (r: Result<(), JobError>)
        requires
            catalog.wf(),
        ensures
            (final(self)@, final(commands)@, r) == store_assign(old(self)@, old(commands)@, catalog@, ev.entity, ev.job_id),
    {
        self.assign(commands, catalog, ev.entity, ev.job_id)
    }
}

} // verus!
