use vstd::prelude::*;
use crate::commands::{Commands, Entity, HostCommand};
use crate::graph::{JobTasks, TaskData, TasksView};
use crate::task::JobID;

verus! {

/// What a job does when it cannot go on.
#[derive(Clone, Copy, Debug, PartialEq, Eq, Structural)]
pub enum JobOnFail {
    /// Detach the current task and drop the job.
    Cancel,
    /// Go to this node; drop the job when it does not exist.
    RunTask(u32),
    /// Leave everything as it is.
    Nothing,
    /// Destroy the entity, job included.
    Despawn,
}

impl Default for JobOnFail {
    fn default() -> (r: Self)
        ensures
            r == JobOnFail::Cancel,
    {
        JobOnFail::Cancel
    }
}

#[derive(Clone, Copy, Debug, PartialEq, Eq, Structural)]
pub enum JobStatus {
    ToDo,
    Active,
    Done,
    Paused,
    Inactive,
}

/// What a transition did to a job.
#[derive(Clone, Copy, Debug, PartialEq, Eq, Structural)]
pub enum Outcome {
    /// The job goes on, with a new task attached.
    Running,
    /// The graph is exhausted: the job is finished and is to be dropped.
    Done,
    /// The job was cancelled and is to be dropped; the entity stays.
    Cancelled,
    /// The entity is destroyed, job included.
    Despawned,
    /// Nothing changed.
    Unchanged,
}

impl Outcome {
    /// The job is to be dropped from its entity.
    pub open spec fn spec_ends_job(self) -> bool {
        self != Outcome::Running && self != Outcome::Unchanged
    }

    pub fn ends_job(&self) -> (r: bool)
        ensures
            r == self.spec_ends_job(),
    {
        match self {
            Outcome::Running | Outcome::Unchanged => false,
            _ => true,
        }
    }
}

/// A job template: a named task graph and a failure policy.
#[derive(Debug)]
pub struct JobData {
    pub id: JobID,
    pub name: &'static str,
    pub on_fail: JobOnFail,
    pub tasks: JobTasks,
}

pub struct JobDataView {
    pub id: JobID,
    pub name: &'static str,
    pub on_fail: JobOnFail,
    pub tasks: TasksView,
}

impl View for JobData {
    type V = JobDataView;

    open spec fn view(&self) -> JobDataView {
        JobDataView { id: self.id, name: self.name, on_fail: self.on_fail, tasks: self.tasks@ }
    }
}

impl Clone for JobData {
    fn clone(&self) -> (r: Self)
        ensures
            r@ == self@,
    {
        JobData { id: self.id, name: self.name, on_fail: self.on_fail, tasks: self.tasks.clone() }
    }
}

/// The live state of a job on one entity.
pub struct JobView {
    pub data: JobDataView,
    pub loopk: u32,
    pub status: JobStatus,
}

impl JobView {
    pub open spec fn current_node(self) -> Option<TaskData> {
        self.data.tasks.current_node()
    }

    pub open spec fn with_current(self, id: u32) -> JobView {
        JobView { data: JobDataView { tasks: self.data.tasks.with_current(id), ..self.data }, ..self }
    }

    pub open spec fn with_status(self, status: JobStatus) -> JobView {
        JobView { status, ..self }
    }

    pub open spec fn with_loopk(self, loopk: u32) -> JobView {
        JobView { loopk, ..self }
    }
}

impl JobTasks {
    /// Asks the host to attach the current task to `job_entity`, when there is one.
    pub fn start(&self, commands: &mut Commands, job_entity: Entity) -> (r: Entity)
        ensures
            r == job_entity,
            final(commands)@ == match self@.current_node() {
                Some(n) => old(commands)@.push(HostCommand::Attach { entity: job_entity, task: n.task }),
                None => old(commands)@,
            },
    {
        match self.get_current() {
            Some(node) => node.task.add_task(commands, job_entity),
            None => {},
        }
        job_entity
    }
}

/// The request that detaches the current task, if there is one.
pub open spec fn detach_current(j: JobView, e: Entity) -> Seq<HostCommand> {
    match j.current_node() {
        Some(n) => seq![HostCommand::Detach { entity: e, task: n.task }],
        None => Seq::empty(),
    }
}

/// Advance: detach, then move to the resolved next node and attach it; without one the job
/// is done.
pub open spec fn spec_advance(j: JobView, c: Seq<HostCommand>, e: Entity) -> (JobView, Seq<HostCommand>, Outcome) {
    let c1 = c + detach_current(j, e);
    match j.data.tasks.next_id() {
        Some(n) => match j.data.tasks.node(n) {
            Some(node) => (j.with_current(n), c1.push(HostCommand::Attach { entity: e, task: node.task }), Outcome::Running),
            None => (j.with_current(n).with_status(JobStatus::Done), c1, Outcome::Done),
        },
        None => (j.with_status(JobStatus::Done), c1, Outcome::Done),
    }
}

/// Cancel: detach the current task; the job is then dropped.
pub open spec fn spec_cancel(j: JobView, c: Seq<HostCommand>, e: Entity) -> Seq<HostCommand> {
    c + detach_current(j, e)
}

/// Apply the failure policy.
pub open spec fn spec_fail(j: JobView, c: Seq<HostCommand>, e: Entity) -> (JobView, Seq<HostCommand>, Outcome) {
    match j.data.on_fail {
        JobOnFail::Nothing => (j, c, Outcome::Unchanged),
        JobOnFail::Cancel => (j, spec_cancel(j, c, e), Outcome::Cancelled),
        JobOnFail::Despawn => (
            j.with_status(JobStatus::Done),
            (c + detach_current(j, e)).push(HostCommand::Despawn { entity: e }),
            Outcome::Despawned,
        ),
        JobOnFail::RunTask(id) => {
            let c1 = c + detach_current(j, e);
            match j.data.tasks.node(id) {
                Some(node) => (j.with_current(id), c1.push(HostCommand::Attach { entity: e, task: node.task }), Outcome::Running),
                None => (j.with_current(id), c1, Outcome::Cancelled),
            }
        },
    }
}

/// Jump: detach, move the cursor to `id`, attach the node there; a missing node is a failure.
pub open spec fn spec_jump(j: JobView, c: Seq<HostCommand>, e: Entity, id: u32) -> (JobView, Seq<HostCommand>, Outcome) {
    let c1 = c + detach_current(j, e);
    match j.data.tasks.node(id) {
        Some(node) => (j.with_current(id), c1.push(HostCommand::Attach { entity: e, task: node.task }), Outcome::Running),
        None => spec_fail(j.with_current(id), c1, e),
    }
}

/// The request that attaches the current task, if there is one.
pub open spec fn attach_current(j: JobView, e: Entity) -> Seq<HostCommand> {
    match j.current_node() {
        Some(n) => seq![HostCommand::Attach { entity: e, task: n.task }],
        None => Seq::empty(),
    }
}

/// A live job: a private copy of its template, a loop counter and a status.
#[derive(Debug)]
pub struct Job {
    loopk: u32,
    status: JobStatus,
    pub data: JobData,
}

impl View for Job {
    type V = JobView;

    closed spec fn view(&self) -> JobView {
        JobView { data: self.data@, loopk: self.loopk, status: self.status }
    }
}

impl Clone for Job {
    fn clone(&self) -> (r: Self)
        ensures
            r@ == self@,
    {
        Job { loopk: self.loopk, status: self.status, data: self.data.clone() }
    }
}

impl Job {
    pub fn new(data: JobData) -> (r: Self)
        ensures
            r@ == (JobView { data: data@, loopk: 0, status: JobStatus::ToDo }),
    {
        Job { data, loopk: 0, status: JobStatus::ToDo }
    }

    pub fn loop_reset(&mut self)
        ensures
            final(self)@ == old(self)@.with_loopk(0),
    {
        self.loopk = 0;
    }

    pub fn loop_incr(&mut self)
        requires
            old(self)@.loopk < u32::MAX,
        ensures
            final(self)@ == old(self)@.with_loopk((old(self)@.loopk + 1) as u32),
    {
        self.loopk = self.loopk + 1;
    }

    pub fn loopk(&self) -> (r: u32)
        ensures
            r == self@.loopk,
    {
        self.loopk
    }

    pub fn get_status(&mut self) -> (r: JobStatus)
        ensures
            r == old(self)@.status,
            final(self)@ == old(self)@,
    {
        self.status
    }

    pub fn set_active(&mut self)
        ensures
            final(self)@ == old(self)@.with_status(JobStatus::Active),
    {
        self.status = JobStatus::Active;
    }

    pub fn set_done(&mut self)
        ensures
            final(self)@ == old(self)@.with_status(JobStatus::Done),
    {
        self.status = JobStatus::Done;
    }

    pub fn name(&self) -> (r: &'static str)
        ensures
            r == self@.data.name,
    {
        self.data.name
    }

    /// The identity of the template this job was made from.
    pub fn job_id(&self) -> (r: JobID)
        ensures
            r == self@.data.id,
    {
        self.data.id
    }

    /// The node under the cursor, if any.
    pub fn current_task(&self) -> (r: Option<TaskData>)
        ensures
            r == self@.current_node(),
    {
        self.data.tasks.get_current()
    }

    /// Asks the host to detach the current task from `task_entity`.
    pub fn remove_current(&self, commands: &mut Commands, task_entity: Entity)
        ensures
            final(commands)@ == old(commands)@ + detach_current(self@, task_entity),
    {
        match self.current_task() {
            Some(node) => {
                commands.push(HostCommand::Detach { entity: task_entity, task: node.task });
                assert(final(commands)@ =~= old(commands)@ + detach_current(self@, task_entity));
            },
            None => {
                assert(commands@ =~= old(commands)@ + detach_current(self@, task_entity));
            },
        }
    }

    /// Detaches the current task; the caller then drops the job.
    pub fn cancel(&mut self, commands: &mut Commands, task_entity: Entity)
        ensures
            final(self)@ == old(self)@,
            final(commands)@ == spec_cancel(old(self)@, old(commands)@, task_entity),
    {
        self.remove_current(commands, task_entity);
    }

    /// Moves on to the next node: see `spec_advance`.
    pub fn next_task(&mut self, commands: &mut Commands, task_entity: Entity) -> (r: Outcome)
        ensures
            (final(self)@, final(commands)@, r) == spec_advance(old(self)@, old(commands)@, task_entity),
    {
        self.remove_current(commands, task_entity);
        let next = self.data.tasks.next_task();
        match next {
            Some(node) => {
                commands.push(HostCommand::Attach { entity: task_entity, task: node.task });
                Outcome::Running
            },
            None => {
                self.status = JobStatus::Done;
                Outcome::Done
            },
        }
    }

    /// Applies the failure policy: see `spec_fail`.
    pub fn fail(&mut self, commands: &mut Commands, task_entity: Entity) -> (r: Outcome)
        ensures
            (final(self)@, final(commands)@, r) == spec_fail(old(self)@, old(commands)@, task_entity),
    {
        match self.data.on_fail {
            JobOnFail::Nothing => Outcome::Unchanged,
            JobOnFail::Cancel => {
                self.cancel(commands, task_entity);
                Outcome::Cancelled
            },
            JobOnFail::Despawn => {
                self.remove_current(commands, task_entity);
                commands.push(HostCommand::Despawn { entity: task_entity });
                self.status = JobStatus::Done;
                Outcome::Despawned
            },
            JobOnFail::RunTask(task_id) => {
                self.remove_current(commands, task_entity);
                match self.data.tasks.set_task(task_id) {
                    Some(node) => {
                        commands.push(HostCommand::Attach { entity: task_entity, task: node.task });
                        Outcome::Running
                    },
                    None => Outcome::Cancelled,
                }
            },
        }
    }

    /// Moves the cursor to `next_task_id`: see `spec_jump`.
    pub fn jump_task(&mut self, commands: &mut Commands, task_entity: Entity, next_task_id: u32) -> (r: Outcome)
        ensures
            (final(self)@, final(commands)@, r) == spec_jump(old(self)@, old(commands)@, task_entity, next_task_id),
    {
        self.remove_current(commands, task_entity);
        match self.data.tasks.set_task(next_task_id) {
            Some(node) => {
                commands.push(HostCommand::Attach { entity: task_entity, task: node.task });
                Outcome::Running
            },
            None => self.fail(commands, task_entity),
        }
    }

    /// Marks the job paused and asks the host to mark the entity; nothing is detached.
    pub fn pause(&mut self, commands: &mut Commands, entity: Entity)
        ensures
            final(self)@ == old(self)@.with_status(JobStatus::Paused),
            final(commands)@ == old(commands)@.push(HostCommand::Pause { entity }),
    {
        self.status = JobStatus::Paused;
        commands.push(HostCommand::Pause { entity });
    }

    /// Marks the job active again and asks the host to remove the pause mark.
    pub fn unpause(&mut self, commands: &mut Commands, entity: Entity)
        ensures
            final(self)@ == old(self)@.with_status(JobStatus::Active),
            final(commands)@ == old(commands)@.push(HostCommand::Unpause { entity }),
    {
        self.status = JobStatus::Active;
        commands.push(HostCommand::Unpause { entity });
    }

    /// Makes the job active and asks the host to attach its current task to `entity`.
    pub fn assign(&mut self, commands: &mut Commands, entity: Entity)
        ensures
            final(self)@ == old(self)@.with_status(JobStatus::Active),
            final(commands)@ == old(commands)@ + attach_current(old(self)@, entity),
    {
        self.set_active();
        match self.current_task() {
            Some(node) => {
                commands.push(HostCommand::Attach { entity, task: node.task });
                assert(final(commands)@ =~= old(commands)@ + attach_current(old(self)@, entity));
            },
            None => {
                assert(commands@ =~= old(commands)@ + attach_current(old(self)@, entity));
            },
        }
    }

    /// Makes the job active and asks the host to create the reserved entity `fresh` with the
    /// current task on it; `None`, with no request, when there is no current task.
    pub fn start(&mut self, commands: &mut Commands, fresh: Entity) -> (r: Option<Entity>)
        ensures
            final(self)@ == old(self)@.with_status(JobStatus::Active),
            r == (if old(self)@.current_node() is Some { Some(fresh) } else { None::<Entity> }),
            final(commands)@ == match old(self)@.current_node() {
                Some(n) => old(commands)@.push(HostCommand::Spawn { entity: fresh, task: n.task }),
                None => old(commands)@,
            },
    {
        self.set_active();
        match self.current_task() {
            Some(node) => {
                commands.push(HostCommand::Spawn { entity: fresh, task: node.task });
                Some(fresh)
            },
            None => None,
        }
    }
}

} // verus!
