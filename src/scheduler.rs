use vstd::prelude::*;
use crate::task::{JobID, JobSchedule};

verus! {

/// Settings for all jobs.
#[derive(Debug)]
pub struct JobSettings {
    active: bool,
    debug: bool,
}

impl JobSettings {
    pub closed spec fn spec_active(&self) -> bool {
        self.active
    }

    pub closed spec fn spec_debug(&self) -> bool {
        self.debug
    }

    pub fn init(active: bool, debug: bool) -> (r: Self)
        ensures
            r.spec_active() == active,
            r.spec_debug() == debug,
    {
        JobSettings { active, debug }
    }

    pub fn activate(&mut self)
        ensures
            final(self).spec_active(),
            final(self).spec_debug() == old(self).spec_debug(),
    {
        self.active = true;
    }

    pub fn deactivate(&mut self)
        ensures
            !final(self).spec_active(),
            final(self).spec_debug() == old(self).spec_debug(),
    {
        self.active = false;
    }

    pub fn set_debug(&mut self, b: bool)
        ensures
            final(self).spec_debug() == b,
            final(self).spec_active() == old(self).spec_active(),
    {
        self.debug = b;
    }

    pub fn get_debug(&self) -> (r: bool)
        ensures
            r == self.spec_debug(),
    {
        self.debug
    }
}

/// Whether the engine runs at all.
pub fn if_jobs_active(job_settings: &JobSettings) -> (r: bool)
    ensures
        r == job_settings.spec_active(),
{
    job_settings.active
}

/// Whether debug output is on.
pub fn if_jobs_debug(job_settings: &JobSettings) -> (r: bool)
    ensures
        r == job_settings.spec_debug(),
{
    job_settings.debug
}

/// When to start which job.
#[derive(Clone, Copy, Debug, PartialEq)]
pub struct JobTrigger {
    pub trigger_id: u32,
    pub job_id: JobID,
    pub schedule: JobSchedule,
    pub active: bool,
}

impl JobTrigger {
    pub open spec fn with_active(self, active: bool) -> JobTrigger {
        JobTrigger { active, ..self }
    }
}

/// A list of triggers, as one file authors them.
#[derive(Debug)]
pub struct JobTriggers {
    pub data: Vec<JobTrigger>,
}

/// A trigger that fires on every pass of the real-time sweep.
pub open spec fn due_instant(t: JobTrigger) -> bool {
    t.active && t.schedule is Instant
}

/// A trigger that fires on the new in-game hour `hour` of `weekday`.
pub open spec fn due_on_hour(t: JobTrigger, hour: u8, weekday: u8) -> bool {
    t.active && match t.schedule {
        JobSchedule::Cron(cron) => cron.spec_is_time(hour, weekday),
        _ => false,
    }
}

/// The jobs of the first `n` triggers that are due, in order.
pub open spec fn due_jobs(s: Seq<JobTrigger>, n: nat, due: spec_fn(JobTrigger) -> bool) -> Seq<JobID>
    decreases n,
{
    if n == 0 || n > s.len() {
        Seq::empty()
    } else {
        due_jobs(s, (n - 1) as nat, due) + if due(s[n - 1]) { seq![s[n - 1].job_id] } else { Seq::empty() }
    }
}

/// The first position at which a trigger has id `id`.
pub open spec fn is_first_with_id(s: Seq<JobTrigger>, i: int, id: u32) -> bool {
    0 <= i < s.len() && s[i].trigger_id == id && forall|j: int| 0 <= j < i ==> s[j].trigger_id != id
}

/// The triggers, in the order they were added.
#[derive(Debug)]
pub struct JobScheduler {
    pub data: Vec<JobTrigger>,
}

impl JobScheduler {
    pub fn init() -> (r: Self)
        ensures
            r.data@ == Seq::<JobTrigger>::empty(),
    {
        JobScheduler { data: Vec::new() }
    }

    pub fn add(&mut self, jobtrigger: JobTrigger)
        ensures
            final(self).data@ == old(self).data@.push(jobtrigger),
    {
        self.data.push(jobtrigger);
    }

    pub fn clear(&mut self)
        ensures
            final(self).data@ == Seq::<JobTrigger>::empty(),
    {
        self.data.clear();
    }

    /// The first trigger with id `trigger_id`, if any.
    pub fn get(&self, trigger_id: u32) -> (r: Option<JobTrigger>)
        ensures
            match r {
                Some(t) => exists|i: int| is_first_with_id(self.data@, i, trigger_id) && self.data@[i] == t,
                None => forall|i: int| 0 <= i < self.data@.len() ==> self.data@[i].trigger_id != trigger_id,
            },
    {
        let mut i: usize = 0;
        while i < self.data.len()
            invariant
                i <= self.data@.len(),
                forall|j: int| 0 <= j < i ==> self.data@[j].trigger_id != trigger_id,
            decreases self.data.len() - i,
        {
            if self.data[i].trigger_id == trigger_id {
                assert(is_first_with_id(self.data@, i as int, trigger_id));
                return Some(self.data[i]);
            }
            i = i + 1;
        }
        None
    }

    /// Sets the activity of the first trigger with id `trigger_id`, if any.
    fn set_active_of(&mut self, trigger_id: u32, active: bool)
        ensures
            (exists|i: int| is_first_with_id(old(self).data@, i, trigger_id)
                && final(self).data@ == old(self).data@.update(i, old(self).data@[i].with_active(active)))
            || ((forall|i: int| 0 <= i < old(self).data@.len() ==> old(self).data@[i].trigger_id != trigger_id)
                && final(self).data@ == old(self).data@),
    {
        let mut i: usize = 0;
        while i < self.data.len()
            invariant
                i <= self.data@.len(),
                self.data@ == old(self).data@,
                forall|j: int| 0 <= j < i ==> self.data@[j].trigger_id != trigger_id,
            decreases self.data.len() - i,
        {
            if self.data[i].trigger_id == trigger_id {
                let t = self.data[i];
                assert(is_first_with_id(old(self).data@, i as int, trigger_id));
                self.data.set(i, JobTrigger { active, ..t });
                return;
            }
            i = i + 1;
        }
    }

    /// Activates the first trigger with id `trigger_id`, if any.
    pub fn activate(&mut self, trigger_id: &u32)
        ensures
            (exists|i: int| is_first_with_id(old(self).data@, i, *trigger_id)
                && final(self).data@ == old(self).data@.update(i, old(self).data@[i].with_active(true)))
            || ((forall|i: int| 0 <= i < old(self).data@.len() ==> old(self).data@[i].trigger_id != *trigger_id)
                && final(self).data@ == old(self).data@),
    {
        self.set_active_of(*trigger_id, true);
    }

    /// Deactivates the first trigger with id `trigger_id`, if any.
    pub fn deactivate(&mut self, trigger_id: &u32)
        ensures
            (exists|i: int| is_first_with_id(old(self).data@, i, *trigger_id)
                && final(self).data@ == old(self).data@.update(i, old(self).data@[i].with_active(false)))
            || ((forall|i: int| 0 <= i < old(self).data@.len() ==> old(self).data@[i].trigger_id != *trigger_id)
                && final(self).data@ == old(self).data@),
    {
        self.set_active_of(*trigger_id, false);
    }

    fn set_all(&mut self, active: bool)
        ensures
            final(self).data@.len() == old(self).data@.len(),
            forall|i: int| 0 <= i < old(self).data@.len() ==> final(self).data@[i] == old(self).data@[i].with_active(active),
    {
        let mut i: usize = 0;
        while i < self.data.len()
            invariant
                i <= self.data@.len(),
                self.data@.len() == old(self).data@.len(),
                forall|j: int| 0 <= j < i ==> self.data@[j] == old(self).data@[j].with_active(active),
                forall|j: int| i <= j < self.data@.len() ==> self.data@[j] == old(self).data@[j],
            decreases self.data.len() - i,
        {
            let t = self.data[i];
            self.data.set(i, JobTrigger { active, ..t });
            i = i + 1;
        }
    }

    pub fn activate_all(&mut self)
        ensures
            final(self).data@.len() == old(self).data@.len(),
            forall|i: int| 0 <= i < old(self).data@.len() ==> final(self).data@[i] == old(self).data@[i].with_active(true),
    {
        self.set_all(true);
    }

    pub fn deactivate_all(&mut self)
        ensures
            final(self).data@.len() == old(self).data@.len(),
            forall|i: int| 0 <= i < old(self).data@.len() ==> final(self).data@[i] == old(self).data@[i].with_active(false),
    {
        self.set_all(false);
    }

    /// The jobs of the active instant triggers, in order: those to start on this pass.
    pub fn due_instant(&self) -> (r: Vec<JobID>)
        ensures
            r@ == due_jobs(self.data@, self.data@.len(), |t: JobTrigger| due_instant(t)),
    {
        let mut out: Vec<JobID> = Vec::new();
        let mut i: usize = 0;
        while i < self.data.len()
            invariant
                i <= self.data@.len(),
                out@ == due_jobs(self.data@, i as nat, |t: JobTrigger| due_instant(t)),
            decreases self.data.len() - i,
        {
            let t = self.data[i];
            let due = t.active && match t.schedule {
                JobSchedule::Instant => true,
                _ => false,
            };
            if due {
                out.push(t.job_id);
            }
            proof {
                let f = |t: JobTrigger| due_instant(t);
                assert(out@ =~= due_jobs(self.data@, (i + 1) as nat, f));
            }
            i = i + 1;
        }
        out
    }

    /// The jobs of the active calendar triggers whose pattern matches hour `hour` of
    /// `weekday`, in order: those to start on this new hour.
    pub fn due_on_hour(&self, hour: u8, weekday: u8) -> (r: Vec<JobID>)
        ensures
            r@ == due_jobs(self.data@, self.data@.len(), |t: JobTrigger| due_on_hour(t, hour, weekday)),
    {
        let mut out: Vec<JobID> = Vec::new();
        let mut i: usize = 0;
        while i < self.data.len()
            invariant
                i <= self.data@.len(),
                out@ == due_jobs(self.data@, i as nat, |t: JobTrigger| due_on_hour(t, hour, weekday)),
            decreases self.data.len() - i,
        {
            let t = self.data[i];
            let due = t.active && match t.schedule {
                JobSchedule::Cron(cron) => cron.is_time(hour, weekday),
                _ => false,
            };
            if due {
                out.push(t.job_id);
            }
            proof {
                let f = |t: JobTrigger| due_on_hour(t, hour, weekday);
                assert(out@ =~= due_jobs(self.data@, (i + 1) as nat, f));
            }
            i = i + 1;
        }
        out
    }
}

} // verus!
