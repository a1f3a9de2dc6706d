use vstd::prelude::*;

verus! {

/// Identity of a job template: a compact number, usually the hash of its name.
#[derive(Clone, Copy, Debug, PartialEq, Eq, Structural)]
pub struct JobID(pub u32);

/// A position in whole world units.
#[derive(Clone, Copy, Debug, PartialEq, Eq, Structural)]
pub struct Point {
    pub x: i32,
    pub y: i32,
    pub z: i32,
}

/// A colour as red, green, blue and alpha bytes.
#[derive(Clone, Copy, Debug, PartialEq, Eq, Structural)]
pub struct Rgba {
    pub r: u8,
    pub g: u8,
    pub b: u8,
    pub a: u8,
}

/// A calendar pattern: the hours of the day and the days of the week at which it fires.
#[derive(Clone, Copy, Debug, PartialEq)]
pub struct Cron {
    pub hours: &'static [u8],
    pub days_week: &'static [u8],
}

impl Cron {
    /// True when both the hour and the weekday are listed.
    pub open spec fn spec_is_time(&self, hour: u8, weekday: u8) -> bool {
        self.hours@.contains(hour) && self.days_week@.contains(weekday)
    }

    pub fn is_time(&self, hour: u8, weekday: u8) -> (r: bool)
        ensures
            r == self.spec_is_time(hour, weekday),
    {
        contains_u8(self.hours, hour) && contains_u8(self.days_week, weekday)
    }
}

fn contains_u8(v: &[u8], x: u8) -> (r: bool)
    ensures
        r == v@.contains(x),
{
    let mut i: usize = 0;
    while i < v.len()
        invariant
            i <= v.len(),
            forall|j: int| 0 <= j < i ==> v@[j] != x,
        decreases v.len() - i,
    {
        if v[i] == x {
            return true;
        }
        i = i + 1;
    }
    false
}

/// When a waiting task, or a trigger, is due.
#[derive(Clone, Copy, Debug, PartialEq)]
pub enum JobSchedule {
    /// Due at once.
    Instant,
    /// Due when the calendar matches the pattern.
    Cron(Cron),
    /// Due after this many in-game hours.
    Delay(u8),
    /// Due after this many milliseconds of real time.
    RealDelay(u32),
}

#[derive(Clone, Copy, Debug, PartialEq, Eq, Structural)]
pub struct SpawnTask {
    pub color: Rgba,
    pub loc: Point,
}

#[derive(Clone, Copy, Debug, PartialEq, Eq, Structural)]
pub struct DespawnTask;

#[derive(Clone, Copy, Debug, PartialEq, Eq, Structural)]
pub struct MoveTask {
    pub source: Point,
    pub target: Point,
}

/// A rotation towards an angle in whole degrees.
#[derive(Clone, Copy, Debug, PartialEq, Eq, Structural)]
pub struct RotateTask {
    pub angle: i32,
}

#[derive(Clone, Copy, Debug, PartialEq)]
pub struct WaitTask {
    pub schedule: JobSchedule,
}

#[derive(Clone, Copy, Debug, PartialEq, Eq, Structural)]
pub struct HideTask;

#[derive(Clone, Copy, Debug, PartialEq, Eq, Structural)]
pub struct ShowTask;

#[derive(Clone, Copy, Debug, PartialEq, Eq, Structural)]
pub struct TeleportTask {
    pub loc: Point,
}

/// A branch between two successors, chosen by a draw in `0..=100`.
#[derive(Clone, Copy, Debug, PartialEq, Eq, Structural)]
pub struct DecisionTask {
    pub opt1: u32,
    pub opt2: u32,
}

impl DecisionTask {
    /// A draw of at most 50 picks `opt1`, a larger one `opt2`.
    pub open spec fn spec_pick(self, draw: u32) -> u32 {
        if draw <= 50 {
            self.opt1
        } else {
            self.opt2
        }
    }

    /// The successor chosen by `draw`, which is meant to be uniform in `0..=100`.
    pub fn pick(&self, draw: u32) -> (r: u32)
        ensures
            r == self.spec_pick(draw),
            draw <= 50 ==> r == self.opt1,
            draw > 50 ==> r == self.opt2,
    {
        if draw <= 50 {
            self.opt1
        } else {
            self.opt2
        }
    }
}

/// Re-enters the node `start_id` until the job's loop counter reaches `maxk`.
#[derive(Clone, Copy, Debug, PartialEq, Eq, Structural)]
pub struct LoopTask {
    pub start_id: u32,
    pub maxk: Option<u32>,
}

impl Default for LoopTask {
    fn default() -> (r: Self)
        ensures
            r == (LoopTask { start_id: 0, maxk: None }),
    {
        LoopTask { start_id: 0, maxk: None }
    }
}

/// Starts one sibling job for each listed template.
#[derive(Clone, Copy, Debug, PartialEq)]
pub struct SpawnGroupTask {
    pub data: &'static [JobID],
}

/// A wait of a random length, drawn in milliseconds between two bounds when it starts.
#[derive(Clone, Copy, Debug, PartialEq)]
pub struct RandomWaitTask {
    min: u32,
    max: u32,
}

impl RandomWaitTask {
    pub closed spec fn spec_min(self) -> u32 {
        self.min
    }

    pub closed spec fn spec_max(self) -> u32 {
        self.max
    }

    pub fn new(min: u32, max: u32) -> (r: Self)
        ensures
            r.spec_min() == min,
            r.spec_max() == max,
    {
        RandomWaitTask { min, max }
    }

    /// The bounds, in milliseconds.
    pub fn bounds(&self) -> (r: (u32, u32))
        ensures
            r == (self.spec_min(), self.spec_max()),
    {
        (self.min, self.max)
    }

    /// A wait on real time whose delay lies between the two bounds, both included.
    pub fn random_wait_task(&self) -> (r: WaitTask)
        requires
            self.spec_min() <= self.spec_max(),
        ensures
            match r.schedule {
                JobSchedule::RealDelay(d) => self.spec_min() <= d <= self.spec_max(),
                _ => false,
            },
    {
        let delay = crate::random::get_random_range_u32(self.min, self.max);
        WaitTask { schedule: JobSchedule::RealDelay(delay) }
    }
}

/// The progress of a single task.
#[derive(Clone, Copy, Debug, PartialEq, Eq, Structural)]
pub enum TaskStatus {
    ToDo,
    Waiting,
    Active,
    Done,
    Fail,
}

impl Default for TaskStatus {
    fn default() -> (r: Self)
        ensures
            r == TaskStatus::Waiting,
    {
        TaskStatus::Waiting
    }
}

/// The closed set of task kinds, each with its own parameters.
#[derive(Clone, Copy, Debug, PartialEq)]
pub enum Task {
    Spawn(SpawnTask),
    Despawn(DespawnTask),
    Move(MoveTask),
    Rotate(RotateTask),
    Wait(WaitTask),
    RandomWait(RandomWaitTask),
    Hide(HideTask),
    Show(ShowTask),
    Teleport(TeleportTask),
    Decision(DecisionTask),
    Loop(LoopTask),
    SpawnGroup(SpawnGroupTask),
}

/// The phases of one tick, in the order the host runs them. A handler that advances a job
/// in one phase may attach a task whose handler runs later in the same tick, never earlier.
#[derive(Clone, Copy, Debug, PartialEq, Eq, Structural)]
pub enum TaskSets {
    /// Tasks that create entities and jobs.
    Dispatch,
    /// Tasks of the host's own kinds.
    Extension,
    /// Tasks with a plain effect: waits, moves, visibility, despawn.
    Simple,
    /// Branches.
    Decision,
    /// Loops.
    Loop,
}

impl TaskSets {
    pub open spec fn spec_rank(self) -> u8 {
        match self {
            TaskSets::Dispatch => 0,
            TaskSets::Extension => 1,
            TaskSets::Simple => 2,
            TaskSets::Decision => 3,
            TaskSets::Loop => 4,
        }
    }

    /// The position of the phase within a tick.
    pub fn rank(&self) -> (r: u8)
        ensures
            r == self.spec_rank(),
    {
        match self {
            TaskSets::Dispatch => 0,
            TaskSets::Extension => 1,
            TaskSets::Simple => 2,
            TaskSets::Decision => 3,
            TaskSets::Loop => 4,
        }
    }

    /// All phases, in the order of one tick.
    pub fn in_order() -> (r: Vec<TaskSets>)
        ensures
            r@.len() == 5,
            forall|i: int| 0 <= i < 5 ==> (#[trigger] r@[i]).spec_rank() == i,
    {
        vec![TaskSets::Dispatch, TaskSets::Extension, TaskSets::Simple, TaskSets::Decision, TaskSets::Loop]
    }

    pub open spec fn spec_of(t: Task) -> TaskSets {
        match t {
            Task::Spawn(_) | Task::SpawnGroup(_) => TaskSets::Dispatch,
            Task::Decision(_) => TaskSets::Decision,
            Task::Loop(_) => TaskSets::Loop,
            _ => TaskSets::Simple,
        }
    }

    /// The phase whose handler runs `task`.
    pub fn of(task: &Task) -> (r: TaskSets)
        ensures
            r == Self::spec_of(*task),
    {
        match task {
            Task::Spawn(_) | Task::SpawnGroup(_) => TaskSets::Dispatch,
            Task::Decision(_) => TaskSets::Decision,
            Task::Loop(_) => TaskSets::Loop,
            _ => TaskSets::Simple,
        }
    }
}

} // verus!
