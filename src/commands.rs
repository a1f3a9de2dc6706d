use vstd::prelude::*;
use crate::task::Task;

verus! {

/// Handle of an entity of the host.
pub type Entity = u64;

/// A request from the engine to the host that owns the entities.
#[derive(Clone, Copy, Debug, PartialEq)]
pub enum HostCommand {
    /// Attach the task's component to the entity.
    Attach { entity: Entity, task: Task },
    /// Detach the task's component from the entity.
    Detach { entity: Entity, task: Task },
    /// Create the (reserved) entity with the task's component on it.
    Spawn { entity: Entity, task: Task },
    /// Destroy the entity.
    Despawn { entity: Entity },
    /// Mark the entity as paused, so that effect handlers leave it alone.
    Pause { entity: Entity },
    /// Remove the paused mark.
    Unpause { entity: Entity },
}

/// The queue of host requests that the engine has issued, oldest first.
#[derive(Debug)]
pub struct Commands {
    queue: Vec<HostCommand>,
}

impl View for Commands {
    type V = Seq<HostCommand>;

    closed spec fn view(&self) -> Seq<HostCommand> {
        self.queue@
    }
}

impl Commands {
    pub fn new() -> (r: Self)
        ensures
            r@ == Seq::<HostCommand>::empty(),
    {
        Commands { queue: Vec::new() }
    }

    pub fn push(&mut self, c: HostCommand)
        ensures
            final(self)@ == old(self)@.push(c),
    {
        self.queue.push(c);
    }

    pub fn len(&self) -> (r: usize)
        ensures
            r == self@.len(),
    {
        self.queue.len()
    }

    /// The request at position `i`.
    pub fn get(&self, i: usize) -> (r: HostCommand)
        requires
            i < self@.len(),
        ensures
            r == self@[i as int],
    {
        self.queue[i]
    }

    /// Hands out every queued request, oldest first, and empties the queue.
    pub fn drain(&mut self) -> (r: Vec<HostCommand>)
        ensures
            r@ == old(self)@,
            final(self)@ == Seq::<HostCommand>::empty(),
    {
        let mut out: Vec<HostCommand> = Vec::new();
        std::mem::swap(&mut out, &mut self.queue);
        out
    }
}

impl Task {
    /// Asks the host to attach the component of the task to `entity`.
    pub fn add_task(&self, commands: &mut Commands, entity: Entity)
        ensures
            final(commands)@ == old(commands)@.push(HostCommand::Attach { entity, task: *self }),
    {
        commands.push(HostCommand::Attach { entity, task: *self });
    }

    /// Asks the host to detach the component of the task from `entity`.
    pub fn remove(&self, commands: &mut Commands, entity: Entity)
        ensures
            final(commands)@ == old(commands)@.push(HostCommand::Detach { entity, task: *self }),
    {
        commands.push(HostCommand::Detach { entity, task: *self });
    }

    /// Asks the host to create the reserved entity `fresh` with the component of the task on it.
    pub fn spawn_with_task(&self, commands: &mut Commands, fresh: Entity) -> (r: Entity)
        ensures
            r == fresh,
            final(commands)@ == old(commands)@.push(HostCommand::Spawn { entity: fresh, task: *self }),
    {
        commands.push(HostCommand::Spawn { entity: fresh, task: *self });
        fresh
    }
}

} // verus!
