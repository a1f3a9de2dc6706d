use vstd::prelude::*;
use crate::commands::{Entity, HostCommand};
use crate::graph::{resolve_next, TasksView};
use crate::job::{detach_current, spec_advance, spec_fail, spec_jump, JobDataView, JobStatus, JobView, Outcome};
use crate::store::{spec_loop, store_advance, store_handle, store_spawn_group, JobError};
use crate::task::{JobID, LoopTask, Task};

verus! {

/// Advance moves the cursor to the current node's explicit successor when it has one, and
/// otherwise to the id after the node's own.
pub proof fn lemma_advance_target(g: TasksView)
    requires
        g.current_node() is Some,
        resolve_next(g.current_node()->Some_0) <= u32::MAX,
    ensures
        g.next_id() == Some(match g.current_node()->Some_0.next {
            Some(n) => n,
            None => (g.current_node()->Some_0.id + 1) as u32,
        }),
{
}

/// Failure handling moves the cursor and the status only: the loop counter stays.
pub proof fn lemma_fail_keeps_loopk(j: JobView, c: Seq<HostCommand>, e: Entity)
    ensures
        spec_fail(j, c, e).0.loopk == j.loopk,
{
}

/// Advance and jump move the cursor and the status only: the loop counter stays. So the
/// nodes of a loop's body, whatever path they take back to the loop node, leave the counter
/// as the loop node set it.
pub proof fn lemma_transitions_keep_loopk(j: JobView, c: Seq<HostCommand>, e: Entity, id: u32)
    ensures
        spec_advance(j, c, e).0.loopk == j.loopk,
        spec_jump(j, c, e, id).0.loopk == j.loopk,
{
    lemma_fail_keeps_loopk(j.with_current(id), c + detach_current(j, e), e);
}

/// A loop node with bound `k`, entered with its counter at 0 and reached again after each
/// re-entry, re-enters exactly `k` times: on its `i`-th run, for `i < k`, it jumps to
/// `start_id` with the counter raised to `i + 1`; on its run with the counter at `k` it
/// advances past itself and leaves the counter at 0.
pub proof fn lemma_loop_reenters_k_times(j: JobView, c: Seq<HostCommand>, e: Entity, start_id: u32, k: u32)
    requires
        j.current_node() is Some,
        j.current_node()->Some_0.task == Task::Loop(LoopTask { start_id, maxk: Some(k) }),
    ensures
        forall|i: u32| #![trigger j.with_loopk(i)] i < k ==> {
            &&& spec_loop(j.with_loopk(i), c, e) == spec_jump(j.with_loopk((i + 1) as u32), c, e, start_id)
            &&& spec_loop(j.with_loopk(i), c, e).0.loopk == i + 1
        },
        spec_loop(j.with_loopk(k), c, e) == spec_advance(j.with_loopk(0), c, e),
        spec_loop(j.with_loopk(k), c, e).0.loopk == 0,
{
    assert forall|i: u32| #![trigger j.with_loopk(i)] i < k implies {
        &&& spec_loop(j.with_loopk(i), c, e) == spec_jump(j.with_loopk((i + 1) as u32), c, e, start_id)
        &&& spec_loop(j.with_loopk(i), c, e).0.loopk == i + 1
    } by {
        assert(j.with_loopk(i).current_node() == j.current_node());
        lemma_transitions_keep_loopk(j.with_loopk((i + 1) as u32), c, e, start_id);
    }
    assert(j.with_loopk(k).current_node() == j.current_node());
    lemma_transitions_keep_loopk(j.with_loopk(0), c, e, start_id);
}

/// Advancing a job whose current node has no resolvable successor node finishes it: the
/// result is `Done`, the job's status is `Done`, the job is dropped after its task is
/// detached; advancing the same entity again reports `EntityNotBound` and changes nothing.
pub proof fn lemma_advance_exhausted_once(m: Map<Entity, JobView>, c: Seq<HostCommand>, e: Entity)
    requires
        m.contains_key(e),
        match m[e].data.tasks.next_id() {
            Some(n) => m[e].data.tasks.node(n) is None,
            None => true,
        },
    ensures
        ({
            let (m1, c1, r1) = store_advance(m, c, e);
            &&& r1 == Ok::<Outcome, JobError>(Outcome::Done)
            &&& spec_advance(m[e], c, e).0.status == JobStatus::Done
            &&& m1 == m.remove(e)
            &&& c1 == c + detach_current(m[e], e)
            &&& store_advance(m1, c1, e) == (m1, c1, Err::<Outcome, JobError>(JobError::EntityNotBound))
        }),
{
}

/// A paused job is left alone by every effect handler, however many times they run: the
/// jobs, the cursor and the requests to the host stay as they are.
pub proof fn lemma_paused_job_is_left_alone(
    m: Map<Entity, JobView>,
    c: Seq<HostCommand>,
    e: Entity,
    t: (JobView, Seq<HostCommand>, Outcome),
    cat: Map<JobID, JobDataView>,
    fresh: Seq<Entity>,
)
    requires
        m.contains_key(e),
        m[e].status == JobStatus::Paused,
    ensures
        store_handle(m, c, e, t) == (m, c, Ok::<Outcome, JobError>(Outcome::Unchanged)),
        store_spawn_group(m, c, cat, e, fresh) == (m, c, Ok::<Outcome, JobError>(Outcome::Unchanged)),
{
}

} // verus!
