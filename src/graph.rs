use vstd::prelude::*;
use std::collections::HashMap;
use crate::task::{Task, DespawnTask};

verus! {

broadcast use vstd::std_specs::hash::group_hash_axioms;

/// One node of a task graph: its id, an optional explicit successor, and its task.
#[derive(Clone, Copy, Debug, PartialEq)]
pub struct TaskData {
    pub id: u32,
    pub next: Option<u32>,
    pub task: Task,
}

/// The id that follows node `n`: its explicit successor, else the id after its own.
pub open spec fn resolve_next(n: TaskData) -> int {
    match n.next {
        Some(x) => x as int,
        None => n.id as int + 1,
    }
}

impl TaskData {
    /// A node with an explicit successor.
    pub fn idtn(id: u32, next: u32, task: Task) -> (r: Self)
        ensures
            r == (TaskData { id, next: Some(next), task }),
    {
        TaskData { id, next: Some(next), task }
    }

    /// A node that falls through to `id + 1`.
    pub fn idt(id: u32, task: Task) -> (r: Self)
        ensures
            r == (TaskData { id, next: None, task }),
    {
        TaskData { id, next: None, task }
    }

    /// The id of the node that follows this one, when it fits in a `u32`.
    pub fn next_id(&self) -> (r: Option<u32>)
        ensures
            r == (if resolve_next(*self) <= u32::MAX { Some(resolve_next(*self) as u32) } else { None::<u32> }),
    {
        match self.next {
            Some(x) => Some(x),
            None => self.id.checked_add(1),
        }
    }
}

impl Default for TaskData {
    fn default() -> (r: Self)
        ensures
            r == (TaskData { id: 0, next: None, task: Task::Despawn(DespawnTask) }),
    {
        TaskData { id: 0, next: None, task: Task::Despawn(DespawnTask) }
    }
}

/// The mathematical model of a task graph.
pub struct TasksView {
    pub nodes: Map<u32, TaskData>,
    pub current: u32,
    pub last_added: u32,
}

/// `i` is one past the largest id of `dom`, or 0 for an empty graph.
pub open spec fn is_next_index(dom: Set<u32>, i: int) -> bool {
    &&& forall|k: u32| dom.contains(k) ==> k < i
    &&& if dom.is_empty() { i == 0 } else { 0 < i && dom.contains((i - 1) as u32) }
}

impl TasksView {
    /// Every node is stored under its own id.
    pub open spec fn wf(self) -> bool {
        forall|k: u32| #[trigger] self.nodes.contains_key(k) ==> self.nodes[k].id == k
    }

    pub open spec fn current_node(self) -> Option<TaskData> {
        if self.nodes.contains_key(self.current) {
            Some(self.nodes[self.current])
        } else {
            None
        }
    }

    /// The id that the cursor moves to on advance, when the current node exists and the
    /// id fits in a `u32`.
    pub open spec fn next_id(self) -> Option<u32> {
        match self.current_node() {
            Some(n) => if resolve_next(n) <= u32::MAX { Some(resolve_next(n) as u32) } else { None },
            None => None,
        }
    }

    pub open spec fn with_current(self, id: u32) -> TasksView {
        TasksView { current: id, ..self }
    }

    /// The node at `id`, if any.
    pub open spec fn node(self, id: u32) -> Option<TaskData> {
        if self.nodes.contains_key(id) {
            Some(self.nodes[id])
        } else {
            None
        }
    }
}

/// A task graph: nodes keyed by id, and a cursor on the current node.
#[derive(Debug)]
pub struct JobTasks {
    data: HashMap<u32, TaskData>,
    pub current_task_id: u32,
    last_added: u32,
}

impl View for JobTasks {
    type V = TasksView;

    closed spec fn view(&self) -> TasksView {
        TasksView { nodes: self.data@, current: self.current_task_id, last_added: self.last_added }
    }
}

impl Clone for JobTasks {
    fn clone(&self) -> (r: Self)
        ensures
            r@ == self@,
    {
        JobTasks {
            data: self.data.clone(),
            current_task_id: self.current_task_id,
            last_added: self.last_added,
        }
    }
}

impl Default for JobTasks {
    fn default() -> (r: Self)
        ensures
            r@.nodes == Map::<u32, TaskData>::empty(),
            r@.current == 0,
            r@.last_added == 0,
    {
        JobTasks::new()
    }
}

impl JobTasks {
    pub fn new() -> (r: Self)
        ensures
            r@.nodes == Map::<u32, TaskData>::empty(),
            r@.current == 0,
            r@.last_added == 0,
    {
        JobTasks { data: HashMap::new(), current_task_id: 0, last_added: 0 }
    }

    /// Number of nodes.
    pub fn len(&self) -> (r: usize)
        ensures
            r as int == self@.nodes.len(),
    {
        self.data.len()
    }

    /// Stores `task` under its own id, replacing any node there.
    pub fn add_task(&mut self, task: TaskData)
        ensures
            final(self)@ == (TasksView { nodes: old(self)@.nodes.insert(task.id, task), ..old(self)@ }),
    {
        self.data.insert(task.id, task);
    }

    /// Stores `task` as node 0 and makes it the last added node.
    pub fn first(&mut self, task: Task) -> (r: &mut Self)
        ensures
            r@ == (TasksView {
                nodes: old(self)@.nodes.insert(0, TaskData { id: 0, next: None, task }),
                last_added: 0,
                ..old(self)@
            }),
            *final(self) == *final(r),
    {
        self.data.insert(0, TaskData { id: 0, next: None, task });
        self.last_added = 0;
        self
    }

    /// Stores `task` at `id` and makes it the last added node.
    pub fn add_at(&mut self, id: u32, task: Task) -> (r: &mut Self)
        ensures
            r@ == (TasksView {
                nodes: old(self)@.nodes.insert(id, TaskData { id, next: None, task }),
                last_added: id,
                ..old(self)@
            }),
            *final(self) == *final(r),
    {
        self.data.insert(id, TaskData { id, next: None, task });
        self.last_added = id;
        self
    }

    /// Stores `task` under the id one past the largest present (0 in an empty graph) and
    /// makes it the last added node.
    pub fn next(&mut self, task: Task) -> (r: &mut Self)
        requires
            forall|k: u32| old(self)@.nodes.contains_key(k) ==> k < u32::MAX,
        ensures
            is_next_index(old(self)@.nodes.dom(), r@.last_added as int),
            r@ == (TasksView {
                nodes: old(self)@.nodes.insert(
                    r@.last_added,
                    TaskData { id: r@.last_added, next: None, task },
                ),
                last_added: r@.last_added,
                ..old(self)@
            }),
            *final(self) == *final(r),
    {
        let id = self.next_index();
        self.data.insert(id, TaskData { id, next: None, task });
        self.last_added = id;
        self
    }

    /// Gives the last added node the explicit successor `next`.
    pub fn with_next(&mut self, next: u32)
        requires
            old(self)@.nodes.contains_key(old(self)@.last_added),
        ensures
            final(self)@ == (TasksView {
                nodes: old(self)@.nodes.insert(
                    old(self)@.last_added,
                    TaskData { next: Some(next), ..old(self)@.nodes[old(self)@.last_added] },
                ),
                ..old(self)@
            }),
    {
        let key = self.last_added;
        match self.data.remove(&key) {
            Some(node) => {
                self.data.insert(key, TaskData { next: Some(next), ..node });
                assert(self.data@ =~= old(self).data@.insert(key, TaskData { next: Some(next), ..node }));
            },
            None => {},
        }
    }

    /// A graph whose node `i` holds the `i`-th task, each falling through to the next.
    pub fn from_vec(v: Vec<Task>) -> (r: Self)
        requires
            v.len() <= u32::MAX,
        ensures
            r@.current == 0,
            r@.wf(),
            forall|k: u32| r@.nodes.contains_key(k) <==> k < v.len(),
            forall|k: u32| #[trigger] r@.nodes.contains_key(k) ==> r@.nodes[k] == (TaskData { id: k, next: None, task: v@[k as int] }),
    {
        let mut jt = JobTasks::new();
        let mut i: usize = 0;
        while i < v.len()
            invariant
                i <= v.len() <= u32::MAX,
                jt@.current == 0,
                forall|k: u32| jt@.nodes.contains_key(k) <==> k < i,
                forall|k: u32| #[trigger] jt@.nodes.contains_key(k) ==> jt@.nodes[k] == (TaskData { id: k, next: None, task: v@[k as int] }),
            decreases v.len() - i,
        {
            if i == 0 {
                jt.first(v[i]);
            } else {
                proof {
                    assert(jt@.nodes.contains_key((i - 1) as u32));
                }
                jt.next(v[i]);
            }
            i = i + 1;
        }
        jt
    }

    /// The id the cursor moves to on advance: the current node's explicit successor, else
    /// its id plus one; `None` when there is no current node or the id would not fit.
    pub fn get_next_id(&self) -> (r: Option<u32>)
        ensures
            r == self@.next_id(),
    {
        match self.data.get(&self.current_task_id) {
            Some(node) => node.next_id(),
            None => None,
        }
    }

    /// The node at `id`, if any.
    pub fn get(&self, id: u32) -> (r: Option<TaskData>)
        ensures
            r == self@.node(id),
    {
        match self.data.get(&id) {
            Some(node) => Some(*node),
            None => None,
        }
    }

    /// The node under the cursor, or `None` when the cursor names no node.
    pub fn get_current(&self) -> (r: Option<TaskData>)
        ensures
            r == self@.current_node(),
    {
        self.get(self.current_task_id)
    }

    /// Moves the cursor to `next_task_id`, present or not, and returns the node there.
    pub fn set_task(&mut self, next_task_id: u32) -> (r: Option<TaskData>)
        ensures
            final(self)@ == old(self)@.with_current(next_task_id),
            r == final(self)@.current_node(),
    {
        self.current_task_id = next_task_id;
        self.get_current()
    }

    /// Moves the cursor to the id that follows the current node and returns the node there;
    /// leaves the cursor alone when no such id can be resolved.
    pub fn next_task(&mut self) -> (r: Option<TaskData>)
        ensures
            final(self)@ == match old(self)@.next_id() {
                Some(n) => old(self)@.with_current(n),
                None => old(self)@,
            },
            r == match old(self)@.next_id() {
                Some(n) => old(self)@.node(n),
                None => None,
            },
    {
        match self.get_next_id() {
            Some(n) => self.set_task(n),
            None => None,
        }
    }

    /// A graph over `data`, cursor and last added node at 0.
    pub(crate) fn from_map(data: HashMap<u32, TaskData>) -> (r: Self)
        ensures
            r@ == (TasksView { nodes: data@, current: 0, last_added: 0 }),
    {
        JobTasks { data, current_task_id: 0, last_added: 0 }
    }

    /// The nodes, each with its id written as decimal text, in no particular order.
    pub fn to_keyed(&self) -> (r: Vec<(Vec<u8>, TaskData)>)
        requires
            self@.wf(),
        ensures
            crate::loader::encodes(crate::loader::keyed_view(r@), self@.nodes),
    {
        let mut out: Vec<(Vec<u8>, TaskData)> = Vec::new();
        for k in it: self.data.keys()
            invariant
                self@.wf(),
                it.seq().unref().to_set() == self@.nodes.dom(),
                it.seq().unref().no_duplicates(),
                out@.len() == it.index(),
                forall|j: int| 0 <= j < it.index() ==> {
                    &&& (#[trigger] out@[j]).1.id == *it.seq()[j]
                    &&& out@[j].0@ == crate::loader::decimal(out@[j].1.id as nat)
                    &&& self@.nodes.contains_key(out@[j].1.id)
                    &&& self@.nodes[out@[j].1.id] == out@[j].1
                },
                forall|a: int, b: int| 0 <= a < b < it.index() ==> #[trigger] out@[a].1.id != #[trigger] out@[b].1.id,
                forall|q: u32| #[trigger] self@.nodes.contains_key(q) ==>
                    (exists|j: int| 0 <= j < it.index() && out@[j].1.id == q)
                    || (exists|j: int| it.index() <= j < it.seq().len() && *it.seq()[j] == q),
        {
            let ghost idx = it.index();
            assert(it.seq().unref()[idx] == *k);
            proof {
                assert forall|a: int| 0 <= a < idx implies out@[a].1.id != *k by {
                    assert(it.seq().unref()[a] == *it.seq()[a]);
                }
            }
            let node = match self.data.get(k) {
                Some(n) => *n,
                None => TaskData::default(),
            };
            let ghost before = out@;
            out.push((crate::loader::task_key(*k), node));
            proof {
                assert forall|q: u32| #[trigger] self@.nodes.contains_key(q) implies
                    (exists|j: int| 0 <= j < idx + 1 && out@[j].1.id == q)
                    || (exists|j: int| idx + 1 <= j < it.seq().len() && *it.seq()[j] == q) by {
                    if exists|j: int| 0 <= j < idx && before[j].1.id == q {
                        let j = choose|j: int| 0 <= j < idx && before[j].1.id == q;
                        assert(out@[j] == before[j]);
                    } else if q == *k {
                        assert(out@[idx].1.id == q);
                    } else {
                        let j = choose|j: int| idx <= j < it.seq().len() && *it.seq()[j] == q;
                        assert(j != idx);
                    }
                }
            }
        }
        proof {
            let es = crate::loader::keyed_view(out@);
            assert forall|i: int| 0 <= i < es.len() implies es[i] == (out@[i].0@, out@[i].1) by {}
            assert forall|i: int, j: int| 0 <= i < j < es.len() implies #[trigger] es[i].1.id != #[trigger] es[j].1.id by {
                assert(es[i].1 == out@[i].1);
                assert(es[j].1 == out@[j].1);
            }
            assert forall|q: u32| #[trigger] self@.nodes.contains_key(q) implies exists|i: int| 0 <= i < es.len() && es[i].1.id == q by {
                let j = choose|j: int| 0 <= j < out@.len() && out@[j].1.id == q;
                assert(es[j].1 == out@[j].1);
            }
        }
        out
    }

    /// One past the largest id in the graph, 0 when it is empty.
    fn next_index(&self) -> (r: u32)
        requires
            forall|k: u32| self@.nodes.contains_key(k) ==> k < u32::MAX,
        ensures
            is_next_index(self@.nodes.dom(), r as int),
    {
        let mut best: u32 = 0;
        let mut seen: bool = false;
        for k in it: self.data.keys()
            invariant
                it.seq().unref().to_set() == self@.nodes.dom(),
                seen == (it.index() > 0),
                forall|j: int| 0 <= j < it.index() ==> *#[trigger] it.seq()[j] <= best,
                seen ==> self@.nodes.dom().contains(best),
        {
            assert(it.seq().unref()[it.index() as int] == *k);
            if !seen || *k > best {
                best = *k;
            }
            seen = true;
        }
        if seen {
            best + 1
        } else {
            0
        }
    }
}

} // verus!
