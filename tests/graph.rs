use pg_jobs::graph::{JobTasks, TaskData};
use pg_jobs::task::{
    DecisionTask, DespawnTask, HideTask, JobSchedule, LoopTask, ShowTask, Task, TaskSets, WaitTask,
};

fn wait() -> Task {
    Task::Wait(WaitTask { schedule: JobSchedule::Delay(1) })
}

#[test]
fn next_id_prefers_explicit_successor() {
    let n = TaskData::idtn(4, 9, Task::Hide(HideTask));
    assert_eq!(n.next_id(), Some(9));
}

#[test]
fn next_id_falls_through_to_following_id() {
    let n = TaskData::idt(4, Task::Hide(HideTask));
    assert_eq!(n.next_id(), Some(5));
}

#[test]
fn next_id_of_largest_id_does_not_fit() {
    let n = TaskData::idt(u32::MAX, Task::Hide(HideTask));
    assert_eq!(n.next_id(), None);
}

#[test]
fn default_node_is_despawn_at_zero() {
    let n = TaskData::default();
    assert_eq!(n.id, 0);
    assert_eq!(n.next, None);
    assert_eq!(n.task, Task::Despawn(DespawnTask));
}

#[test]
fn builder_numbers_nodes_after_the_largest_id() {
    let mut jt = JobTasks::new();
    jt.first(Task::Hide(HideTask));
    jt.next(Task::Show(ShowTask));
    jt.add_at(1000, Task::Despawn(DespawnTask));
    jt.next(wait());
    assert_eq!(jt.len(), 4);
    assert_eq!(jt.get(0).unwrap().task, Task::Hide(HideTask));
    assert_eq!(jt.get(1).unwrap().task, Task::Show(ShowTask));
    assert_eq!(jt.get(1001).unwrap().task, wait());
    assert_eq!(jt.get(2), None);
}

#[test]
fn with_next_sets_successor_of_last_added() {
    let mut jt = JobTasks::new();
    jt.first(Task::Hide(HideTask)).with_next(7);
    jt.add_at(7, Task::Show(ShowTask));
    assert_eq!(jt.get(0).unwrap().next, Some(7));
    assert_eq!(jt.get_next_id(), Some(7));
    let n = jt.next_task().unwrap();
    assert_eq!(n.id, 7);
    assert_eq!(jt.current_task_id, 7);
}

#[test]
fn from_vec_numbers_tasks_in_order() {
    let jt = JobTasks::from_vec(vec![Task::Hide(HideTask), Task::Show(ShowTask), wait()]);
    assert_eq!(jt.len(), 3);
    for (i, t) in [Task::Hide(HideTask), Task::Show(ShowTask), wait()].iter().enumerate() {
        let n = jt.get(i as u32).unwrap();
        assert_eq!(n.id, i as u32);
        assert_eq!(n.task, *t);
        assert_eq!(n.next, None);
    }
    assert_eq!(jt.current_task_id, 0);
}

#[test]
fn from_empty_vec_is_empty() {
    let jt = JobTasks::from_vec(Vec::new());
    assert_eq!(jt.len(), 0);
    assert_eq!(jt.get_current(), None);
}

#[test]
fn get_current_is_none_for_missing_cursor() {
    let mut jt = JobTasks::new();
    jt.add_task(TaskData::idt(3, wait()));
    assert_eq!(jt.get_current(), None);
    assert_eq!(jt.get_next_id(), None);
    assert_eq!(jt.next_task(), None);
    assert_eq!(jt.current_task_id, 0);
}

#[test]
fn set_task_moves_cursor_even_to_missing_node() {
    let mut jt = JobTasks::from_vec(vec![wait(), wait()]);
    assert_eq!(jt.set_task(50), None);
    assert_eq!(jt.current_task_id, 50);
    assert_eq!(jt.set_task(1).unwrap().id, 1);
}

#[test]
fn next_task_past_last_node_reports_none() {
    let mut jt = JobTasks::from_vec(vec![wait(), wait()]);
    assert_eq!(jt.next_task().unwrap().id, 1);
    assert_eq!(jt.next_task(), None);
    assert_eq!(jt.current_task_id, 2);
}

#[test]
fn cloned_graph_keeps_nodes_and_cursor() {
    let mut jt = JobTasks::from_vec(vec![wait(), Task::Hide(HideTask)]);
    jt.set_task(1);
    let c = jt.clone();
    assert_eq!(c.len(), 2);
    assert_eq!(c.current_task_id, 1);
    assert_eq!(c.get(1).unwrap().task, Task::Hide(HideTask));
}

#[test]
fn decision_draw_of_fifty_picks_first_option() {
    let d = DecisionTask { opt1: 20, opt2: 21 };
    assert_eq!(d.pick(0), 20);
    assert_eq!(d.pick(50), 20);
    assert_eq!(d.pick(51), 21);
    assert_eq!(d.pick(100), 21);
}

#[test]
fn loop_task_default_has_no_bound() {
    let l = LoopTask::default();
    assert_eq!(l.start_id, 0);
    assert_eq!(l.maxk, None);
}

#[test]
fn phases_run_in_fixed_order() {
    let order = TaskSets::in_order();
    assert_eq!(order, vec![TaskSets::Dispatch, TaskSets::Extension, TaskSets::Simple, TaskSets::Decision, TaskSets::Loop]);
    for (i, p) in order.iter().enumerate() {
        assert_eq!(p.rank() as usize, i);
    }
    assert_eq!(TaskSets::of(&Task::Decision(DecisionTask { opt1: 1, opt2: 2 })), TaskSets::Decision);
    assert_eq!(TaskSets::of(&Task::Loop(LoopTask::default())), TaskSets::Loop);
    assert_eq!(TaskSets::of(&wait()), TaskSets::Simple);
}
