use pg_jobs::catalog::JobCatalog;
use pg_jobs::commands::{Commands, HostCommand};
use pg_jobs::graph::{JobTasks, TaskData};
use pg_jobs::job::{Job, JobData, JobOnFail, JobStatus, Outcome};
use pg_jobs::store::{JobError, Jobs, StartJobEvent, StopJobEvent};
use pg_jobs::task::{
    Cron, DecisionTask, DespawnTask, HideTask, JobID, JobSchedule, LoopTask, MoveTask, Point,
    RandomWaitTask, ShowTask, SpawnGroupTask, Task, TeleportTask, WaitTask,
};

const ORIGIN: Point = Point { x: 0, y: 0, z: 0 };

fn wait_ms(ms: u32) -> Task {
    Task::Wait(WaitTask { schedule: JobSchedule::RealDelay(ms) })
}

fn mover() -> Task {
    Task::Move(MoveTask { source: ORIGIN, target: Point { x: 300, y: 300, z: 1 } })
}

fn linear_graph() -> JobTasks {
    let mut jt = JobTasks::new();
    jt.add_task(TaskData { id: 0, next: None, task: wait_ms(10) });
    jt.add_task(TaskData::idt(1, Task::Despawn(DespawnTask)));
    jt
}

fn catalog_with(data: JobData) -> JobCatalog {
    let mut cat = JobCatalog::init();
    cat.add(data);
    cat
}

#[test]
fn scenario_linear_start_advance_despawn() {
    let data = JobData::new("linear", JobOnFail::Cancel, linear_graph());
    let id = data.id;
    let cat = catalog_with(data);
    let mut jobs = Jobs::init();
    let mut cmds = Commands::new();

    assert_eq!(jobs.start(&mut cmds, &cat, id, 7), Some(7));
    assert_eq!(cmds.drain(), vec![HostCommand::Spawn { entity: 7, task: wait_ms(10) }]);
    let mut job = jobs.get(7).unwrap().clone();
    assert_eq!(job.get_status(), JobStatus::Active);

    assert_eq!(jobs.next_task(&mut cmds, 7), Ok(Outcome::Running));
    assert_eq!(
        cmds.drain(),
        vec![
            HostCommand::Detach { entity: 7, task: wait_ms(10) },
            HostCommand::Attach { entity: 7, task: Task::Despawn(DespawnTask) },
        ]
    );
    assert_eq!(jobs.get(7).unwrap().current_task().unwrap().id, 1);

    assert_eq!(jobs.despawn_task(&mut cmds, 7), Ok(Outcome::Despawned));
    assert_eq!(cmds.drain(), vec![HostCommand::Despawn { entity: 7 }]);
    assert!(jobs.get(7).is_none());
}

#[test]
fn scenario_linear_job_status_done_after_despawn() {
    let mut job = Job::new(JobData::new("linear", JobOnFail::Cancel, linear_graph()));
    let mut cmds = Commands::new();
    assert_eq!(job.get_status(), JobStatus::ToDo);
    assert_eq!(job.start(&mut cmds, 3), Some(3));
    assert_eq!(job.get_status(), JobStatus::Active);
    assert_eq!(job.next_task(&mut cmds, 3), Outcome::Running);
    assert_eq!(job.next_task(&mut cmds, 3), Outcome::Done);
    assert_eq!(job.get_status(), JobStatus::Done);
}

fn loop_decision_graph() -> JobTasks {
    let mut jt = JobTasks::new();
    jt.add_task(TaskData::idt(100, Task::Decision(DecisionTask { opt1: 20, opt2: 21 })));
    jt.add_task(TaskData::idtn(20, 22, mover()));
    jt.add_task(TaskData::idtn(21, 22, mover()));
    jt.add_task(TaskData::idtn(22, 3, Task::Loop(LoopTask { start_id: 100, maxk: Some(3) })));
    jt.add_task(TaskData::idt(3, wait_ms(5)));
    jt.current_task_id = 100;
    jt
}

fn count_decision_visits(draws: &[u32]) -> usize {
    let data = JobData::new("patrol", JobOnFail::Cancel, loop_decision_graph());
    let id = data.id;
    let cat = catalog_with(data);
    let mut jobs = Jobs::init();
    let mut cmds = Commands::new();
    assert_eq!(jobs.assign(&mut cmds, &cat, 1, id), Ok(()));
    let mut visits = 0;
    let mut step = 0;
    loop {
        let cur = jobs.get(1).unwrap().current_task().unwrap();
        match cur.id {
            100 => {
                visits += 1;
                let draw = draws[step % draws.len()];
                step += 1;
                assert_eq!(jobs.decision_task(&mut cmds, 1, draw), Ok(Outcome::Running));
                let now = jobs.get(1).unwrap().current_task().unwrap().id;
                assert_eq!(now, if draw <= 50 { 20 } else { 21 });
            }
            20 | 21 => {
                assert_eq!(jobs.next_task(&mut cmds, 1), Ok(Outcome::Running));
            }
            22 => {
                assert_eq!(jobs.loop_task(&mut cmds, 1), Ok(Outcome::Running));
            }
            3 => break,
            other => panic!("unexpected node {}", other),
        }
        assert!(visits <= 10);
    }
    assert_eq!(jobs.get(1).unwrap().loopk(), 0);
    visits
}

#[test]
fn scenario_loop_and_decision_visit_decision_four_times() {
    assert_eq!(count_decision_visits(&[10]), 4);
    assert_eq!(count_decision_visits(&[90]), 4);
    assert_eq!(count_decision_visits(&[50, 51, 0, 100]), 4);
}

#[test]
fn scenario_failure_fallback_to_missing_node_cancels() {
    let data = JobData::new("fragile", JobOnFail::RunTask(1000), JobTasks::from_vec(vec![wait_ms(1), wait_ms(2)]));
    let id = data.id;
    let cat = catalog_with(data);
    let mut jobs = Jobs::init();
    let mut cmds = Commands::new();
    jobs.assign(&mut cmds, &cat, 9, id).unwrap();
    cmds.drain();
    assert_eq!(jobs.fail_task(&mut cmds, 9), Ok(Outcome::Cancelled));
    assert_eq!(cmds.drain(), vec![HostCommand::Detach { entity: 9, task: wait_ms(1) }]);
    assert!(jobs.get(9).is_none());
}

#[test]
fn failure_fallback_to_present_node_runs_it() {
    let mut jt = JobTasks::from_vec(vec![wait_ms(1), wait_ms(2)]);
    jt.add_at(1000, Task::Despawn(DespawnTask));
    let mut job = Job::new(JobData::new("fallback", JobOnFail::RunTask(1000), jt));
    let mut cmds = Commands::new();
    assert_eq!(job.fail(&mut cmds, 4), Outcome::Running);
    assert_eq!(job.current_task().unwrap().id, 1000);
    assert_eq!(
        cmds.drain(),
        vec![
            HostCommand::Detach { entity: 4, task: wait_ms(1) },
            HostCommand::Attach { entity: 4, task: Task::Despawn(DespawnTask) },
        ]
    );
}

#[test]
fn failure_policy_nothing_changes_nothing() {
    let mut job = Job::new(JobData::new("stubborn", JobOnFail::Nothing, linear_graph()));
    let mut cmds = Commands::new();
    assert_eq!(job.fail(&mut cmds, 4), Outcome::Unchanged);
    assert_eq!(cmds.len(), 0);
    assert_eq!(job.current_task().unwrap().id, 0);
}

#[test]
fn failure_policy_despawn_destroys_entity() {
    let mut job = Job::new(JobData::new("doomed", JobOnFail::Despawn, linear_graph()));
    let mut cmds = Commands::new();
    assert_eq!(job.fail(&mut cmds, 4), Outcome::Despawned);
    assert_eq!(
        cmds.drain(),
        vec![HostCommand::Detach { entity: 4, task: wait_ms(10) }, HostCommand::Despawn { entity: 4 }]
    );
    assert_eq!(job.get_status(), JobStatus::Done);
}

#[test]
fn failure_policy_cancel_detaches() {
    let mut job = Job::new(JobData::new("plain", JobOnFail::default(), linear_graph()));
    let mut cmds = Commands::new();
    assert_eq!(job.fail(&mut cmds, 4), Outcome::Cancelled);
    assert_eq!(cmds.drain(), vec![HostCommand::Detach { entity: 4, task: wait_ms(10) }]);
}

#[test]
fn jump_to_missing_node_applies_failure_policy() {
    let mut job = Job::new(JobData::new("jumpy", JobOnFail::Cancel, linear_graph()));
    let mut cmds = Commands::new();
    assert_eq!(job.jump_task(&mut cmds, 2, 55), Outcome::Cancelled);
    assert_eq!(cmds.drain(), vec![HostCommand::Detach { entity: 2, task: wait_ms(10) }]);
}

#[test]
fn jump_to_present_node_attaches_it() {
    let mut job = Job::new(JobData::new("jumpy", JobOnFail::Cancel, linear_graph()));
    let mut cmds = Commands::new();
    assert_eq!(job.jump_task(&mut cmds, 2, 1), Outcome::Running);
    assert_eq!(job.current_task().unwrap().id, 1);
    assert_eq!(cmds.len(), 2);
    assert_eq!(cmds.get(1), HostCommand::Attach { entity: 2, task: Task::Despawn(DespawnTask) });
}

#[test]
fn advance_past_last_node_then_entity_not_bound() {
    let data = JobData::new("short", JobOnFail::Cancel, JobTasks::from_vec(vec![wait_ms(1)]));
    let id = data.id;
    let cat = catalog_with(data);
    let mut jobs = Jobs::init();
    let mut cmds = Commands::new();
    jobs.assign(&mut cmds, &cat, 5, id).unwrap();
    assert_eq!(jobs.next_task(&mut cmds, 5), Ok(Outcome::Done));
    assert!(jobs.get(5).is_none());
    assert_eq!(jobs.next_task(&mut cmds, 5), Err(JobError::EntityNotBound));
    assert_eq!(jobs.len(), 0);
}

#[test]
fn scenario_paused_job_is_left_alone() {
    let data = JobData::new("patrol", JobOnFail::Cancel, loop_decision_graph());
    let id = data.id;
    let cat = catalog_with(data);
    let mut jobs = Jobs::init();
    let mut cmds = Commands::new();
    jobs.assign(&mut cmds, &cat, 1, id).unwrap();
    cmds.drain();
    assert_eq!(jobs.pause(&mut cmds, 1), Ok(()));
    assert_eq!(cmds.drain(), vec![HostCommand::Pause { entity: 1 }]);
    let mut job = jobs.get(1).unwrap().clone();
    assert_eq!(job.get_status(), JobStatus::Paused);
    let mut w = WaitTask { schedule: JobSchedule::RealDelay(0) };
    for _ in 0..5 {
        assert_eq!(jobs.decision_task(&mut cmds, 1, 10), Ok(Outcome::Unchanged));
        assert_eq!(jobs.run_decision_task(&mut cmds, 1), Ok(Outcome::Unchanged));
        assert_eq!(jobs.loop_task(&mut cmds, 1), Ok(Outcome::Unchanged));
        assert_eq!(jobs.despawn_task(&mut cmds, 1), Ok(Outcome::Unchanged));
        assert_eq!(jobs.wait_task_time(&mut cmds, 1, &mut w, 100), Ok(Outcome::Unchanged));
        assert_eq!(jobs.get(1).unwrap().current_task().unwrap().id, 100);
    }
    assert_eq!(cmds.len(), 0);
    assert_eq!(jobs.unpause(&mut cmds, 1), Ok(()));
    assert_eq!(cmds.drain(), vec![HostCommand::Unpause { entity: 1 }]);
    assert_eq!(jobs.decision_task(&mut cmds, 1, 10), Ok(Outcome::Running));
}

#[test]
fn pause_of_unbound_entity_is_reported() {
    let mut jobs = Jobs::init();
    let mut cmds = Commands::new();
    assert_eq!(jobs.pause(&mut cmds, 3), Err(JobError::EntityNotBound));
    assert_eq!(jobs.unpause(&mut cmds, 3), Err(JobError::EntityNotBound));
    assert_eq!(jobs.cancel(&mut cmds, 3), Err(JobError::EntityNotBound));
    assert_eq!(jobs.jump_task(&mut cmds, 3, 1), Err(JobError::EntityNotBound));
    assert_eq!(jobs.fail_task(&mut cmds, 3), Err(JobError::EntityNotBound));
    assert_eq!(jobs.loop_task(&mut cmds, 3), Err(JobError::EntityNotBound));
    assert_eq!(cmds.len(), 0);
}

#[test]
fn loop_reenters_bound_times_then_exits() {
    let mut jt = JobTasks::new();
    jt.add_task(TaskData::idt(0, Task::Hide(HideTask)));
    jt.add_task(TaskData::idt(1, Task::Loop(LoopTask { start_id: 0, maxk: Some(3) })));
    jt.add_task(TaskData::idt(2, Task::Show(ShowTask)));
    let data = JobData::new("looper", JobOnFail::Cancel, jt);
    let id = data.id;
    let cat = catalog_with(data);
    let mut jobs = Jobs::init();
    let mut cmds = Commands::new();
    jobs.assign(&mut cmds, &cat, 1, id).unwrap();
    let mut reentries = 0;
    loop {
        assert_eq!(jobs.hide_task(&mut cmds, 1), Ok(Outcome::Running));
        jobs.loop_task(&mut cmds, 1).unwrap();
        let cur = jobs.get(1).unwrap().current_task().unwrap().id;
        if cur == 0 {
            reentries += 1;
            assert_eq!(jobs.get(1).unwrap().loopk(), reentries);
        } else {
            assert_eq!(cur, 2);
            break;
        }
    }
    assert_eq!(reentries, 3);
    assert_eq!(jobs.get(1).unwrap().loopk(), 0);
}

#[test]
fn unbounded_loop_never_exits() {
    let mut jt = JobTasks::new();
    jt.add_task(TaskData::idt(0, Task::Loop(LoopTask::default())));
    let mut jobs = Jobs::init();
    let mut cmds = Commands::new();
    let cat = catalog_with(JobData::new("forever", JobOnFail::Cancel, jt));
    jobs.assign(&mut cmds, &cat, 1, JobID::from_str("forever")).unwrap();
    assert_eq!(jobs.loop_task(&mut cmds, 1), Ok(Outcome::Unchanged));
    assert_eq!(jobs.get(1).unwrap().current_task().unwrap().id, 0);
}

#[test]
fn assign_unknown_template_leaves_entity_alone() {
    let data = JobData::new("known", JobOnFail::Cancel, linear_graph());
    let id = data.id;
    let cat = catalog_with(data);
    let mut jobs = Jobs::init();
    let mut cmds = Commands::new();
    jobs.assign(&mut cmds, &cat, 1, id).unwrap();
    cmds.drain();
    assert_eq!(jobs.assign(&mut cmds, &cat, 1, JobID(id.0.wrapping_add(1))), Err(JobError::TemplateNotFound));
    assert_eq!(cmds.len(), 0);
    assert_eq!(jobs.get(1).unwrap().job_id(), id);
    assert_eq!(jobs.start(&mut cmds, &cat, JobID(id.0.wrapping_add(1)), 8), None);
}

#[test]
fn reassign_detaches_old_task_first() {
    let a = JobData::new("a", JobOnFail::Cancel, JobTasks::from_vec(vec![Task::Hide(HideTask)]));
    let b = JobData::new("b", JobOnFail::Cancel, JobTasks::from_vec(vec![Task::Show(ShowTask)]));
    let (ida, idb) = (a.id, b.id);
    let mut cat = JobCatalog::init();
    cat.add(a);
    cat.add(b);
    let mut jobs = Jobs::init();
    let mut cmds = Commands::new();
    jobs.start_job(&mut cmds, &cat, StartJobEvent { job_id: ida, entity: 2 }).unwrap();
    jobs.assign(&mut cmds, &cat, 2, idb).unwrap();
    assert_eq!(
        cmds.drain(),
        vec![
            HostCommand::Attach { entity: 2, task: Task::Hide(HideTask) },
            HostCommand::Detach { entity: 2, task: Task::Hide(HideTask) },
            HostCommand::Attach { entity: 2, task: Task::Show(ShowTask) },
        ]
    );
    jobs.stop_job(&mut cmds, StopJobEvent { entity: 2 });
    assert_eq!(cmds.drain(), vec![HostCommand::Detach { entity: 2, task: Task::Show(ShowTask) }]);
    assert!(jobs.get(2).is_none());
}

#[test]
fn remove_only_drops_matching_template() {
    let a = JobData::new("a", JobOnFail::Cancel, JobTasks::from_vec(vec![Task::Hide(HideTask)]));
    let ida = a.id;
    let cat = catalog_with(a);
    let mut jobs = Jobs::init();
    let mut cmds = Commands::new();
    jobs.assign(&mut cmds, &cat, 2, ida).unwrap();
    jobs.remove(&mut cmds, JobID(ida.0.wrapping_add(1)), 2);
    assert!(jobs.get(2).is_some());
    jobs.remove(&mut cmds, ida, 2);
    assert!(jobs.get(2).is_none());
    jobs.assign(&mut cmds, &cat, 3, ida).unwrap();
    jobs.remove_all(3);
    assert!(jobs.get(3).is_none());
    jobs.assign(&mut cmds, &cat, 4, ida).unwrap();
    jobs.clear();
    assert_eq!(jobs.len(), 0);
}

#[test]
fn instant_tasks_advance_only_on_their_own_kind() {
    let jt = JobTasks::from_vec(vec![
        Task::Show(ShowTask),
        Task::Hide(HideTask),
        Task::Teleport(TeleportTask { loc: ORIGIN }),
        wait_ms(1),
    ]);
    let cat = catalog_with(JobData::new("blink", JobOnFail::Cancel, jt));
    let mut jobs = Jobs::init();
    let mut cmds = Commands::new();
    jobs.assign(&mut cmds, &cat, 1, JobID::from_str("blink")).unwrap();
    assert_eq!(jobs.hide_task(&mut cmds, 1), Ok(Outcome::Unchanged));
    assert_eq!(jobs.show_task(&mut cmds, 1), Ok(Outcome::Running));
    assert_eq!(jobs.teleport_task(&mut cmds, 1), Ok(Outcome::Unchanged));
    assert_eq!(jobs.hide_task(&mut cmds, 1), Ok(Outcome::Running));
    assert_eq!(jobs.teleport_task(&mut cmds, 1), Ok(Outcome::Running));
    assert_eq!(jobs.get(1).unwrap().current_task().unwrap().id, 3);
}

#[test]
fn real_time_wait_counts_down_then_advances() {
    let cat = catalog_with(JobData::new("sleepy", JobOnFail::Cancel, JobTasks::from_vec(vec![wait_ms(250), wait_ms(1)])));
    let mut jobs = Jobs::init();
    let mut cmds = Commands::new();
    jobs.assign(&mut cmds, &cat, 1, JobID::from_str("sleepy")).unwrap();
    let mut w = WaitTask { schedule: JobSchedule::RealDelay(250) };
    assert_eq!(jobs.wait_task_time(&mut cmds, 1, &mut w, 100), Ok(Outcome::Unchanged));
    assert_eq!(w.schedule, JobSchedule::RealDelay(150));
    assert_eq!(jobs.wait_task_time(&mut cmds, 1, &mut w, 200), Ok(Outcome::Unchanged));
    assert_eq!(w.schedule, JobSchedule::RealDelay(0));
    assert_eq!(jobs.wait_task_time(&mut cmds, 1, &mut w, 16), Ok(Outcome::Running));
    assert_eq!(jobs.get(1).unwrap().current_task().unwrap().id, 1);
}

#[test]
fn calendar_wait_counts_hours_and_matches_patterns() {
    static HOURS: [u8; 2] = [8, 20];
    static DAYS: [u8; 1] = [3];
    let cron = Cron { hours: &HOURS, days_week: &DAYS };
    assert!(cron.is_time(8, 3));
    assert!(!cron.is_time(9, 3));
    assert!(!cron.is_time(20, 4));
    let jt = JobTasks::from_vec(vec![
        Task::Wait(WaitTask { schedule: JobSchedule::Delay(1) }),
        Task::Wait(WaitTask { schedule: JobSchedule::Cron(cron) }),
        wait_ms(1),
    ]);
    let cat = catalog_with(JobData::new("clock", JobOnFail::Cancel, jt));
    let mut jobs = Jobs::init();
    let mut cmds = Commands::new();
    jobs.assign(&mut cmds, &cat, 1, JobID::from_str("clock")).unwrap();
    let mut w = WaitTask { schedule: JobSchedule::Delay(1) };
    assert_eq!(jobs.wait_idle_calendar(&mut cmds, 1, &mut w, 0, 0), Ok(Outcome::Unchanged));
    assert_eq!(w.schedule, JobSchedule::Delay(0));
    assert_eq!(jobs.wait_idle_calendar(&mut cmds, 1, &mut w, 0, 0), Ok(Outcome::Running));
    let mut w = WaitTask { schedule: JobSchedule::Cron(cron) };
    assert_eq!(jobs.wait_idle_calendar(&mut cmds, 1, &mut w, 9, 3), Ok(Outcome::Unchanged));
    assert_eq!(jobs.wait_idle_calendar(&mut cmds, 1, &mut w, 20, 3), Ok(Outcome::Running));
    assert_eq!(jobs.get(1).unwrap().current_task().unwrap().id, 2);
}

#[test]
fn spawn_group_starts_siblings_then_advances_once() {
    static GROUP: [JobID; 2] = [JobID(11), JobID(12)];
    let mut cat = JobCatalog::init();
    let mut leader = JobData::new("leader", JobOnFail::Cancel, JobTasks::from_vec(vec![
        Task::SpawnGroup(SpawnGroupTask { data: &GROUP }),
        wait_ms(1),
    ]));
    leader.id = JobID(10);
    let mut follower = JobData::new("follower", JobOnFail::Cancel, JobTasks::from_vec(vec![Task::Hide(HideTask)]));
    follower.id = JobID(11);
    cat.add(leader);
    cat.add(follower);
    let mut jobs = Jobs::init();
    let mut cmds = Commands::new();
    jobs.assign(&mut cmds, &cat, 1, JobID(10)).unwrap();
    cmds.drain();
    assert_eq!(jobs.spawn_group_task(&mut cmds, &cat, 1, &vec![50, 51]), Ok(Outcome::Running));
    assert_eq!(
        cmds.drain(),
        vec![
            HostCommand::Spawn { entity: 50, task: Task::Hide(HideTask) },
            HostCommand::Detach { entity: 1, task: Task::SpawnGroup(SpawnGroupTask { data: &GROUP }) },
            HostCommand::Attach { entity: 1, task: wait_ms(1) },
        ]
    );
    assert!(jobs.get(50).is_some());
    assert!(jobs.get(51).is_none());
    assert_eq!(jobs.len(), 2);
}

#[test]
fn random_decision_lands_on_an_option() {
    let cat = catalog_with(JobData::new("coin", JobOnFail::Cancel, loop_decision_graph()));
    let mut jobs = Jobs::init();
    let mut cmds = Commands::new();
    jobs.assign(&mut cmds, &cat, 1, JobID::from_str("coin")).unwrap();
    assert_eq!(jobs.run_decision_task(&mut cmds, 1), Ok(Outcome::Running));
    let now = jobs.get(1).unwrap().current_task().unwrap().id;
    assert!(now == 20 || now == 21);
}

#[test]
fn random_wait_draws_within_bounds() {
    let r = RandomWaitTask::new(100, 200);
    for _ in 0..50 {
        match r.random_wait_task().schedule {
            JobSchedule::RealDelay(d) => assert!((100..=200).contains(&d)),
            other => panic!("unexpected schedule {:?}", other),
        }
    }
}

#[test]
fn loop_counter_helpers() {
    let mut job = Job::new(JobData::new("count", JobOnFail::Cancel, linear_graph()));
    assert_eq!(job.loopk(), 0);
    job.loop_incr();
    job.loop_incr();
    assert_eq!(job.loopk(), 2);
    job.loop_reset();
    assert_eq!(job.loopk(), 0);
    job.set_done();
    assert_eq!(job.get_status(), JobStatus::Done);
    job.set_active();
    assert_eq!(job.get_status(), JobStatus::Active);
    assert_eq!(job.name(), "count");
}

#[test]
fn task_requests_name_the_task() {
    let mut cmds = Commands::new();
    let t = Task::Hide(HideTask);
    t.add_task(&mut cmds, 3);
    t.remove(&mut cmds, 3);
    assert_eq!(t.spawn_with_task(&mut cmds, 9), 9);
    assert_eq!(
        cmds.drain(),
        vec![
            HostCommand::Attach { entity: 3, task: t },
            HostCommand::Detach { entity: 3, task: t },
            HostCommand::Spawn { entity: 9, task: t },
        ]
    );
}

#[test]
fn graph_start_attaches_current_task() {
    let jt = JobTasks::from_vec(vec![Task::Show(ShowTask)]);
    let mut cmds = Commands::new();
    assert_eq!(jt.start(&mut cmds, 6), 6);
    assert_eq!(cmds.drain(), vec![HostCommand::Attach { entity: 6, task: Task::Show(ShowTask) }]);
    let empty = JobTasks::new();
    assert_eq!(empty.start(&mut cmds, 6), 6);
    assert_eq!(cmds.len(), 0);
}
