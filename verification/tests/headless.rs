//! Durable task runs: the fold, the ledger store, and the task loop.

use meepo::headless::{
    finish_task, project_task_run, DefaultSelfCheckGate, InMemoryTaskRunStore, RunStatus,
    SelfCheckDecision, SelfCheckGate, TaskAction, TaskDefinition, TaskEvent, TaskFeedback,
    TaskLoop, TaskRun, TaskRunStatus, TaskRunStore,
};
use meepo::json::Json;

#[test]
fn project_full_lifecycle() {
    let events = vec![
        TaskEvent::Created {
            task_run_id: "tr1".into(),
            task_id: "t1".into(),
            instruction: "fix the bug".into(),
            ts: 1,
        },
        TaskEvent::Queued { task_run_id: "tr1".into(), ts: 2 },
        TaskEvent::AttemptStarted { task_run_id: "tr1".into(), attempt_id: "a1".into(), ts: 3 },
        TaskEvent::AttemptCompleted {
            task_run_id: "tr1".into(),
            attempt_id: "a1".into(),
            status: TaskRunStatus::Completed,
            ts: 4,
        },
        TaskEvent::RunCompleted { task_run_id: "tr1".into(), ts: 5 },
    ];
    let run = project_task_run(&events).expect("non-empty ledger");
    assert_eq!(run.task_run_id, "tr1");
    assert_eq!(run.status, TaskRunStatus::Completed);
    assert_eq!(run.attempt_count, 1);
    assert!(run.status.is_terminal());
    assert_eq!(run.finished_at, Some(5));
}

#[test]
fn project_empty_is_none() {
    assert!(project_task_run(&[]).is_none());
}

#[test]
fn project_failed_run() {
    let events = vec![
        TaskEvent::Created {
            task_run_id: "tr2".into(),
            task_id: "t2".into(),
            instruction: "x".into(),
            ts: 1,
        },
        TaskEvent::AttemptStarted { task_run_id: "tr2".into(), attempt_id: "a1".into(), ts: 2 },
        TaskEvent::RunFailed { task_run_id: "tr2".into(), error: "boom".into(), ts: 3 },
    ];
    let run = project_task_run(&events).unwrap();
    assert_eq!(run.status, TaskRunStatus::Failed);
    assert!(run.status.is_terminal());
}

#[test]
fn events_before_creation_are_not_a_run() {
    let events = vec![
        TaskEvent::AttemptStarted { task_run_id: "t".into(), attempt_id: "a".into(), ts: 1 },
        TaskEvent::RunCompleted { task_run_id: "t".into(), ts: 2 },
    ];
    assert!(project_task_run(&events).is_none());
    let task = definition("t1", "do it");
    let run = finish_task(&events, "tr", &task);
    assert_eq!(run.status, TaskRunStatus::Failed);
    assert_eq!(run.started_at, None);
}

#[test]
fn terminal_task_statuses() {
    assert!(TaskRunStatus::BudgetExhausted.is_terminal());
    assert!(!TaskRunStatus::NeedsApproval.is_terminal());
    assert!(!TaskRunStatus::Verifying.is_terminal());
    assert!(!TaskRunStatus::Queued.is_terminal());
}

#[test]
fn task_event_round_trips_json() {
    let event =
        TaskEvent::AttemptStarted { task_run_id: "tr1".into(), attempt_id: "a1".into(), ts: 99 };
    let text = event.to_json().to_text();
    let back = TaskEvent::from_json(&Json::parse(&text).unwrap()).unwrap();
    assert_eq!(text, back.to_json().to_text());
    assert_eq!(back, event);
    assert_eq!(
        text,
        r#"{"attempt_id":"a1","kind":"attempt_started","task_run_id":"tr1","ts":99}"#
    );
}

fn definition(task_id: &str, instruction: &str) -> TaskDefinition {
    TaskDefinition {
        task_id: task_id.into(),
        instruction: instruction.into(),
        workspace_dir: "/tmp".into(),
    }
}

/// Drives the loop with scripted attempts; records the prompts it asked for.
fn drive(
    task_run_id: &str,
    task: &TaskDefinition,
    max_attempts: u32,
    outcomes: &[RunStatus],
    gate: &dyn Fn(u32) -> SelfCheckDecision,
    store: &mut InMemoryTaskRunStore,
) -> (TaskRun, Vec<(String, String)>) {
    let mut task_loop = TaskLoop::new(task_run_id, task, max_attempts);
    let mut prompts = Vec::new();
    let mut expected = 0;
    loop {
        match task_loop.action() {
            TaskAction::Record { sequence, event } => {
                assert_eq!(sequence, expected, "sequence numbers have no gaps");
                expected += 1;
                store.append_event(task_run_id, sequence, &event).unwrap();
                task_loop.advance(TaskFeedback::Recorded);
            }
            TaskAction::Attempt { session_id, prompt } => {
                let status = outcomes[prompts.len()];
                prompts.push((session_id, prompt));
                task_loop.advance(TaskFeedback::AttemptEnded(status));
            }
            TaskAction::Check { attempt, .. } => {
                task_loop.advance(TaskFeedback::Checked(gate(attempt)));
            }
            TaskAction::Finish => break,
        }
    }
    let events = store.read_events(task_run_id).unwrap();
    (finish_task(&events, task_run_id, task), prompts)
}

#[test]
fn run_task_succeeds_on_first_attempt() {
    let mut store = InMemoryTaskRunStore::new();
    let task = definition("t1", "do it");
    let gate = |attempt| DefaultSelfCheckGate.check(attempt, TaskRunStatus::Completed);
    let (run, prompts) = drive("tr1", &task, 3, &[RunStatus::Completed], &gate, &mut store);
    assert_eq!(run.status, TaskRunStatus::Completed);
    assert_eq!(run.attempt_count, 1);
    assert_eq!(prompts, vec![("tr1-s0".to_string(), "do it".to_string())]);
    assert_eq!(run.finished_at, Some(3));
}

#[test]
fn run_task_retries_then_fails() {
    let mut store = InMemoryTaskRunStore::new();
    let task = definition("t2", "impossible");
    let gate = |attempt| DefaultSelfCheckGate.check(attempt, TaskRunStatus::Completed);
    let outcomes = [RunStatus::Failed, RunStatus::Failed];
    let (run, prompts) = drive("tr2", &task, 2, &outcomes, &gate, &mut store);
    assert_eq!(run.status, TaskRunStatus::Failed);
    assert_eq!(run.attempt_count, 2);
    assert_eq!(prompts.len(), 2);
    let events = store.read_events("tr2").unwrap();
    assert_eq!(
        events.last(),
        Some(&TaskEvent::RunFailed {
            task_run_id: "tr2".into(),
            error: "exhausted 2 attempts".into(),
            ts: 5,
        })
    );
    assert!(store.read_events("other").unwrap().is_empty());
}

#[test]
fn repair_retries_with_the_gate_prompt() {
    let mut store = InMemoryTaskRunStore::new();
    let task = definition("t3", "write it");
    let gate = |attempt: u32| {
        if attempt == 0 {
            SelfCheckDecision::Repair { reason: "no tests".into(), prompt: "add tests".into() }
        } else {
            SelfCheckDecision::AllowAfterBounded { reason: "bounded".into() }
        }
    };
    let outcomes = [RunStatus::Completed, RunStatus::Completed];
    let (run, prompts) = drive("tr3", &task, 3, &outcomes, &gate, &mut store);
    assert_eq!(run.status, TaskRunStatus::Completed);
    assert_eq!(run.attempt_count, 2);
    assert_eq!(prompts[1], ("tr3-s1".to_string(), "add tests".to_string()));
}

#[test]
fn no_attempts_allowed_fails_at_once() {
    let mut store = InMemoryTaskRunStore::new();
    let task = definition("t4", "x");
    let gate = |attempt| DefaultSelfCheckGate.check(attempt, TaskRunStatus::Completed);
    let (run, prompts) = drive("tr4", &task, 0, &[], &gate, &mut store);
    assert_eq!(run.status, TaskRunStatus::Failed);
    assert_eq!(run.attempt_count, 0);
    assert!(prompts.is_empty());
}

#[test]
fn resumed_ledger_counts_all_attempts() {
    let mut store = InMemoryTaskRunStore::new();
    let task = definition("t5", "x");
    let gate = |attempt| DefaultSelfCheckGate.check(attempt, TaskRunStatus::Completed);
    drive("tr5", &task, 1, &[RunStatus::Aborted], &gate, &mut store);
    let before = project_task_run(&store.read_events("tr5").unwrap()).unwrap();
    assert_eq!(before.status, TaskRunStatus::Failed);
    assert_eq!(before.attempt_count, 1);
    store
        .append_event(
            "tr5",
            9,
            &TaskEvent::AttemptStarted { task_run_id: "tr5".into(), attempt_id: "a".into(), ts: 9 },
        )
        .unwrap();
    let after = project_task_run(&store.read_events("tr5").unwrap()).unwrap();
    assert_eq!(after.attempt_count, 2);
    assert_eq!(after.status, TaskRunStatus::Running);
}

#[test]
fn reports_out_of_place_change_nothing() {
    let task = definition("t6", "x");
    let mut task_loop = TaskLoop::new("tr6", &task, 1);
    task_loop.advance(TaskFeedback::AttemptEnded(RunStatus::Completed));
    assert!(matches!(
        task_loop.action(),
        TaskAction::Record { sequence: 0, event: TaskEvent::Created { .. } }
    ));
}

#[test]
fn events_are_read_in_sequence_order() {
    let created = TaskEvent::Created {
        task_run_id: "t".into(),
        task_id: "k".into(),
        instruction: "i".into(),
        ts: 0,
    };
    let queued = TaskEvent::Queued { task_run_id: "t".into(), ts: 1 };
    let mut store = InMemoryTaskRunStore::new();
    store.append_event("t", 1, &queued).unwrap();
    store.append_event("t", 0, &created).unwrap();
    let read = store.read_events("t").unwrap();
    assert!(matches!(&read[..], [TaskEvent::Created { .. }, TaskEvent::Queued { .. }]));
    assert_eq!(project_task_run(&read).unwrap().status, TaskRunStatus::Queued);
    // One sequence keeps the order of appending; another run is untouched.
    let again = TaskEvent::RunCompleted { task_run_id: "t".into(), ts: 9 };
    store.append_event("t", 0, &again).unwrap();
    let read = store.read_events("t").unwrap();
    assert!(matches!(
        &read[..],
        [TaskEvent::Created { .. }, TaskEvent::RunCompleted { .. }, TaskEvent::Queued { .. }]
    ));
    assert!(store.read_events("u").unwrap().is_empty());
}
