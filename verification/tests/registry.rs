use flow_farm::registry::{AutomationTask, Request, TaskRegistry, TaskStatus};
use flow_farm::workflow::Outcome;

fn task(id: &str, items: &[&str]) -> AutomationTask {
    AutomationTask::new(id.to_string(), "emulator-5554".to_string(), items.iter().map(|s| s.to_string()).collect())
}

#[test]
fn a_task_starts_as_created() {
    let t = task("t1", &["a", "b"]);
    assert_eq!(t.id, "t1");
    assert_eq!(t.device_id, "emulator-5554");
    assert_eq!(t.items, vec!["a", "b"]);
    assert_eq!(t.status, TaskStatus::Created);
    assert!(t.results.is_empty());
    assert!(!t.goes_on());
}

#[test]
fn a_task_moves_through_its_statuses() {
    let mut t = task("t1", &["a"]);
    assert!(!t.pause());
    assert!(!t.finish(true));
    assert!(t.start());
    assert_eq!(t.status, TaskStatus::Running);
    assert!(!t.start());
    assert!(t.goes_on());
    assert!(t.pause());
    assert_eq!(t.status, TaskStatus::Paused);
    assert!(!t.goes_on());
    assert!(!t.record(Outcome::Completed));
    assert!(t.start());
    assert!(t.record(Outcome::ElementNotFound));
    assert_eq!(t.results, vec![Outcome::ElementNotFound]);
    assert!(!t.goes_on());
    assert!(!t.record(Outcome::Completed));
    assert!(t.finish(true));
    assert_eq!(t.status, TaskStatus::Completed);
}

#[test]
fn a_task_that_has_ended_stays_as_it_is() {
    for end in [TaskStatus::Stopped, TaskStatus::Completed, TaskStatus::Failed] {
        let mut t = task("t", &["a"]);
        t.status = end;
        assert!(end.is_terminal());
        assert!(!t.start());
        assert!(!t.pause());
        assert!(!t.stop());
        assert!(!t.finish(false));
        assert!(!t.record(Outcome::Completed));
        assert_eq!(t.status, end);
    }
    let mut t = task("t", &[]);
    assert!(t.stop());
    assert_eq!(t.status, TaskStatus::Stopped);
    let mut t = task("t", &[]);
    t.start();
    assert!(t.finish(false));
    assert_eq!(t.status, TaskStatus::Failed);
    assert!(!TaskStatus::Created.is_terminal());
    assert!(!TaskStatus::Running.is_terminal());
    assert!(!TaskStatus::Paused.is_terminal());
}

#[test]
fn statuses_have_names() {
    let names: Vec<&str> = [
        TaskStatus::Created,
        TaskStatus::Running,
        TaskStatus::Paused,
        TaskStatus::Stopped,
        TaskStatus::Completed,
        TaskStatus::Failed,
    ]
    .iter()
    .map(|s| s.as_str())
    .collect();
    assert_eq!(names, vec!["created", "running", "paused", "stopped", "completed", "failed"]);
}

#[test]
fn the_registry_holds_tasks_by_identifier() {
    let mut r = TaskRegistry::new();
    assert_eq!(r.len(), 0);
    assert!(r.get("t1").is_none());
    assert!(r.insert(task("t1", &["a"])).is_none());
    assert!(r.insert(task("t2", &["b", "c"])).is_none());
    assert!(r.insert(task("t3", &[])).is_none());
    assert_eq!(r.len(), 3);
    assert_eq!(r.get("t2").map(|t| t.items.len()), Some(2));
    assert!(r.get("T2").is_none());
    assert!(r.get("t").is_none());

    let previous = r.insert(task("t1", &["x", "y", "z"])).unwrap();
    assert_eq!(previous.items, vec!["a"]);
    assert_eq!(r.len(), 3);
    assert_eq!(r.get("t1").map(|t| t.items.len()), Some(3));
    assert_eq!(r.get("t2").map(|t| t.items.len()), Some(2));
    assert_eq!(r.get("t3").map(|t| t.items.len()), Some(0));

    let removed = r.remove("t2").unwrap();
    assert_eq!(removed.id, "t2");
    assert_eq!(r.len(), 2);
    assert!(r.get("t2").is_none());
    assert!(r.remove("t2").is_none());
    assert_eq!(r.get("t1").map(|t| t.items.len()), Some(3));
    assert_eq!(r.get("t3").map(|t| t.id.as_str()), Some("t3"));
}

#[test]
fn the_registry_updates_only_what_it_holds() {
    let mut r = TaskRegistry::new();
    r.insert(task("t1", &["a"]));
    let mut changed = task("t1", &["a"]);
    changed.start();
    changed.record(Outcome::Completed);
    assert!(r.update(changed).is_ok());
    assert_eq!(r.get("t1").map(|t| t.results.len()), Some(1));
    let back = r.update(task("t9", &[])).unwrap_err();
    assert_eq!(back.id, "t9");
    assert_eq!(r.len(), 1);
    assert!(r.get("t9").is_none());
}

#[test]
fn tasks_are_asked_to_move_through_the_registry() {
    let mut r = TaskRegistry::new();
    r.insert(task("t1", &["a"]));
    r.insert(task("t2", &["a"]));
    assert_eq!(r.start_task("t1"), Ok(true));
    assert_eq!(r.start_task("t1"), Ok(false));
    assert_eq!(r.get("t1").map(|t| t.status), Some(TaskStatus::Running));
    assert_eq!(r.get("t2").map(|t| t.status), Some(TaskStatus::Created));
    assert_eq!(r.pause_task("t1"), Ok(true));
    assert_eq!(r.pause_task("t2"), Ok(false));
    assert_eq!(r.request("t1", Request::Start), Ok(true));
    assert_eq!(r.stop_task("t1"), Ok(true));
    assert_eq!(r.stop_task("t1"), Ok(false));
    assert_eq!(r.get("t1").map(|t| t.status), Some(TaskStatus::Stopped));
    assert_eq!(r.stop_task("t2"), Ok(true));
    assert_eq!(r.start_task("missing"), Err("Task not found".to_string()));
    assert_eq!(r.stop_task(""), Err("Task not found".to_string()));
    assert_eq!(r.len(), 2);
}
