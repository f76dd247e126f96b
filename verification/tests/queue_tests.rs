use cwe_print::models::{PrintCommand, PrintFormat, PrintTask, PrintTaskStatus, QueueStats};
use cwe_print::queue::QueueState;

fn task(id: &str, content: &str) -> PrintTask {
    PrintTask::new_at(
        PrintCommand {
            id: id.to_string(),
            command_type: "print".to_string(),
            format: PrintFormat::Html,
            content: content.to_string(),
            printer: None,
            copies: None,
            paper_size: None,
            margins: None,
            position: None,
            blocks: None,
            options: None,
        },
        100,
    )
}

#[test]
fn empty_queue() {
    let q = QueueState::new();
    assert_eq!(q.stats(), QueueStats { pending: 0, active: 0, completed: 0, failed: 0 });
    assert!(q.all_tasks().is_empty());
    assert!(q.task_command("a").is_none());
}

#[test]
fn enqueue_adds_a_waiting_task() {
    let mut q = QueueState::new();
    q.enqueue(task("a", "one"));
    q.enqueue(task("b", "two"));
    assert_eq!(q.stats().pending, 2);
    assert_eq!(q.all_tasks().len(), 2);
    assert_eq!(q.task_command("b").unwrap().content, "two");
}

#[test]
fn first_task_of_an_id_is_found() {
    let mut q = QueueState::new();
    q.enqueue(task("a", "first"));
    q.enqueue(task("a", "second"));
    assert_eq!(q.task_command("a").unwrap().content, "first");
}

#[test]
fn successful_lifecycle() {
    let mut q = QueueState::new();
    let mut t = task("a", "x");
    q.enqueue(t.clone());
    q.start_task_at(&mut t, 200);
    assert_eq!(q.stats(), QueueStats { pending: 0, active: 1, completed: 0, failed: 0 });
    assert_eq!(t.status, PrintTaskStatus::Printing);
    assert_eq!(q.all_tasks()[0].started_at, Some(200));
    let r = q.finish_task_at(&mut t, Ok(()), 300);
    assert_eq!(r.task_id, "a");
    assert_eq!(r.status, PrintTaskStatus::Success);
    assert!(r.error.is_none());
    assert_eq!(q.stats(), QueueStats { pending: 0, active: 0, completed: 1, failed: 0 });
    let stored = &q.all_tasks()[0];
    assert_eq!(stored.status, PrintTaskStatus::Success);
    assert_eq!(stored.completed_at, Some(300));
    assert_eq!(stored.created_at, 100);
}

#[test]
fn failed_lifecycle_records_the_error() {
    let mut q = QueueState::new();
    let mut t = task("b", "x");
    q.enqueue(t.clone());
    q.enqueue(task("c", "y"));
    assert!(q.start_task(&mut t));
    assert_eq!(q.stats().pending, 1);
    assert!(t.started_at.unwrap() > 1_600_000_000_000);
    let r = q.finish_task(&mut t, Err("打印机离线".to_string())).unwrap();
    assert_eq!(r.status, PrintTaskStatus::Failed);
    assert_eq!(r.error.as_deref(), Some("打印机离线"));
    assert_eq!(q.stats(), QueueStats { pending: 1, active: 0, completed: 0, failed: 1 });
    let all = q.all_tasks();
    assert_eq!(all[0].status, PrintTaskStatus::Failed);
    assert_eq!(all[0].error.as_deref(), Some("打印机离线"));
    assert_eq!(all[1].status, PrintTaskStatus::Pending);
}

#[test]
fn starting_removes_every_waiting_entry_of_the_id() {
    let mut q = QueueState::new();
    let mut t = task("a", "1");
    q.enqueue(t.clone());
    q.enqueue(task("b", "2"));
    q.enqueue(task("a", "3"));
    q.start_task_at(&mut t, 1);
    assert_eq!(q.stats().pending, 1);
}

#[test]
fn counts_follow_a_whole_run() {
    let mut q = QueueState::new();
    let mut a = task("a", "one");
    let mut b = task("b", "two");
    let mut c = task("c", "three");
    q.enqueue(a.clone());
    q.enqueue(b.clone());
    q.start_task_at(&mut a, 10);
    q.enqueue(c.clone());
    assert_eq!(q.stats(), QueueStats { pending: 2, active: 1, completed: 0, failed: 0 });
    q.finish_task_at(&mut a, Ok(()), 11);
    q.start_task_at(&mut b, 12);
    q.finish_task_at(&mut b, Err("offline".to_string()), 13);
    assert_eq!(q.stats(), QueueStats { pending: 1, active: 0, completed: 1, failed: 1 });
    q.start_task_at(&mut c, 14);
    q.finish_task_at(&mut c, Ok(()), 15);
    let stats = q.stats();
    assert_eq!(stats, QueueStats { pending: 0, active: 0, completed: 2, failed: 1 });
    let tasks = q.all_tasks();
    let successes = tasks.iter().filter(|t| t.status == PrintTaskStatus::Success).count();
    let failures = tasks.iter().filter(|t| t.status == PrintTaskStatus::Failed).count();
    assert_eq!(successes, stats.completed);
    assert_eq!(failures, stats.failed);
    assert_eq!(tasks[0].started_at, Some(10));
    assert_eq!(tasks[0].completed_at, Some(11));
    assert_eq!(tasks[1].error.as_deref(), Some("offline"));
    assert_eq!(tasks[2].started_at, Some(14));
}
