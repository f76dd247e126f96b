use cwe_print::models::{
    CommandError, CommandResponse, PrintCommand, PrintFormat, PrintMargins, PrintPosition,
    PrintResult, PrintTask, PrintTaskStatus,
};

fn command(id: &str, kind: &str) -> PrintCommand {
    PrintCommand {
        id: id.to_string(),
        command_type: kind.to_string(),
        format: PrintFormat::Html,
        content: "<p>x</p>".to_string(),
        printer: None,
        copies: None,
        paper_size: None,
        margins: None,
        position: None,
        blocks: None,
        options: None,
    }
}

#[test]
fn validate_accepts_print_commands_with_an_id() {
    assert_eq!(command("job-1", "print").validate(), Ok(()));
}

#[test]
fn validate_refuses_unknown_types_first() {
    let r = command("", "scan").validate();
    assert_eq!(r, Err(CommandError::UnknownType));
    assert_eq!(CommandError::UnknownType.message(), "未知指令类型");
}

#[test]
fn validate_refuses_blank_ids() {
    assert_eq!(command("", "print").validate(), Err(CommandError::EmptyId));
    assert_eq!(command(" \t", "print").validate(), Err(CommandError::EmptyId));
    assert_eq!(CommandError::EmptyId.message(), "打印任务 id 不能为空");
}

#[test]
fn default_margins_are_ten_millimetres() {
    let m = PrintMargins::default();
    assert_eq!((m.top.as_str(), m.left.as_str(), m.right.as_str(), m.bottom.as_str()), ("10", "10", "10", "10"));
    let o = PrintPosition::origin();
    assert_eq!((o.top.as_str(), o.left.as_str()), ("0", "0"));
}

#[test]
fn new_task_is_pending_and_stamped_now() {
    let t = PrintTask::new(command("a", "print")).unwrap();
    assert_eq!(t.status, PrintTaskStatus::Pending);
    assert!(t.created_at > 1_600_000_000_000);
    assert!(t.started_at.is_none() && t.completed_at.is_none() && t.error.is_none());
    assert_eq!(t.command.id, "a");
    let u = PrintTask::new_at(command("b", "print"), 42);
    assert_eq!(u.created_at, 42);
}

#[test]
fn ok_response_repeats_the_result() {
    let r = CommandResponse::ok(PrintResult {
        task_id: "a".to_string(),
        status: PrintTaskStatus::Success,
        error: None,
    });
    assert!(r.success);
    assert_eq!(r.result.as_ref().unwrap().task_id, "a");
    assert!(r.error.is_none());

    let r = CommandResponse::ok(PrintResult {
        task_id: "b".to_string(),
        status: PrintTaskStatus::Failed,
        error: Some("boom".to_string()),
    });
    assert!(!r.success);
    assert_eq!(r.error.as_deref(), Some("boom"));
    assert_eq!(r.result.unwrap().status, PrintTaskStatus::Failed);
}

#[test]
fn err_response_has_no_result() {
    let r = CommandResponse::err("bad".to_string());
    assert!(!r.success);
    assert!(r.result.is_none());
    assert_eq!(r.error.as_deref(), Some("bad"));
}

#[test]
fn cloned_command_is_equal() {
    let mut c = command("x", "print");
    c.printer = Some("p".to_string());
    c.copies = Some(3);
    let d = c.clone();
    assert_eq!(d.id, "x");
    assert_eq!(d.printer.as_deref(), Some("p"));
    assert_eq!(d.copies, Some(3));
}
