use cwe_print::config::AppConfig;
use cwe_print::models::{
    EndpointStatus, PrintCommand, PrintFormat, PrintResult, PrintTaskStatus, QueueStats,
};
use cwe_print::service::{
    TcpService, WsService, check_command, enqueue_response, reprint_command, reprint_command_at,
    service_status,
};

fn command(id: &str, kind: &str) -> PrintCommand {
    PrintCommand {
        id: id.to_string(),
        command_type: kind.to_string(),
        format: PrintFormat::Pdf,
        content: "/a.pdf".to_string(),
        printer: None,
        copies: None,
        paper_size: None,
        margins: None,
        position: None,
        blocks: None,
        options: Some("{\"k\":1}".to_string()),
    }
}

#[test]
fn new_endpoint_is_idle_on_its_port() {
    let t = TcpService::new(9527);
    assert_eq!(t.status(), EndpointStatus { running: false, port: 9527, clients: 0 });
    assert_eq!(t.port(), 9527);
    let w = WsService::new(9528);
    assert_eq!(w.status(), EndpointStatus { running: false, port: 9528, clients: 0 });
}

#[test]
fn endpoint_counters_are_shared_by_copies() {
    let t = TcpService::new(1);
    let copy = t.clone();
    copy.mark_running();
    copy.client_connected();
    copy.client_connected();
    assert_eq!(t.status(), EndpointStatus { running: true, port: 1, clients: 2 });
    t.client_disconnected();
    assert_eq!(copy.status().clients, 1);
    let w = WsService::new(2);
    w.mark_running();
    w.client_connected();
    assert_eq!(w.status(), EndpointStatus { running: true, port: 2, clients: 1 });
    w.client_disconnected();
    assert_eq!(w.status().clients, 0);
}

#[test]
fn status_of_stopped_services_uses_configured_ports() {
    let cfg = AppConfig::default();
    let q = QueueStats { pending: 1, active: 0, completed: 2, failed: 3 };
    let s = service_status(&cfg, None, None, q);
    assert_eq!(s.tcp, EndpointStatus { running: false, port: 9527, clients: 0 });
    assert_eq!(s.ws, EndpointStatus { running: false, port: 9528, clients: 0 });
    assert_eq!(s.print_queue, q);
    let live = EndpointStatus { running: true, port: 1, clients: 4 };
    let s = service_status(&cfg, Some(live), None, q);
    assert_eq!(s.tcp, live);
}

#[test]
fn unparsed_message_is_a_format_error() {
    let r = check_command(None).err().unwrap();
    assert!(!r.success);
    assert_eq!(r.error.as_deref(), Some("指令格式错误"));
    assert!(r.result.is_none());
}

#[test]
fn invalid_command_is_answered_with_the_reason() {
    let r = check_command(Some(command("a", "cancel"))).err().unwrap();
    assert_eq!(r.error.as_deref(), Some("未知指令类型"));
    let r = check_command(Some(command("  ", "print"))).err().unwrap();
    assert_eq!(r.error.as_deref(), Some("打印任务 id 不能为空"));
}

#[test]
fn valid_command_passes_unchanged() {
    let c = check_command(Some(command("a", "print"))).ok().unwrap();
    assert_eq!(c.id, "a");
    assert_eq!(c.options.as_deref(), Some("{\"k\":1}"));
}

#[test]
fn enqueue_outcomes_become_replies() {
    let r = enqueue_response(Ok(PrintResult {
        task_id: "a".to_string(),
        status: PrintTaskStatus::Success,
        error: None,
    }));
    assert!(r.success);
    let r = enqueue_response(Err("channel closed".to_string()));
    assert!(!r.success);
    assert_eq!(r.error.as_deref(), Some("channel closed"));
}

#[test]
fn reprint_ids() {
    let c = reprint_command_at(command("job", "print"), 1700000000123);
    assert_eq!(c.id, "job-reprint-1700000000123");
    assert_eq!(c.content, "/a.pdf");
    let c = reprint_command_at(command("", "print"), 7);
    assert_eq!(c.id, "-reprint-7");
    assert!(c.validate().is_ok());
    let c = reprint_command(command("x", "print")).unwrap();
    assert!(c.id.starts_with("x-reprint-"));
}
