use cwe_print::config::{AppConfig, PartialAppConfig};

fn none() -> PartialAppConfig {
    PartialAppConfig {
        tcp_port: None,
        ws_port: None,
        auto_start: None,
        default_printer: None,
        log_level: None,
        dry_run: None,
    }
}

#[test]
fn defaults() {
    let c = AppConfig::default();
    assert_eq!(c.tcp_port, 9527);
    assert_eq!(c.ws_port, 9528);
    assert!(c.auto_start);
    assert_eq!(c.default_printer, "");
    assert_eq!(c.log_level, "info");
    assert!(c.dry_run);
}

#[test]
fn blank_log_level_becomes_info() {
    let mut c = AppConfig::default();
    c.log_level = "  ".to_string();
    assert_eq!(c.normalized().log_level, "info");
    let mut c = AppConfig::default();
    c.log_level = "debug".to_string();
    assert_eq!(c.clone().normalized().log_level, "debug");
    let n = AppConfig::default().normalized();
    assert_eq!(n.log_level, "info");
}

#[test]
fn empty_update_changes_nothing() {
    let c = AppConfig::default();
    let u = c.updated(none());
    assert!(!u.restart_services);
    assert_eq!(u.config.tcp_port, 9527);
    assert_eq!(u.config.ws_port, 9528);
    assert_eq!(u.config.log_level, "info");
    assert!(u.config.dry_run);
}

#[test]
fn changed_port_restarts_when_auto_started() {
    let c = AppConfig::default();
    let mut p = none();
    p.tcp_port = Some(9000);
    p.dry_run = Some(false);
    let u = c.updated(p);
    assert!(u.restart_services);
    assert_eq!(u.config.tcp_port, 9000);
    assert!(!u.config.dry_run);
    assert_eq!(u.config.ws_port, 9528);
}

#[test]
fn same_port_does_not_restart() {
    let c = AppConfig::default();
    let mut p = none();
    p.ws_port = Some(9528);
    p.default_printer = Some("HP".to_string());
    let u = c.updated(p);
    assert!(!u.restart_services);
    assert_eq!(u.config.default_printer, "HP");
}

#[test]
fn no_restart_without_auto_start() {
    let mut c = AppConfig::default();
    c.auto_start = false;
    let mut p = none();
    p.ws_port = Some(1);
    let u = c.updated(p);
    assert!(!u.restart_services);
    assert_eq!(u.config.ws_port, 1);
}

#[test]
fn update_is_idempotent() {
    let c = AppConfig::default();
    let mk = || {
        let mut p = none();
        p.tcp_port = Some(7000);
        p.log_level = Some("warn".to_string());
        p
    };
    let once = c.updated(mk());
    let twice = once.config.updated(mk());
    assert!(once.restart_services);
    assert!(!twice.restart_services);
    assert_eq!(twice.config.tcp_port, once.config.tcp_port);
    assert_eq!(twice.config.log_level, once.config.log_level);
}
