use cwe_print::printers::{
    PRINTER_STATUS_OFFLINE, PRINTER_STATUS_PRINTING, PRINTER_STATUS_READY,
    PRINTER_STATUS_STOPPED, PRINTER_STATUS_UNKNOWN, PRINTER_STATUS_WARMUP, WindowsPrinterRecord,
    PrinterJson, lpstat_query_printers, normalize_windows_printer_status, parse_lpstat,
    printer_records, windows_printers, windows_printers_from_output, windows_query_printers,
};

#[test]
fn lpstat_output_is_parsed() {
    let raw = "printer HP_LaserJet is idle.  enabled since Mon\n\
printer Label now printing Label-12.  enabled since Tue\r\n\
printer Old disabled since Wed -\n\
printer Far is offline\n\
printer Odd status\n\
printer NoSpace\n\
system default destination: Label\n";
    let ps = parse_lpstat(raw);
    let names: Vec<&str> = ps.iter().map(|p| p.name.as_str()).collect();
    assert_eq!(names, vec!["HP_LaserJet", "Label", "Old", "Far", "Odd"]);
    let statuses: Vec<i32> = ps.iter().map(|p| p.status).collect();
    assert_eq!(
        statuses,
        vec![
            PRINTER_STATUS_READY,
            PRINTER_STATUS_PRINTING,
            PRINTER_STATUS_STOPPED,
            PRINTER_STATUS_OFFLINE,
            PRINTER_STATUS_UNKNOWN,
        ]
    );
    let defaults: Vec<bool> = ps.iter().map(|p| p.is_default).collect();
    assert_eq!(defaults, vec![false, true, false, false, false]);
    assert_eq!(ps[1].description, "printer Label now printing Label-12.  enabled since Tue");
}

#[test]
fn lpstat_without_default_or_printers() {
    assert!(parse_lpstat("").is_empty());
    assert!(parse_lpstat("no system default destination\n").is_empty());
    let ps = parse_lpstat("system default destination:    \nprinter A is idle\n");
    assert_eq!(ps.len(), 1);
    assert!(!ps[0].is_default);
}

#[test]
fn windows_status_codes() {
    assert_eq!(normalize_windows_printer_status(3), PRINTER_STATUS_READY);
    assert_eq!(normalize_windows_printer_status(4), PRINTER_STATUS_PRINTING);
    assert_eq!(normalize_windows_printer_status(5), PRINTER_STATUS_WARMUP);
    assert_eq!(normalize_windows_printer_status(6), PRINTER_STATUS_STOPPED);
    assert_eq!(normalize_windows_printer_status(7), PRINTER_STATUS_OFFLINE);
    assert_eq!(normalize_windows_printer_status(1), PRINTER_STATUS_UNKNOWN);
    assert_eq!(normalize_windows_printer_status(-3), PRINTER_STATUS_UNKNOWN);
}

#[test]
fn windows_records_become_printers() {
    let records = vec![
        WindowsPrinterRecord {
            name: Some("Office".to_string()),
            driver_name: Some("HP Driver".to_string()),
            status: Some(3),
            is_default: Some(true),
        },
        WindowsPrinterRecord { name: None, driver_name: None, status: Some(3), is_default: None },
        WindowsPrinterRecord { name: Some("Bare".to_string()), driver_name: None, status: None, is_default: None },
    ];
    let ps = windows_printers(&records);
    assert_eq!(ps.len(), 2);
    assert_eq!(ps[0].name, "Office");
    assert_eq!(ps[0].description, "HP Driver");
    assert_eq!(ps[0].status, PRINTER_STATUS_READY);
    assert!(ps[0].is_default);
    assert_eq!(ps[1].description, "系统打印机");
    assert_eq!(ps[1].status, PRINTER_STATUS_UNKNOWN);
    assert!(!ps[1].is_default);
}

#[test]
fn windows_query_output_is_decoded() {
    let raw = r#" [{"Name":"Office","DriverName":"HP Driver","PrinterStatus":4,"Default":true},{"DriverName":"x"},{"Name":"Bare","PrinterStatus":"3","Default":1}] "#;
    let ps = windows_printers_from_output(raw).unwrap();
    assert_eq!(ps.len(), 2);
    assert_eq!(ps[0].name, "Office");
    assert_eq!(ps[0].description, "HP Driver");
    assert_eq!(ps[0].status, PRINTER_STATUS_PRINTING);
    assert!(ps[0].is_default);
    assert_eq!(ps[1].name, "Bare");
    assert_eq!(ps[1].description, "系统打印机");
    assert_eq!(ps[1].status, PRINTER_STATUS_UNKNOWN);
    assert!(!ps[1].is_default);
}

#[test]
fn windows_query_single_object_blank_and_bad_output() {
    let ps = windows_printers_from_output(r#"{"Name":"Solo","PrinterStatus":7}"#).unwrap();
    assert_eq!(ps.len(), 1);
    assert_eq!(ps[0].status, PRINTER_STATUS_OFFLINE);
    assert!(windows_printers_from_output("  \r\n").unwrap().is_empty());
    assert!(windows_printers_from_output("not json").is_none());
}

#[test]
fn a_lone_json_value_is_one_record() {
    let solo = WindowsPrinterRecord {
        name: Some("Solo".to_string()),
        driver_name: None,
        status: Some(3),
        is_default: Some(true),
    };
    let rs = printer_records(PrinterJson::Object(solo));
    assert_eq!(rs.len(), 1);
    assert_eq!(rs[0].name.as_deref(), Some("Solo"));
    let rs = printer_records(PrinterJson::Scalar);
    assert_eq!(rs.len(), 1);
    assert!(rs[0].name.is_none() && rs[0].driver_name.is_none());
    assert!(rs[0].status.is_none() && rs[0].is_default.is_none());
    assert!(windows_printers(&rs).is_empty());
    assert!(printer_records(PrinterJson::List(Vec::new())).is_empty());
    assert!(windows_printers_from_output("42").unwrap().is_empty());
    assert!(windows_printers_from_output("\"Name\"").unwrap().is_empty());
}

#[test]
fn failed_printer_queries_list_nothing() {
    assert!(windows_query_printers(false, r#"{"Name":"Solo"}"#).unwrap().is_empty());
    assert!(windows_query_printers(false, "not json").unwrap().is_empty());
    assert_eq!(windows_query_printers(true, r#"{"Name":"Solo"}"#).unwrap().len(), 1);
    assert!(windows_query_printers(true, "not json").is_none());
    assert!(lpstat_query_printers(false, "printer A is idle.\n").is_empty());
    let ps = lpstat_query_printers(true, "printer A is idle.\nsystem default destination: A\n");
    assert_eq!(ps.len(), 1);
    assert!(ps[0].is_default);
}
