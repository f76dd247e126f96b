use cwe_print::config::AppConfig;
use cwe_print::models::{PaperSize, PrintCommand, PrintFormat, PrintTask};
use cwe_print::printer::{
    PrintAction, PrintEngine, default_printer, dry_run_stem, dry_run_stem_at, encode_url_path,
    file_url, lp_args, plan_print, renderer_args, renderer_candidates, renderer_worth_trying, TargetOs, sanitize_filename, windows_print_args,
};
use std::sync::{Arc, Mutex};

fn command(format: PrintFormat, content: &str) -> PrintCommand {
    PrintCommand {
        id: "job/1".to_string(),
        command_type: "print".to_string(),
        format,
        content: content.to_string(),
        printer: None,
        copies: None,
        paper_size: None,
        margins: None,
        position: None,
        blocks: None,
        options: None,
    }
}

#[test]
fn file_names_keep_safe_characters_only() {
    assert_eq!(sanitize_filename("abc/def"), "abc_def");
    assert_eq!(sanitize_filename("a-b_c.d"), "a-b_c.d");
    assert_eq!(sanitize_filename("é 中"), "___");
    assert_eq!(sanitize_filename(""), "task");
    let long = "x".repeat(100);
    assert_eq!(sanitize_filename(&long), "x".repeat(80));
}

#[test]
fn dry_run_stems() {
    assert_eq!(dry_run_stem_at(1700000000000, "id/1"), "1700000000000-id_1");
    assert_eq!(dry_run_stem_at(5, ""), "5-task");
    let now = dry_run_stem("abc").unwrap();
    assert!(now.ends_with("-abc"));
    let millis: i64 = now.trim_end_matches("-abc").parse().unwrap();
    assert!(millis > 1_600_000_000_000);
}

#[test]
fn url_path_encoding() {
    assert_eq!(encode_url_path("/tmp/a b.html"), "/tmp/a%20b.html");
    assert_eq!(encode_url_path("C:/x~y"), "C:/x~y");
    assert_eq!(encode_url_path("中"), "%E4%B8%AD");
    assert_eq!(encode_url_path("%"), "%25");
}

#[test]
fn file_urls() {
    assert_eq!(file_url("/tmp/a b/document.html"), "file:///tmp/a%20b/document.html");
    assert_eq!(file_url(r"C:\Users\me\doc.html"), "file:///C:/Users/me/doc.html");
    assert_eq!(file_url(r"\\server\share"), "file:////server/share");
}

#[test]
fn default_printer_is_trimmed_or_none() {
    let mut c = AppConfig::default();
    assert_eq!(default_printer(&c), None);
    c.default_printer = "  Office HP ".to_string();
    assert_eq!(default_printer(&c).as_deref(), Some("Office HP"));
    c.default_printer = " \t".to_string();
    assert_eq!(default_printer(&c), None);
}

#[test]
fn lp_arguments() {
    assert_eq!(lp_args(&Some("HP".to_string()), 2), vec!["-d", "HP", "-n", "2"]);
    assert_eq!(lp_args(&None, 1), vec!["-n", "1"]);
}

#[test]
fn windows_print_command() {
    assert_eq!(
        windows_print_args(r"C:\Temp\a'b.pdf", &None, 2),
        vec![
            "-NoProfile",
            "-Command",
            r"1..2 | ForEach-Object { Start-Process -FilePath 'C:\Temp\a''b.pdf' -Verb Print }",
        ]
    );
    assert_eq!(
        windows_print_args(r"C:\x.pdf", &Some("HP".to_string()), 1),
        vec![
            "-NoProfile",
            "-Command",
            r#"1..1 | ForEach-Object { Start-Process -FilePath 'C:\x.pdf' -Verb PrintTo -ArgumentList '"HP"' }"#,
        ]
    );
}

#[test]
fn renderer_arguments() {
    assert_eq!(
        renderer_args("/tmp/out.pdf", "file:///tmp/in.html"),
        vec![
            "--headless",
            "--disable-gpu",
            "--run-all-compositor-stages-before-draw",
            "--virtual-time-budget=10000",
            "--print-to-pdf=/tmp/out.pdf",
            "file:///tmp/in.html",
        ]
    );
}

#[test]
fn plan_for_pdf_uses_the_command_printer_and_copies() {
    let mut c = command(PrintFormat::Pdf, "/tmp/x.pdf");
    c.printer = Some("Label".to_string());
    c.copies = Some(0);
    let mut cfg = AppConfig::default();
    cfg.default_printer = "Office".to_string();
    let p = plan_print(&c, &cfg).ok().unwrap();
    assert!(matches!(&p.action, PrintAction::PrintPdf { path } if path == "/tmp/x.pdf"));
    assert_eq!(p.printer.as_deref(), Some("Label"));
    assert_eq!(p.copies, 1);
    assert!(p.dry_run);
}

#[test]
fn plan_falls_back_to_the_default_printer() {
    let mut c = command(PrintFormat::Html, "<b>x</b>");
    c.copies = Some(4);
    let mut cfg = AppConfig::default();
    cfg.default_printer = " Office ".to_string();
    cfg.dry_run = false;
    let p = plan_print(&c, &cfg).ok().unwrap();
    assert!(matches!(&p.action, PrintAction::RenderHtml { html } if html.contains("<b>x</b>")));
    assert_eq!(p.printer.as_deref(), Some("Office"));
    assert_eq!(p.copies, 4);
    assert!(!p.dry_run);
}

#[test]
fn plan_for_images_and_escpos() {
    let c = command(PrintFormat::Image, "pic.png");
    let p = plan_print(&c, &AppConfig::default()).ok().unwrap();
    assert!(matches!(&p.action, PrintAction::RenderHtml { html } if html.contains(r#"<img src="pic.png""#)));
    let c = command(PrintFormat::Escpos, "raw");
    let p = plan_print(&c, &AppConfig::default()).ok().unwrap();
    assert!(matches!(p.action, PrintAction::Unsupported));
}

#[test]
fn plan_with_unknown_paper_fails() {
    let mut c = command(PrintFormat::Html, "x");
    c.paper_size = Some(PaperSize::Standard("Q9".to_string()));
    assert_eq!(plan_print(&c, &AppConfig::default()).err().unwrap().name, "Q9");
}

#[test]
fn engine_reads_the_shared_settings() {
    let shared = Arc::new(Mutex::new(AppConfig::default()));
    let engine = PrintEngine::new(shared.clone());
    let task = PrintTask::new(command(PrintFormat::Pdf, "/x.pdf")).unwrap();
    assert!(engine.plan(&task).unwrap().ok().unwrap().dry_run);
    {
        let mut c = shared.lock().unwrap();
        c.dry_run = false;
        c.default_printer = "Shared".to_string();
    }
    let p = engine.plan(&task).unwrap().ok().unwrap();
    assert!(!p.dry_run);
    assert_eq!(p.printer.as_deref(), Some("Shared"));
}

fn hex_value(b: u8) -> u8 {
    if b <= b'9' { b - b'0' } else { b - b'A' + 10 }
}

#[test]
fn url_path_encoding_decodes_back() {
    let path = "/a b/中";
    let encoded = encode_url_path(path);
    assert_eq!(encoded, "/a%20b/%E4%B8%AD");
    let bytes = encoded.as_bytes();
    let mut decoded = Vec::new();
    let mut i = 0;
    while i < bytes.len() {
        if bytes[i] == b'%' {
            decoded.push(hex_value(bytes[i + 1]) * 16 + hex_value(bytes[i + 2]));
            i += 3;
        } else {
            decoded.push(bytes[i]);
            i += 1;
        }
    }
    assert_eq!(decoded, path.as_bytes());
    assert_eq!(encode_url_path("/plain/path-1_2.~:x"), "/plain/path-1_2.~:x");
    assert_ne!(encode_url_path("/not plain"), "/not plain");
}

#[test]
fn quoted_printer_name_reads_back() {
    let args = windows_print_args("C:/d.pdf", &Some("O'Brien's".to_string()), 1);
    assert!(args[2].contains(r#"-ArgumentList '"O''Brien''s"' }"#));
    let body = r#""O''Brien''s""#;
    assert_eq!(body.replace("''", "'"), r#""O'Brien's""#);
}

#[test]
fn renderer_candidates_worth_trying() {
    assert!(renderer_worth_trying(1, false));
    assert!(renderer_worth_trying(0, false));
    assert!(renderer_worth_trying(4, true));
    assert!(!renderer_worth_trying(4, false));
}

#[test]
fn renderer_candidates_per_system() {
    let w = renderer_candidates(
        TargetOs::Windows,
        Some(r"C:\Program Files".to_string()),
        None,
        Some(r"C:\Users\u\AppData\Local".to_string()),
    );
    let shown: Vec<(Option<&str>, &str)> = w.iter().map(|c| (c.dir.as_deref(), c.path.as_str())).collect();
    assert_eq!(
        shown,
        vec![
            (Some(r"C:\Program Files"), "Microsoft/Edge/Application/msedge.exe"),
            (Some(r"C:\Program Files"), "Google/Chrome/Application/chrome.exe"),
            (Some(r"C:\Users\u\AppData\Local"), "Microsoft/Edge/Application/msedge.exe"),
            (Some(r"C:\Users\u\AppData\Local"), "Google/Chrome/Application/chrome.exe"),
            (None, "msedge.exe"),
            (None, "chrome.exe"),
        ]
    );
    let l = renderer_candidates(TargetOs::Linux, Some("ignored".to_string()), None, None);
    let names: Vec<&str> = l.iter().map(|c| c.path.as_str()).collect();
    assert_eq!(names, vec!["microsoft-edge", "google-chrome", "chromium", "chromium-browser"]);
    assert!(l.iter().all(|c| c.dir.is_none()));
    let m = renderer_candidates(TargetOs::MacOs, None, None, None);
    assert_eq!(m.len(), 3);
    assert_eq!(m[2].path, "/Applications/Chromium.app/Contents/MacOS/Chromium");
    assert!(renderer_candidates(TargetOs::Other, None, None, None).is_empty());
}
