use cwe_print::html::{build_blocks, build_print_html, escape_attr, image_command};
use cwe_print::models::{
    CustomPaperSize, PaperSize, PaperUnit, PrintBlock, PrintCommand, PrintFormat, PrintMargins,
    PrintPosition,
};
use cwe_print::paper::{dimensions, standard};

fn command(content: &str) -> PrintCommand {
    PrintCommand {
        id: "t1".to_string(),
        command_type: "print".to_string(),
        format: PrintFormat::Html,
        content: content.to_string(),
        printer: None,
        copies: None,
        paper_size: None,
        margins: None,
        position: None,
        blocks: None,
        options: None,
    }
}

fn pos(top: &str, left: &str) -> PrintPosition {
    PrintPosition { top: top.to_string(), left: left.to_string() }
}

#[test]
fn standard_paper_sizes() {
    let a4 = standard("A4").ok().unwrap();
    assert_eq!((a4.width_mm.as_str(), a4.height_mm.as_str()), ("210", "297"));
    let l = standard("Letter").ok().unwrap();
    assert_eq!((l.width_mm.as_str(), l.height_mm.as_str()), ("216", "279"));
    let p = standard("4x6").ok().unwrap();
    assert_eq!((p.width_mm.as_str(), p.height_mm.as_str()), ("102", "152"));
}

#[test]
fn unknown_paper_size_is_an_error() {
    let e = standard("A7").err().unwrap();
    assert_eq!(e.name, "A7");
    assert_eq!(e.message(), "不支持的纸张尺寸: A7");
    assert!(standard("a4").is_err());
}

#[test]
fn custom_paper_uses_its_millimetre_values() {
    let size = PaperSize::Custom(CustomPaperSize {
        width: "4".to_string(),
        height: "6".to_string(),
        unit: PaperUnit::In,
        width_mm: "101.6".to_string(),
        height_mm: "152.39999999999998".to_string(),
    });
    let d = dimensions(&size).ok().unwrap();
    assert_eq!(d.width_mm, "101.6");
    assert_eq!(d.height_mm, "152.39999999999998");
    let d = dimensions(&PaperSize::Standard("A5".to_string())).ok().unwrap();
    assert_eq!(d.width_mm, "148");
}

#[test]
fn attribute_escaping() {
    assert_eq!(escape_attr(r#"a&b"<>c"#), "a&amp;b&quot;&lt;&gt;c");
    assert_eq!(escape_attr("&amp;"), "&amp;amp;");
    assert_eq!(escape_attr("plain 文字"), "plain 文字");
    let e = escape_attr(r#""><script>"#);
    assert!(!e.contains('"') && !e.contains('<') && !e.contains('>'));
}

#[test]
fn content_without_position_or_blocks_goes_to_the_corner() {
    let b = build_blocks(&command("hi"));
    assert_eq!(b.len(), 1);
    assert_eq!(b[0].content, "hi");
    assert_eq!((b[0].position.top.as_str(), b[0].position.left.as_str()), ("0", "0"));
}

#[test]
fn content_with_position_is_appended_after_blocks() {
    let mut c = command("tail");
    c.position = Some(pos("5", "6"));
    c.blocks = Some(vec![PrintBlock { content: "head".to_string(), position: pos("1", "2") }]);
    let b = build_blocks(&c);
    assert_eq!(b.len(), 2);
    assert_eq!(b[0].content, "head");
    assert_eq!(b[1].content, "tail");
    assert_eq!(b[1].position.top, "5");
}

#[test]
fn content_is_dropped_when_blocks_exist_and_no_position() {
    let mut c = command("ignored");
    c.blocks = Some(vec![PrintBlock { content: "only".to_string(), position: pos("1", "2") }]);
    let b = build_blocks(&c);
    assert_eq!(b.len(), 1);
    assert_eq!(b[0].content, "only");
    assert!(build_blocks(&command("")).is_empty());
}

#[test]
fn page_without_paper_size() {
    let html = build_print_html(&command("<p>x</p>")).ok().unwrap();
    let expected = r#"<!DOCTYPE html>
<html>
<head>
<meta charset="UTF-8">
<style>
@page { margin: 10mm 10mm 10mm 10mm; }
* { box-sizing: border-box; }
html, body { margin: 0; padding: 0; }
body { position: relative; overflow: hidden; }
.print-block { overflow: hidden; }
@media print { body { -webkit-print-color-adjust: exact; print-color-adjust: exact; } }
</style>
</head>
<body>
<div class="print-block print-block-0" style="position:absolute;top:0mm;left:0mm;box-sizing:border-box;"><p>x</p></div>
</body>
</html>"#;
    assert_eq!(html, expected);
}

#[test]
fn page_with_paper_size_margins_and_blocks() {
    let mut c = command("");
    c.paper_size = Some(PaperSize::Standard("A4".to_string()));
    c.margins = Some(PrintMargins {
        top: "1".to_string(),
        left: "2".to_string(),
        right: "3".to_string(),
        bottom: "4".to_string(),
    });
    c.blocks = Some(vec![
        PrintBlock { content: "A".to_string(), position: pos("0.5", "1") },
        PrintBlock { content: "B".to_string(), position: pos("10", "20") },
    ]);
    let html = build_print_html(&c).ok().unwrap();
    let expected = r#"<!DOCTYPE html>
<html>
<head>
<meta charset="UTF-8">
<style>
@page { size: 210mm 297mm; margin: 1mm 3mm 4mm 2mm; }
* { box-sizing: border-box; }
html, body { margin: 0; padding: 0; }
body { width: 210mm; height: 297mm; position: relative; overflow: hidden; }
.print-block { overflow: hidden; }
@media print { body { -webkit-print-color-adjust: exact; print-color-adjust: exact; } }
</style>
</head>
<body>
<div class="print-block print-block-0" style="position:absolute;top:0.5mm;left:1mm;box-sizing:border-box;">A</div>
<div class="print-block print-block-1" style="position:absolute;top:10mm;left:20mm;box-sizing:border-box;">B</div>
</body>
</html>"#;
    assert_eq!(html, expected);
}

#[test]
fn page_with_unknown_paper_is_an_error() {
    let mut c = command("x");
    c.paper_size = Some(PaperSize::Standard("Huge".to_string()));
    let e = build_print_html(&c).err().unwrap();
    assert_eq!(e.name, "Huge");
}

#[test]
fn image_becomes_one_image_block() {
    let mut c = command(r#"data:image/png;base64,AA"B"#);
    c.format = PrintFormat::Image;
    c.position = Some(pos("3", "4"));
    let i = image_command(&c);
    assert_eq!(i.format, PrintFormat::Html);
    assert_eq!(i.content, "");
    let blocks = i.blocks.unwrap();
    assert_eq!(blocks.len(), 1);
    assert_eq!(
        blocks[0].content,
        r#"<img src="data:image/png;base64,AA&quot;B" style="max-width:100%;display:block;" />"#
    );
    assert_eq!(blocks[0].position.top, "3");
}

#[test]
fn image_with_blocks_keeps_them() {
    let mut c = command("src.png");
    c.format = PrintFormat::Image;
    c.blocks = Some(vec![PrintBlock { content: "own".to_string(), position: pos("1", "1") }]);
    let i = image_command(&c);
    assert_eq!(i.format, PrintFormat::Html);
    assert_eq!(i.content, "src.png");
    assert_eq!(i.blocks.unwrap()[0].content, "own");
}

#[test]
fn escaped_text_reads_back() {
    let e = escape_attr("a&\"<>");
    assert_eq!(e, "a&amp;&quot;&lt;&gt;");
    let back = e
        .replace("&quot;", "\"")
        .replace("&lt;", "<")
        .replace("&gt;", ">")
        .replace("&amp;", "&");
    assert_eq!(back, "a&\"<>");
    assert_eq!(escape_attr("&lt;"), "&amp;lt;");
}
