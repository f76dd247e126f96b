//! The HTML page that a print command becomes before it is rendered to PDF.

use vstd::prelude::*;
use crate::models::{
    BlockModel, CommandModel, MarginsModel, PrintBlock, PrintCommand, PrintFormat,
    PositionModel, PrintMargins, PrintPosition, clone_blocks, default_margins, origin_model,
};
use crate::paper::{DimensionsModel, PaperDimensions, PaperError, dimensions, page_size};
use crate::text::{chars_of, decimal, push_char, push_decimal};

verus! {

/// The text that stands for `c` in an HTML attribute value.
pub open spec fn escape_char(c: char) -> Seq<char> {
    if c == '&' {
        "&amp;"@
    } else if c == '"' {
        "&quot;"@
    } else if c == '<' {
        "&lt;"@
    } else if c == '>' {
        "&gt;"@
    } else {
        seq![c]
    }
}

/// `s` with `&`, `"`, `<` and `>` written as character references.
pub open spec fn escaped(s: Seq<char>) -> Seq<char>
    decreases s.len(),
{
    if s.len() == 0 {
        Seq::empty()
    } else {
        escaped(s.drop_last()) + escape_char(s.last())
    }
}

/// Escapes `value` for use inside a double-quoted HTML attribute.
pub fn escape_attr(value: &str) -> (r: String)
    ensures
        r@ == escaped(value@),
{
    let v = chars_of(value);
    let mut out = String::new();
    let mut i: usize = 0;
    while i < v.len()
        invariant
            i <= v.len(),
            out@ == escaped(v@.take(i as int)),
        decreases v.len() - i,
    {
        let c = v[i];
        if c == '&' {
            out.append("&amp;");
        } else if c == '"' {
            out.append("&quot;");
        } else if c == '<' {
            out.append("&lt;");
        } else if c == '>' {
            out.append("&gt;");
        } else {
            push_char(&mut out, c);
        }
        assert(v@.take(i + 1).drop_last() =~= v@.take(i as int));
        i = i + 1;
    }
    assert(v@.take(v.len() as int) =~= v@);
    out
}

/// The blocks that make up a command's page: its own blocks; then its
/// `content`, when there is some, at its `position` if it has one, or at
/// the top-left corner if it has neither a position nor blocks of its own.
pub open spec fn page_blocks(c: CommandModel) -> Seq<BlockModel> {
    let own = match c.blocks {
        Some(b) => b,
        None => Seq::empty(),
    };
    if c.content.len() != 0 && c.position is Some {
        own.push(BlockModel { content: c.content, position: c.position->0 })
    } else if c.content.len() != 0 && own.len() == 0 {
        own.push(BlockModel { content: c.content, position: origin_model() })
    } else {
        own
    }
}

/// The blocks of the page that `command` prints.
pub fn build_blocks(command: &PrintCommand) -> (r: Vec<PrintBlock>)
    ensures
        r.deep_view() == page_blocks(command@),
{
    let mut blocks = match &command.blocks {
        Some(b) => clone_blocks(b),
        None => Vec::new(),
    };
    assert(blocks.deep_view() =~= match command@.blocks {
        Some(b) => b,
        None => Seq::<BlockModel>::empty(),
    });
    let ghost own = blocks.deep_view();
    if !command.content.as_str().is_empty() && command.position.is_some() {
        let position = match &command.position {
            Some(p) => p.clone(),
            None => PrintPosition::origin(),
        };
        blocks.push(PrintBlock { content: command.content.clone(), position });
        assert(blocks.deep_view() =~= own.push(
            BlockModel { content: command@.content, position: command@.position->0 },
        ));
    } else if !command.content.as_str().is_empty() && blocks.len() == 0 {
        blocks.push(PrintBlock { content: command.content.clone(), position: PrintPosition::origin() });
        assert(blocks.deep_view() =~= own.push(
            BlockModel { content: command@.content, position: origin_model() },
        ));
    }
    blocks
}

/// The CSS margin list: top, right, bottom, left.
pub open spec fn margin_list(m: MarginsModel) -> Seq<char> {
    m.top + "mm "@ + m.right + "mm "@ + m.bottom + "mm "@ + m.left + "mm"@
}

/// The `@page` rule.
pub open spec fn paper_css(d: Option<DimensionsModel>, m: MarginsModel) -> Seq<char> {
    match d {
        Some(d) => "@page { size: "@ + d.width_mm + "mm "@ + d.height_mm + "mm; margin: "@
            + margin_list(m) + "; }"@,
        None => "@page { margin: "@ + margin_list(m) + "; }"@,
    }
}

/// The declarations of the `body` rule that depend on the paper.
pub open spec fn body_css(d: Option<DimensionsModel>) -> Seq<char> {
    match d {
        Some(d) => "width: "@ + d.width_mm + "mm; height: "@ + d.height_mm
            + "mm; position: relative;"@,
        None => "position: relative;"@,
    }
}

/// The markup of the block at position `index` on the page.
pub open spec fn block_markup(index: nat, b: BlockModel) -> Seq<char> {
    "<div class=\"print-block print-block-"@ + decimal(index)
        + "\" style=\"position:absolute;top:"@ + b.position.top + "mm;left:"@ + b.position.left
        + "mm;box-sizing:border-box;\">"@ + b.content + "</div>"@
}

/// The markup of all blocks, one per line.
pub open spec fn blocks_markup(bs: Seq<BlockModel>) -> Seq<char>
    decreases bs.len(),
{
    if bs.len() == 0 {
        Seq::empty()
    } else if bs.len() == 1 {
        block_markup(0, bs[0])
    } else {
        blocks_markup(bs.drop_last()) + "\n"@ + block_markup((bs.len() - 1) as nat, bs.last())
    }
}

pub open spec fn page_prologue() -> Seq<char> {
    "<!DOCTYPE html>\n<html>\n<head>\n<meta charset=\"UTF-8\">\n<style>\n"@
}

pub open spec fn page_rules() -> Seq<char> {
    "\n* { box-sizing: border-box; }\nhtml, body { margin: 0; padding: 0; }\nbody { "@
}

pub open spec fn page_style_end() -> Seq<char> {
    " overflow: hidden; }\n.print-block { overflow: hidden; }\n@media print { body { -webkit-print-color-adjust: exact; print-color-adjust: exact; } }\n</style>\n</head>\n<body>\n"@
}

pub open spec fn page_epilogue() -> Seq<char> {
    "\n</body>\n</html>"@
}

/// The whole page for the given paper, margins and blocks.
pub open spec fn page_markup(
    d: Option<DimensionsModel>,
    m: MarginsModel,
    bs: Seq<BlockModel>,
) -> Seq<char> {
    page_prologue() + paper_css(d, m) + page_rules() + body_css(d) + page_style_end()
        + blocks_markup(bs) + page_epilogue()
}

/// The page of a command, or the name of its unknown paper size.
pub open spec fn command_page(c: CommandModel) -> Result<Seq<char>, Seq<char>> {
    let m = match c.margins {
        Some(m) => m,
        None => default_margins(),
    };
    match c.paper_size {
        Some(size) => match page_size(size) {
            Some(d) => Ok(page_markup(Some(d), m, page_blocks(c))),
            None => Err(size->Standard_0),
        },
        None => Ok(page_markup(None, m, page_blocks(c))),
    }
}

fn push_margins(out: &mut String, m: &PrintMargins)
    ensures
        final(out)@ == old(out)@ + margin_list(m@),
{
    out.append(m.top.as_str());
    out.append("mm ");
    out.append(m.right.as_str());
    out.append("mm ");
    out.append(m.bottom.as_str());
    out.append("mm ");
    out.append(m.left.as_str());
    out.append("mm");
    assert(final(out)@ =~= old(out)@ + margin_list(m@));
}

fn push_block(out: &mut String, index: usize, b: &PrintBlock)
    ensures
        final(out)@ == old(out)@ + block_markup(index as nat, b@),
{
    out.append("<div class=\"print-block print-block-");
    push_decimal(out, index as u64);
    out.append("\" style=\"position:absolute;top:");
    out.append(b.position.top.as_str());
    out.append("mm;left:");
    out.append(b.position.left.as_str());
    out.append("mm;box-sizing:border-box;\">");
    out.append(b.content.as_str());
    out.append("</div>");
    assert(final(out)@ =~= old(out)@ + block_markup(index as nat, b@));
}

fn push_blocks(out: &mut String, blocks: &Vec<PrintBlock>)
    ensures
        final(out)@ == old(out)@ + blocks_markup(blocks.deep_view()),
{
    let ghost start = out@;
    let ghost bs = blocks.deep_view();
    let mut i: usize = 0;
    assert(bs.take(0) =~= Seq::<BlockModel>::empty());
    while i < blocks.len()
        invariant
            i <= blocks.len(),
            bs == blocks.deep_view(),
            out@ == start + blocks_markup(bs.take(i as int)),
        decreases blocks.len() - i,
    {
        let ghost before = out@;
        if i > 0 {
            out.append("\n");
        }
        push_block(out, i, &blocks[i]);
        proof {
            let t = bs.take(i + 1);
            assert(t.drop_last() =~= bs.take(i as int));
            assert(t.last() == blocks@[i as int]@);
            if i == 0 {
                assert(out@ =~= start + blocks_markup(t));
            } else {
                assert(out@ =~= start + blocks_markup(t));
            }
        }
        i = i + 1;
    }
    assert(bs.take(blocks.len() as int) =~= bs);
}

pub open spec fn dims_model(d: Option<PaperDimensions>) -> Option<DimensionsModel> {
    match d {
        Some(x) => Some(x@),
        None => None,
    }
}

fn push_paper_css(out: &mut String, dims: &Option<PaperDimensions>, margins: &PrintMargins)
    ensures
        final(out)@ == old(out)@ + paper_css(dims_model(*dims), margins@),
{
    match dims {
        Some(dim) => {
            out.append("@page { size: ");
            out.append(dim.width_mm.as_str());
            out.append("mm ");
            out.append(dim.height_mm.as_str());
            out.append("mm; margin: ");
            push_margins(out, margins);
            out.append("; }");
        },
        None => {
            out.append("@page { margin: ");
            push_margins(out, margins);
            out.append("; }");
        },
    }
    assert(final(out)@ =~= old(out)@ + paper_css(dims_model(*dims), margins@));
}

fn push_body_css(out: &mut String, dims: &Option<PaperDimensions>)
    ensures
        final(out)@ == old(out)@ + body_css(dims_model(*dims)),
{
    match dims {
        Some(dim) => {
            out.append("width: ");
            out.append(dim.width_mm.as_str());
            out.append("mm; height: ");
            out.append(dim.height_mm.as_str());
            out.append("mm; position: relative;");
        },
        None => {
            out.append("position: relative;");
        },
    }
    assert(final(out)@ =~= old(out)@ + body_css(dims_model(*dims)));
}

/// The HTML page that `command` prints, or an error when its paper size is
/// unknown.
pub fn build_print_html(command: &PrintCommand) -> (r: Result<String, PaperError>)
    ensures
        match command_page(command@) {
            Ok(page) => r matches Ok(html) && html@ == page,
            Err(name) => r matches Err(e) && e.name@ == name,
        },
{
    let margins = match &command.margins {
        Some(m) => m.clone(),
        None => PrintMargins::default(),
    };
    let dims = match &command.paper_size {
        Some(size) => match dimensions(size) {
            Ok(d) => Some(d),
            Err(e) => {
                return Err(e);
            },
        },
        None => None,
    };
    let blocks = build_blocks(command);
    let mut html = String::new();
    html.append("<!DOCTYPE html>\n<html>\n<head>\n<meta charset=\"UTF-8\">\n<style>\n");
    push_paper_css(&mut html, &dims, &margins);
    html.append("\n* { box-sizing: border-box; }\nhtml, body { margin: 0; padding: 0; }\nbody { ");
    push_body_css(&mut html, &dims);
    html.append(" overflow: hidden; }\n.print-block { overflow: hidden; }\n@media print { body { -webkit-print-color-adjust: exact; print-color-adjust: exact; } }\n</style>\n</head>\n<body>\n");
    push_blocks(&mut html, &blocks);
    html.append("\n</body>\n</html>");
    assert(html@ =~= page_markup(dims_model(dims), margins@, page_blocks(command@)));
    Ok(html)
}

} // verus!

verus! {

/// The markup that shows an image whose source is `content`.
pub open spec fn image_markup(content: Seq<char>) -> Seq<char> {
    "<img src=\""@ + escaped(content) + "\" style=\"max-width:100%;display:block;\" />"@
}

/// The HTML command that prints an image command: the same command as HTML;
/// when it has no blocks of its own, its content becomes one image block at
/// its position (or the top-left corner) and its content is emptied.
pub open spec fn image_page_command(c: CommandModel) -> CommandModel {
    let as_html = CommandModel { format: PrintFormat::Html, ..c };
    if c.blocks is None || c.blocks->0.len() == 0 {
        CommandModel {
            content: Seq::empty(),
            blocks: Some(
                seq![
                    BlockModel {
                        content: image_markup(c.content),
                        position: match c.position {
                            Some(p) => p,
                            None => origin_model(),
                        },
                    },
                ],
            ),
            ..as_html
        }
    } else {
        as_html
    }
}

/// The HTML command that prints the image command `command`.
pub fn image_command(command: &PrintCommand) -> (r: PrintCommand)
    ensures
        r@ == image_page_command(command@),
{
    let mut image = command.clone();
    image.format = PrintFormat::Html;
    let no_blocks = match &command.blocks {
        None => true,
        Some(b) => b.len() == 0,
    };
    if no_blocks {
        let mut content = String::new();
        content.append("<img src=\"");
        let escaped_src = escape_attr(command.content.as_str());
        content.append(escaped_src.as_str());
        content.append("\" style=\"max-width:100%;display:block;\" />");
        let position = match &command.position {
            Some(p) => p.clone(),
            None => PrintPosition::origin(),
        };
        let mut blocks: Vec<PrintBlock> = Vec::new();
        blocks.push(PrintBlock { content, position });
        image.blocks = Some(blocks);
        image.content = String::new();
        assert(image@.blocks->0 =~= image_page_command(command@).blocks->0);
    }
    assert(image@ == image_page_command(command@));
    image
}

} // verus!

verus! {

/// Escaped text never holds a double quote, `<` or `>`, so it cannot end
/// the attribute it is written into or open a tag.
pub proof fn law_escaped_text_is_attribute_safe(s: Seq<char>)
    ensures
        forall|i: int|
            0 <= i < escaped(s).len() ==> {
                let c = #[trigger] escaped(s)[i];
                c != '"' && c != '<' && c != '>'
            },
    decreases s.len(),
{
    reveal_strlit("&amp;");
    reveal_strlit("&quot;");
    reveal_strlit("&lt;");
    reveal_strlit("&gt;");
    if s.len() > 0 {
        law_escaped_text_is_attribute_safe(s.drop_last());
        let a = escaped(s.drop_last());
        let b = escape_char(s.last());
        assert forall|i: int| 0 <= i < (a + b).len() implies {
            let c = #[trigger] (a + b)[i];
            c != '"' && c != '<' && c != '>'
        } by {
            if i >= a.len() {
                assert((a + b)[i] == b[i - a.len()]);
            } else {
                assert((a + b)[i] == a[i]);
            }
        }
    }
}

/// A command's page keeps the command's own blocks, first and in order, and
/// adds at most one block: the command's content.
pub proof fn law_page_keeps_own_blocks(c: CommandModel)
    ensures
        ({
            let own = match c.blocks {
                Some(b) => b,
                None => Seq::empty(),
            };
            &&& page_blocks(c).len() <= own.len() + 1
            &&& page_blocks(c).take(own.len() as int) == own
            &&& page_blocks(c).len() == own.len() + 1 ==> page_blocks(c).last().content == c.content
        }),
{
    let own = match c.blocks {
        Some(b) => b,
        None => Seq::<BlockModel>::empty(),
    };
    assert(own.push(BlockModel { content: c.content, position: origin_model() }).take(own.len() as int) =~= own);
    if c.position is Some {
        assert(own.push(BlockModel { content: c.content, position: c.position->0 }).take(own.len() as int) =~= own);
    }
    assert(own.take(own.len() as int) =~= own);
}

/// A command's page fails only for a paper size of an unknown name, and then
/// names it: a command without a paper size, with a custom one, or with a
/// known standard one always has a page.
pub proof fn law_page_fails_only_for_unknown_paper(c: CommandModel)
    ensures
        c.paper_size is None ==> command_page(c) is Ok,
        c.paper_size matches Some(s) && s is Custom ==> command_page(c) is Ok,
        (c.paper_size matches Some(s) && s is Standard) ==> match crate::paper::standard_size(
            c.paper_size->0->Standard_0,
        ) {
            Some(_) => command_page(c) is Ok,
            None => command_page(c) == Err::<Seq<char>, Seq<char>>(c.paper_size->0->Standard_0),
        },
{
}

/// A command's content with a position is placed exactly there: it is the
/// last block of the page, after the command's own blocks.  Content without
/// a position on a command without blocks of its own is the page's only
/// block, at the top-left corner (top 0, left 0).  A command without content
/// has only its own blocks.
pub proof fn law_content_goes_where_placed(c: CommandModel)
    ensures
        c.content.len() > 0 && c.position is Some ==> {
            &&& page_blocks(c).len() >= 1
            &&& page_blocks(c).last() == (BlockModel { content: c.content, position: c.position->0 })
        },
        c.content.len() > 0 && c.position is None && (c.blocks is None || c.blocks->0.len() == 0)
            ==> page_blocks(c) == seq![
            BlockModel { content: c.content, position: PositionModel { top: seq!['0'], left: seq!['0'] } },
        ],
        c.content.len() == 0 ==> page_blocks(c) == match c.blocks {
            Some(b) => b,
            None => Seq::empty(),
        },
{
    let own = match c.blocks {
        Some(b) => b,
        None => Seq::<BlockModel>::empty(),
    };
    if c.content.len() > 0 && c.position is None && own.len() == 0 {
        assert(own.push(BlockModel { content: c.content, position: origin_model() }) =~= seq![
            BlockModel { content: c.content, position: PositionModel { top: seq!['0'], left: seq!['0'] } },
        ]);
    }
}

/// Turning an image command into an HTML command changes only its format,
/// content and blocks: its id, type, printer, copies, paper size, margins,
/// position and options are kept.  With blocks of its own, the command is
/// kept whole but for the format.
pub proof fn law_image_command_keeps_settings(c: CommandModel)
    ensures
        ({
            let h = image_page_command(c);
            &&& h.format == PrintFormat::Html
            &&& h.id == c.id
            &&& h.command_type == c.command_type
            &&& h.printer == c.printer
            &&& h.copies == c.copies
            &&& h.paper_size == c.paper_size
            &&& h.margins == c.margins
            &&& h.position == c.position
            &&& h.options == c.options
            &&& (c.blocks matches Some(b) && b.len() > 0) ==> h.blocks == c.blocks && h.content == c.content
            &&& (c.blocks is None || c.blocks->0.len() == 0) ==> {
                &&& h.content.len() == 0
                &&& h.blocks matches Some(b) && b.len() == 1
                &&& h.blocks->0[0].content == image_markup(c.content)
                &&& h.blocks->0[0].position == match c.position {
                    Some(p) => p,
                    None => PositionModel { top: seq!['0'], left: seq!['0'] },
                }
            }
        }),
{
}

/// An image command prints as an HTML command; when it has no blocks of its
/// own, its page has exactly one block, the image.
pub proof fn law_image_prints_as_one_image_block(c: CommandModel)
    requires
        c.blocks is None || c.blocks->0.len() == 0,
    ensures
        image_page_command(c).format == PrintFormat::Html,
        page_blocks(image_page_command(c)).len() == 1,
        page_blocks(image_page_command(c))[0].content == image_markup(c.content),
{
}

} // verus!

verus! {

/// The character reference that stands for `&`.
pub open spec fn amp_ref() -> Seq<char> {
    seq!['&', 'a', 'm', 'p', ';']
}

/// The character reference that stands for `"`.
pub open spec fn quot_ref() -> Seq<char> {
    seq!['&', 'q', 'u', 'o', 't', ';']
}

/// The character reference that stands for `<`.
pub open spec fn lt_ref() -> Seq<char> {
    seq!['&', 'l', 't', ';']
}

/// The character reference that stands for `>`.
pub open spec fn gt_ref() -> Seq<char> {
    seq!['&', 'g', 't', ';']
}

/// Whether `p` occurs in `t` starting at index `i`.
pub open spec fn starts_at(t: Seq<char>, i: int, p: Seq<char>) -> bool {
    0 <= i && i + p.len() <= t.len() && forall|k: int| 0 <= k < p.len() ==> #[trigger] t[i + k] == p[k]
}

/// Whether `t` ends with `p`.
pub open spec fn ends_with(t: Seq<char>, p: Seq<char>) -> bool {
    p.len() <= t.len() && starts_at(t, t.len() - p.len(), p)
}

/// Whether one of the four character references starts at index `i` of `t`.
pub open spec fn reference_at(t: Seq<char>, i: int) -> bool {
    ||| starts_at(t, i, amp_ref())
    ||| starts_at(t, i, quot_ref())
    ||| starts_at(t, i, lt_ref())
    ||| starts_at(t, i, gt_ref())
}

/// Escaped text read back: each character reference at the end becomes
/// the character it stands for, and any other character stays.
pub open spec fn unescaped(t: Seq<char>) -> Seq<char>
    decreases t.len(),
{
    if t.len() == 0 {
        Seq::empty()
    } else if ends_with(t, amp_ref()) {
        unescaped(t.take(t.len() - 5)).push('&')
    } else if ends_with(t, quot_ref()) {
        unescaped(t.take(t.len() - 6)).push('"')
    } else if ends_with(t, lt_ref()) {
        unescaped(t.take(t.len() - 4)).push('<')
    } else if ends_with(t, gt_ref()) {
        unescaped(t.take(t.len() - 4)).push('>')
    } else {
        unescaped(t.drop_last()).push(t.last())
    }
}

proof fn lemma_escape_char_refs(c: char)
    ensures
        c == '&' ==> escape_char(c) == amp_ref(),
        c == '"' ==> escape_char(c) == quot_ref(),
        c == '<' ==> escape_char(c) == lt_ref(),
        c == '>' ==> escape_char(c) == gt_ref(),
        c != '&' && c != '"' && c != '<' && c != '>' ==> escape_char(c) == seq![c],
{
    reveal_strlit("&amp;");
    reveal_strlit("&quot;");
    reveal_strlit("&lt;");
    reveal_strlit("&gt;");
    assert("&amp;"@ =~= amp_ref());
    assert("&quot;"@ =~= quot_ref());
    assert("&lt;"@ =~= lt_ref());
    assert("&gt;"@ =~= gt_ref());
}

/// Every `&` of escaped text starts a character reference.
pub proof fn law_escaped_ampersands_start_references(s: Seq<char>)
    ensures
        forall|i: int| 0 <= i < escaped(s).len() && escaped(s)[i] == '&' ==> #[trigger] reference_at(escaped(s), i),
    decreases s.len(),
{
    if s.len() > 0 {
        law_escaped_ampersands_start_references(s.drop_last());
        let c = s.last();
        lemma_escape_char_refs(c);
        let a = escaped(s.drop_last());
        let b = escape_char(c);
        let t = a + b;
        assert forall|i: int| 0 <= i < t.len() && t[i] == '&' implies #[trigger] reference_at(t, i) by {
            if i < a.len() {
                assert(a[i] == '&');
                assert(reference_at(a, i));
                if starts_at(a, i, amp_ref()) {
                    assert forall|k: int| 0 <= k < amp_ref().len() implies #[trigger] t[i + k] == amp_ref()[k] by {
                        assert(a[i + k] == amp_ref()[k]);
                    }
                } else if starts_at(a, i, quot_ref()) {
                    assert forall|k: int| 0 <= k < quot_ref().len() implies #[trigger] t[i + k] == quot_ref()[k] by {
                        assert(a[i + k] == quot_ref()[k]);
                    }
                } else if starts_at(a, i, lt_ref()) {
                    assert forall|k: int| 0 <= k < lt_ref().len() implies #[trigger] t[i + k] == lt_ref()[k] by {
                        assert(a[i + k] == lt_ref()[k]);
                    }
                } else {
                    assert forall|k: int| 0 <= k < gt_ref().len() implies #[trigger] t[i + k] == gt_ref()[k] by {
                        assert(a[i + k] == gt_ref()[k]);
                    }
                }
            } else {
                assert(t[i] == b[i - a.len()]);
                assert(i == a.len());
                assert forall|k: int| 0 <= k < b.len() implies #[trigger] t[i + k] == b[k] by {}
            }
        }
    }
}

/// Reading escaped text back gives the text that was escaped.
pub proof fn law_unescape_undoes_escape(s: Seq<char>)
    ensures
        unescaped(escaped(s)) == s,
    decreases s.len(),
{
    if s.len() > 0 {
        let s0 = s.drop_last();
        let c = s.last();
        law_unescape_undoes_escape(s0);
        law_escaped_ampersands_start_references(s0);
        lemma_escape_char_refs(c);
        let a = escaped(s0);
        let b = escape_char(c);
        let t = a + b;
        assert(escaped(s) == t);
        assert(t.take(a.len() as int) =~= a);
        if c == '&' || c == '"' || c == '<' || c == '>' {
            assert(ends_with(t, b)) by {
                assert forall|k: int| 0 <= k < b.len() implies #[trigger] t[t.len() - b.len() + k] == b[k] by {}
            }
            if c != '&' {
                assert(!ends_with(t, amp_ref())) by {
                    if ends_with(t, amp_ref()) {
                        assert(t[t.len() - 5 + 1] == 'a');
                    }
                }
            }
            if c == '<' || c == '>' {
                assert(!ends_with(t, quot_ref())) by {
                    if ends_with(t, quot_ref()) {
                        assert(t[t.len() - 6 + 2] == 'u');
                    }
                }
            }
            if c == '>' {
                assert(!ends_with(t, lt_ref())) by {
                    if ends_with(t, lt_ref()) {
                        assert(t[t.len() - 4 + 1] == 'l');
                    }
                }
            }
        } else {
            assert(t =~= a.push(c));
            assert(t.drop_last() =~= a);
            if c == ';' {
                assert(!ends_with(t, amp_ref())) by {
                    if ends_with(t, amp_ref()) {
                        let i = a.len() - 4;
                        assert(t[i + 0] == '&');
                        assert(a[i] == '&');
                        assert(reference_at(a, i));
                        assert(t[i + 1] == 'a');
                        assert(a[i + 1] == 'a');
                    }
                }
                assert(!ends_with(t, quot_ref())) by {
                    if ends_with(t, quot_ref()) {
                        let i = a.len() - 5;
                        assert(t[i + 0] == '&');
                        assert(a[i] == '&');
                        assert(reference_at(a, i));
                        assert(t[i + 1] == 'q');
                        assert(a[i + 1] == 'q');
                    }
                }
                assert(!ends_with(t, lt_ref())) by {
                    if ends_with(t, lt_ref()) {
                        let i = a.len() - 3;
                        assert(t[i + 0] == '&');
                        assert(a[i] == '&');
                        assert(reference_at(a, i));
                    }
                }
                assert(!ends_with(t, gt_ref())) by {
                    if ends_with(t, gt_ref()) {
                        let i = a.len() - 3;
                        assert(t[i + 0] == '&');
                        assert(a[i] == '&');
                        assert(reference_at(a, i));
                    }
                }
            } else {
                assert(!ends_with(t, amp_ref())) by {
                    if ends_with(t, amp_ref()) {
                        assert(t[t.len() - 5 + 4] == ';');
                    }
                }
                assert(!ends_with(t, quot_ref())) by {
                    if ends_with(t, quot_ref()) {
                        assert(t[t.len() - 6 + 5] == ';');
                    }
                }
                assert(!ends_with(t, lt_ref())) by {
                    if ends_with(t, lt_ref()) {
                        assert(t[t.len() - 4 + 3] == ';');
                    }
                }
                assert(!ends_with(t, gt_ref())) by {
                    if ends_with(t, gt_ref()) {
                        assert(t[t.len() - 4 + 3] == ';');
                    }
                }
            }
        }
        assert(s0.push(c) =~= s);
    }
}

/// `t` with each occurrence of `p`, found from the left and not
/// overlapping, replaced by `r` (`str::replace`).
pub open spec fn replaced(t: Seq<char>, p: Seq<char>, r: Seq<char>) -> Seq<char>
    decreases t.len(),
{
    if t.len() == 0 {
        Seq::empty()
    } else if 0 < p.len() <= t.len() && t.take(p.len() as int) == p {
        r + replaced(t.skip(p.len() as int), p, r)
    } else {
        seq![t[0]] + replaced(t.skip(1), p, r)
    }
}

/// Escaped text with the first `k` of `&quot;`, `&lt;`, `&gt;`, `&amp;`
/// read back: what `c` becomes.
pub open spec fn chunk(k: nat, c: char) -> Seq<char> {
    if (c == '"' && k >= 1) || (c == '<' && k >= 2) || (c == '>' && k >= 3) || (c == '&' && k >= 4) {
        seq![c]
    } else {
        escape_char(c)
    }
}

/// Escaped text with the first `k` of `&quot;`, `&lt;`, `&gt;`, `&amp;`
/// read back.
pub open spec fn chunked(s: Seq<char>, k: nat) -> Seq<char>
    decreases s.len(),
{
    if s.len() == 0 {
        Seq::empty()
    } else {
        chunk(k, s[0]) + chunked(s.skip(1), k)
    }
}

/// The reference read back at step `k` and the character it stands for.
pub open spec fn step_ref(k: nat) -> (Seq<char>, char) {
    if k == 0 {
        (quot_ref(), '"')
    } else if k == 1 {
        (lt_ref(), '<')
    } else if k == 2 {
        (gt_ref(), '>')
    } else {
        (amp_ref(), '&')
    }
}

proof fn lemma_chunked_back(s: Seq<char>, k: nat)
    requires
        s.len() > 0,
    ensures
        chunked(s, k) == chunked(s.drop_last(), k) + chunk(k, s.last()),
    decreases s.len(),
{
    if s.len() == 1 {
        assert(s.skip(1) =~= Seq::<char>::empty());
        assert(s.drop_last() =~= Seq::<char>::empty());
        assert(chunked(s.skip(1), k) =~= Seq::<char>::empty());
        assert(chunked(s, k) =~= chunk(k, s[0]));
    } else {
        let t = s.skip(1);
        lemma_chunked_back(t, k);
        assert(t.drop_last() =~= s.drop_last().skip(1));
        assert(s.drop_last()[0] == s[0]);
        assert(t.last() == s.last());
        assert(chunked(s, k) =~= chunked(s.drop_last(), k) + chunk(k, s.last()));
    }
}

proof fn lemma_escaped_is_chunked(s: Seq<char>)
    ensures
        escaped(s) == chunked(s, 0),
    decreases s.len(),
{
    if s.len() > 0 {
        lemma_escaped_is_chunked(s.drop_last());
        lemma_chunked_back(s, 0);
    }
}

proof fn lemma_chunked_plain(s: Seq<char>)
    ensures
        chunked(s, 4) == s,
    decreases s.len(),
{
    if s.len() > 0 {
        lemma_chunked_plain(s.skip(1));
        lemma_escape_char_refs(s[0]);
        assert(chunk(4, s[0]) =~= seq![s[0]]);
        assert(seq![s[0]] + s.skip(1) =~= s);
    }
}

/// Text without `&` in front of the rest is kept as it is by a replacement
/// of a reference.
proof fn lemma_replaced_skips_plain(y: Seq<char>, rest: Seq<char>, p: Seq<char>, r: Seq<char>)
    requires
        p.len() > 0,
        p[0] == '&',
        forall|i: int| 0 <= i < y.len() ==> y[i] != '&',
    ensures
        replaced(y + rest, p, r) == y + replaced(rest, p, r),
    decreases y.len(),
{
    if y.len() > 0 {
        let t = y + rest;
        assert(t[0] == y[0]);
        if 0 < p.len() <= t.len() && t.take(p.len() as int) == p {
            assert(t.take(p.len() as int)[0] == t[0]);
        }
        assert(t.skip(1) =~= y.skip(1) + rest);
        lemma_replaced_skips_plain(y.skip(1), rest, p, r);
        assert(seq![y[0]] + (y.skip(1) + replaced(rest, p, r)) =~= y + replaced(rest, p, r));
    } else {
        assert(y + rest =~= rest);
        assert(y + replaced(rest, p, r) =~= replaced(rest, p, r));
    }
}

proof fn lemma_replace_step(s: Seq<char>, k: nat)
    requires
        k < 4,
    ensures
        replaced(chunked(s, k), step_ref(k).0, seq![step_ref(k).1]) == chunked(s, k + 1),
    decreases s.len(),
{
    let p = step_ref(k).0;
    let c = step_ref(k).1;
    if s.len() == 0 {
        assert(chunked(s, k) =~= Seq::<char>::empty());
    } else {
        let x = chunk(k, s[0]);
        let rest = chunked(s.skip(1), k);
        let t = x + rest;
        lemma_replace_step(s.skip(1), k);
        lemma_escape_char_refs(s[0]);
        assert(chunked(s, k) == t);
        if s[0] == c {
            assert(x == p);
            assert(t.take(p.len() as int) =~= p);
            assert(t.skip(p.len() as int) =~= rest);
            assert(chunk((k + 1) as nat, s[0]) =~= seq![c]);
        } else {
            assert(chunk((k + 1) as nat, s[0]) == x);
            if x.len() == 1 {
                assert(x[0] != '&');
                lemma_replaced_skips_plain(x, rest, p, seq![c]);
            } else {
                assert(x[1] != p[1]);
                assert(t[1] == x[1]);
                if 0 < p.len() <= t.len() && t.take(p.len() as int) == p {
                    assert(t.take(p.len() as int)[1] == t[1]);
                }
                assert(t.skip(1) =~= x.skip(1) + rest);
                lemma_replaced_skips_plain(x.skip(1), rest, p, seq![c]);
                assert(seq![x[0]] + (x.skip(1) + replaced(rest, p, seq![c])) =~= x + replaced(rest, p, seq![c]));
            }
        }
    }
}

/// Escaped text read back the way a reader of HTML attributes often does it,
/// replacing every `&quot;`, then every `&lt;`, then every `&gt;` and last
/// every `&amp;`, gives the text that was escaped.
pub proof fn law_replacing_references_undoes_escape(s: Seq<char>)
    ensures
        replaced(
            replaced(replaced(replaced(escaped(s), quot_ref(), seq!['"']), lt_ref(), seq!['<']), gt_ref(), seq!['>']),
            amp_ref(),
            seq!['&'],
        ) == s,
{
    lemma_escaped_is_chunked(s);
    lemma_replace_step(s, 0);
    lemma_replace_step(s, 1);
    lemma_replace_step(s, 2);
    lemma_replace_step(s, 3);
    lemma_chunked_plain(s);
}

} // verus!
