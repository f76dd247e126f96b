//! Turning a print task into the work the system has to do: which page to
//! render, which file to print, on which printer, how many copies, and the
//! command lines and file names involved.

use vstd::prelude::*;
use std::sync::{Arc, Mutex};
use vstd::string::StringSliceAdditionalSpecFns;
use crate::clock::now_millis;
use crate::config::{AppConfig, ConfigModel};
use crate::html::{build_print_html, command_page, image_command, image_page_command};
use crate::models::{CommandModel, PrintCommand, PrintFormat, PrintTask};
use crate::paper::PaperError;
use crate::text::{
    chars_of, decimal, owned, push_char, push_decimal, push_signed_decimal, signed_decimal, trim,
    trimmed,
};

verus! {

/// `std::sync::Mutex`, known to the verifier as an opaque type.
#[verifier::external_type_specification]
#[verifier::external_body]
#[verifier::reject_recursive_types(T)]
pub struct ExMutex<T: ?Sized>(Mutex<T>);

/// `Mutex::lock` on the shared settings, and a copy of what they hold;
/// `None` when another thread poisoned the lock by panicking while it held
/// it.  Nothing is said of the settings returned: other threads change them.
#[verifier::external_body]
fn current_config(config: &Arc<Mutex<AppConfig>>) -> Option<AppConfig> {
    config.lock().ok().map(|guard| guard.clone())
}

/// The printer named in the settings, trimmed; none when that is blank.
pub open spec fn configured_printer(c: ConfigModel) -> Option<Seq<char>> {
    if trimmed(c.default_printer).len() == 0 {
        None
    } else {
        Some(trimmed(c.default_printer))
    }
}

/// The default printer of the settings.
pub fn default_printer(config: &AppConfig) -> (r: Option<String>)
    ensures
        r.deep_view() == configured_printer(config@),
{
    let printer = trim(config.default_printer.as_str());
    if printer.as_str().is_empty() {
        None
    } else {
        Some(printer)
    }
}

/// What printing a command comes down to.
pub enum PrintAction {
    /// Render this HTML page to PDF, then print the PDF.
    RenderHtml { html: String },
    /// Print the PDF file at this path.
    PrintPdf { path: String },
    /// Nothing can be printed for this format yet; the task succeeds.
    Unsupported,
}

pub enum ActionModel {
    RenderHtml(Seq<char>),
    PrintPdf(Seq<char>),
    Unsupported,
}

impl View for PrintAction {
    type V = ActionModel;

    open spec fn view(&self) -> ActionModel {
        match self {
            PrintAction::RenderHtml { html } => ActionModel::RenderHtml(html@),
            PrintAction::PrintPdf { path } => ActionModel::PrintPdf(path@),
            PrintAction::Unsupported => ActionModel::Unsupported,
        }
    }
}

/// The plan for one task: what to do, whether to stop short of the printer,
/// which printer (`None`: the system default), and how many copies.
pub struct PrintPlan {
    pub action: PrintAction,
    pub dry_run: bool,
    pub printer: Option<String>,
    pub copies: u32,
}

pub struct PlanModel {
    pub action: ActionModel,
    pub dry_run: bool,
    pub printer: Option<Seq<char>>,
    pub copies: u32,
}

impl View for PrintPlan {
    type V = PlanModel;

    open spec fn view(&self) -> PlanModel {
        PlanModel {
            action: self.action@,
            dry_run: self.dry_run,
            printer: self.printer.deep_view(),
            copies: self.copies,
        }
    }
}

/// The number of copies: as asked, one when not asked, and never fewer
/// than one.
pub open spec fn copies_of(c: CommandModel) -> u32 {
    match c.copies {
        Some(n) => if n >= 1 { n } else { 1 },
        None => 1,
    }
}

/// The command's own printer, else the default printer of the settings.
pub open spec fn printer_of(c: CommandModel, config: ConfigModel) -> Option<Seq<char>> {
    match c.printer {
        Some(p) => Some(p),
        None => configured_printer(config),
    }
}

/// The plan for `c` under `config`, or the name of an unknown paper size.
pub open spec fn print_plan(c: CommandModel, config: ConfigModel) -> Result<PlanModel, Seq<char>> {
    let action = match c.format {
        PrintFormat::Html => match command_page(c) {
            Ok(page) => Ok(ActionModel::RenderHtml(page)),
            Err(name) => Err(name),
        },
        PrintFormat::Image => match command_page(image_page_command(c)) {
            Ok(page) => Ok(ActionModel::RenderHtml(page)),
            Err(name) => Err(name),
        },
        PrintFormat::Pdf => Ok(ActionModel::PrintPdf(c.content)),
        PrintFormat::Escpos => Ok(ActionModel::Unsupported),
    };
    match action {
        Ok(action) => Ok(
            PlanModel {
                action,
                dry_run: config.dry_run,
                printer: printer_of(c, config),
                copies: copies_of(c),
            },
        ),
        Err(name) => Err(name),
    }
}

/// Whether `r` is what `print_plan` gives.
pub open spec fn plan_result(r: Result<PrintPlan, PaperError>, expected: Result<PlanModel, Seq<char>>) -> bool {
    match expected {
        Ok(plan) => r matches Ok(p) && p@ == plan,
        Err(name) => r matches Err(e) && e.name@ == name,
    }
}

/// Plans the printing of `command` under `config`.
pub fn plan_print(command: &PrintCommand, config: &AppConfig) -> (r: Result<PrintPlan, PaperError>)
    ensures
        plan_result(r, print_plan(command@, config@)),
{
    let action = match command.format {
        PrintFormat::Html => match build_print_html(command) {
            Ok(html) => PrintAction::RenderHtml { html },
            Err(e) => {
                return Err(e);
            },
        },
        PrintFormat::Image => {
            let image = image_command(command);
            match build_print_html(&image) {
                Ok(html) => PrintAction::RenderHtml { html },
                Err(e) => {
                    return Err(e);
                },
            }
        },
        PrintFormat::Pdf => PrintAction::PrintPdf { path: command.content.clone() },
        PrintFormat::Escpos => PrintAction::Unsupported,
    };
    let printer = match &command.printer {
        Some(p) => Some(p.clone()),
        None => default_printer(config),
    };
    let copies = match command.copies {
        Some(n) => if n >= 1 { n } else { 1 },
        None => 1,
    };
    Ok(PrintPlan { action, dry_run: config.dry_run, printer, copies })
}

/// Prints tasks with the settings it shares with the rest of the service.
#[derive(Clone)]
pub struct PrintEngine {
    config: Arc<Mutex<AppConfig>>,
}

impl PrintEngine {
    /// The settings this engine reads.
    pub closed spec fn settings(&self) -> Arc<Mutex<AppConfig>> {
        self.config
    }

    pub fn new(config: Arc<Mutex<AppConfig>>) -> (e: Self)
        ensures
            e.settings() == config,
    {
        PrintEngine { config }
    }

    /// Plans `task` under the settings as they are at the time of the call;
    /// `None` when the settings' lock was poisoned by a thread that panicked.
    pub fn plan(&self, task: &PrintTask) -> (r: Option<Result<PrintPlan, PaperError>>)
        ensures
            r matches Some(x) ==> exists|c: ConfigModel| plan_result(x, #[trigger] print_plan(task.command@, c)),
    {
        match current_config(&self.config) {
            Some(config) => {
                let r = plan_print(&task.command, &config);
                assert(plan_result(r, print_plan(task.command@, config@)));
                Some(r)
            },
            None => None,
        }
    }
}

} // verus!

verus! {

/// A character that may stay in a file name: an ASCII letter or digit, `-`,
/// `_` or `.`.
pub open spec fn file_name_char(c: char) -> bool {
    let n = c as u32;
    ||| 0x30 <= n <= 0x39
    ||| 0x41 <= n <= 0x5a
    ||| 0x61 <= n <= 0x7a
    ||| c == '-'
    ||| c == '_'
    ||| c == '.'
}

fn is_file_name_char(c: char) -> (b: bool)
    ensures
        b == file_name_char(c),
{
    let n = c as u32;
    (0x30 <= n && n <= 0x39) || (0x41 <= n && n <= 0x5a) || (0x61 <= n && n <= 0x7a) || c == '-'
        || c == '_' || c == '.'
}

/// The file-name form of a task id: its first 80 characters, each that may
/// not stay in a file name replaced by `_`; `task` for an empty id.
pub open spec fn file_name_of(id: Seq<char>) -> Seq<char> {
    if id.len() == 0 {
        "task"@
    } else {
        id.take(if id.len() < 80 { id.len() as int } else { 80 }).map_values(
            |c: char| if file_name_char(c) { c } else { '_' },
        )
    }
}

/// Makes a task id safe to use as part of a file name.
pub fn sanitize_filename(value: &str) -> (r: String)
    ensures
        r@ == file_name_of(value@),
{
    let v = chars_of(value);
    if v.len() == 0 {
        return owned("task");
    }
    let n: usize = if v.len() < 80 { v.len() } else { 80 };
    let ghost target = file_name_of(value@);
    let mut out = String::new();
    let mut i: usize = 0;
    while i < n
        invariant
            n <= v.len(),
            v@ == value@,
            value@.len() > 0,
            i <= n,
            n == (if v.len() < 80 { v.len() } else { 80 }),
            target == file_name_of(value@),
            out@ == target.take(i as int),
        decreases n - i,
    {
        let c = v[i];
        if is_file_name_char(c) {
            push_char(&mut out, c);
        } else {
            push_char(&mut out, '_');
        }
        assert(out@ =~= target.take(i + 1));
        i = i + 1;
    }
    assert(target.take(n as int) =~= target);
    out
}

/// The stem of the files a dry run writes: the time in milliseconds, `-`,
/// and the file-name form of the task id.
pub open spec fn dry_run_stem_text(millis: int, id: Seq<char>) -> Seq<char> {
    signed_decimal(millis) + "-"@ + file_name_of(id)
}

/// The stem of the files a dry run of the task `id` writes at `millis`.
pub fn dry_run_stem_at(millis: i64, id: &str) -> (r: String)
    ensures
        r@ == dry_run_stem_text(millis as int, id@),
{
    let mut out = String::new();
    push_signed_decimal(&mut out, millis);
    out.append("-");
    let name = sanitize_filename(id);
    out.append(name.as_str());
    assert(out@ =~= dry_run_stem_text(millis as int, id@));
    out
}

/// The stem of the files a dry run of the task `id` writes now; `None` when
/// the clock cannot be read as milliseconds since the Unix epoch.
pub fn dry_run_stem(id: &str) -> (r: Option<String>)
    ensures
        r matches Some(s) ==> exists|t: int| t >= 0 && s@ == dry_run_stem_text(t, id@),
{
    match now_millis() {
        Some(now) => {
            let r = dry_run_stem_at(now, id);
            assert(r@ == dry_run_stem_text(now as int, id@));
            Some(r)
        },
        None => None,
    }
}

/// A byte that stays as it is in a URL path: an ASCII letter or digit, or
/// one of `-`, `_`, `.`, `~`, `/`, `:`.
pub open spec fn url_byte(b: u8) -> bool {
    ||| 0x30 <= b <= 0x39
    ||| 0x41 <= b <= 0x5a
    ||| 0x61 <= b <= 0x7a
    ||| b == 0x2d
    ||| b == 0x5f
    ||| b == 0x2e
    ||| b == 0x7e
    ||| b == 0x2f
    ||| b == 0x3a
}

/// The upper-case hexadecimal digit for `d < 16`.
pub open spec fn hex_digit(d: nat) -> char {
    if d < 10 {
        (48 + d) as char
    } else {
        (55 + d) as char
    }
}

/// What a byte becomes in a URL path: itself, or `%` and two upper-case
/// hexadecimal digits.
pub open spec fn url_byte_text(b: u8) -> Seq<char> {
    if url_byte(b) {
        seq![(b as u32) as char]
    } else {
        seq!['%', hex_digit((b / 16) as nat), hex_digit((b % 16) as nat)]
    }
}

/// Percent-encoding of a byte string.
pub open spec fn url_encoded(bs: Seq<u8>) -> Seq<char>
    decreases bs.len(),
{
    if bs.len() == 0 {
        Seq::empty()
    } else {
        url_encoded(bs.drop_last()) + url_byte_text(bs.last())
    }
}

fn hex(d: u8) -> (c: char)
    requires
        d < 16,
    ensures
        c == hex_digit(d as nat),
{
    if d < 10 {
        if d == 0 { '0' } else if d == 1 { '1' } else if d == 2 { '2' } else if d == 3 { '3' }
        else if d == 4 { '4' } else if d == 5 { '5' } else if d == 6 { '6' } else if d == 7 { '7' }
        else if d == 8 { '8' } else { '9' }
    } else {
        if d == 10 { 'A' } else if d == 11 { 'B' } else if d == 12 { 'C' } else if d == 13 { 'D' }
        else if d == 14 { 'E' } else { 'F' }
    }
}

/// Percent-encodes the UTF-8 bytes of `path` for a `file://` URL.
pub fn encode_url_path(path: &str) -> (r: String)
    ensures
        r@ == url_encoded(path.spec_bytes()),
{
    let bytes = path.as_bytes();
    let mut out = String::new();
    let mut i: usize = 0;
    while i < bytes.len()
        invariant
            i <= bytes@.len(),
            bytes@ == path.spec_bytes(),
            out@ == url_encoded(bytes@.take(i as int)),
        decreases bytes.len() - i,
    {
        let b = bytes[i];
        let safe = (0x30 <= b && b <= 0x39) || (0x41 <= b && b <= 0x5a) || (0x61 <= b && b <= 0x7a)
            || b == 0x2d || b == 0x5f || b == 0x2e || b == 0x7e || b == 0x2f || b == 0x3a;
        if safe {
            push_char(&mut out, b as char);
        } else {
            push_char(&mut out, '%');
            push_char(&mut out, hex(b / 16));
            push_char(&mut out, hex(b % 16));
        }
        assert(bytes@.take(i + 1).drop_last() =~= bytes@.take(i as int));
        i = i + 1;
    }
    assert(bytes@.take(bytes@.len() as int) =~= bytes@);
    out
}

/// `path` with every backslash made a slash.
pub open spec fn forward_slashes(path: Seq<char>) -> Seq<char> {
    path.map_values(|c: char| if c == '\\' { '/' } else { c })
}

/// `path` with a leading slash added when it has none.
pub open spec fn rooted(path: Seq<char>) -> Seq<char> {
    if path.len() > 0 && path[0] == '/' {
        path
    } else {
        seq!['/'] + path
    }
}

/// The `file://` URL of an absolute path.
pub open spec fn file_url_text(path: Seq<char>) -> Seq<char> {
    "file://"@ + url_encoded(vstd::utf8::encode_utf8(rooted(forward_slashes(path))))
}

/// The `file://` URL of the absolute path `path`.
pub fn file_url(path: &str) -> (r: String)
    ensures
        r@ == file_url_text(path@),
{
    let v = chars_of(path);
    let mut slashed = String::new();
    if !(v.len() > 0 && (v[0] == '/' || v[0] == '\\')) {
        push_char(&mut slashed, '/');
    }
    let ghost prefix = slashed@;
    let mut i: usize = 0;
    while i < v.len()
        invariant
            i <= v.len(),
            v@ == path@,
            slashed@ == prefix + forward_slashes(v@).take(i as int),
        decreases v.len() - i,
    {
        if v[i] == '\\' {
            push_char(&mut slashed, '/');
        } else {
            push_char(&mut slashed, v[i]);
        }
        assert(slashed@ =~= prefix + forward_slashes(v@).take(i + 1));
        i = i + 1;
    }
    assert(forward_slashes(v@).take(v.len() as int) =~= forward_slashes(v@));
    assert(slashed@ =~= rooted(forward_slashes(path@)));
    let mut url = owned("file://");
    let encoded = encode_url_path(slashed.as_str());
    url.append(encoded.as_str());
    url
}

} // verus!

verus! {

fn push_arg(args: &mut Vec<String>, arg: String)
    ensures
        final(args).deep_view() == old(args).deep_view().push(arg@),
{
    args.push(arg);
    assert(final(args).deep_view() =~= old(args).deep_view().push(arg@));
}

/// The arguments of `lp` before the file: the printer, when one is chosen,
/// then the number of copies.
pub open spec fn lp_arguments(printer: Option<Seq<char>>, copies: u32) -> Seq<Seq<char>> {
    match printer {
        Some(p) => seq!["-d"@, p, "-n"@, decimal(copies as nat)],
        None => seq!["-n"@, decimal(copies as nat)],
    }
}

/// The arguments of `lp` (macOS, Linux) that precede the file to print.
pub fn lp_args(printer: &Option<String>, copies: u32) -> (r: Vec<String>)
    ensures
        r.deep_view() == lp_arguments(printer.deep_view(), copies),
{
    let mut args: Vec<String> = Vec::new();
    if let Some(p) = printer {
        push_arg(&mut args, owned("-d"));
        push_arg(&mut args, p.clone());
    }
    push_arg(&mut args, owned("-n"));
    let mut n = String::new();
    push_decimal(&mut n, copies as u64);
    push_arg(&mut args, n);
    assert(args.deep_view() =~= lp_arguments(printer.deep_view(), copies));
    args
}

/// `s` inside a PowerShell single-quoted string: each `'` doubled.
pub open spec fn ps_quoted(s: Seq<char>) -> Seq<char>
    decreases s.len(),
{
    if s.len() == 0 {
        Seq::empty()
    } else if s.last() == '\'' {
        ps_quoted(s.drop_last()) + seq!['\'', '\'']
    } else {
        ps_quoted(s.drop_last()).push(s.last())
    }
}

/// `s` as a PowerShell single-quoted string literal.
pub open spec fn ps_literal(s: Seq<char>) -> Seq<char> {
    seq!['\''] + ps_quoted(s) + seq!['\'']
}

/// The PowerShell command that hands the PDF file `path` to Windows for
/// printing with `Start-Process -Verb Print` (the default printer), or, when
/// a printer is chosen, with the `PrintTo` verb and that printer's name; it
/// does so once per copy.
pub open spec fn windows_print_script(path: Seq<char>, printer: Option<Seq<char>>, copies: u32) -> Seq<char> {
    let verb = match printer {
        None => " -Verb Print"@,
        Some(p) => " -Verb PrintTo -ArgumentList "@ + ps_literal(seq!['"'] + p + seq!['"']),
    };
    "1.."@ + decimal(copies as nat) + " | ForEach-Object { Start-Process -FilePath "@
        + ps_literal(path) + verb + " }"@
}

/// The arguments of `powershell` that print the PDF file `path` on Windows.
pub open spec fn windows_print_arguments(path: Seq<char>, printer: Option<Seq<char>>, copies: u32) -> Seq<Seq<char>> {
    seq!["-NoProfile"@, "-Command"@, windows_print_script(path, printer, copies)]
}

fn push_ps_literal(out: &mut String, s: &str)
    ensures
        final(out)@ == old(out)@ + ps_literal(s@),
{
    let v = chars_of(s);
    push_char(out, '\'');
    let ghost start = out@;
    let mut i: usize = 0;
    assert(v@.take(0) =~= Seq::<char>::empty());
    while i < v.len()
        invariant
            i <= v.len(),
            v@ == s@,
            out@ == start + ps_quoted(v@.take(i as int)),
        decreases v.len() - i,
    {
        if v[i] == '\'' {
            push_char(out, '\'');
            push_char(out, '\'');
        } else {
            push_char(out, v[i]);
        }
        assert(v@.take(i + 1).drop_last() =~= v@.take(i as int));
        assert(out@ =~= start + ps_quoted(v@.take(i + 1)));
        i = i + 1;
    }
    assert(v@.take(v.len() as int) =~= v@);
    push_char(out, '\'');
    assert(final(out)@ =~= old(out)@ + ps_literal(s@));
}

/// The arguments of `powershell` that print the PDF file at `path` (as
/// text) on Windows, on `printer` (`None`: the default printer), `copies`
/// times.
pub fn windows_print_args(path: &str, printer: &Option<String>, copies: u32) -> (r: Vec<String>)
    ensures
        r.deep_view() == windows_print_arguments(path@, printer.deep_view(), copies),
{
    let mut script = owned("1..");
    push_decimal(&mut script, copies as u64);
    script.append(" | ForEach-Object { Start-Process -FilePath ");
    push_ps_literal(&mut script, path);
    match printer {
        None => {
            script.append(" -Verb Print");
        },
        Some(p) => {
            script.append(" -Verb PrintTo -ArgumentList ");
            let mut name = String::new();
            push_char(&mut name, '"');
            name.append(p.as_str());
            push_char(&mut name, '"');
            assert(name@ =~= seq!['"'] + p@ + seq!['"']);
            push_ps_literal(&mut script, name.as_str());
        },
    }
    script.append(" }");
    assert(script@ =~= windows_print_script(path@, printer.deep_view(), copies));
    let mut args: Vec<String> = Vec::new();
    push_arg(&mut args, owned("-NoProfile"));
    push_arg(&mut args, owned("-Command"));
    push_arg(&mut args, script);
    assert(args.deep_view() =~= windows_print_arguments(path@, printer.deep_view(), copies));
    args
}

/// The text of a PowerShell single-quoted string body read back: a doubled
/// quote at the end stands for one quote, any other character for itself.
pub open spec fn ps_unquoted(t: Seq<char>) -> Seq<char>
    decreases t.len(),
{
    if t.len() == 0 {
        Seq::empty()
    } else if t.len() >= 2 && t[t.len() - 1] == '\'' && t[t.len() - 2] == '\'' {
        ps_unquoted(t.take(t.len() - 2)).push('\'')
    } else {
        ps_unquoted(t.drop_last()).push(t.last())
    }
}

/// Reading a quoted string body back gives the text that was quoted.
pub proof fn law_ps_unquote_undoes_quote(s: Seq<char>)
    ensures
        ps_unquoted(ps_quoted(s)) == s,
    decreases s.len(),
{
    if s.len() > 0 {
        let s0 = s.drop_last();
        let c = s.last();
        law_ps_unquote_undoes_quote(s0);
        let a = ps_quoted(s0);
        if c == '\'' {
            let t = a + seq!['\'', '\''];
            assert(t.take(t.len() - 2) =~= a);
        } else {
            let t = a.push(c);
            assert(t.drop_last() =~= a);
        }
        assert(s0.push(c) =~= s);
    }
}

/// The system a program runs on, as far as finding a browser goes.
pub enum TargetOs {
    Windows,
    MacOs,
    Linux,
    Other,
}

/// A browser that may render pages to PDF: a path, under a directory when
/// `dir` is given, else a path or program name as it is.
pub struct RendererCandidate {
    pub dir: Option<String>,
    pub path: String,
}

pub struct CandidateModel {
    pub dir: Option<Seq<char>>,
    pub path: Seq<char>,
}

impl DeepView for RendererCandidate {
    type V = CandidateModel;

    open spec fn deep_view(&self) -> CandidateModel {
        CandidateModel { dir: self.dir.deep_view(), path: self.path@ }
    }
}

/// Edge and Chrome under one Windows program directory.
pub open spec fn windows_dir_candidates(dir: Option<Seq<char>>) -> Seq<CandidateModel> {
    match dir {
        Some(d) => seq![
            CandidateModel { dir: Some(d), path: "Microsoft/Edge/Application/msedge.exe"@ },
            CandidateModel { dir: Some(d), path: "Google/Chrome/Application/chrome.exe"@ },
        ],
        None => Seq::empty(),
    }
}

/// A program named as it is.
pub open spec fn plain_candidate(path: Seq<char>) -> CandidateModel {
    CandidateModel { dir: None, path }
}

/// The browsers to try, in order, on `os`.  On Windows: Edge and Chrome under
/// each of the program directories that is set (`ProgramFiles`,
/// `ProgramFiles(x86)`, `LOCALAPPDATA`), then `msedge.exe` and `chrome.exe`
/// by name; on macOS the application bundles of Edge, Chrome and Chromium;
/// on Linux the programs `microsoft-edge`, `google-chrome`, `chromium` and
/// `chromium-browser`; elsewhere none.
pub open spec fn renderer_candidate_list(
    os: TargetOs,
    program_files: Option<Seq<char>>,
    program_files_x86: Option<Seq<char>>,
    local_app_data: Option<Seq<char>>,
) -> Seq<CandidateModel> {
    match os {
        TargetOs::Windows => windows_dir_candidates(program_files) + windows_dir_candidates(program_files_x86)
            + windows_dir_candidates(local_app_data) + seq![
            plain_candidate("msedge.exe"@),
            plain_candidate("chrome.exe"@),
        ],
        TargetOs::MacOs => seq![
            plain_candidate("/Applications/Microsoft Edge.app/Contents/MacOS/Microsoft Edge"@),
            plain_candidate("/Applications/Google Chrome.app/Contents/MacOS/Google Chrome"@),
            plain_candidate("/Applications/Chromium.app/Contents/MacOS/Chromium"@),
        ],
        TargetOs::Linux => seq![
            plain_candidate("microsoft-edge"@),
            plain_candidate("google-chrome"@),
            plain_candidate("chromium"@),
            plain_candidate("chromium-browser"@),
        ],
        TargetOs::Other => Seq::empty(),
    }
}

fn push_candidate(out: &mut Vec<RendererCandidate>, dir: Option<String>, path: &str)
    ensures
        final(out).deep_view() == old(out).deep_view().push(CandidateModel { dir: dir.deep_view(), path: path@ }),
{
    out.push(RendererCandidate { dir, path: owned(path) });
    assert(final(out).deep_view() =~= old(out).deep_view().push(CandidateModel { dir: dir.deep_view(), path: path@ }));
}

fn push_windows_dir(out: &mut Vec<RendererCandidate>, dir: Option<String>)
    ensures
        final(out).deep_view() == old(out).deep_view() + windows_dir_candidates(dir.deep_view()),
{
    let ghost before = out.deep_view();
    match dir {
        Some(d) => {
            let ghost dv = d@;
            push_candidate(out, Some(d.clone()), "Microsoft/Edge/Application/msedge.exe");
            push_candidate(out, Some(d), "Google/Chrome/Application/chrome.exe");
            assert(out.deep_view() =~= before + windows_dir_candidates(Some(dv)));
        },
        None => {
            assert(out.deep_view() =~= before + windows_dir_candidates(None));
        },
    }
}

/// The browsers to try, in order, on `os`, given the Windows program
/// directories that are set.
pub fn renderer_candidates(
    os: TargetOs,
    program_files: Option<String>,
    program_files_x86: Option<String>,
    local_app_data: Option<String>,
) -> (r: Vec<RendererCandidate>)
    ensures
        r.deep_view() == renderer_candidate_list(
            os,
            program_files.deep_view(),
            program_files_x86.deep_view(),
            local_app_data.deep_view(),
        ),
{
    let ghost (a, b, c) = (program_files.deep_view(), program_files_x86.deep_view(), local_app_data.deep_view());
    let mut out: Vec<RendererCandidate> = Vec::new();
    match os {
        TargetOs::Windows => {
            push_windows_dir(&mut out, program_files);
            push_windows_dir(&mut out, program_files_x86);
            push_windows_dir(&mut out, local_app_data);
            push_candidate(&mut out, None, "msedge.exe");
            push_candidate(&mut out, None, "chrome.exe");
        },
        TargetOs::MacOs => {
            push_candidate(&mut out, None, "/Applications/Microsoft Edge.app/Contents/MacOS/Microsoft Edge");
            push_candidate(&mut out, None, "/Applications/Google Chrome.app/Contents/MacOS/Google Chrome");
            push_candidate(&mut out, None, "/Applications/Chromium.app/Contents/MacOS/Chromium");
        },
        TargetOs::Linux => {
            push_candidate(&mut out, None, "microsoft-edge");
            push_candidate(&mut out, None, "google-chrome");
            push_candidate(&mut out, None, "chromium");
            push_candidate(&mut out, None, "chromium-browser");
        },
        TargetOs::Other => {},
    }
    assert(out.deep_view() =~= renderer_candidate_list(os, a, b, c));
    out
}

/// Whether a candidate renderer is worth trying: a bare program name
/// (one path component) is looked up by the system; a longer path only
/// when it exists.
pub fn renderer_worth_trying(component_count: usize, exists: bool) -> (r: bool)
    ensures
        r == (component_count <= 1 || exists),
{
    component_count <= 1 || exists
}

/// The arguments of the headless browser that renders the HTML page at
/// `page_url` to the PDF file `pdf_path`.
pub open spec fn renderer_arguments(pdf_path: Seq<char>, page_url: Seq<char>) -> Seq<Seq<char>> {
    seq![
        "--headless"@,
        "--disable-gpu"@,
        "--run-all-compositor-stages-before-draw"@,
        "--virtual-time-budget=10000"@,
        "--print-to-pdf="@ + pdf_path,
        page_url,
    ]
}

/// The arguments of the headless browser that renders a page to PDF.
pub fn renderer_args(pdf_path: &str, page_url: &str) -> (r: Vec<String>)
    ensures
        r.deep_view() == renderer_arguments(pdf_path@, page_url@),
{
    let mut args: Vec<String> = Vec::new();
    push_arg(&mut args, owned("--headless"));
    push_arg(&mut args, owned("--disable-gpu"));
    push_arg(&mut args, owned("--run-all-compositor-stages-before-draw"));
    push_arg(&mut args, owned("--virtual-time-budget=10000"));
    let mut target = owned("--print-to-pdf=");
    target.append(pdf_path);
    push_arg(&mut args, target);
    push_arg(&mut args, owned(page_url));
    assert(args.deep_view() =~= renderer_arguments(pdf_path@, page_url@));
    args
}

} // verus!

verus! {

/// A file-name form is never empty, holds at most 80 characters, and only
/// characters that may stay in a file name.
pub proof fn law_file_name_is_safe(id: Seq<char>)
    ensures
        0 < file_name_of(id).len() <= 80,
        forall|i: int| 0 <= i < file_name_of(id).len() ==> file_name_char(#[trigger] file_name_of(id)[i]),
{
    reveal_strlit("task");
    if id.len() == 0 {
        let t = "task"@;
        assert(t[0] == 't' && t[1] == 'a' && t[2] == 's' && t[3] == 'k');
    }
}

/// A character that may appear in an encoded URL path: a byte that stays as
/// it is, or `%`.
pub open spec fn url_path_char(c: char) -> bool {
    c == '%' || ((c as u32) < 256 && url_byte((c as u32) as u8))
}

/// Percent-encoding leaves only characters that may appear in a URL path,
/// and one to three characters per byte.
pub proof fn law_url_encoding_is_safe(bs: Seq<u8>)
    ensures
        forall|i: int| 0 <= i < url_encoded(bs).len() ==> url_path_char(#[trigger] url_encoded(bs)[i]),
        bs.len() <= url_encoded(bs).len() <= 3 * bs.len(),
    decreases bs.len(),
{
    if bs.len() > 0 {
        law_url_encoding_is_safe(bs.drop_last());
        let a = url_encoded(bs.drop_last());
        let b = url_byte_text(bs.last());
        let x = bs.last();
        assert(x / 16 < 16);
        assert(x % 16 < 16);
        assert forall|i: int| 0 <= i < (a + b).len() implies url_path_char(#[trigger] (a + b)[i]) by {
            if i >= a.len() {
                assert((a + b)[i] == b[i - a.len()]);
            } else {
                assert((a + b)[i] == a[i]);
            }
        }
    }
}

/// The value of an upper-case hexadecimal digit.
pub open spec fn hex_value(c: char) -> int {
    if c <= '9' {
        c as int - 48
    } else {
        c as int - 55
    }
}

/// Percent-decoding: `%` and two hexadecimal digits at the end become the
/// byte they spell; any other character stands for its own code.
pub open spec fn url_decoded(t: Seq<char>) -> Seq<u8>
    decreases t.len(),
{
    if t.len() == 0 {
        Seq::empty()
    } else if t.len() >= 3 && t[t.len() - 3] == '%' {
        url_decoded(t.take(t.len() - 3)).push((hex_value(t[t.len() - 2]) * 16 + hex_value(t[t.len() - 1])) as u8)
    } else {
        url_decoded(t.drop_last()).push((t.last() as u32) as u8)
    }
}

/// Each byte written as the character with its code.
pub open spec fn byte_chars(bs: Seq<u8>) -> Seq<char> {
    Seq::new(bs.len(), |i: int| (bs[i] as u32) as char)
}

proof fn lemma_hex_value(d: nat)
    requires
        d < 16,
    ensures
        hex_value(hex_digit(d)) == d,
        hex_digit(d) != '%',
{
}

/// Every `%` of an encoded path is followed by two more characters.
proof fn lemma_percent_has_two_digits(bs: Seq<u8>)
    ensures
        forall|i: int| 0 <= i < url_encoded(bs).len() && #[trigger] url_encoded(bs)[i] == '%' ==> i + 3 <= url_encoded(bs).len(),
    decreases bs.len(),
{
    if bs.len() > 0 {
        lemma_percent_has_two_digits(bs.drop_last());
        let a = url_encoded(bs.drop_last());
        let b = url_byte_text(bs.last());
        let x = bs.last();
        lemma_hex_value((x / 16) as nat);
        lemma_hex_value((x % 16) as nat);
        assert forall|i: int| 0 <= i < (a + b).len() && #[trigger] (a + b)[i] == '%' implies i + 3 <= (a + b).len() by {
            if i < a.len() {
                assert((a + b)[i] == a[i]);
            } else {
                assert((a + b)[i] == b[i - a.len()]);
            }
        }
    }
}

/// Percent-decoding an encoded path gives back the bytes that were encoded.
pub proof fn law_url_decoding_undoes_encoding(bs: Seq<u8>)
    ensures
        url_decoded(url_encoded(bs)) == bs,
    decreases bs.len(),
{
    if bs.len() > 0 {
        let b0 = bs.drop_last();
        let x = bs.last();
        law_url_decoding_undoes_encoding(b0);
        lemma_percent_has_two_digits(b0);
        lemma_hex_value((x / 16) as nat);
        lemma_hex_value((x % 16) as nat);
        let a = url_encoded(b0);
        let b = url_byte_text(x);
        let t = a + b;
        assert(url_encoded(bs) == t);
        if url_byte(x) {
            assert(t =~= a.push((x as u32) as char));
            assert(t.drop_last() =~= a);
            if t.len() >= 3 && t[t.len() - 3] == '%' {
                assert(a[a.len() - 2] == '%');
            }
        } else {
            assert(t.take(t.len() - 3) =~= a);
            assert(t[t.len() - 3] == '%');
            assert((x / 16) * 16 + x % 16 == x);
        }
        assert(b0.push(x) =~= bs);
    }
}

/// Percent-encoding writes the bytes as they are exactly when every byte is
/// one that stays as it is.
pub proof fn law_url_encoding_keeps_plain_paths(bs: Seq<u8>)
    ensures
        url_encoded(bs) == byte_chars(bs) <==> forall|i: int| 0 <= i < bs.len() ==> url_byte(#[trigger] bs[i]),
    decreases bs.len(),
{
    if bs.len() > 0 {
        let b0 = bs.drop_last();
        let x = bs.last();
        law_url_encoding_keeps_plain_paths(b0);
        law_url_encoding_is_safe(b0);
        let a = url_encoded(b0);
        let b = url_byte_text(x);
        let t = a + b;
        assert(url_encoded(bs) == t);
        assert(byte_chars(bs) =~= byte_chars(b0).push((x as u32) as char));
        if forall|i: int| 0 <= i < bs.len() ==> url_byte(#[trigger] bs[i]) {
            assert forall|i: int| 0 <= i < b0.len() implies url_byte(#[trigger] b0[i]) by {
                assert(b0[i] == bs[i]);
            }
            assert(url_byte(bs[bs.len() - 1]));
            assert(t =~= byte_chars(bs));
        }
        if t == byte_chars(bs) {
            assert(b.len() == 1);
            assert(a =~= t.take(a.len() as int));
            assert(a =~= byte_chars(b0));
            assert(url_byte(x));
            assert forall|i: int| 0 <= i < bs.len() implies url_byte(#[trigger] bs[i]) by {
                if i < b0.len() {
                    assert(bs[i] == b0[i]);
                }
            }
        }
    } else {
        assert(byte_chars(bs) =~= Seq::empty());
    }
}

/// A character with a code below `0x80` is ASCII.
proof fn lemma_ascii_char(c: char)
    requires
        (c as u32) < 0x80,
    ensures
        '\0' <= c <= '\u{7f}',
{
}

/// A character past ASCII is written in UTF-8 with a first byte past ASCII.
proof fn lemma_wide_char_lead_byte(c: char)
    requires
        c as u32 >= 0x80,
    ensures
        vstd::utf8::encode_scalar(c as u32)[0] >= 0x80,
{
    let v = c as u32;
    vstd::utf8::char_is_scalar(c);
    if vstd::utf8::has_width_2_encoding(v) {
        assert(0xC0u8 | ((v >> 6) & 0x1F) as u8 >= 0x80) by (bit_vector);
    } else if vstd::utf8::has_width_3_encoding(v) {
        assert(0xE0u8 | ((v >> 12) & 0x0F) as u8 >= 0x80) by (bit_vector);
    } else {
        assert(0xF0u8 | ((v >> 18) & 0x7) as u8 >= 0x80) by (bit_vector);
    }
}

/// Text whose UTF-8 bytes all lie below `0x80` is ASCII.
proof fn lemma_ascii_bytes_ascii_chars(s: Seq<char>)
    requires
        forall|i: int| 0 <= i < vstd::utf8::encode_utf8(s).len() ==> #[trigger] vstd::utf8::encode_utf8(s)[i] < 0x80,
    ensures
        vstd::utf8::is_ascii_chars(s),
    decreases s.len(),
{
    if s.len() > 0 {
        let head = vstd::utf8::encode_scalar(s[0] as u32);
        let tail = vstd::utf8::encode_utf8(s.drop_first());
        let bs = vstd::utf8::encode_utf8(s);
        assert(bs == head + tail);
        vstd::utf8::char_is_scalar(s[0]);
        assert(head.len() > 0);
        assert(bs[0] == head[0]);
        if s[0] as u32 >= 0x80 {
            lemma_wide_char_lead_byte(s[0]);
        }
        assert forall|i: int| 0 <= i < tail.len() implies #[trigger] tail[i] < 0x80 by {
            assert(bs[head.len() + i] == tail[i]);
        }
        lemma_ascii_bytes_ascii_chars(s.drop_first());
        assert((s[0] as u32) < 0x80);
        lemma_ascii_char(s[0]);
        assert forall|i: int| 0 <= i < s.len() implies '\0' <= #[trigger] s[i] <= '\u{7f}' by {
            if i > 0 {
                assert(s[i] == s.drop_first()[i - 1]);
                assert(s.drop_first()[i - 1] <= '\u{7f}');
            }
        }
    }
}

/// ASCII text is its UTF-8 bytes written as characters.
proof fn lemma_ascii_byte_chars(s: Seq<char>)
    requires
        vstd::utf8::is_ascii_chars(s),
    ensures
        byte_chars(vstd::utf8::encode_utf8(s)) == s,
{
    vstd::utf8::is_ascii_chars_encode_utf8(s);
    let bs = vstd::utf8::encode_utf8(s);
    assert forall|i: int| 0 <= i < s.len() implies byte_chars(bs)[i] == s[i] by {
        assert(bs[i] == s[i] as u8);
        assert((s[i] as u32) < 0x80);
    }
    assert(byte_chars(bs) =~= s);
}

/// Percent-encoding gives back the text itself exactly when every byte of its
/// UTF-8 form is one that stays as it is.
pub proof fn law_url_encoding_keeps_plain_text(s: Seq<char>)
    ensures
        url_encoded(vstd::utf8::encode_utf8(s)) == s <==> forall|i: int|
            0 <= i < vstd::utf8::encode_utf8(s).len() ==> url_byte(#[trigger] vstd::utf8::encode_utf8(s)[i]),
{
    let bs = vstd::utf8::encode_utf8(s);
    law_url_encoding_keeps_plain_paths(bs);
    if forall|i: int| 0 <= i < bs.len() ==> url_byte(#[trigger] bs[i]) {
        assert forall|i: int| 0 <= i < bs.len() implies #[trigger] bs[i] < 0x80 by {
            assert(url_byte(bs[i]));
        }
        lemma_ascii_bytes_ascii_chars(s);
        lemma_ascii_byte_chars(s);
    }
    if url_encoded(bs) == s {
        law_url_encoding_is_safe(bs);
        assert forall|i: int| 0 <= i < s.len() implies '\0' <= #[trigger] s[i] <= '\u{7f}' by {
            assert(url_path_char(url_encoded(bs)[i]));
            let x: u32 = s[i] as u32;
            if s[i] != '%' {
                assert(x < 256 ==> (x as u8) as u32 == x) by (bit_vector);
                assert(url_byte(x as u8));
            }
            lemma_ascii_char(s[i]);
        }
        lemma_ascii_byte_chars(s);
    }
}

/// The plan prints as many copies as the command asks for, one when it asks
/// for none, and never fewer than one.
pub proof fn law_plan_copies(c: CommandModel, config: ConfigModel)
    ensures
        print_plan(c, config) matches Ok(p) ==> {
            &&& c.copies is None ==> p.copies == 1
            &&& (c.copies matches Some(n) && n >= 1) ==> p.copies == c.copies->0
            &&& c.copies == Some(0u32) ==> p.copies == 1
        },
{
}

/// The plan prints on the command's own printer when it names one, else on
/// the default printer of the settings with surrounding blanks removed, and
/// on the system's default printer when that setting is blank.
pub proof fn law_plan_printer(c: CommandModel, config: ConfigModel)
    ensures
        print_plan(c, config) matches Ok(p) ==> {
            &&& c.printer is Some ==> p.printer == c.printer
            &&& (c.printer is None && trimmed(config.default_printer).len() == 0) ==> p.printer is None
            &&& (c.printer is None && trimmed(config.default_printer).len() != 0) ==> p.printer == Some(
                trimmed(config.default_printer),
            )
        },
{
}

/// What the plan does with each format: HTML is rendered as the command's
/// page and an image as the page of its HTML form, failing exactly when the
/// page's paper size is unknown; a PDF is printed from the path the command
/// holds; ESC/POS is not supported.  PDF and ESC/POS commands always have a
/// plan.
pub proof fn law_plan_action(c: CommandModel, config: ConfigModel)
    ensures
        c.format == PrintFormat::Html ==> match command_page(c) {
            Ok(page) => print_plan(c, config) matches Ok(p) && p.action == ActionModel::RenderHtml(page),
            Err(name) => print_plan(c, config) == Err::<PlanModel, Seq<char>>(name),
        },
        c.format == PrintFormat::Image ==> match command_page(image_page_command(c)) {
            Ok(page) => print_plan(c, config) matches Ok(p) && p.action == ActionModel::RenderHtml(page),
            Err(name) => print_plan(c, config) == Err::<PlanModel, Seq<char>>(name),
        },
        c.format == PrintFormat::Pdf ==> (print_plan(c, config) matches Ok(p) && p.action
            == ActionModel::PrintPdf(c.content)),
        c.format == PrintFormat::Escpos ==> (print_plan(c, config) matches Ok(p) && p.action
            == ActionModel::Unsupported),
{
}

/// The plan asks for at least one copy, stops short of the printer exactly
/// when the settings ask for dry runs, and prints nothing for ESC/POS.
pub proof fn law_plan_follows_settings(c: CommandModel, config: ConfigModel)
    ensures
        print_plan(c, config) matches Ok(p) ==> p.copies >= 1 && p.dry_run == config.dry_run,
        c.format == PrintFormat::Escpos ==> (print_plan(c, config) matches Ok(p) && p.action == ActionModel::Unsupported),
        c.format == PrintFormat::Pdf ==> (print_plan(c, config) matches Ok(p) && p.action == ActionModel::PrintPdf(c.content)),
        c.printer is None && configured_printer(config) is None ==> (print_plan(c, config) matches Ok(p) ==> p.printer is None),
{
}

} // verus!
