//! The list of system printers, read from what the system's printing tools
//! report.

use vstd::prelude::*;
use serde_json::Value;
use crate::text::{
    chars_of, contains, contains_text, has_prefix, owned, split_lines, starts_with, string_of,
    text_lines, trim, trimmed,
};

verus! {

pub const PRINTER_STATUS_READY: i32 = 0;
pub const PRINTER_STATUS_UNKNOWN: i32 = 2;
pub const PRINTER_STATUS_PRINTING: i32 = 4;
pub const PRINTER_STATUS_WARMUP: i32 = 5;
pub const PRINTER_STATUS_STOPPED: i32 = 6;
pub const PRINTER_STATUS_OFFLINE: i32 = 7;

/// A printer as the desktop client shows it.
pub struct PrinterInfo {
    pub name: String,
    pub description: String,
    pub status: i32,
    pub is_default: bool,
}

pub struct PrinterModel {
    pub name: Seq<char>,
    pub description: Seq<char>,
    pub status: i32,
    pub is_default: bool,
}

impl View for PrinterInfo {
    type V = PrinterModel;

    open spec fn view(&self) -> PrinterModel {
        PrinterModel {
            name: self.name@,
            description: self.description@,
            status: self.status,
            is_default: self.is_default,
        }
    }
}

impl DeepView for PrinterInfo {
    type V = PrinterModel;

    open spec fn deep_view(&self) -> PrinterModel {
        self@
    }
}

/// The status the client shows for a Win32 printer status code: 3 (idle)
/// is ready; printing, warming up, stopped and offline keep their codes;
/// anything else is unknown.
pub open spec fn windows_status(status: i64) -> i32 {
    if status == 3 {
        PRINTER_STATUS_READY
    } else if status == 4 {
        PRINTER_STATUS_PRINTING
    } else if status == 5 {
        PRINTER_STATUS_WARMUP
    } else if status == 6 {
        PRINTER_STATUS_STOPPED
    } else if status == 7 {
        PRINTER_STATUS_OFFLINE
    } else {
        PRINTER_STATUS_UNKNOWN
    }
}

pub fn normalize_windows_printer_status(status: i64) -> (r: i32)
    ensures
        r == windows_status(status),
{
    if status == 3 {
        PRINTER_STATUS_READY
    } else if status == 4 {
        PRINTER_STATUS_PRINTING
    } else if status == 5 {
        PRINTER_STATUS_WARMUP
    } else if status == 6 {
        PRINTER_STATUS_STOPPED
    } else if status == 7 {
        PRINTER_STATUS_OFFLINE
    } else {
        PRINTER_STATUS_UNKNOWN
    }
}

/// What the Windows printer query reports of one printer; `None` where a
/// property is missing or not of the expected kind.
pub struct WindowsPrinterRecord {
    pub name: Option<String>,
    pub driver_name: Option<String>,
    pub status: Option<i64>,
    pub is_default: Option<bool>,
}

/// The printer a Windows record describes; none without a name.  The
/// description is the driver's name, `系统打印机` without one.
pub open spec fn windows_printer(
    name: Option<Seq<char>>,
    driver_name: Option<Seq<char>>,
    status: Option<i64>,
    is_default: Option<bool>,
) -> Option<PrinterModel> {
    match name {
        None => None,
        Some(name) => Some(
            PrinterModel {
                name,
                description: match driver_name {
                    Some(d) => d,
                    None => "系统打印机"@,
                },
                status: match status {
                    Some(s) => windows_status(s),
                    None => PRINTER_STATUS_UNKNOWN,
                },
                is_default: match is_default {
                    Some(b) => b,
                    None => false,
                },
            },
        ),
    }
}

pub struct PrinterRecordModel {
    pub name: Option<Seq<char>>,
    pub driver_name: Option<Seq<char>>,
    pub status: Option<i64>,
    pub is_default: Option<bool>,
}

impl View for WindowsPrinterRecord {
    type V = PrinterRecordModel;

    open spec fn view(&self) -> PrinterRecordModel {
        PrinterRecordModel {
            name: self.name.deep_view(),
            driver_name: self.driver_name.deep_view(),
            status: self.status,
            is_default: self.is_default,
        }
    }
}

impl DeepView for WindowsPrinterRecord {
    type V = PrinterRecordModel;

    open spec fn deep_view(&self) -> PrinterRecordModel {
        self@
    }
}

pub open spec fn record_printer(r: PrinterRecordModel) -> Option<PrinterModel> {
    windows_printer(r.name, r.driver_name, r.status, r.is_default)
}

/// The printers of the Windows records, in order, skipping those without a
/// name.
pub open spec fn windows_printer_list(rs: Seq<PrinterRecordModel>) -> Seq<PrinterModel>
    decreases rs.len(),
{
    if rs.len() == 0 {
        Seq::empty()
    } else {
        let rest = windows_printer_list(rs.drop_last());
        match record_printer(rs.last()) {
            Some(p) => rest.push(p),
            None => rest,
        }
    }
}

/// The printers that the Windows records describe.
pub fn windows_printers(records: &Vec<WindowsPrinterRecord>) -> (r: Vec<PrinterInfo>)
    ensures
        r.deep_view() == windows_printer_list(records.deep_view()),
{
    let ghost rs = records.deep_view();
    let mut out: Vec<PrinterInfo> = Vec::new();
    let mut i: usize = 0;
    assert(rs.take(0) =~= Seq::<PrinterRecordModel>::empty());
    while i < records.len()
        invariant
            i <= records.len(),
            rs == records.deep_view(),
            out.deep_view() == windows_printer_list(rs.take(i as int)),
        decreases records.len() - i,
    {
        let rec = &records[i];
        assert(rs.take(i + 1).drop_last() =~= rs.take(i as int));
        assert(rs.take(i + 1).last() == rec@);
        let ghost before = out.deep_view();
        if let Some(name) = &rec.name {
            let description = match &rec.driver_name {
                Some(d) => d.clone(),
                None => owned("系统打印机"),
            };
            let status = match rec.status {
                Some(s) => normalize_windows_printer_status(s),
                None => PRINTER_STATUS_UNKNOWN,
            };
            let is_default = match rec.is_default {
                Some(b) => b,
                None => false,
            };
            out.push(PrinterInfo { name: name.clone(), description, status, is_default });
            assert(out.deep_view() =~= before.push(record_printer(rec@)->0));
        }
        i = i + 1;
    }
    assert(rs.take(records.len() as int) =~= rs);
    out
}

/// The top-level shape of the Windows printer query's JSON output: an array
/// of printer objects, one object alone (what the query prints for a single
/// printer), or some other value.
pub enum PrinterJson {
    List(Vec<WindowsPrinterRecord>),
    Object(WindowsPrinterRecord),
    Scalar,
}

pub enum PrinterJsonModel {
    List(Seq<PrinterRecordModel>),
    Object(PrinterRecordModel),
    Scalar,
}

impl DeepView for PrinterJson {
    type V = PrinterJsonModel;

    open spec fn deep_view(&self) -> PrinterJsonModel {
        match self {
            PrinterJson::List(rs) => PrinterJsonModel::List(rs.deep_view()),
            PrinterJson::Object(r) => PrinterJsonModel::Object(r@),
            PrinterJson::Scalar => PrinterJsonModel::Scalar,
        }
    }
}

/// A record with none of the four fields.
pub open spec fn blank_record() -> PrinterRecordModel {
    PrinterRecordModel { name: None, driver_name: None, status: None, is_default: None }
}

/// The records a JSON value stands for: the items of an array; any other
/// value alone, read as one record (a value that is not an object has none of
/// the fields).
pub open spec fn json_records(j: PrinterJsonModel) -> Seq<PrinterRecordModel> {
    match j {
        PrinterJsonModel::List(rs) => rs,
        PrinterJsonModel::Object(r) => seq![r],
        PrinterJsonModel::Scalar => seq![blank_record()],
    }
}

/// What `serde_json` makes of the Windows printer query's JSON text.
pub uninterp spec fn json_printer_records(text: Seq<char>) -> Option<PrinterJsonModel>;

/// `serde_json::from_str::<Value>` on `text`, told apart by its top-level
/// variant: an array's items and a lone object are each read through
/// `Value::get` for `Name` and `DriverName` (`as_str`), `PrinterStatus`
/// (`as_i64`) and `Default` (`as_bool`); `None` when the text is not JSON.
/// The result is named, not spelled out: it depends on the text alone.
#[verifier::external_body]
fn parse_printer_json(text: &str) -> (r: Option<PrinterJson>)
    ensures
        r.deep_view() == json_printer_records(text@),
{
    let record = |item: &Value| WindowsPrinterRecord {
        name: item.get("Name").and_then(Value::as_str).map(str::to_string),
        driver_name: item.get("DriverName").and_then(Value::as_str).map(str::to_string),
        status: item.get("PrinterStatus").and_then(Value::as_i64),
        is_default: item.get("Default").and_then(Value::as_bool),
    };
    match serde_json::from_str::<Value>(text).ok()? {
        Value::Array(items) => Some(PrinterJson::List(items.iter().map(record).collect())),
        Value::Object(fields) => Some(PrinterJson::Object(record(&Value::Object(fields)))),
        Value::Null | Value::Bool(_) | Value::Number(_) | Value::String(_) => Some(PrinterJson::Scalar),
    }
}

/// The records that a parsed JSON value stands for: the items of an array,
/// or the lone value as a one-record list.
pub fn printer_records(j: PrinterJson) -> (r: Vec<WindowsPrinterRecord>)
    ensures
        r.deep_view() == json_records(j.deep_view()),
{
    match j {
        PrinterJson::List(rs) => rs,
        PrinterJson::Object(rec) => {
            let ghost m = rec@;
            let v = vec![rec];
            assert(v.deep_view() =~= seq![m]);
            v
        },
        PrinterJson::Scalar => {
            let v = vec![WindowsPrinterRecord { name: None, driver_name: None, status: None, is_default: None }];
            assert(v.deep_view() =~= seq![blank_record()]);
            v
        },
    }
}

/// The printers that the Windows printer query's output `stdout` lists:
/// none for blank output; `None` when the trimmed output is not JSON; else
/// the printers of the records it holds, a lone value read as one record.
pub fn windows_printers_from_output(stdout: &str) -> (r: Option<Vec<PrinterInfo>>)
    ensures
        trimmed(stdout@).len() == 0 ==> (r matches Some(v) && v@.len() == 0),
        trimmed(stdout@).len() != 0 ==> r.deep_view() == match json_printer_records(trimmed(stdout@)) {
            Some(j) => Some(windows_printer_list(json_records(j))),
            None => None,
        },
{
    let text = trim(stdout);
    if text.as_str().is_empty() {
        return Some(Vec::new());
    }
    match parse_printer_json(text.as_str()) {
        Some(j) => {
            let records = printer_records(j);
            Some(windows_printers(&records))
        },
        None => None,
    }
}

/// The default printer named by an `lpstat` line, if it is one that names it.
pub open spec fn lpstat_default(line: Seq<char>) -> Option<Seq<char>> {
    let p = "system default destination: "@;
    if has_prefix(line, p) && trimmed(line.skip(p.len() as int)).len() > 0 {
        Some(trimmed(line.skip(p.len() as int)))
    } else {
        None
    }
}

/// The default printer named by the first line that names one.
pub open spec fn default_destination(lines: Seq<Seq<char>>) -> Option<Seq<char>>
    decreases lines.len(),
{
    if lines.len() == 0 {
        None
    } else {
        match lpstat_default(lines[0]) {
            Some(name) => Some(name),
            None => default_destination(lines.drop_first()),
        }
    }
}

/// The index of the first space of `s` at or after `k`; the length of `s`
/// when there is none.
pub open spec fn next_space(s: Seq<char>, k: int) -> int
    decreases s.len() - k,
{
    if k >= s.len() {
        s.len() as int
    } else if s[k] == ' ' {
        k
    } else {
        next_space(s, k + 1)
    }
}

/// The status an `lpstat` printer line reports.
pub open spec fn lpstat_status(line: Seq<char>) -> i32 {
    if contains_text(line, " is idle"@) {
        PRINTER_STATUS_READY
    } else if contains_text(line, " now printing"@) {
        PRINTER_STATUS_PRINTING
    } else if contains_text(line, " disabled"@) {
        PRINTER_STATUS_STOPPED
    } else if contains_text(line, " offline"@) {
        PRINTER_STATUS_OFFLINE
    } else {
        PRINTER_STATUS_UNKNOWN
    }
}

/// The printer an `lpstat` line describes: a line `printer NAME ...`; the
/// name ends at the first space after `printer `, and a line with no such
/// space describes none.
pub open spec fn lpstat_printer(line: Seq<char>, default: Option<Seq<char>>) -> Option<PrinterModel> {
    let p = "printer "@;
    let rest = line.skip(p.len() as int);
    let k = next_space(rest, 0);
    if has_prefix(line, p) && k < rest.len() {
        Some(
            PrinterModel {
                name: rest.take(k),
                description: line,
                status: lpstat_status(line),
                is_default: default == Some(rest.take(k)),
            },
        )
    } else {
        None
    }
}

/// The printers of the lines, in order.
pub open spec fn lpstat_printer_list(lines: Seq<Seq<char>>, default: Option<Seq<char>>) -> Seq<PrinterModel>
    decreases lines.len(),
{
    if lines.len() == 0 {
        Seq::empty()
    } else {
        let rest = lpstat_printer_list(lines.drop_last(), default);
        match lpstat_printer(lines.last(), default) {
            Some(p) => rest.push(p),
            None => rest,
        }
    }
}

/// The printers that `lpstat -p -d` reports in `output`.
pub open spec fn lpstat_printers(output: Seq<char>) -> Seq<PrinterModel> {
    lpstat_printer_list(text_lines(output), default_destination(text_lines(output)))
}

} // verus!

verus! {

fn line_default(line: &Vec<char>) -> (r: Option<String>)
    ensures
        r.deep_view() == lpstat_default(line@),
{
    let prefix = chars_of("system default destination: ");
    if !starts_with(line, &prefix) {
        return None;
    }
    let rest = string_of(line, prefix.len(), line.len());
    assert(rest@ =~= line@.skip(prefix@.len() as int));
    let name = trim(rest.as_str());
    if name.as_str().is_empty() {
        None
    } else {
        Some(name)
    }
}

fn default_of(lines: &Vec<Vec<char>>) -> (r: Option<String>)
    ensures
        r.deep_view() == default_destination(lines.deep_view()),
{
    let ghost ls = lines.deep_view();
    let mut i: usize = 0;
    assert(ls.skip(0) =~= ls);
    while i < lines.len()
        invariant
            i <= lines.len(),
            ls == lines.deep_view(),
            default_destination(ls) == default_destination(ls.skip(i as int)),
        decreases lines.len() - i,
    {
        assert(lines@[i as int]@ =~= ls[i as int]);
        assert(ls.skip(i as int)[0] == ls[i as int]);
        assert(ls.skip(i as int).drop_first() =~= ls.skip(i + 1));
        let found = line_default(&lines[i]);
        if found.is_some() {
            return found;
        }
        i = i + 1;
    }
    assert(ls.skip(i as int) =~= Seq::<Seq<char>>::empty());
    None
}

fn first_space_from(s: &Vec<char>, k: usize) -> (r: usize)
    requires
        k <= s.len(),
    ensures
        r == next_space(s@, k as int),
{
    let mut i = k;
    while i < s.len() && s[i] != ' '
        invariant
            k <= i <= s.len(),
            next_space(s@, k as int) == next_space(s@, i as int),
        decreases s.len() - i,
    {
        i = i + 1;
    }
    i
}

fn line_status(line: &Vec<char>) -> (r: i32)
    ensures
        r == lpstat_status(line@),
{
    if contains(line, &chars_of(" is idle")) {
        PRINTER_STATUS_READY
    } else if contains(line, &chars_of(" now printing")) {
        PRINTER_STATUS_PRINTING
    } else if contains(line, &chars_of(" disabled")) {
        PRINTER_STATUS_STOPPED
    } else if contains(line, &chars_of(" offline")) {
        PRINTER_STATUS_OFFLINE
    } else {
        PRINTER_STATUS_UNKNOWN
    }
}

fn line_printer(line: &Vec<char>, default: &Option<String>) -> (r: Option<PrinterInfo>)
    ensures
        r.deep_view() == lpstat_printer(line@, default.deep_view()),
{
    let prefix = chars_of("printer ");
    if !starts_with(line, &prefix) {
        return None;
    }
    let rest = string_of(line, prefix.len(), line.len());
    let rest_chars = chars_of(rest.as_str());
    assert(rest_chars@ =~= line@.skip(prefix@.len() as int));
    let k = first_space_from(&rest_chars, 0);
    if k >= rest_chars.len() {
        return None;
    }
    let name = string_of(&rest_chars, 0, k);
    assert(name@ =~= rest_chars@.take(k as int));
    let is_default = match default {
        Some(d) => crate::text::same_text(d.as_str(), name.as_str()),
        None => false,
    };
    let description = string_of(line, 0, line.len());
    assert(description@ =~= line@);
    Some(PrinterInfo { name, description, status: line_status(line), is_default })
}

/// The printers that `lpstat -p -d` reports in `output`, with the system
/// default marked.
pub fn parse_lpstat(output: &str) -> (r: Vec<PrinterInfo>)
    ensures
        r.deep_view() == lpstat_printers(output@),
{
    let lines = split_lines(output);
    let ghost ls = lines.deep_view();
    let default = default_of(&lines);
    let mut out: Vec<PrinterInfo> = Vec::new();
    let mut i: usize = 0;
    assert(ls.take(0) =~= Seq::<Seq<char>>::empty());
    while i < lines.len()
        invariant
            i <= lines.len(),
            ls == lines.deep_view(),
            ls == text_lines(output@),
            default.deep_view() == default_destination(ls),
            out.deep_view() == lpstat_printer_list(ls.take(i as int), default.deep_view()),
        decreases lines.len() - i,
    {
        assert(lines@[i as int]@ =~= ls[i as int]);
        assert(ls.take(i + 1).drop_last() =~= ls.take(i as int));
        assert(ls.take(i + 1).last() == ls[i as int]);
        let ghost before = out.deep_view();
        if let Some(p) = line_printer(&lines[i], &default) {
            out.push(p);
            assert(out.deep_view() =~= before.push(lpstat_printer(ls[i as int], default.deep_view())->0));
        }
        i = i + 1;
    }
    assert(ls.take(lines.len() as int) =~= ls);
    out
}

/// The printers that the Windows printer query reports: none when the query
/// failed, else those its output lists (`None` when that output is not JSON).
pub fn windows_query_printers(succeeded: bool, stdout: &str) -> (r: Option<Vec<PrinterInfo>>)
    ensures
        !succeeded ==> (r matches Some(v) && v@.len() == 0),
        succeeded && trimmed(stdout@).len() == 0 ==> (r matches Some(v) && v@.len() == 0),
        succeeded && trimmed(stdout@).len() != 0 ==> r.deep_view() == match json_printer_records(trimmed(stdout@)) {
            Some(j) => Some(windows_printer_list(json_records(j))),
            None => None,
        },
{
    if !succeeded {
        return Some(Vec::new());
    }
    windows_printers_from_output(stdout)
}

/// The printers that `lpstat -p -d` reports: none when the command failed,
/// else those its output `stdout` lists.
pub fn lpstat_query_printers(succeeded: bool, stdout: &str) -> (r: Vec<PrinterInfo>)
    ensures
        !succeeded ==> r@.len() == 0,
        succeeded ==> r.deep_view() == lpstat_printers(stdout@),
{
    if !succeeded {
        return Vec::new();
    }
    parse_lpstat(stdout)
}

} // verus!

verus! {

proof fn lemma_next_space(s: Seq<char>, k: int)
    requires
        0 <= k <= s.len(),
    ensures
        k <= next_space(s, k) <= s.len(),
        forall|j: int| k <= j < next_space(s, k) ==> s[j] != ' ',
    decreases s.len() - k,
{
    if k < s.len() && s[k] != ' ' {
        lemma_next_space(s, k + 1);
    }
}

/// Every printer that `lpstat` reports has a name without spaces, and is
/// marked as the default exactly when its name is the default destination.
pub proof fn law_lpstat_printer_names(lines: Seq<Seq<char>>, default: Option<Seq<char>>)
    ensures
        forall|i: int|
            0 <= i < lpstat_printer_list(lines, default).len() ==> {
                let p = #[trigger] lpstat_printer_list(lines, default)[i];
                &&& !p.name.contains(' ')
                &&& (p.is_default <==> default == Some(p.name))
            },
    decreases lines.len(),
{
    if lines.len() > 0 {
        law_lpstat_printer_names(lines.drop_last(), default);
        let rest = lpstat_printer_list(lines.drop_last(), default);
        let line = lines.last();
        let after = line.skip("printer "@.len() as int);
        lemma_next_space(after, 0);
        let k = next_space(after, 0);
        if let Some(p) = lpstat_printer(line, default) {
            assert(!p.name.contains(' ')) by {
                if p.name.contains(' ') {
                    let j = choose|j: int| 0 <= j < p.name.len() && p.name[j] == ' ';
                    assert(after[j] == ' ');
                }
            }
            assert forall|i: int| 0 <= i < rest.push(p).len() implies {
                let q = #[trigger] rest.push(p)[i];
                &&& !q.name.contains(' ')
                &&& (q.is_default <==> default == Some(q.name))
            } by {
                if i < rest.len() {
                    assert(rest.push(p)[i] == rest[i]);
                }
            }
        }
    }
}

} // verus!
