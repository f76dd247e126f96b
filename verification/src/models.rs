//! The data that flows through the print service: commands, tasks, results
//! and status reports, each with a mathematical model (its view).
//!
//! Lengths (positions, margins, paper sizes) are millimetre values held as
//! the decimal text that is written into the page's CSS.

use vstd::prelude::*;
use crate::text::{push_char, same_text, trim, trimmed, owned};
use crate::clock::now_nanos;

verus! {

/// Where a block sits on the page, from the top-left corner, in millimetres.
pub struct PrintPosition {
    pub top: String,
    pub left: String,
}

pub struct PositionModel {
    pub top: Seq<char>,
    pub left: Seq<char>,
}

impl View for PrintPosition {
    type V = PositionModel;

    open spec fn view(&self) -> PositionModel {
        PositionModel { top: self.top@, left: self.left@ }
    }
}

impl DeepView for PrintPosition {
    type V = PositionModel;

    open spec fn deep_view(&self) -> PositionModel {
        self@
    }
}

impl Clone for PrintPosition {
    fn clone(&self) -> (r: Self)
        ensures
            r@ == self@,
    {
        PrintPosition { top: self.top.clone(), left: self.left.clone() }
    }
}

/// The top-left corner: both coordinates `0`.
pub open spec fn origin_model() -> PositionModel {
    PositionModel { top: seq!['0'], left: seq!['0'] }
}

impl PrintPosition {
    /// The top-left corner of the page.
    pub fn origin() -> (p: PrintPosition)
        ensures
            p@ == origin_model(),
    {
        let mut top = String::new();
        push_char(&mut top, '0');
        let mut left = String::new();
        push_char(&mut left, '0');
        PrintPosition { top, left }
    }
}

/// Page margins, in millimetres.
pub struct PrintMargins {
    pub top: String,
    pub left: String,
    pub right: String,
    pub bottom: String,
}

pub struct MarginsModel {
    pub top: Seq<char>,
    pub left: Seq<char>,
    pub right: Seq<char>,
    pub bottom: Seq<char>,
}

impl View for PrintMargins {
    type V = MarginsModel;

    open spec fn view(&self) -> MarginsModel {
        MarginsModel {
            top: self.top@,
            left: self.left@,
            right: self.right@,
            bottom: self.bottom@,
        }
    }
}

impl DeepView for PrintMargins {
    type V = MarginsModel;

    open spec fn deep_view(&self) -> MarginsModel {
        self@
    }
}

impl Clone for PrintMargins {
    fn clone(&self) -> (r: Self)
        ensures
            r@ == self@,
    {
        PrintMargins {
            top: self.top.clone(),
            left: self.left.clone(),
            right: self.right.clone(),
            bottom: self.bottom.clone(),
        }
    }
}

/// The default margins: ten millimetres on every side.
pub open spec fn default_margins() -> MarginsModel {
    MarginsModel {
        top: seq!['1', '0'],
        left: seq!['1', '0'],
        right: seq!['1', '0'],
        bottom: seq!['1', '0'],
    }
}

fn ten() -> (s: String)
    ensures
        s@ == seq!['1', '0'],
{
    let mut s = String::new();
    push_char(&mut s, '1');
    push_char(&mut s, '0');
    s
}

impl Default for PrintMargins {
    fn default() -> (m: Self)
        ensures
            m@ == default_margins(),
    {
        PrintMargins { top: ten(), left: ten(), right: ten(), bottom: ten() }
    }
}

/// The unit in which a custom paper size was given.
#[derive(Clone, Copy, Debug, PartialEq, Eq, Structural)]
pub enum PaperUnit {
    Mm,
    In,
}

/// A paper size given by its width and height.
///
/// `width` and `height` are the values as given, in `unit`; `width_mm` and
/// `height_mm` are the same lengths converted to millimetres (the value
/// times 1 for millimetres, times 25.4 for inches).
pub struct CustomPaperSize {
    pub width: String,
    pub height: String,
    pub unit: PaperUnit,
    pub width_mm: String,
    pub height_mm: String,
}

pub struct CustomPaperModel {
    pub width: Seq<char>,
    pub height: Seq<char>,
    pub unit: PaperUnit,
    pub width_mm: Seq<char>,
    pub height_mm: Seq<char>,
}

impl View for CustomPaperSize {
    type V = CustomPaperModel;

    open spec fn view(&self) -> CustomPaperModel {
        CustomPaperModel {
            width: self.width@,
            height: self.height@,
            unit: self.unit,
            width_mm: self.width_mm@,
            height_mm: self.height_mm@,
        }
    }
}

impl Clone for CustomPaperSize {
    fn clone(&self) -> (r: Self)
        ensures
            r@ == self@,
    {
        CustomPaperSize {
            width: self.width.clone(),
            height: self.height.clone(),
            unit: self.unit,
            width_mm: self.width_mm.clone(),
            height_mm: self.height_mm.clone(),
        }
    }
}

/// A paper size: a named standard size, or a custom one.
pub enum PaperSize {
    Standard(String),
    Custom(CustomPaperSize),
}

pub enum PaperSizeModel {
    Standard(Seq<char>),
    Custom(CustomPaperModel),
}

impl View for PaperSize {
    type V = PaperSizeModel;

    open spec fn view(&self) -> PaperSizeModel {
        match self {
            PaperSize::Standard(name) => PaperSizeModel::Standard(name@),
            PaperSize::Custom(custom) => PaperSizeModel::Custom(custom@),
        }
    }
}

impl DeepView for PaperSize {
    type V = PaperSizeModel;

    open spec fn deep_view(&self) -> PaperSizeModel {
        self@
    }
}

impl Clone for PaperSize {
    fn clone(&self) -> (r: Self)
        ensures
            r@ == self@,
    {
        match self {
            PaperSize::Standard(name) => PaperSize::Standard(name.clone()),
            PaperSize::Custom(custom) => PaperSize::Custom(custom.clone()),
        }
    }
}

/// A piece of HTML content placed at a position on the page.
pub struct PrintBlock {
    pub content: String,
    pub position: PrintPosition,
}

pub struct BlockModel {
    pub content: Seq<char>,
    pub position: PositionModel,
}

impl View for PrintBlock {
    type V = BlockModel;

    open spec fn view(&self) -> BlockModel {
        BlockModel { content: self.content@, position: self.position@ }
    }
}

impl DeepView for PrintBlock {
    type V = BlockModel;

    open spec fn deep_view(&self) -> BlockModel {
        self@
    }
}

impl Clone for PrintBlock {
    fn clone(&self) -> (r: Self)
        ensures
            r@ == self@,
    {
        PrintBlock { content: self.content.clone(), position: self.position.clone() }
    }
}

/// The kind of document a print command carries.
#[derive(Clone, Copy, Debug, PartialEq, Eq, Structural)]
pub enum PrintFormat {
    Pdf,
    Html,
    Image,
    Escpos,
}

/// A print command as clients send it.
///
/// `options` holds the command's free-form options object as JSON text; the
/// service carries it along and never reads it.
pub struct PrintCommand {
    pub id: String,
    pub command_type: String,
    pub format: PrintFormat,
    pub content: String,
    pub printer: Option<String>,
    pub copies: Option<u32>,
    pub paper_size: Option<PaperSize>,
    pub margins: Option<PrintMargins>,
    pub position: Option<PrintPosition>,
    pub blocks: Option<Vec<PrintBlock>>,
    pub options: Option<String>,
}

pub struct CommandModel {
    pub id: Seq<char>,
    pub command_type: Seq<char>,
    pub format: PrintFormat,
    pub content: Seq<char>,
    pub printer: Option<Seq<char>>,
    pub copies: Option<u32>,
    pub paper_size: Option<PaperSizeModel>,
    pub margins: Option<MarginsModel>,
    pub position: Option<PositionModel>,
    pub blocks: Option<Seq<BlockModel>>,
    pub options: Option<Seq<char>>,
}

impl View for PrintCommand {
    type V = CommandModel;

    open spec fn view(&self) -> CommandModel {
        CommandModel {
            id: self.id@,
            command_type: self.command_type@,
            format: self.format,
            content: self.content@,
            printer: self.printer.deep_view(),
            copies: self.copies,
            paper_size: self.paper_size.deep_view(),
            margins: self.margins.deep_view(),
            position: self.position.deep_view(),
            blocks: self.blocks.deep_view(),
            options: self.options.deep_view(),
        }
    }
}

/// A copy of a block list.
pub fn clone_blocks(blocks: &Vec<PrintBlock>) -> (r: Vec<PrintBlock>)
    ensures
        r.deep_view() == blocks.deep_view(),
{
    let mut r: Vec<PrintBlock> = Vec::new();
    let mut i: usize = 0;
    while i < blocks.len()
        invariant
            i <= blocks.len(),
            r.len() == i,
            forall|j: int| 0 <= j < i ==> (#[trigger] r@[j])@ == blocks@[j]@,
        decreases blocks.len() - i,
    {
        let b = blocks[i].clone();
        r.push(b);
        i = i + 1;
    }
    assert(r.deep_view() =~= blocks.deep_view());
    r
}

pub(crate) fn clone_opt_string(s: &Option<String>) -> (r: Option<String>)
    ensures
        r.deep_view() == s.deep_view(),
{
    match s {
        None => None,
        Some(t) => Some(t.clone()),
    }
}

impl Clone for PrintCommand {
    fn clone(&self) -> (r: Self)
        ensures
            r@ == self@,
    {
        PrintCommand {
            id: self.id.clone(),
            command_type: self.command_type.clone(),
            format: self.format,
            content: self.content.clone(),
            printer: clone_opt_string(&self.printer),
            copies: self.copies,
            paper_size: match &self.paper_size {
                None => None,
                Some(p) => Some(p.clone()),
            },
            margins: match &self.margins {
                None => None,
                Some(m) => Some(m.clone()),
            },
            position: match &self.position {
                None => None,
                Some(p) => Some(p.clone()),
            },
            blocks: match &self.blocks {
                None => None,
                Some(b) => Some(clone_blocks(b)),
            },
            options: clone_opt_string(&self.options),
        }
    }
}

} // verus!

verus! {

/// Why a print command was refused.
#[derive(Clone, Copy, Debug, PartialEq, Eq, Structural)]
pub enum CommandError {
    /// `type` is not `print`.
    UnknownType,
    /// `id` is empty or white space only.
    EmptyId,
}

impl CommandError {
    /// The message reported to the client.
    pub fn message(&self) -> (s: String)
        ensures
            s@ == self.spec_message(),
    {
        match self {
            CommandError::UnknownType => owned("未知指令类型"),
            CommandError::EmptyId => owned("打印任务 id 不能为空"),
        }
    }

    pub open spec fn spec_message(&self) -> Seq<char> {
        match self {
            CommandError::UnknownType => "未知指令类型"@,
            CommandError::EmptyId => "打印任务 id 不能为空"@,
        }
    }
}

/// The outcome of validating a command: the type must be `print`, then the
/// id must hold something other than white space.
pub open spec fn validation(c: CommandModel) -> Result<(), CommandError> {
    if c.command_type != "print"@ {
        Err(CommandError::UnknownType)
    } else if trimmed(c.id).len() == 0 {
        Err(CommandError::EmptyId)
    } else {
        Ok(())
    }
}

impl PrintCommand {
    /// Checks that the command is a print command with a non-blank id.
    pub fn validate(&self) -> (r: Result<(), CommandError>)
        ensures
            r == validation(self@),
    {
        if !same_text(self.command_type.as_str(), "print") {
            return Err(CommandError::UnknownType);
        }
        let id = trim(self.id.as_str());
        if id.as_str().is_empty() {
            return Err(CommandError::EmptyId);
        }
        Ok(())
    }
}

/// Where a task is in its life.
#[derive(Clone, Copy, Debug, PartialEq, Eq, Structural)]
pub enum PrintTaskStatus {
    Pending,
    Printing,
    Success,
    Failed,
}

/// A command in the queue, with its status and timestamps (nanoseconds
/// since the Unix epoch).
pub struct PrintTask {
    pub command: PrintCommand,
    pub status: PrintTaskStatus,
    pub created_at: i64,
    pub started_at: Option<i64>,
    pub completed_at: Option<i64>,
    pub error: Option<String>,
}

pub struct TaskModel {
    pub command: CommandModel,
    pub status: PrintTaskStatus,
    pub created_at: i64,
    pub started_at: Option<i64>,
    pub completed_at: Option<i64>,
    pub error: Option<Seq<char>>,
}

impl View for PrintTask {
    type V = TaskModel;

    open spec fn view(&self) -> TaskModel {
        TaskModel {
            command: self.command@,
            status: self.status,
            created_at: self.created_at,
            started_at: self.started_at,
            completed_at: self.completed_at,
            error: self.error.deep_view(),
        }
    }
}

impl DeepView for PrintTask {
    type V = TaskModel;

    open spec fn deep_view(&self) -> TaskModel {
        self@
    }
}

impl Clone for PrintTask {
    fn clone(&self) -> (r: Self)
        ensures
            r@ == self@,
    {
        PrintTask {
            command: self.command.clone(),
            status: self.status,
            created_at: self.created_at,
            started_at: self.started_at,
            completed_at: self.completed_at,
            error: clone_opt_string(&self.error),
        }
    }
}

/// A new task as the queue first records it: pending, created at
/// `created_at`, not started, not completed, no error.
pub open spec fn new_task(command: CommandModel, created_at: i64) -> TaskModel {
    TaskModel {
        command,
        status: PrintTaskStatus::Pending,
        created_at,
        started_at: None,
        completed_at: None,
        error: None,
    }
}

impl PrintTask {
    /// A pending task for `command`, created now; `None` when the clock
    /// cannot be read as nanoseconds since the Unix epoch.
    pub fn new(command: PrintCommand) -> (r: Option<PrintTask>)
        ensures
            r matches Some(t) ==> t@ == new_task(command@, t.created_at) && t.created_at >= 0,
    {
        match now_nanos() {
            Some(now) => Some(PrintTask::new_at(command, now)),
            None => None,
        }
    }

    /// A pending task for `command`, created at `created_at`.
    pub fn new_at(command: PrintCommand, created_at: i64) -> (t: PrintTask)
        ensures
            t@ == new_task(command@, created_at),
    {
        PrintTask {
            command,
            status: PrintTaskStatus::Pending,
            created_at,
            started_at: None,
            completed_at: None,
            error: None,
        }
    }
}

/// The outcome of one print task as reported to the client.
pub struct PrintResult {
    pub task_id: String,
    pub status: PrintTaskStatus,
    pub error: Option<String>,
}

pub struct ResultModel {
    pub task_id: Seq<char>,
    pub status: PrintTaskStatus,
    pub error: Option<Seq<char>>,
}

impl View for PrintResult {
    type V = ResultModel;

    open spec fn view(&self) -> ResultModel {
        ResultModel { task_id: self.task_id@, status: self.status, error: self.error.deep_view() }
    }
}

impl DeepView for PrintResult {
    type V = ResultModel;

    open spec fn deep_view(&self) -> ResultModel {
        self@
    }
}

impl Clone for PrintResult {
    fn clone(&self) -> (r: Self)
        ensures
            r@ == self@,
    {
        PrintResult {
            task_id: self.task_id.clone(),
            status: self.status,
            error: clone_opt_string(&self.error),
        }
    }
}

/// The reply to a client's command.
pub struct CommandResponse {
    pub success: bool,
    pub result: Option<PrintResult>,
    pub error: Option<String>,
}

pub struct ResponseModel {
    pub success: bool,
    pub result: Option<ResultModel>,
    pub error: Option<Seq<char>>,
}

impl View for CommandResponse {
    type V = ResponseModel;

    open spec fn view(&self) -> ResponseModel {
        ResponseModel {
            success: self.success,
            result: self.result.deep_view(),
            error: self.error.deep_view(),
        }
    }
}

/// The reply that carries a task's result: successful exactly when the task
/// succeeded, with the task's error, if any, repeated at the top level.
pub open spec fn ok_response(result: ResultModel) -> ResponseModel {
    ResponseModel {
        success: result.status == PrintTaskStatus::Success,
        result: Some(result),
        error: result.error,
    }
}

/// The reply that reports an error before any task ran.
pub open spec fn err_response(error: Seq<char>) -> ResponseModel {
    ResponseModel { success: false, result: None, error: Some(error) }
}

impl CommandResponse {
    pub fn ok(result: PrintResult) -> (r: CommandResponse)
        ensures
            r@ == ok_response(result@),
    {
        let success = match result.status {
            PrintTaskStatus::Success => true,
            _ => false,
        };
        let error = clone_opt_string(&result.error);
        CommandResponse { success, result: Some(result), error }
    }

    pub fn err(error: String) -> (r: CommandResponse)
        ensures
            r@ == err_response(error@),
    {
        CommandResponse { success: false, result: None, error: Some(error) }
    }
}

/// Counts of the print queue.
#[derive(Clone, Copy, Debug, PartialEq, Eq, Structural)]
pub struct QueueStats {
    pub pending: usize,
    pub active: usize,
    pub completed: usize,
    pub failed: usize,
}

/// The state of one listening endpoint.
#[derive(Clone, Copy, Debug, PartialEq, Eq, Structural)]
pub struct EndpointStatus {
    pub running: bool,
    pub port: u16,
    pub clients: usize,
}

/// The state of the whole service.
#[derive(Clone, Copy, Debug, PartialEq, Eq, Structural)]
pub struct ServiceStatus {
    pub tcp: EndpointStatus,
    pub ws: EndpointStatus,
    pub print_queue: QueueStats,
}

} // verus!
