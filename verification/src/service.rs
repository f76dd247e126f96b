//! The listening endpoints, the service's status report, and the handling
//! of the commands that clients send.

use vstd::prelude::*;
use std::sync::Arc;
use std::sync::atomic::{AtomicBool, AtomicUsize, Ordering};
use crate::clock::now_millis;
use crate::config::AppConfig;
use crate::models::{
    CommandModel, CommandError, CommandResponse, EndpointStatus, PrintCommand, PrintResult,
    QueueStats, ResponseModel, ServiceStatus, err_response, ok_response, validation,
};
use crate::text::{owned, push_signed_decimal, signed_decimal};

verus! {

/// The line-oriented TCP endpoint: its port, how many clients are
/// connected, and whether it listens.  Copies share the counters.
#[derive(Clone)]
pub struct TcpService {
    port: u16,
    clients: Arc<AtomicUsize>,
    running: Arc<AtomicBool>,
}

impl TcpService {
    /// The port the endpoint listens on.
    pub closed spec fn listen_port(&self) -> u16 {
        self.port
    }

    /// An endpoint for `port` that does not listen yet and has no clients.
    pub fn new(port: u16) -> (s: Self)
        ensures
            s.listen_port() == port,
    {
        TcpService {
            port,
            clients: Arc::new(AtomicUsize::new(0)),
            running: Arc::new(AtomicBool::new(false)),
        }
    }

    pub fn port(&self) -> (p: u16)
        ensures
            p == self.listen_port(),
    {
        self.port
    }

    /// The endpoint's state.  Its port is the one it was made for; whether
    /// it listens and how many clients it has are read from counters that
    /// connections change concurrently.
    pub fn status(&self) -> (s: EndpointStatus)
        ensures
            s.port == self.listen_port(),
    {
        EndpointStatus {
            running: self.running.load(Ordering::Relaxed),
            port: self.port,
            clients: self.clients.load(Ordering::Relaxed),
        }
    }

    /// Records that the endpoint listens.
    pub fn mark_running(&self) {
        self.running.store(true, Ordering::Relaxed);
    }

    /// Records a new client connection.
    pub fn client_connected(&self) {
        self.clients.fetch_add(1, Ordering::Relaxed);
    }

    /// Records that a client connection ended.
    pub fn client_disconnected(&self) {
        self.clients.fetch_sub(1, Ordering::Relaxed);
    }
}

/// The WebSocket endpoint: its port, how many clients are connected, and
/// whether it listens.  Copies share the counters.
#[derive(Clone)]
pub struct WsService {
    port: u16,
    clients: Arc<AtomicUsize>,
    running: Arc<AtomicBool>,
}

impl WsService {
    /// The port the endpoint listens on.
    pub closed spec fn listen_port(&self) -> u16 {
        self.port
    }

    /// An endpoint for `port` that does not listen yet and has no clients.
    pub fn new(port: u16) -> (s: Self)
        ensures
            s.listen_port() == port,
    {
        WsService {
            port,
            clients: Arc::new(AtomicUsize::new(0)),
            running: Arc::new(AtomicBool::new(false)),
        }
    }

    pub fn port(&self) -> (p: u16)
        ensures
            p == self.listen_port(),
    {
        self.port
    }

    /// The endpoint's state.  Its port is the one it was made for; whether
    /// it listens and how many clients it has are read from counters that
    /// connections change concurrently.
    pub fn status(&self) -> (s: EndpointStatus)
        ensures
            s.port == self.listen_port(),
    {
        EndpointStatus {
            running: self.running.load(Ordering::Relaxed),
            port: self.port,
            clients: self.clients.load(Ordering::Relaxed),
        }
    }

    /// Records that the endpoint listens.
    pub fn mark_running(&self) {
        self.running.store(true, Ordering::Relaxed);
    }

    /// Records a new client connection.
    pub fn client_connected(&self) {
        self.clients.fetch_add(1, Ordering::Relaxed);
    }

    /// Records that a client connection ended.
    pub fn client_disconnected(&self) {
        self.clients.fetch_sub(1, Ordering::Relaxed);
    }
}

/// The state reported for an endpoint: its own state when it was started,
/// else not listening on the configured port, with no clients.
pub open spec fn endpoint_or_idle(s: Option<EndpointStatus>, port: u16) -> EndpointStatus {
    match s {
        Some(x) => x,
        None => EndpointStatus { running: false, port, clients: 0 },
    }
}

/// The service's state from the endpoints' states (`None` for an endpoint
/// that is not started) and the queue's counts.
pub fn service_status(
    config: &AppConfig,
    tcp: Option<EndpointStatus>,
    ws: Option<EndpointStatus>,
    print_queue: QueueStats,
) -> (s: ServiceStatus)
    ensures
        s == (ServiceStatus {
            tcp: endpoint_or_idle(tcp, config.tcp_port),
            ws: endpoint_or_idle(ws, config.ws_port),
            print_queue,
        }),
{
    ServiceStatus {
        tcp: match tcp {
            Some(x) => x,
            None => EndpointStatus { running: false, port: config.tcp_port, clients: 0 },
        },
        ws: match ws {
            Some(x) => x,
            None => EndpointStatus { running: false, port: config.ws_port, clients: 0 },
        },
        print_queue,
    }
}

/// The reply to a message that is not a print command.
pub open spec fn malformed_message() -> Seq<char> {
    "指令格式错误"@
}

/// What becomes of a client's message: a message that did not parse as a
/// command is answered with a format error, an invalid command with the
/// reason it is invalid; a valid command goes on to the queue.
pub open spec fn command_checked(parsed: Option<CommandModel>) -> Result<CommandModel, ResponseModel> {
    match parsed {
        None => Err(err_response(malformed_message())),
        Some(c) => match validation(c) {
            Ok(_) => Ok(c),
            Err(e) => Err(err_response(e.spec_message())),
        },
    }
}

/// Decides what to do with a client's message, given the command it parsed
/// as (`None` when it did not parse).
pub fn check_command(parsed: Option<PrintCommand>) -> (r: Result<PrintCommand, CommandResponse>)
    ensures
        match command_checked(match parsed {
            Some(c) => Some(c@),
            None => None,
        }) {
            Ok(c) => r matches Ok(x) && x@ == c,
            Err(resp) => r matches Err(x) && x@ == resp,
        },
{
    match parsed {
        None => Err(CommandResponse::err(owned("指令格式错误"))),
        Some(command) => match command.validate() {
            Ok(()) => Ok(command),
            Err(e) => Err(CommandResponse::err(e.message())),
        },
    }
}

/// The reply to a command that was queued: its result, or the error (as its
/// message) that kept it from being printed.
pub fn enqueue_response(outcome: Result<PrintResult, String>) -> (r: CommandResponse)
    ensures
        match outcome {
            Ok(result) => r@ == ok_response(result@),
            Err(e) => r@ == err_response(e@),
        },
{
    match outcome {
        Ok(result) => CommandResponse::ok(result),
        Err(e) => CommandResponse::err(e),
    }
}

/// The id of a reprint made at `millis`: the command's own id, `-reprint-`, and
/// the time.
pub open spec fn reprint_id(id: Seq<char>, millis: int) -> Seq<char> {
    id + "-reprint-"@ + signed_decimal(millis)
}

/// A copy of `command` to print again at `millis`, under a new id.
pub fn reprint_command_at(command: PrintCommand, millis: i64) -> (r: PrintCommand)
    ensures
        r@ == (CommandModel { id: reprint_id(command@.id, millis as int), ..command@ }),
{
    let mut r = command;
    let mut id = r.id.clone();
    id.append("-reprint-");
    push_signed_decimal(&mut id, millis);
    r.id = id;
    r
}

/// A copy of `command` to print again now, under a new id; `None` when the
/// clock cannot be read as milliseconds since the Unix epoch.
pub fn reprint_command(command: PrintCommand) -> (r: Option<PrintCommand>)
    ensures
        r matches Some(x) ==> exists|t: int|
            t >= 0 && x@ == (CommandModel { id: #[trigger] reprint_id(command@.id, t), ..command@ }),
{
    match now_millis() {
        Some(now) => {
            let ghost c = command@;
            let r = reprint_command_at(command, now);
            assert(r@ == (CommandModel { id: reprint_id(c.id, now as int), ..c }));
            Some(r)
        },
        None => None,
    }
}

} // verus!

verus! {

/// A reprint of a print command is a valid command whatever the command's
/// id: its id holds `-reprint-`, so it is never blank.
pub proof fn law_reprint_is_valid(c: CommandModel, millis: int)
    requires
        c.command_type == "print"@,
    ensures
        validation(CommandModel { id: reprint_id(c.id, millis), ..c }) == Ok::<(), CommandError>(()),
        reprint_id(c.id, millis).len() > c.id.len(),
        reprint_id(c.id, millis).take(c.id.len() as int) == c.id,
{
    reveal_strlit("-reprint-");
    let s = reprint_id(c.id, millis);
    let k = c.id.len() as int;
    assert(s[k] == '-');
    crate::text::lemma_trimmed_keeps_non_space(s, k);
    assert(s.take(k) =~= c.id);
}

/// A started endpoint is reported as it is; one that is not started is
/// reported as not listening, without clients, on its configured port.
pub proof fn law_status_reports_configured_ports(config: crate::config::ConfigModel, tcp: Option<EndpointStatus>, ws: Option<EndpointStatus>)
    ensures
        tcp is None ==> endpoint_or_idle(tcp, config.tcp_port) == (EndpointStatus {
            running: false,
            port: config.tcp_port,
            clients: 0,
        }),
        ws is None ==> endpoint_or_idle(ws, config.ws_port) == (EndpointStatus {
            running: false,
            port: config.ws_port,
            clients: 0,
        }),
        tcp matches Some(s) ==> endpoint_or_idle(tcp, config.tcp_port) == s,
        ws matches Some(s) ==> endpoint_or_idle(ws, config.ws_port) == s,
{
}

/// Only valid commands reach the queue: a message passes the check exactly
/// when it parsed as a valid command, and then it passes unchanged; every
/// refusal is an unsuccessful reply with an error and no result.
pub proof fn law_only_valid_commands_are_queued(parsed: Option<CommandModel>)
    ensures
        command_checked(parsed) is Ok <==> (parsed matches Some(c) && validation(c) is Ok),
        command_checked(parsed) matches Ok(c) ==> parsed == Some(c),
        command_checked(parsed) matches Err(r) ==> !r.success && r.result is None && r.error is Some,
{
}

} // verus!
