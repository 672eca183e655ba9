//! Protocol and paths shared by the tray and its privileged helper service, and the
//! decisions each side takes around an exchange.
//!
//! An exchange is one request and one response, each a JSON line; the transport and the
//! JSON coding are done by the caller, which hands the decoded values to these functions.

use vstd::prelude::*;

use crate::host::HostOs;
use crate::text::{chars_eq, chars_of, extend_str, string_from_chars};

verus! {

pub const IPC_MAGIC: &'static str = "mihomo-tray-ipc-v1";

pub const SERVICE_LABEL: &'static str = "com.mihomotray.service";

pub const OLD_CORE_LABEL: &'static str = "com.mihomotray.core";

pub const LAUNCHD_PLIST: &'static str = "/Library/LaunchDaemons/com.mihomotray.service.plist";

pub const OLD_CORE_PLIST: &'static str = "/Library/LaunchDaemons/com.mihomotray.core.plist";

pub const HELPER_DIR: &'static str = "/Library/PrivilegedHelperTools/com.mihomotray.service";

pub const HELPER_BIN_NAME: &'static str = "mihomo-tray-service";

pub const SOCK_DIR: &'static str = "/tmp/mihomo-tray";

pub const SOCK_NAME: &'static str = "service.sock";

/// File name of the core's local controller socket (Unix).
pub const CORE_SOCK_NAME: &'static str = "mihomo.sock";

/// The core's local controller named pipe (Windows).
pub const CORE_PIPE_NAME: &'static str = "\\\\.\\pipe\\mihomo-tray-core";

/// A request to the helper service.
#[derive(Debug, Clone)]
pub enum Request {
    Ping { magic: String },
    Start {
        magic: String,
        core_path: String,
        config_dir: String,
        profile_path: String,
        safe_paths: String,
    },
    Stop { magic: String },
    Status { magic: String },
}

pub enum RequestView {
    Ping { magic: Seq<char> },
    Start {
        magic: Seq<char>,
        core_path: Seq<char>,
        config_dir: Seq<char>,
        profile_path: Seq<char>,
        safe_paths: Seq<char>,
    },
    Stop { magic: Seq<char> },
    Status { magic: Seq<char> },
}

impl View for Request {
    type V = RequestView;

    open spec fn view(&self) -> RequestView {
        match self {
            Request::Ping { magic } => RequestView::Ping { magic: magic@ },
            Request::Start { magic, core_path, config_dir, profile_path, safe_paths } =>
                RequestView::Start {
                magic: magic@,
                core_path: core_path@,
                config_dir: config_dir@,
                profile_path: profile_path@,
                safe_paths: safe_paths@,
            },
            Request::Stop { magic } => RequestView::Stop { magic: magic@ },
            Request::Status { magic } => RequestView::Status { magic: magic@ },
        }
    }
}

impl RequestView {
    pub open spec fn magic(self) -> Seq<char> {
        match self {
            RequestView::Ping { magic } => magic,
            RequestView::Start { magic, .. } => magic,
            RequestView::Stop { magic } => magic,
            RequestView::Status { magic } => magic,
        }
    }
}

fn magic_string() -> (r: String)
    ensures
        r@ == IPC_MAGIC@,
{
    let v = chars_of(IPC_MAGIC);
    string_from_chars(v.as_slice())
}

fn owned(s: &str) -> (r: String)
    ensures
        r@ == s@,
{
    let v = chars_of(s);
    string_from_chars(v.as_slice())
}

impl Request {
    pub fn ping() -> (r: Self)
        ensures
            r@ == (RequestView::Ping { magic: IPC_MAGIC@ }),
    {
        Request::Ping { magic: magic_string() }
    }

    pub fn stop() -> (r: Self)
        ensures
            r@ == (RequestView::Stop { magic: IPC_MAGIC@ }),
    {
        Request::Stop { magic: magic_string() }
    }

    pub fn status() -> (r: Self)
        ensures
            r@ == (RequestView::Status { magic: IPC_MAGIC@ }),
    {
        Request::Status { magic: magic_string() }
    }

    pub fn start(core_path: &str, config_dir: &str, profile_path: &str, safe_paths: &str) -> (r:
        Self)
        ensures
            r@ == (RequestView::Start {
                magic: IPC_MAGIC@,
                core_path: core_path@,
                config_dir: config_dir@,
                profile_path: profile_path@,
                safe_paths: safe_paths@,
            }),
    {
        Request::Start {
            magic: magic_string(),
            core_path: owned(core_path),
            config_dir: owned(config_dir),
            profile_path: owned(profile_path),
            safe_paths: owned(safe_paths),
        }
    }

    /// The magic string the request carries.
    pub fn magic(&self) -> (r: &str)
        ensures
            r@ == self@.magic(),
    {
        match self {
            Request::Ping { magic } => magic.as_str(),
            Request::Start { magic, .. } => magic.as_str(),
            Request::Stop { magic } => magic.as_str(),
            Request::Status { magic } => magic.as_str(),
        }
    }
}

/// The helper's answer.
#[derive(Debug, Clone)]
pub struct Response {
    pub ok: bool,
    pub error: Option<String>,
    pub running: Option<bool>,
}

pub struct ResponseView {
    pub ok: bool,
    pub error: Option<Seq<char>>,
    pub running: Option<bool>,
}

impl View for Response {
    type V = ResponseView;

    open spec fn view(&self) -> ResponseView {
        ResponseView {
            ok: self.ok,
            error: match self.error {
                Some(e) => Some(e@),
                None => None,
            },
            running: self.running,
        }
    }
}

impl Response {
    pub fn ok() -> (r: Self)
        ensures
            r@ == (ResponseView { ok: true, error: None, running: None }),
    {
        Response { ok: true, error: None, running: None }
    }

    pub fn err(msg: &str) -> (r: Self)
        ensures
            r@ == (ResponseView { ok: false, error: Some(msg@), running: None }),
    {
        Response { ok: false, error: Some(owned(msg)), running: None }
    }

    pub fn status(running: bool) -> (r: Self)
        ensures
            r@ == (ResponseView { ok: true, error: None, running: Some(running) }),
    {
        Response { ok: true, error: None, running: Some(running) }
    }
}

/// Joins a directory and a file name with `/`.
pub open spec fn join_slash(dir: Seq<char>, name: Seq<char>) -> Seq<char> {
    dir + "/"@ + name
}

fn join_slash_exec(dir: &str, name: &str) -> (r: String)
    ensures
        r@ == join_slash(dir@, name@),
{
    let mut v = chars_of(dir);
    extend_str(&mut v, "/");
    extend_str(&mut v, name);
    string_from_chars(v.as_slice())
}

/// The helper's control socket.
pub fn sock_path() -> (r: String)
    ensures
        r@ == join_slash(SOCK_DIR@, SOCK_NAME@),
{
    join_slash_exec(SOCK_DIR, SOCK_NAME)
}

/// Where the installed helper binary lives.
pub fn helper_bin_path() -> (r: String)
    ensures
        r@ == join_slash(HELPER_DIR@, HELPER_BIN_NAME@),
{
    join_slash_exec(HELPER_DIR, HELPER_BIN_NAME)
}

/// Errors of an exchange with the helper.
#[derive(Debug, Clone)]
pub enum IpcError {
    /// The request did not carry the protocol's magic string.
    InvalidMagic,
    /// The host has no helper service.
    Unsupported,
    /// The exchange itself failed (connecting, writing, reading or decoding).
    Transport(String),
    /// The helper answered with a failure.
    Service(String),
}

pub enum IpcErrorView {
    InvalidMagic,
    Unsupported,
    Transport(Seq<char>),
    Service(Seq<char>),
}

impl View for IpcError {
    type V = IpcErrorView;

    open spec fn view(&self) -> IpcErrorView {
        match self {
            IpcError::InvalidMagic => IpcErrorView::InvalidMagic,
            IpcError::Unsupported => IpcErrorView::Unsupported,
            IpcError::Transport(s) => IpcErrorView::Transport(s@),
            IpcError::Service(s) => IpcErrorView::Service(s@),
        }
    }
}

/// What an error says: the two fixed refusals, or the text the exchange or the helper gave.
pub open spec fn ipc_error_message(e: IpcErrorView) -> Seq<char> {
    match e {
        IpcErrorView::InvalidMagic => "invalid IPC magic"@,
        IpcErrorView::Unsupported => "service IPC is not supported on this platform"@,
        IpcErrorView::Transport(m) => m,
        IpcErrorView::Service(m) => m,
    }
}

impl IpcError {
    /// Human-readable description of the error.
    pub fn message(&self) -> (r: String)
        ensures
            r@ == ipc_error_message(self@),
    {
        match self {
            IpcError::InvalidMagic => owned("invalid IPC magic"),
            IpcError::Unsupported => owned("service IPC is not supported on this platform"),
            IpcError::Transport(m) => owned(m.as_str()),
            IpcError::Service(m) => owned(m.as_str()),
        }
    }
}

/// Accepts exactly the protocol's magic string; a refusal says "invalid IPC magic".
pub fn ensure_magic(magic: &str) -> (r: Result<(), IpcError>)
    ensures
        r is Ok <==> magic@ == IPC_MAGIC@,
        r matches Err(e) ==> e@ == IpcErrorView::InvalidMagic,
        r matches Err(e) ==> ipc_error_message(e@) == "invalid IPC magic"@,
{
    let a = chars_of(magic);
    let b = chars_of(IPC_MAGIC);
    if chars_eq(a.as_slice(), b.as_slice()) {
        Ok(())
    } else {
        Err(IpcError::InvalidMagic)
    }
}

/// The local controller endpoint handed to the core: a Unix socket, or a named pipe on
/// Windows.
pub open spec fn ipc_path_of(host: HostOs) -> Seq<char> {
    if host.unix() {
        join_slash(SOCK_DIR@, CORE_SOCK_NAME@)
    } else {
        CORE_PIPE_NAME@
    }
}

pub fn ipc_path(host: HostOs) -> (r: String)
    ensures
        r@ == ipc_path_of(host),
{
    if host.is_unix() {
        join_slash_exec(SOCK_DIR, CORE_SOCK_NAME)
    } else {
        owned(CORE_PIPE_NAME)
    }
}

/// Path passed to the core with its local-controller flag.
pub fn core_ipc_path(host: HostOs) -> (r: String)
    ensures
        r@ == ipc_path_of(host),
{
    ipc_path(host)
}

/// The core's command-line flag that names the local controller endpoint.
pub open spec fn controller_flag_of(host: HostOs) -> Seq<char> {
    if host.unix() {
        "-ext-ctl-unix"@
    } else {
        "-ext-ctl-pipe"@
    }
}

/// Arguments that make the core serve its API on the local endpoint.
pub fn core_controller_args(host: HostOs) -> (r: Vec<String>)
    ensures
        r@.len() == 2,
        r@[0]@ == controller_flag_of(host),
        r@[1]@ == ipc_path_of(host),
{
    let flag = if host.is_unix() {
        owned("-ext-ctl-unix")
    } else {
        owned("-ext-ctl-pipe")
    };
    let mut v: Vec<String> = Vec::new();
    v.push(flag);
    v.push(ipc_path(host));
    v
}

/// The full argument list for running the core: its home directory, the profile, then the
/// local controller flags.
pub fn core_args(config_dir: &str, profile: &str, host: HostOs) -> (r: Vec<String>)
    ensures
        r@.len() == 6,
        r@[0]@ == "-d"@,
        r@[1]@ == config_dir@,
        r@[2]@ == "-f"@,
        r@[3]@ == profile@,
        r@[4]@ == controller_flag_of(host),
        r@[5]@ == ipc_path_of(host),
{
    let mut v: Vec<String> = Vec::new();
    v.push(owned("-d"));
    v.push(owned(config_dir));
    v.push(owned("-f"));
    v.push(owned(profile));
    let extra = core_controller_args(host);
    let mut i: usize = 0;
    let ghost v0 = v@;
    while i < extra.len()
        invariant
            i <= extra@.len(),
            extra@.len() == 2,
            v@ == v0 + extra@.take(i as int),
        decreases extra@.len() - i,
    {
        v.push(extra[i].clone());
        i += 1;
    }
    v
}

pub open spec fn reachable_of(reply: Result<ResponseView, IpcErrorView>) -> bool {
    match reply {
        Ok(r) => r.ok,
        Err(_) => false,
    }
}

pub open spec fn reply_view(reply: Result<Response, IpcError>) -> Result<ResponseView, IpcErrorView> {
    match reply {
        Ok(r) => Ok(r@),
        Err(e) => Err(e@),
    }
}

/// The helper is reachable when a ping is answered with success.
pub fn is_reachable(reply: &Result<Response, IpcError>) -> (r: bool)
    ensures
        r == reachable_of(reply_view(*reply)),
{
    match reply {
        Ok(resp) => resp.ok,
        Err(_) => false,
    }
}

/// The outcome of a command whose success carries no data: the helper's own error text on
/// failure, or `fallback` when it gave none.
pub open spec fn command_outcome(reply: Result<ResponseView, IpcErrorView>, fallback: Seq<char>) -> Result<(), IpcErrorView> {
    match reply {
        Err(e) => Err(e),
        Ok(r) => if r.ok {
            Ok(())
        } else {
            Err(IpcErrorView::Service(
                match r.error {
                    Some(m) => m,
                    None => fallback,
                },
            ))
        },
    }
}

pub open spec fn unit_view(r: Result<(), IpcError>) -> Result<(), IpcErrorView> {
    match r {
        Ok(()) => Ok(()),
        Err(e) => Err(e@),
    }
}

fn command_result(reply: Result<Response, IpcError>, fallback: &str) -> (r: Result<(), IpcError>)
    ensures
        unit_view(r) == command_outcome(reply_view(reply), fallback@),
{
    match reply {
        Err(e) => Err(e),
        Ok(resp) => {
            if resp.ok {
                Ok(())
            } else {
                match resp.error {
                    Some(m) => Err(IpcError::Service(m)),
                    None => Err(IpcError::Service(owned(fallback))),
                }
            }
        },
    }
}

/// Outcome of asking the helper to start the core.
pub fn start_core(reply: Result<Response, IpcError>) -> (r: Result<(), IpcError>)
    ensures
        unit_view(r) == command_outcome(reply_view(reply), "start failed"@),
{
    command_result(reply, "start failed")
}

/// Outcome of asking the helper to stop the core.
pub fn stop_core(reply: Result<Response, IpcError>) -> (r: Result<(), IpcError>)
    ensures
        unit_view(r) == command_outcome(reply_view(reply), "stop failed"@),
{
    command_result(reply, "stop failed")
}

pub open spec fn running_outcome(reply: Result<ResponseView, IpcErrorView>) -> Result<bool, IpcErrorView> {
    match reply {
        Err(e) => Err(e),
        Ok(r) => if r.ok {
            Ok(
                match r.running {
                    Some(b) => b,
                    None => false,
                },
            )
        } else {
            Err(IpcErrorView::Service(
                match r.error {
                    Some(m) => m,
                    None => "status failed"@,
                },
            ))
        },
    }
}

pub open spec fn bool_view(r: Result<bool, IpcError>) -> Result<bool, IpcErrorView> {
    match r {
        Ok(b) => Ok(b),
        Err(e) => Err(e@),
    }
}

/// Whether the helper reports the core as running.
pub fn core_running(reply: Result<Response, IpcError>) -> (r: Result<bool, IpcError>)
    ensures
        bool_view(r) == running_outcome(reply_view(reply)),
{
    match reply {
        Err(e) => Err(e),
        Ok(resp) => {
            if resp.ok {
                Ok(
                    match resp.running {
                        Some(b) => b,
                        None => false,
                    },
                )
            } else {
                match resp.error {
                    Some(m) => Err(IpcError::Service(m)),
                    None => Err(IpcError::Service(owned("status failed"))),
                }
            }
        },
    }
}

/// Reading a status reply: a successful one reports exactly the running flag it carries
/// (not running when it carries none), whatever else it holds; a failed one is the helper's
/// message (or "status failed"); a failed exchange stays the error it was.
pub proof fn lemma_status_reply(running: bool, error: Option<Seq<char>>, m: Seq<char>, e: IpcErrorView)
    ensures
        running_outcome(Ok(ResponseView { ok: true, error, running: Some(running) })) == Ok::<
            bool,
            IpcErrorView,
        >(running),
        running_outcome(Ok(ResponseView { ok: true, error, running: None })) == Ok::<
            bool,
            IpcErrorView,
        >(false),
        running_outcome(Ok(ResponseView { ok: false, error: Some(m), running: Some(running) }))
            == Err::<bool, IpcErrorView>(IpcErrorView::Service(m)),
        running_outcome(Ok(ResponseView { ok: false, error: None, running: Some(running) }))
            == Err::<bool, IpcErrorView>(IpcErrorView::Service("status failed"@)),
        running_outcome(Err(e)) == Err::<bool, IpcErrorView>(e),
{
}

// ------------------------------------------------------------------ the helper's side
/// What the helper does for a request.
#[derive(Debug, Clone)]
pub enum ServiceCommand {
    Ping,
    Status,
    Stop,
    Start { core_path: String, config_dir: String, profile_path: String, safe_paths: String },
}

/// The command a request asks for, once its magic string has been checked; a request
/// with another magic string is refused with "invalid IPC magic".
pub fn service_command(req: Request) -> (r: Result<ServiceCommand, IpcError>)
    ensures
        r is Err <==> req@.magic() != IPC_MAGIC@,
        r matches Err(e) ==> e@ == IpcErrorView::InvalidMagic,
        r matches Err(e) ==> ipc_error_message(e@) == "invalid IPC magic"@,
        r matches Ok(c) ==> match (c, req@) {
            (ServiceCommand::Ping, RequestView::Ping { .. }) => true,
            (ServiceCommand::Status, RequestView::Status { .. }) => true,
            (ServiceCommand::Stop, RequestView::Stop { .. }) => true,
            (
                ServiceCommand::Start { core_path, config_dir, profile_path, safe_paths },
                RequestView::Start { core_path: c1, config_dir: c2, profile_path: c3, safe_paths: c4, .. },
            ) => core_path@ == c1 && config_dir@ == c2 && profile_path@ == c3 && safe_paths@ == c4,
            _ => false,
        },
{
    match ensure_magic(req.magic()) {
        Err(e) => return Err(e),
        Ok(()) => {},
    }
    match req {
        Request::Ping { .. } => Ok(ServiceCommand::Ping),
        Request::Status { .. } => Ok(ServiceCommand::Status),
        Request::Stop { .. } => Ok(ServiceCommand::Stop),
        Request::Start { core_path, config_dir, profile_path, safe_paths, .. } => Ok(
            ServiceCommand::Start { core_path, config_dir, profile_path, safe_paths },
        ),
    }
}

/// The answer to a command that was carried out with the given outcome.
pub fn command_response(outcome: Result<(), String>) -> (r: Response)
    ensures
        outcome is Ok ==> r@ == (ResponseView { ok: true, error: None, running: None }),
        outcome matches Err(m) ==> r@ == (ResponseView { ok: false, error: Some(m@), running: None }),
{
    match outcome {
        Ok(()) => Response::ok(),
        Err(m) => Response { ok: false, error: Some(m), running: None },
    }
}

/// What polling the helper's core process found.
#[derive(Debug, Clone, Copy, PartialEq, Eq, Structural)]
pub enum CorePoll {
    /// No core was started (or its handle was dropped).
    NoProcess,
    /// The process is still running.
    Running,
    /// The process has exited.
    Exited,
    /// The process could not be polled.
    PollFailed,
}

/// Whether the core runs, and whether the stored process handle must be dropped.
pub open spec fn poll_verdict(poll: CorePoll) -> (bool, bool) {
    match poll {
        CorePoll::NoProcess => (false, false),
        CorePoll::Running => (true, false),
        CorePoll::Exited => (false, true),
        CorePoll::PollFailed => (false, true),
    }
}

pub fn is_core_running(poll: CorePoll) -> (r: (bool, bool))
    ensures
        r == poll_verdict(poll),
{
    match poll {
        CorePoll::NoProcess => (false, false),
        CorePoll::Running => (true, false),
        CorePoll::Exited => (false, true),
        CorePoll::PollFailed => (false, true),
    }
}

/// Attempts made while waiting for a freshly started core's socket.
pub const SOCKET_WAIT_ATTEMPTS: u32 = 50;

/// One step of waiting for the core's socket after starting it.
#[derive(Debug, Clone, Copy, PartialEq, Eq, Structural)]
pub enum SocketWait {
    /// The socket exists; the core is ready.
    Ready,
    /// Sleep and poll again.
    Retry,
    /// The core exited before its socket appeared.
    CoreExited,
    /// The core could not be polled.
    PollFailed,
    /// The core handle is gone.
    NoProcess,
    /// All attempts are used up; stop the core.
    TimedOut,
}

/// The decision after attempt number `attempt` (counted from zero): the process state is
/// checked before the socket.
pub open spec fn socket_wait_step(poll: CorePoll, socket_exists: bool, attempt: u32) -> SocketWait {
    match poll {
        CorePoll::Exited => SocketWait::CoreExited,
        CorePoll::PollFailed => SocketWait::PollFailed,
        CorePoll::NoProcess => SocketWait::NoProcess,
        CorePoll::Running => if socket_exists {
            SocketWait::Ready
        } else if attempt + 1 >= SOCKET_WAIT_ATTEMPTS {
            SocketWait::TimedOut
        } else {
            SocketWait::Retry
        },
    }
}

pub fn wait_socket_step(poll: CorePoll, socket_exists: bool, attempt: u32) -> (r: SocketWait)
    ensures
        r == socket_wait_step(poll, socket_exists, attempt),
{
    match poll {
        CorePoll::Exited => SocketWait::CoreExited,
        CorePoll::PollFailed => SocketWait::PollFailed,
        CorePoll::NoProcess => SocketWait::NoProcess,
        CorePoll::Running => {
            if socket_exists {
                SocketWait::Ready
            } else if attempt >= SOCKET_WAIT_ATTEMPTS - 1 {
                SocketWait::TimedOut
            } else {
                SocketWait::Retry
            }
        },
    }
}

} // verus!
