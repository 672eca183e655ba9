//! The privileged helper service (a macOS LaunchDaemon) that runs the core as root for TUN:
//! the scripts that install and remove it, and the request that starts the core.

use vstd::prelude::*;

use crate::host::HostOs;
use crate::ipc::{Request, RequestView, IPC_MAGIC, SERVICE_LABEL};
use crate::platform::mihomo_core::{safe_paths, safe_paths_of};
use crate::platform::system::{applescript_escaped, escape_applescript};
use crate::text::{
    chars_of, decimal, decimal_chars, extend_chars, extend_str, parse_unsigned,
    parse_unsigned_exec, replace_all, replace_chars, string_from_chars,
};

verus! {

/// The helper program that installs the service.
pub const INSTALL_BIN: &'static str = "mihomo-tray-service-install";

/// The helper program that removes the service.
pub const UNINSTALL_BIN: &'static str = "mihomo-tray-service-uninstall";

/// How many times the service is polled after installation before giving up.
pub const INSTALL_POLL_ATTEMPTS: u32 = 40;

/// The pause between two polls, in milliseconds.
pub const INSTALL_POLL_MS: u64 = 100;

pub trait PrivilegedService {
    /// Whether the host can have the service at all.
    spec fn can_install(&self) -> bool;

    fn supported(&self) -> (r: bool)
        ensures
            r == self.can_install(),
    ;
}

/// What a host without the service answers to each request.
#[derive(Debug, Clone, Copy, PartialEq, Eq, Structural)]
pub enum ServiceOp {
    Install,
    Uninstall,
    StartCore,
    StopCore,
}

/// The service on hosts that cannot have it: every request is refused.
#[derive(Debug, Clone, Copy, Default)]
pub struct UnsupportedService;

pub open spec fn refusal_text(op: ServiceOp) -> Seq<char> {
    match op {
        ServiceOp::Install => "privileged service install is not supported on this platform"@,
        ServiceOp::Uninstall => "privileged service uninstall is not supported on this platform"@,
        _ => "privileged service is not supported on this platform"@,
    }
}

impl UnsupportedService {
    /// The refusal for a request.
    pub fn refusal(&self, op: ServiceOp) -> (r: &'static str)
        ensures
            r@ == refusal_text(op),
    {
        match op {
            ServiceOp::Install => "privileged service install is not supported on this platform",
            ServiceOp::Uninstall => "privileged service uninstall is not supported on this platform",
            ServiceOp::StartCore => "privileged service is not supported on this platform",
            ServiceOp::StopCore => "privileged service is not supported on this platform",
        }
    }
}

impl PrivilegedService for UnsupportedService {
    open spec fn can_install(&self) -> bool {
        false
    }

    fn supported(&self) -> (r: bool) {
        false
    }
}

/// The macOS LaunchDaemon service.
#[derive(Debug, Clone, Copy, Default)]
pub struct MacosLaunchDaemonService;

impl PrivilegedService for MacosLaunchDaemonService {
    open spec fn can_install(&self) -> bool {
        true
    }

    fn supported(&self) -> (r: bool) {
        true
    }
}

/// A string in single quotes for `sh`: each `'` becomes `'"'"'`.
pub open spec fn single_quoted(s: Seq<char>) -> Seq<char> {
    "'"@ + replace_all(s, "'"@, "'\"'\"'"@) + "'"@
}

pub fn shell_single_quote(s: &str) -> (r: Vec<char>)
    ensures
        r@ == single_quoted(s@),
{
    let sv = chars_of(s);
    let q = chars_of("'");
    let rq = chars_of("'\"'\"'");
    proof {
        reveal_strlit("'");
    }
    let inner = replace_chars(sv.as_slice(), q.as_slice(), rq.as_slice());
    let mut v = chars_of("'");
    extend_chars(&mut v, inner.as_slice());
    extend_str(&mut v, "'");
    v
}

/// Text escaped for a double-quoted AppleScript string.
pub fn escape_osascript(s: &str) -> (r: Vec<char>)
    ensures
        r@ == applescript_escaped(s@),
{
    escape_applescript(s)
}

/// The AppleScript that runs a shell command as administrator, with a prompt.
pub open spec fn admin_prompt_script(shell: Seq<char>, prompt: Seq<char>) -> Seq<char> {
    "do shell script \""@ + applescript_escaped(shell) + "\" with administrator privileges with prompt \""@
        + applescript_escaped(prompt) + "\""@
}

fn prompt_script(shell: &[char], prompt: &str) -> (r: String)
    ensures
        r@ == admin_prompt_script(shell@, prompt@),
{
    let shell_s = string_from_chars(shell);
    let es = escape_applescript(shell_s.as_str());
    let ep = escape_applescript(prompt);
    let mut v = chars_of("do shell script \"");
    extend_chars(&mut v, es.as_slice());
    extend_str(&mut v, "\" with administrator privileges with prompt \"");
    extend_chars(&mut v, ep.as_slice());
    extend_str(&mut v, "\"");
    string_from_chars(v.as_slice())
}

/// The shell command that installs the service, for the user's group.
pub open spec fn install_shell(install_path: Seq<char>, gid: u32) -> Seq<char> {
    "sudo MIHOMO_TRAY_SERVICE_GID="@ + decimal(gid as nat) + " "@ + single_quoted(install_path)
}

/// The shell command that removes the service.
pub open spec fn uninstall_shell(uninstall_path: Seq<char>) -> Seq<char> {
    "sudo "@ + single_quoted(uninstall_path)
}

impl MacosLaunchDaemonService {
    /// The AppleScript that installs the service as administrator.
    pub fn install_script(&self, install_path: &str, gid: u32, prompt: &str) -> (r: String)
        ensures
            r@ == admin_prompt_script(install_shell(install_path@, gid), prompt@),
    {
        let mut shell = chars_of("sudo MIHOMO_TRAY_SERVICE_GID=");
        let g = decimal_chars(gid as u64);
        extend_chars(&mut shell, g.as_slice());
        extend_str(&mut shell, " ");
        let q = shell_single_quote(install_path);
        extend_chars(&mut shell, q.as_slice());
        assert(shell@ =~= install_shell(install_path@, gid));
        prompt_script(shell.as_slice(), prompt)
    }

    /// The AppleScript that removes the service as administrator.
    pub fn uninstall_script(&self, uninstall_path: &str, prompt: &str) -> (r: String)
        ensures
            r@ == admin_prompt_script(uninstall_shell(uninstall_path@), prompt@),
    {
        let mut shell = chars_of("sudo ");
        let q = shell_single_quote(uninstall_path);
        extend_chars(&mut shell, q.as_slice());
        prompt_script(shell.as_slice(), prompt)
    }

    /// The request that makes the service start the core; `SAFE_PATHS` is the data
    /// directory and the profile's directory, joined by `:`.
    pub fn start_core_request(&self, core: &str, config_dir: &str, profile: &str) -> (r: Request)
        ensures
            r@ == (RequestView::Start {
                magic: IPC_MAGIC@,
                core_path: core@,
                config_dir: config_dir@,
                profile_path: profile@,
                safe_paths: safe_paths_of(config_dir@, ":"@, profile@),
            }),
    {
        let safe = safe_paths(config_dir, ":", profile);
        Request::start(core, config_dir, profile, safe.as_str())
    }
}

/// What to do after a poll of a freshly installed service.
#[derive(Debug, Clone, Copy, PartialEq, Eq, Structural)]
pub enum InstallWait {
    /// It answers: the installation is done.
    Ready,
    /// Pause and poll again.
    Retry,
    /// It never answered.
    GiveUp,
}

/// The decision after poll number `attempt` (from 0) of the installed service.
pub fn install_wait(attempt: u32, available: bool) -> (r: InstallWait)
    ensures
        available ==> r == InstallWait::Ready,
        !available && attempt + 1 < INSTALL_POLL_ATTEMPTS ==> r == InstallWait::Retry,
        !available && attempt + 1 >= INSTALL_POLL_ATTEMPTS ==> r == InstallWait::GiveUp,
{
    if available {
        InstallWait::Ready
    } else if attempt < INSTALL_POLL_ATTEMPTS - 1 {
        InstallWait::Retry
    } else {
        InstallWait::GiveUp
    }
}

/// The first of the helper's possible locations that exists.
pub fn pick_helper(exists: &Vec<bool>) -> (r: Option<usize>)
    ensures
        match r {
            Some(i) => i < exists@.len() && exists@[i as int] && forall|k: int|
                0 <= k < i ==> !exists@[k],
            None => forall|k: int| 0 <= k < exists@.len() ==> !exists@[k],
        },
{
    let mut i: usize = 0;
    while i < exists.len()
        invariant
            i <= exists@.len(),
            forall|k: int| 0 <= k < i ==> !exists@[k],
        decreases exists@.len() - i,
    {
        if exists[i] {
            return Some(i);
        }
        i += 1;
    }
    None
}


// ------------------------------------------------------------------ the installer helper
/// The group that may use the service's socket, from `MIHOMO_TRAY_SERVICE_GID`: its value
/// read as a `u32`, or 0 (root's group) when unset or not a number.
pub open spec fn gid_of(value: Option<Seq<char>>) -> u32 {
    match value {
        Some(v) => match parse_unsigned(v, 10, u32::MAX as nat) {
            Some(g) => g as u32,
            None => 0,
        },
        None => 0,
    }
}

pub fn service_gid(value: Option<String>) -> (r: u32)
    ensures
        r == gid_of(
            match value {
                Some(v) => Some(v@),
                None => None,
            },
        ),
{
    match value {
        Some(v) => {
            let cs = chars_of(v.as_str());
            match parse_unsigned_exec(cs.as_slice(), 10, u32::MAX as u64) {
                Some(g) => g as u32,
                None => 0,
            }
        },
        None => 0,
    }
}

/// The `launchctl` target of a system daemon: `system/<label>`.
pub fn launchd_target(label: &str) -> (r: String)
    ensures
        r@ == "system/"@ + label@,
{
    let mut v = chars_of("system/");
    extend_str(&mut v, label);
    string_from_chars(v.as_slice())
}

/// The LaunchDaemon property list: the template with `{{label}}` replaced by the service
/// label, then `{{bin}}` by the helper binary's path.
pub open spec fn plist_text(template: Seq<char>, bin: Seq<char>) -> Seq<char> {
    replace_all(replace_all(template, "{{label}}"@, SERVICE_LABEL@), "{{bin}}"@, bin)
}

pub fn render_plist(template: &str, bin: &str) -> (r: String)
    ensures
        r@ == plist_text(template@, bin@),
{
    let t = chars_of(template);
    let lk = chars_of("{{label}}");
    let lv = chars_of(SERVICE_LABEL);
    let bk = chars_of("{{bin}}");
    let bv = chars_of(bin);
    proof {
        reveal_strlit("{{label}}");
        reveal_strlit("{{bin}}");
    }
    let a = replace_chars(t.as_slice(), lk.as_slice(), lv.as_slice());
    let b = replace_chars(a.as_slice(), bk.as_slice(), bv.as_slice());
    string_from_chars(b.as_slice())
}

/// The service backend of a host.
#[derive(Debug, Clone)]
pub enum ServiceBackend {
    Macos(MacosLaunchDaemonService),
    Unsupported(UnsupportedService),
}

impl PrivilegedService for ServiceBackend {
    open spec fn can_install(&self) -> bool {
        self is Macos
    }

    fn supported(&self) -> (r: bool) {
        match self {
            ServiceBackend::Macos(s) => s.supported(),
            ServiceBackend::Unsupported(s) => s.supported(),
        }
    }
}

/// macOS has the LaunchDaemon; other hosts have none.
pub fn create_service(host: HostOs) -> (r: ServiceBackend)
    ensures
        r is Macos <==> host is Macos,
{
    match host {
        HostOs::Macos => ServiceBackend::Macos(MacosLaunchDaemonService),
        _ => ServiceBackend::Unsupported(UnsupportedService),
    }
}

} // verus!
