//! TUN mode backends: what each needs before TUN can be switched on.

use vstd::prelude::*;

use crate::host::HostOs;
use crate::platform::service::{PrivilegedService, ServiceBackend};
use crate::text::{chars_of, string_from_chars};

verus! {

/// Why TUN could not be switched on.
#[derive(Debug, Clone, Copy, PartialEq, Eq, Structural)]
pub enum TunError {
    /// The backend needs the privileged service and it does not answer.
    ServiceUnavailable,
}

impl TunError {
    pub fn message(&self) -> (r: &'static str)
        ensures
            r@ == "privileged service is not available; install it first"@,
    {
        "privileged service is not available; install it first"
    }
}

/// The capabilities the Linux core is granted so that it can create the TUN device.
pub const TUN_CAPABILITIES: &'static str = "cap_net_admin,cap_net_bind_service=+ep";

pub trait TunMode {
    /// Whether TUN needs the core run by the privileged service.
    spec fn privileged(&self) -> bool;

    /// The command (program first) that prepares the core binary for TUN, if any.
    spec fn prepare_args(&self, core: Seq<char>) -> Option<Seq<Seq<char>>>;

    fn requires_privileged_core(&self) -> (r: bool)
        ensures
            r == self.privileged(),
    ;

    /// Whether TUN may be switched on, given whether the privileged service answers.
    fn enable_check(&self, service_available: bool) -> (r: Result<(), TunError>)
        ensures
            r is Ok <==> (!self.privileged() || service_available),
    ;

    fn prepare_command(&self, core: &str) -> (r: Option<Vec<String>>)
        ensures
            match self.prepare_args(core@) {
                Some(a) => (r matches Some(v) && v@.map_values(|s: String| s@) == a),
                None => r is None,
            },
    ;
}

/// macOS: TUN needs the core started by the privileged LaunchDaemon.
#[derive(Debug, Clone)]
pub struct MacosTun<S> {
    pub service: S,
}

impl<S: PrivilegedService> MacosTun<S> {
    pub fn new(service: S) -> (r: Self)
        ensures
            r.service == service,
    {
        MacosTun { service }
    }
}

impl<S: PrivilegedService> TunMode for MacosTun<S> {
    open spec fn privileged(&self) -> bool {
        true
    }

    open spec fn prepare_args(&self, core: Seq<char>) -> Option<Seq<Seq<char>>> {
        None
    }

    fn requires_privileged_core(&self) -> (r: bool) {
        true
    }

    fn enable_check(&self, service_available: bool) -> (r: Result<(), TunError>) {
        if service_available {
            Ok(())
        } else {
            Err(TunError::ServiceUnavailable)
        }
    }

    fn prepare_command(&self, core: &str) -> (r: Option<Vec<String>>) {
        None
    }
}

/// Linux: the sidecar core is granted network capabilities through `pkexec setcap`.
#[derive(Debug, Clone, Copy, Default)]
pub struct LinuxTun;

pub open spec fn setcap_args(core: Seq<char>) -> Seq<Seq<char>> {
    seq!["pkexec"@, "setcap"@, TUN_CAPABILITIES@, core]
}

fn owned(s: &str) -> (r: String)
    ensures
        r@ == s@,
{
    let v = chars_of(s);
    string_from_chars(v.as_slice())
}

impl TunMode for LinuxTun {
    open spec fn privileged(&self) -> bool {
        false
    }

    open spec fn prepare_args(&self, core: Seq<char>) -> Option<Seq<Seq<char>>> {
        Some(setcap_args(core))
    }

    fn requires_privileged_core(&self) -> (r: bool) {
        false
    }

    fn enable_check(&self, service_available: bool) -> (r: Result<(), TunError>) {
        Ok(())
    }

    fn prepare_command(&self, core: &str) -> (r: Option<Vec<String>>) {
        let mut v: Vec<String> = Vec::new();
        v.push(owned("pkexec"));
        v.push(owned("setcap"));
        v.push(owned(TUN_CAPABILITIES));
        v.push(owned(core));
        assert(v@.map_values(|s: String| s@) =~= setcap_args(core@));
        Some(v)
    }
}

/// Other systems: TUN is switched through the core's API alone.
#[derive(Debug, Clone, Copy, Default)]
pub struct FallbackTun;

impl TunMode for FallbackTun {
    open spec fn privileged(&self) -> bool {
        false
    }

    open spec fn prepare_args(&self, core: Seq<char>) -> Option<Seq<Seq<char>>> {
        None
    }

    fn requires_privileged_core(&self) -> (r: bool) {
        false
    }

    fn enable_check(&self, service_available: bool) -> (r: Result<(), TunError>) {
        Ok(())
    }

    fn prepare_command(&self, core: &str) -> (r: Option<Vec<String>>) {
        None
    }
}

/// The TUN backend of a host.
#[derive(Debug, Clone)]
pub enum TunBackend {
    Macos(MacosTun<ServiceBackend>),
    Linux(LinuxTun),
    Fallback(FallbackTun),
}

impl TunMode for TunBackend {
    open spec fn privileged(&self) -> bool {
        match self {
            TunBackend::Macos(t) => t.privileged(),
            TunBackend::Linux(t) => t.privileged(),
            TunBackend::Fallback(t) => t.privileged(),
        }
    }

    open spec fn prepare_args(&self, core: Seq<char>) -> Option<Seq<Seq<char>>> {
        match self {
            TunBackend::Macos(t) => t.prepare_args(core),
            TunBackend::Linux(t) => t.prepare_args(core),
            TunBackend::Fallback(t) => t.prepare_args(core),
        }
    }

    fn requires_privileged_core(&self) -> (r: bool) {
        match self {
            TunBackend::Macos(t) => t.requires_privileged_core(),
            TunBackend::Linux(t) => t.requires_privileged_core(),
            TunBackend::Fallback(t) => t.requires_privileged_core(),
        }
    }

    fn enable_check(&self, service_available: bool) -> (r: Result<(), TunError>) {
        match self {
            TunBackend::Macos(t) => t.enable_check(service_available),
            TunBackend::Linux(t) => t.enable_check(service_available),
            TunBackend::Fallback(t) => t.enable_check(service_available),
        }
    }

    fn prepare_command(&self, core: &str) -> (r: Option<Vec<String>>) {
        match self {
            TunBackend::Macos(t) => t.prepare_command(core),
            TunBackend::Linux(t) => t.prepare_command(core),
            TunBackend::Fallback(t) => t.prepare_command(core),
        }
    }
}

/// The TUN backend of a host: the LaunchDaemon-backed one on macOS, `setcap` on Linux, and
/// the API alone elsewhere.
pub fn create_tun(host: HostOs, service: ServiceBackend) -> (r: TunBackend)
    ensures
        host is Macos ==> (r matches TunBackend::Macos(t) && t.service == service),
        host is Linux ==> r is Linux,
        !(host is Macos) && !(host is Linux) ==> r is Fallback,
{
    match host {
        HostOs::Macos => TunBackend::Macos(MacosTun::new(service)),
        HostOs::Linux => TunBackend::Linux(LinuxTun),
        _ => TunBackend::Fallback(FallbackTun),
    }
}

} // verus!
