//! The running tray's decisions. The session holds the live switches and runs each flow
//! that a menu action starts (turning the system proxy or TUN on or off, installing or
//! removing the privileged service, restoring the last session's switches) as a state
//! machine: it names the next operation, the app performs it and hands back its outcome.

use vstd::prelude::*;

use crate::platform::mihomo_core::InstallProgress;
use crate::profile::DEFAULT_PORT;
use crate::tray::{Action, ActionView};

verus! {

/// Who runs the core.
#[derive(Debug, Clone, Copy, PartialEq, Eq, Structural)]
pub enum CoreMode {
    /// A child process of the tray.
    Sidecar,
    /// The privileged helper service.
    Service,
}

/// What a flow does once its switch has been set.
#[derive(Debug, Clone, Copy, PartialEq, Eq, Structural)]
pub enum Outer {
    /// A menu toggle: save the switches on success, then redraw the tray.
    Toggle,
    /// Restoring the last session: save the switches on success.
    Restore,
    /// Removing the service: TUN went off first.
    Uninstall,
}

/// Where a flow goes after saving the switches.
#[derive(Debug, Clone, Copy, PartialEq, Eq, Structural)]
pub enum AfterPersist {
    Rebuild,
    Finish,
    UninstallNext,
}

/// Where a flow goes after moving the core back to the sidecar.
#[derive(Debug, Clone, Copy, PartialEq, Eq, Structural)]
pub enum AfterSidecar {
    ProxyPorts(Outer),
    TunOffQuery(Outer),
    UninstallConfirm,
}

/// Where a flow goes once the privileged service is there (or not).
#[derive(Debug, Clone, Copy, PartialEq, Eq, Structural)]
pub enum AfterEnsure {
    TunOn(Outer),
    InstallAction,
}

/// The point a flow has reached: the operation named last is the one whose outcome comes
/// next.
#[derive(Debug, Clone, Copy, PartialEq, Eq, Structural)]
pub enum Stage {
    Idle,
    ProxyOff(Outer),
    ProxyTunOff(Outer),
    ProxyPorts(Outer),
    ProxyEnable(Outer),
    SideStop(AfterSidecar),
    SideStart(AfterSidecar),
    SideWait(AfterSidecar),
    TunOffDisabled(Outer),
    TunOffQuery(Outer),
    TunOnProxyOff(Outer),
    EnsQuery(AfterEnsure),
    EnsConfirm(AfterEnsure),
    EnsInstall(AfterEnsure),
    SvcStop(Outer),
    SvcStart(Outer),
    SvcWait(Outer),
    TunOnPrepared(Outer),
    TunOnEnable(Outer),
    TunOnQuery(Outer),
    TunOnService(Outer),
    Persisted(AfterPersist),
    InstQuery,
    UninstConfirm,
    Uninstalling,
    UninstQuery,
    Rebuilt,
}

/// An operation for the app to perform.
#[derive(Debug, Clone, Copy, PartialEq, Eq, Structural)]
pub enum Op {
    /// Turn the system proxy off (its failure is ignored).
    DisableSystemProxy,
    /// Read the proxy ports from the core's `/configs`.
    ReadApiPorts,
    EnableSystemProxy { http: u16, socks: u16 },
    /// Turn TUN off through the API (its failure is ignored).
    DisableTun,
    /// Prepare the core binary for TUN (its failure is ignored).
    PrepareTun,
    EnableTun,
    /// Ask the API whether TUN is on.
    QueryTun,
    /// Ask whether the privileged service answers.
    QueryService,
    /// Ask the user to confirm installing the service.
    ConfirmInstall,
    InstallService,
    /// Ask the user to confirm removing the service.
    ConfirmUninstall,
    /// Remove the service (its failure is ignored).
    UninstallService,
    /// Stop the sidecar core (its failure is ignored).
    StopSidecar,
    /// Stop the core run by the service (its failure is ignored).
    StopServiceCore,
    StartSidecar,
    StartServiceCore,
    /// Wait until the core's API answers.
    WaitReady,
    /// Save the switches to the settings file.
    Persist { system_proxy: bool, tun: bool },
    RebuildTray,
    /// The flow is over.
    Finish,
}

/// The outcome of an operation: success or a yes/no answer, or the ports read from the API
/// (`None`: not readable).
#[derive(Debug, Clone, Copy, PartialEq, Eq, Structural)]
pub enum Outcome {
    Flag(bool),
    Ports(Option<u16>, Option<u16>),
}

pub open spec fn ok_of(o: Outcome) -> bool {
    o == Outcome::Flag(true)
}

/// The HTTP and SOCKS proxy ports of a profile.
#[derive(Debug, Clone, Copy, PartialEq, Eq, Structural)]
pub struct Ports {
    pub http: u16,
    pub socks: u16,
}

/// The running tray's state.
#[derive(Debug, Clone, Copy, PartialEq, Eq, Structural)]
pub struct Session {
    /// The switches as they are.
    pub system_proxy: bool,
    pub tun: bool,
    pub service_ok: bool,
    pub core_mode: CoreMode,
    /// The switches as the settings file has them.
    pub saved_proxy: bool,
    pub saved_tun: bool,
    pub ready: bool,
    pub quitting: bool,
    pub boot_started: bool,
    /// Whether the host can have the privileged service.
    pub service_supported: bool,
    /// Whether TUN needs the core run by the service.
    pub privileged_tun: bool,
    /// The proxy ports of the active profile, when it is parsed.
    pub profile_ports: Option<Ports>,
    pub stage: Stage,
}

// ------------------------------------------------------------------ the transitions
pub open spec fn at(s: Session, stage: Stage) -> Session {
    Session { stage, ..s }
}

pub open spec fn finish(s: Session) -> (Session, Op) {
    (at(s, Stage::Idle), Op::Finish)
}

pub open spec fn rebuild(s: Session) -> (Session, Op) {
    (at(s, Stage::Rebuilt), Op::RebuildTray)
}

pub open spec fn sidecar_start(s: Session, r: AfterSidecar) -> (Session, Op) {
    (at(s, Stage::SideStop(r)), Op::StopServiceCore)
}

pub open spec fn uninstall_next(s: Session) -> (Session, Op) {
    if s.core_mode is Service {
        sidecar_start(s, AfterSidecar::UninstallConfirm)
    } else {
        (at(s, Stage::UninstConfirm), Op::ConfirmUninstall)
    }
}

pub open spec fn continue_after_persist(s: Session, next: AfterPersist) -> (Session, Op) {
    match next {
        AfterPersist::Rebuild => rebuild(s),
        AfterPersist::Finish => finish(s),
        AfterPersist::UninstallNext => uninstall_next(s),
    }
}

/// Save the live switches when the settings file differs, then go on.
pub open spec fn persist_then(s: Session, next: AfterPersist) -> (Session, Op) {
    if s.saved_proxy == s.system_proxy && s.saved_tun == s.tun {
        continue_after_persist(s, next)
    } else {
        (
            Session {
                saved_proxy: s.system_proxy,
                saved_tun: s.tun,
                stage: Stage::Persisted(next),
                ..s
            },
            Op::Persist { system_proxy: s.system_proxy, tun: s.tun },
        )
    }
}

pub open spec fn after_set(s: Session, o: Outer, ok: bool) -> (Session, Op) {
    match o {
        Outer::Toggle => if ok {
            persist_then(s, AfterPersist::Rebuild)
        } else {
            rebuild(s)
        },
        Outer::Restore => if ok {
            persist_then(s, AfterPersist::Finish)
        } else {
            finish(s)
        },
        Outer::Uninstall => if ok {
            persist_then(s, AfterPersist::UninstallNext)
        } else {
            uninstall_next(s)
        },
    }
}

pub open spec fn proxy_ports(s: Session, o: Outer) -> (Session, Op) {
    match s.profile_ports {
        Some(p) => (at(s, Stage::ProxyEnable(o)), Op::EnableSystemProxy { http: p.http, socks: p.socks }),
        None => (at(s, Stage::ProxyPorts(o)), Op::ReadApiPorts),
    }
}

pub open spec fn resume_sidecar(s: Session, r: AfterSidecar) -> (Session, Op) {
    match r {
        AfterSidecar::ProxyPorts(o) => proxy_ports(s, o),
        AfterSidecar::TunOffQuery(o) => (at(s, Stage::TunOffQuery(o)), Op::QueryService),
        AfterSidecar::UninstallConfirm => (at(s, Stage::UninstConfirm), Op::ConfirmUninstall),
    }
}

/// Set the system proxy on or off.
pub open spec fn set_proxy(s: Session, o: Outer, enable: bool) -> (Session, Op) {
    if !enable {
        (at(s, Stage::ProxyOff(o)), Op::DisableSystemProxy)
    } else if s.tun {
        (at(s, Stage::ProxyTunOff(o)), Op::DisableTun)
    } else {
        proxy_ports(s, o)
    }
}

pub open spec fn tun_prepare(s: Session, o: Outer) -> (Session, Op) {
    (at(s, Stage::TunOnPrepared(o)), Op::PrepareTun)
}

pub open spec fn resume_ensure(s: Session, r: AfterEnsure, ok: bool) -> (Session, Op) {
    match r {
        AfterEnsure::TunOn(o) => if ok {
            (at(s, Stage::SvcStop(o)), Op::StopSidecar)
        } else {
            after_set(s, o, false)
        },
        AfterEnsure::InstallAction => (at(s, Stage::InstQuery), Op::QueryService),
    }
}

/// Make sure the privileged service is there, asking the user before installing it.
pub open spec fn ensure_service(s: Session, r: AfterEnsure) -> (Session, Op) {
    if !s.service_supported {
        resume_ensure(s, r, true)
    } else {
        (at(s, Stage::EnsQuery(r)), Op::QueryService)
    }
}

pub open spec fn tun_on_privileged(s: Session, o: Outer) -> (Session, Op) {
    if s.privileged_tun {
        ensure_service(s, AfterEnsure::TunOn(o))
    } else {
        tun_prepare(s, o)
    }
}

/// Set TUN on or off.
pub open spec fn set_tun(s: Session, o: Outer, enable: bool) -> (Session, Op) {
    if !enable {
        (at(s, Stage::TunOffDisabled(o)), Op::DisableTun)
    } else if s.system_proxy {
        (at(s, Stage::TunOnProxyOff(o)), Op::DisableSystemProxy)
    } else {
        tun_on_privileged(s, o)
    }
}

/// The ports the system proxy is set to once the API has been read.
pub open spec fn api_port(p: Option<u16>) -> u16 {
    match p {
        Some(v) => v,
        None => DEFAULT_PORT,
    }
}

/// The next state and operation, given the outcome of the operation named last.
pub open spec fn transition(s: Session, out: Outcome) -> (Session, Op) {
    let ok = ok_of(out);
    match s.stage {
        Stage::Idle => finish(s),
        Stage::ProxyOff(o) => after_set(Session { system_proxy: false, ..s }, o, true),
        Stage::ProxyTunOff(o) => {
            let s1 = Session { tun: false, ..s };
            if s1.core_mode is Service {
                sidecar_start(s1, AfterSidecar::ProxyPorts(o))
            } else {
                proxy_ports(s1, o)
            }
        },
        Stage::ProxyPorts(o) => {
            let (h, k) = match out {
                Outcome::Ports(h, k) => (h, k),
                Outcome::Flag(_) => (None, None),
            };
            (
                at(s, Stage::ProxyEnable(o)),
                Op::EnableSystemProxy { http: api_port(h), socks: api_port(k) },
            )
        },
        Stage::ProxyEnable(o) => if ok {
            after_set(Session { system_proxy: true, ..s }, o, true)
        } else {
            after_set(s, o, false)
        },
        Stage::SideStop(r) => (at(s, Stage::SideStart(r)), Op::StartSidecar),
        Stage::SideStart(r) => if ok {
            (at(s, Stage::SideWait(r)), Op::WaitReady)
        } else {
            resume_sidecar(s, r)
        },
        Stage::SideWait(r) => if ok {
            resume_sidecar(Session { core_mode: CoreMode::Sidecar, ..s }, r)
        } else {
            resume_sidecar(s, r)
        },
        Stage::TunOffDisabled(o) => {
            let s1 = Session { tun: false, ..s };
            if s1.core_mode is Service {
                sidecar_start(s1, AfterSidecar::TunOffQuery(o))
            } else {
                (at(s1, Stage::TunOffQuery(o)), Op::QueryService)
            }
        },
        Stage::TunOffQuery(o) => after_set(Session { service_ok: ok, ..s }, o, true),
        Stage::TunOnProxyOff(o) => tun_on_privileged(Session { system_proxy: false, ..s }, o),
        Stage::EnsQuery(r) => if ok {
            resume_ensure(Session { service_ok: true, ..s }, r, true)
        } else {
            (at(s, Stage::EnsConfirm(r)), Op::ConfirmInstall)
        },
        Stage::EnsConfirm(r) => if ok {
            (at(s, Stage::EnsInstall(r)), Op::InstallService)
        } else {
            resume_ensure(s, r, false)
        },
        Stage::EnsInstall(r) => if ok {
            resume_ensure(Session { service_ok: true, ..s }, r, true)
        } else {
            resume_ensure(s, r, false)
        },
        Stage::SvcStop(o) => (at(s, Stage::SvcStart(o)), Op::StartServiceCore),
        Stage::SvcStart(o) => if ok {
            (at(s, Stage::SvcWait(o)), Op::WaitReady)
        } else {
            after_set(s, o, false)
        },
        Stage::SvcWait(o) => if ok {
            tun_prepare(Session { core_mode: CoreMode::Service, ..s }, o)
        } else {
            after_set(s, o, false)
        },
        Stage::TunOnPrepared(o) => (at(s, Stage::TunOnEnable(o)), Op::EnableTun),
        Stage::TunOnEnable(o) => if ok {
            (at(s, Stage::TunOnQuery(o)), Op::QueryTun)
        } else {
            after_set(s, o, false)
        },
        Stage::TunOnQuery(o) => (
            Session { tun: ok, stage: Stage::TunOnService(o), ..s },
            Op::QueryService,
        ),
        Stage::TunOnService(o) => after_set(Session { service_ok: ok, ..s }, o, true),
        Stage::Persisted(n) => continue_after_persist(s, n),
        Stage::InstQuery => rebuild(Session { service_ok: ok, ..s }),
        Stage::UninstConfirm => if ok {
            (at(s, Stage::Uninstalling), Op::UninstallService)
        } else {
            (at(s, Stage::UninstQuery), Op::QueryService)
        },
        Stage::Uninstalling => (at(s, Stage::UninstQuery), Op::QueryService),
        Stage::UninstQuery => rebuild(Session { service_ok: ok, ..s }),
        Stage::Rebuilt => finish(s),
    }
}

// ------------------------------------------------------------------ the flows' first steps
pub open spec fn begin_install(s: Session) -> (Session, Op) {
    if !s.service_supported {
        finish(s)
    } else {
        ensure_service(s, AfterEnsure::InstallAction)
    }
}

pub open spec fn begin_uninstall(s: Session) -> (Session, Op) {
    if !s.service_supported {
        finish(s)
    } else if s.tun {
        set_tun(s, Outer::Uninstall, false)
    } else {
        uninstall_next(s)
    }
}

/// Restoring the last session's switches: TUN wins when both were on.
pub open spec fn begin_restore(s: Session) -> (Session, Op) {
    if s.saved_tun {
        set_tun(s, Outer::Restore, true)
    } else if s.saved_proxy {
        set_proxy(s, Outer::Restore, true)
    } else {
        finish(s)
    }
}

/// What a menu action asks of the app: nothing, a flow of the session (its first
/// operation), or an operation of its own.
#[derive(Debug, Clone)]
pub enum Plan {
    Ignore,
    Flow(Op),
    SelectProxy { group: String, name: String },
    SwitchProfile(String),
    ImportProfile,
    OpenConfigFolder,
    SetLocale(&'static str),
    Quit,
}


// ------------------------------------------------------------------ laws of the flows
/// Stages reached with TUN already off, on the way to turning the system proxy on.
pub open spec fn proxy_path(st: Stage) -> bool {
    match st {
        Stage::ProxyPorts(_) => true,
        Stage::ProxyEnable(_) => true,
        Stage::SideStop(r) => r is ProxyPorts,
        Stage::SideStart(r) => r is ProxyPorts,
        Stage::SideWait(r) => r is ProxyPorts,
        _ => false,
    }
}

/// Stages reached with the system proxy already off, on the way to turning TUN on.
pub open spec fn tun_path(st: Stage) -> bool {
    match st {
        Stage::EnsQuery(r) => r is TunOn,
        Stage::EnsConfirm(r) => r is TunOn,
        Stage::EnsInstall(r) => r is TunOn,
        Stage::SvcStop(_) => true,
        Stage::SvcStart(_) => true,
        Stage::SvcWait(_) => true,
        Stage::TunOnPrepared(_) => true,
        Stage::TunOnEnable(_) => true,
        Stage::TunOnQuery(_) => true,
        _ => false,
    }
}

/// TUN and the system proxy are not both on, and a flow that turns one on has turned the
/// other off.
pub open spec fn exclusive(s: Session) -> bool {
    &&& !(s.system_proxy && s.tun)
    &&& proxy_path(s.stage) ==> !s.tun
    &&& tun_path(s.stage) ==> !s.system_proxy
}

/// The settings of a session that no flow changes.
pub open spec fn same_setup(a: Session, b: Session) -> bool {
    &&& a.ready == b.ready
    &&& a.quitting == b.quitting
    &&& a.boot_started == b.boot_started
    &&& a.service_supported == b.service_supported
    &&& a.privileged_tun == b.privileged_tun
    &&& a.profile_ports == b.profile_ports
}

/// The tray never turns TUN and the system proxy on together: every step of a flow keeps
/// them exclusive.
#[verifier::spinoff_prover]
#[verifier::rlimit(100)]
pub proof fn lemma_step_exclusive(s: Session, out: Outcome)
    requires
        exclusive(s),
    ensures
        exclusive(transition(s, out).0),
{
    match s.stage {
        Stage::Idle => {},
        Stage::ProxyOff(_) => {},
        Stage::ProxyTunOff(_) => {},
        Stage::ProxyPorts(_) => {},
        Stage::ProxyEnable(_) => {},
        Stage::SideStop(_) => {},
        Stage::SideStart(_) => {},
        Stage::SideWait(_) => {},
        Stage::TunOffDisabled(_) => {},
        Stage::TunOffQuery(_) => {},
        Stage::TunOnProxyOff(_) => {},
        Stage::EnsQuery(_) => {},
        Stage::EnsConfirm(_) => {},
        Stage::EnsInstall(_) => {},
        Stage::SvcStop(_) => {},
        Stage::SvcStart(_) => {},
        Stage::SvcWait(_) => {},
        Stage::TunOnPrepared(_) => {},
        Stage::TunOnEnable(_) => {},
        Stage::TunOnQuery(_) => {},
        Stage::TunOnService(_) => {},
        Stage::Persisted(_) => {},
        Stage::InstQuery => {},
        Stage::UninstConfirm => {},
        Stage::Uninstalling => {},
        Stage::UninstQuery => {},
        Stage::Rebuilt => {},
    }
}

/// Every flow a menu action, the restore or a sync starts keeps TUN and the system proxy
/// exclusive from its first step.
pub proof fn lemma_begin_exclusive(s: Session, o: Outer, enable: bool)
    requires
        exclusive(s),
        s.stage is Idle,
    ensures
        exclusive(set_proxy(s, o, enable).0),
        exclusive(set_tun(s, o, enable).0),
        exclusive(begin_install(s).0),
        exclusive(begin_uninstall(s).0),
        exclusive(begin_restore(s).0),
        exclusive(persist_then(s, AfterPersist::Rebuild).0),
{
}

/// The session after the operations' outcomes, handed to it one step each.
pub open spec fn run(s: Session, outs: Seq<Outcome>) -> Session
    decreases outs.len(),
{
    if outs.len() == 0 {
        s
    } else {
        transition(run(s, outs.drop_last()), outs.last()).0
    }
}

/// The session once a menu action has started its flow on a ready, idle session, as
/// `handle_action` does; an action that starts no flow leaves it as it is.
pub open spec fn started(s: Session, a: ActionView) -> Session {
    match a {
        ActionView::ToggleSystemProxy => set_proxy(s, Outer::Toggle, !s.system_proxy).0,
        ActionView::ToggleTun => set_tun(s, Outer::Toggle, !s.tun).0,
        ActionView::InstallService => begin_install(s).0,
        ActionView::UninstallService => begin_uninstall(s).0,
        _ => s,
    }
}

/// Every step keeps TUN and the system proxy exclusive, so a run of any length does too.
pub proof fn lemma_run_exclusive(s: Session, outs: Seq<Outcome>)
    requires
        exclusive(s),
    ensures
        exclusive(run(s, outs)),
    decreases outs.len(),
{
    if outs.len() > 0 {
        lemma_run_exclusive(s, outs.drop_last());
        lemma_step_exclusive(run(s, outs.drop_last()), outs.last());
    }
}

/// Starting a menu action's flow keeps TUN and the system proxy exclusive.
proof fn lemma_started_exclusive(s: Session, a: ActionView)
    requires
        !(s.system_proxy && s.tun),
        s.stage is Idle,
    ensures
        exclusive(started(s, a)),
{
    assert(exclusive(s));
    match a {
        ActionView::ToggleSystemProxy => lemma_begin_exclusive(s, Outer::Toggle, !s.system_proxy),
        ActionView::ToggleTun => lemma_begin_exclusive(s, Outer::Toggle, !s.tun),
        ActionView::InstallService => lemma_begin_exclusive(s, Outer::Toggle, true),
        ActionView::UninstallService => lemma_begin_exclusive(s, Outer::Toggle, true),
        _ => {},
    }
}

/// Over a whole flow: on an idle session where TUN and the system proxy are not both on,
/// whatever menu action starts a flow and whatever the outcomes of its operations (each
/// success or failure), they are never both on at any point of it.
pub proof fn lemma_flow_exclusive(s: Session, a: ActionView, outs: Seq<Outcome>)
    requires
        !(s.system_proxy && s.tun),
        s.stage is Idle,
    ensures
        forall|k: int|
            0 <= k <= outs.len() ==> !(#[trigger] run(started(s, a), outs.take(k)).system_proxy
                && run(started(s, a), outs.take(k)).tun),
{
    lemma_started_exclusive(s, a);
    assert forall|k: int| 0 <= k <= outs.len() implies !(#[trigger] run(
        started(s, a),
        outs.take(k),
    ).system_proxy && run(started(s, a), outs.take(k)).tun) by {
        lemma_run_exclusive(started(s, a), outs.take(k));
    }
}

/// The same over the flows that restore the last session's switches and that save the
/// live switches before the menu opens.
pub proof fn lemma_restore_sync_exclusive(s: Session, outs: Seq<Outcome>)
    requires
        !(s.system_proxy && s.tun),
        s.stage is Idle,
    ensures
        forall|k: int|
            0 <= k <= outs.len() ==> !(#[trigger] run(begin_restore(s).0, outs.take(k)).system_proxy
                && run(begin_restore(s).0, outs.take(k)).tun),
        forall|k: int|
            0 <= k <= outs.len() ==> !(#[trigger] run(
                persist_then(s, AfterPersist::Rebuild).0,
                outs.take(k),
            ).system_proxy && run(persist_then(s, AfterPersist::Rebuild).0, outs.take(k)).tun),
{
    assert(exclusive(s));
    lemma_begin_exclusive(s, Outer::Restore, true);
    assert forall|k: int| 0 <= k <= outs.len() implies !(#[trigger] run(
        begin_restore(s).0,
        outs.take(k),
    ).system_proxy && run(begin_restore(s).0, outs.take(k)).tun) by {
        lemma_run_exclusive(begin_restore(s).0, outs.take(k));
    }
    assert forall|k: int| 0 <= k <= outs.len() implies !(#[trigger] run(
        persist_then(s, AfterPersist::Rebuild).0,
        outs.take(k),
    ).system_proxy && run(persist_then(s, AfterPersist::Rebuild).0, outs.take(k)).tun) by {
        lemma_run_exclusive(persist_then(s, AfterPersist::Rebuild).0, outs.take(k));
    }
}

/// A step changes only the switches and the stage.
pub proof fn lemma_step_keeps_setup(s: Session, out: Outcome)
    ensures
        same_setup(s, transition(s, out).0),
{
    match s.stage {
        Stage::Idle => {},
        Stage::ProxyOff(_) => {},
        Stage::ProxyTunOff(_) => {},
        Stage::ProxyPorts(_) => {},
        Stage::ProxyEnable(_) => {},
        Stage::SideStop(_) => {},
        Stage::SideStart(_) => {},
        Stage::SideWait(_) => {},
        Stage::TunOffDisabled(_) => {},
        Stage::TunOffQuery(_) => {},
        Stage::TunOnProxyOff(_) => {},
        Stage::EnsQuery(_) => {},
        Stage::EnsConfirm(_) => {},
        Stage::EnsInstall(_) => {},
        Stage::SvcStop(_) => {},
        Stage::SvcStart(_) => {},
        Stage::SvcWait(_) => {},
        Stage::TunOnPrepared(_) => {},
        Stage::TunOnEnable(_) => {},
        Stage::TunOnQuery(_) => {},
        Stage::TunOnService(_) => {},
        Stage::Persisted(_) => {},
        Stage::InstQuery => {},
        Stage::UninstConfirm => {},
        Stage::Uninstalling => {},
        Stage::UninstQuery => {},
        Stage::Rebuilt => {},
    }
}

/// Saving the switches records exactly the live switches in the settings.
#[verifier::spinoff_prover]
#[verifier::rlimit(100)]
pub proof fn lemma_persist_records_switches(s: Session, out: Outcome)
    ensures
        transition(s, out).1 matches Op::Persist { system_proxy, tun } ==> {
            let n = transition(s, out).0;
            &&& n.saved_proxy == system_proxy && n.saved_tun == tun
            &&& system_proxy == n.system_proxy && tun == n.tun
        },
{
    match s.stage {
        Stage::Idle => {},
        Stage::ProxyOff(_) => {},
        Stage::ProxyTunOff(_) => {},
        Stage::ProxyPorts(_) => {},
        Stage::ProxyEnable(_) => {},
        Stage::SideStop(_) => {},
        Stage::SideStart(_) => {},
        Stage::SideWait(_) => {},
        Stage::TunOffDisabled(_) => {},
        Stage::TunOffQuery(_) => {},
        Stage::TunOnProxyOff(_) => {},
        Stage::EnsQuery(_) => {},
        Stage::EnsConfirm(_) => {},
        Stage::EnsInstall(_) => {},
        Stage::SvcStop(_) => {},
        Stage::SvcStart(_) => {},
        Stage::SvcWait(_) => {},
        Stage::TunOnPrepared(_) => {},
        Stage::TunOnEnable(_) => {},
        Stage::TunOnQuery(_) => {},
        Stage::TunOnService(_) => {},
        Stage::Persisted(_) => {},
        Stage::InstQuery => {},
        Stage::UninstConfirm => {},
        Stage::Uninstalling => {},
        Stage::UninstQuery => {},
        Stage::Rebuilt => {},
    }
}

pub open spec fn outer_rank(o: Outer) -> nat {
    match o {
        Outer::Toggle => 2,
        Outer::Restore => 1,
        Outer::Uninstall => 8,
    }
}

pub open spec fn sidecar_rank(r: AfterSidecar) -> nat {
    match r {
        AfterSidecar::ProxyPorts(o) => outer_rank(o) + 2,
        AfterSidecar::TunOffQuery(o) => outer_rank(o) + 1,
        AfterSidecar::UninstallConfirm => 4,
    }
}

pub open spec fn ensure_rank(r: AfterEnsure) -> nat {
    match r {
        AfterEnsure::TunOn(o) => outer_rank(o) + 7,
        AfterEnsure::InstallAction => 2,
    }
}

/// How many steps at most are left in a flow.
pub open spec fn rank(st: Stage) -> nat {
    match st {
        Stage::Idle => 0,
        Stage::ProxyOff(o) => outer_rank(o) + 1,
        Stage::ProxyTunOff(o) => outer_rank(o) + 6,
        Stage::ProxyPorts(o) => outer_rank(o) + 2,
        Stage::ProxyEnable(o) => outer_rank(o) + 1,
        Stage::SideStop(r) => sidecar_rank(r) + 3,
        Stage::SideStart(r) => sidecar_rank(r) + 2,
        Stage::SideWait(r) => sidecar_rank(r) + 1,
        Stage::TunOffDisabled(o) => outer_rank(o) + 5,
        Stage::TunOffQuery(o) => outer_rank(o) + 1,
        Stage::TunOnProxyOff(o) => outer_rank(o) + 11,
        Stage::EnsQuery(r) => ensure_rank(r) + 3,
        Stage::EnsConfirm(r) => ensure_rank(r) + 2,
        Stage::EnsInstall(r) => ensure_rank(r) + 1,
        Stage::SvcStop(o) => outer_rank(o) + 7,
        Stage::SvcStart(o) => outer_rank(o) + 6,
        Stage::SvcWait(o) => outer_rank(o) + 5,
        Stage::TunOnPrepared(o) => outer_rank(o) + 4,
        Stage::TunOnEnable(o) => outer_rank(o) + 3,
        Stage::TunOnQuery(o) => outer_rank(o) + 2,
        Stage::TunOnService(o) => outer_rank(o) + 1,
        Stage::Persisted(n) => match n {
            AfterPersist::Rebuild => 2,
            AfterPersist::Finish => 1,
            AfterPersist::UninstallNext => 8,
        },
        Stage::InstQuery => 2,
        Stage::UninstConfirm => 4,
        Stage::Uninstalling => 3,
        Stage::UninstQuery => 2,
        Stage::Rebuilt => 1,
    }
}

proof fn lemma_after_set_rank(s: Session, o: Outer, ok: bool)
    ensures
        rank(after_set(s, o, ok).0.stage) <= outer_rank(o),
        (after_set(s, o, ok).1 == Op::Finish) <==> (after_set(s, o, ok).0.stage is Idle),
{
}

proof fn lemma_resume_sidecar_rank(s: Session, r: AfterSidecar)
    ensures
        rank(resume_sidecar(s, r).0.stage) <= sidecar_rank(r),
        !(resume_sidecar(s, r).0.stage is Idle) && resume_sidecar(s, r).1 != Op::Finish,
{
}

proof fn lemma_resume_ensure_rank(s: Session, r: AfterEnsure, ok: bool)
    ensures
        rank(resume_ensure(s, r, ok).0.stage) <= ensure_rank(r),
        (resume_ensure(s, r, ok).1 == Op::Finish) <==> (resume_ensure(s, r, ok).0.stage is Idle),
{
    if let AfterEnsure::TunOn(o) = r {
        lemma_after_set_rank(s, o, false);
    }
}

proof fn lemma_persisted_rank(s: Session, n: AfterPersist)
    ensures
        rank(continue_after_persist(s, n).0.stage) < rank(Stage::Persisted(n)),
        (continue_after_persist(s, n).1 == Op::Finish) <==> (continue_after_persist(s, n).0.stage is Idle),
{
}

#[verifier::spinoff_prover]
#[verifier::rlimit(100)]
proof fn lemma_progress_proxy(s: Session, out: Outcome)
    requires
        s.stage is ProxyOff || s.stage is ProxyTunOff || s.stage is ProxyPorts || s.stage is ProxyEnable || s.stage is SideStop || s.stage is SideStart || s.stage is SideWait,
    ensures
        rank(transition(s, out).0.stage) < rank(s.stage),
{
    match s.stage {
        Stage::ProxyOff(o) => lemma_after_set_rank(Session { system_proxy: false, ..s }, o, true),
        Stage::ProxyTunOff(_) => {},
        Stage::ProxyPorts(_) => {},
        Stage::ProxyEnable(o) => {
            lemma_after_set_rank(Session { system_proxy: true, ..s }, o, true);
            lemma_after_set_rank(s, o, false);
        },
        Stage::SideStop(_) => {},
        Stage::SideStart(r) => lemma_resume_sidecar_rank(s, r),
        Stage::SideWait(r) => {
            lemma_resume_sidecar_rank(s, r);
            lemma_resume_sidecar_rank(Session { core_mode: CoreMode::Sidecar, ..s }, r);
        },
        _ => {},
    }
}

#[verifier::spinoff_prover]
#[verifier::rlimit(100)]
proof fn lemma_progress_tun_off(s: Session, out: Outcome)
    requires
        s.stage is TunOffDisabled || s.stage is TunOffQuery || s.stage is TunOnProxyOff || s.stage is EnsQuery || s.stage is EnsConfirm || s.stage is EnsInstall,
    ensures
        rank(transition(s, out).0.stage) < rank(s.stage),
{
    match s.stage {
        Stage::TunOffDisabled(_) => {},
        Stage::TunOffQuery(o) => lemma_after_set_rank(Session { service_ok: ok_of(out), ..s }, o, true),
        Stage::TunOnProxyOff(o) => lemma_resume_ensure_rank(Session { system_proxy: false, ..s }, AfterEnsure::TunOn(o), true),
        Stage::EnsQuery(r) => lemma_resume_ensure_rank(Session { service_ok: true, ..s }, r, true),
        Stage::EnsConfirm(r) => lemma_resume_ensure_rank(s, r, false),
        Stage::EnsInstall(r) => {
            lemma_resume_ensure_rank(Session { service_ok: true, ..s }, r, true);
            lemma_resume_ensure_rank(s, r, false);
        },
        _ => {},
    }
}

#[verifier::spinoff_prover]
#[verifier::rlimit(100)]
proof fn lemma_progress_tun_on(s: Session, out: Outcome)
    requires
        s.stage is SvcStop || s.stage is SvcStart || s.stage is SvcWait || s.stage is TunOnPrepared || s.stage is TunOnEnable || s.stage is TunOnQuery || s.stage is TunOnService || s.stage is Persisted,
    ensures
        rank(transition(s, out).0.stage) < rank(s.stage),
{
    match s.stage {
        Stage::SvcStop(_) => {},
        Stage::SvcStart(o) => lemma_after_set_rank(s, o, false),
        Stage::SvcWait(o) => lemma_after_set_rank(s, o, false),
        Stage::TunOnPrepared(_) => {},
        Stage::TunOnEnable(o) => lemma_after_set_rank(s, o, false),
        Stage::TunOnQuery(_) => {},
        Stage::TunOnService(o) => lemma_after_set_rank(Session { service_ok: ok_of(out), ..s }, o, true),
        Stage::Persisted(n) => lemma_persisted_rank(s, n),
        _ => {},
    }
}

/// Every flow ends: each step of a running flow brings it closer to its end.
pub proof fn lemma_step_progress(s: Session, out: Outcome)
    ensures
        !(s.stage is Idle) ==> rank(transition(s, out).0.stage) < rank(s.stage),
{
    match s.stage {
        Stage::ProxyOff(_) => lemma_progress_proxy(s, out),
        Stage::ProxyTunOff(_) => lemma_progress_proxy(s, out),
        Stage::ProxyPorts(_) => lemma_progress_proxy(s, out),
        Stage::ProxyEnable(_) => lemma_progress_proxy(s, out),
        Stage::SideStop(_) => lemma_progress_proxy(s, out),
        Stage::SideStart(_) => lemma_progress_proxy(s, out),
        Stage::SideWait(_) => lemma_progress_proxy(s, out),
        Stage::TunOffDisabled(_) => lemma_progress_tun_off(s, out),
        Stage::TunOffQuery(_) => lemma_progress_tun_off(s, out),
        Stage::TunOnProxyOff(_) => lemma_progress_tun_off(s, out),
        Stage::EnsQuery(_) => lemma_progress_tun_off(s, out),
        Stage::EnsConfirm(_) => lemma_progress_tun_off(s, out),
        Stage::EnsInstall(_) => lemma_progress_tun_off(s, out),
        Stage::SvcStop(_) => lemma_progress_tun_on(s, out),
        Stage::SvcStart(_) => lemma_progress_tun_on(s, out),
        Stage::SvcWait(_) => lemma_progress_tun_on(s, out),
        Stage::TunOnPrepared(_) => lemma_progress_tun_on(s, out),
        Stage::TunOnEnable(_) => lemma_progress_tun_on(s, out),
        Stage::TunOnQuery(_) => lemma_progress_tun_on(s, out),
        Stage::TunOnService(_) => lemma_progress_tun_on(s, out),
        Stage::Persisted(_) => lemma_progress_tun_on(s, out),
        _ => {},
    }
}

/// The session names `Finish` exactly when its flow is over.
#[verifier::spinoff_prover]
#[verifier::rlimit(100)]
pub proof fn lemma_finish_when_idle(s: Session, out: Outcome)
    ensures
        (transition(s, out).1 == Op::Finish) <==> (transition(s, out).0.stage is Idle),
{
    let ok = ok_of(out);
    match s.stage {
        Stage::ProxyOff(o) => lemma_after_set_rank(Session { system_proxy: false, ..s }, o, true),
        Stage::ProxyEnable(o) => {
            lemma_after_set_rank(Session { system_proxy: true, ..s }, o, true);
            lemma_after_set_rank(s, o, false);
        },
        Stage::ProxyTunOff(_) => {},
        Stage::SideStart(r) => lemma_resume_sidecar_rank(s, r),
        Stage::SideWait(r) => {
            lemma_resume_sidecar_rank(s, r);
            lemma_resume_sidecar_rank(Session { core_mode: CoreMode::Sidecar, ..s }, r);
        },
        Stage::TunOffQuery(o) => lemma_after_set_rank(Session { service_ok: ok, ..s }, o, true),
        Stage::TunOnService(o) => lemma_after_set_rank(Session { service_ok: ok, ..s }, o, true),
        Stage::TunOnProxyOff(o) => lemma_resume_ensure_rank(
            Session { system_proxy: false, ..s },
            AfterEnsure::TunOn(o),
            true,
        ),
        Stage::EnsQuery(r) => lemma_resume_ensure_rank(Session { service_ok: true, ..s }, r, true),
        Stage::EnsConfirm(r) => lemma_resume_ensure_rank(s, r, false),
        Stage::EnsInstall(r) => {
            lemma_resume_ensure_rank(Session { service_ok: true, ..s }, r, true);
            lemma_resume_ensure_rank(s, r, false);
        },
        Stage::SvcStart(o) => lemma_after_set_rank(s, o, false),
        Stage::SvcWait(o) => lemma_after_set_rank(s, o, false),
        Stage::TunOnEnable(o) => lemma_after_set_rank(s, o, false),
        Stage::Persisted(n) => lemma_persisted_rank(s, n),
        _ => {},
    }
}

// ------------------------------------------------------------------ executable steps
fn at_exec(s: Session, stage: Stage) -> (r: Session)
    ensures
        r == at(s, stage),
{
    Session { stage, ..s }
}

fn finish_exec(s: Session) -> (r: (Session, Op))
    ensures
        r == finish(s),
{
    (at_exec(s, Stage::Idle), Op::Finish)
}

fn rebuild_exec(s: Session) -> (r: (Session, Op))
    ensures
        r == rebuild(s),
{
    (at_exec(s, Stage::Rebuilt), Op::RebuildTray)
}

fn uninstall_next_exec(s: Session) -> (r: (Session, Op))
    ensures
        r == uninstall_next(s),
{
    match s.core_mode {
        CoreMode::Service => (at_exec(s, Stage::SideStop(AfterSidecar::UninstallConfirm)), Op::StopServiceCore),
        CoreMode::Sidecar => (at_exec(s, Stage::UninstConfirm), Op::ConfirmUninstall),
    }
}

fn continue_after_persist_exec(s: Session, next: AfterPersist) -> (r: (Session, Op))
    ensures
        r == continue_after_persist(s, next),
{
    match next {
        AfterPersist::Rebuild => rebuild_exec(s),
        AfterPersist::Finish => finish_exec(s),
        AfterPersist::UninstallNext => uninstall_next_exec(s),
    }
}

fn persist_then_exec(s: Session, next: AfterPersist) -> (r: (Session, Op))
    ensures
        r == persist_then(s, next),
{
    if s.saved_proxy == s.system_proxy && s.saved_tun == s.tun {
        continue_after_persist_exec(s, next)
    } else {
        (
            Session {
                saved_proxy: s.system_proxy,
                saved_tun: s.tun,
                stage: Stage::Persisted(next),
                ..s
            },
            Op::Persist { system_proxy: s.system_proxy, tun: s.tun },
        )
    }
}

fn after_set_exec(s: Session, o: Outer, ok: bool) -> (r: (Session, Op))
    ensures
        r == after_set(s, o, ok),
{
    match o {
        Outer::Toggle => if ok {
            persist_then_exec(s, AfterPersist::Rebuild)
        } else {
            rebuild_exec(s)
        },
        Outer::Restore => if ok {
            persist_then_exec(s, AfterPersist::Finish)
        } else {
            finish_exec(s)
        },
        Outer::Uninstall => if ok {
            persist_then_exec(s, AfterPersist::UninstallNext)
        } else {
            uninstall_next_exec(s)
        },
    }
}

fn proxy_ports_exec(s: Session, o: Outer) -> (r: (Session, Op))
    ensures
        r == proxy_ports(s, o),
{
    match s.profile_ports {
        Some(p) => (at_exec(s, Stage::ProxyEnable(o)), Op::EnableSystemProxy { http: p.http, socks: p.socks }),
        None => (at_exec(s, Stage::ProxyPorts(o)), Op::ReadApiPorts),
    }
}

fn resume_sidecar_exec(s: Session, r: AfterSidecar) -> (res: (Session, Op))
    ensures
        res == resume_sidecar(s, r),
{
    match r {
        AfterSidecar::ProxyPorts(o) => proxy_ports_exec(s, o),
        AfterSidecar::TunOffQuery(o) => (at_exec(s, Stage::TunOffQuery(o)), Op::QueryService),
        AfterSidecar::UninstallConfirm => (at_exec(s, Stage::UninstConfirm), Op::ConfirmUninstall),
    }
}

fn set_proxy_exec(s: Session, o: Outer, enable: bool) -> (r: (Session, Op))
    ensures
        r == set_proxy(s, o, enable),
{
    if !enable {
        (at_exec(s, Stage::ProxyOff(o)), Op::DisableSystemProxy)
    } else if s.tun {
        (at_exec(s, Stage::ProxyTunOff(o)), Op::DisableTun)
    } else {
        proxy_ports_exec(s, o)
    }
}

fn resume_ensure_exec(s: Session, r: AfterEnsure, ok: bool) -> (res: (Session, Op))
    ensures
        res == resume_ensure(s, r, ok),
{
    match r {
        AfterEnsure::TunOn(o) => if ok {
            (at_exec(s, Stage::SvcStop(o)), Op::StopSidecar)
        } else {
            after_set_exec(s, o, false)
        },
        AfterEnsure::InstallAction => (at_exec(s, Stage::InstQuery), Op::QueryService),
    }
}

fn ensure_service_exec(s: Session, r: AfterEnsure) -> (res: (Session, Op))
    ensures
        res == ensure_service(s, r),
{
    if !s.service_supported {
        resume_ensure_exec(s, r, true)
    } else {
        (at_exec(s, Stage::EnsQuery(r)), Op::QueryService)
    }
}

fn tun_on_privileged_exec(s: Session, o: Outer) -> (r: (Session, Op))
    ensures
        r == tun_on_privileged(s, o),
{
    if s.privileged_tun {
        ensure_service_exec(s, AfterEnsure::TunOn(o))
    } else {
        (at_exec(s, Stage::TunOnPrepared(o)), Op::PrepareTun)
    }
}

fn set_tun_exec(s: Session, o: Outer, enable: bool) -> (r: (Session, Op))
    ensures
        r == set_tun(s, o, enable),
{
    if !enable {
        (at_exec(s, Stage::TunOffDisabled(o)), Op::DisableTun)
    } else if s.system_proxy {
        (at_exec(s, Stage::TunOnProxyOff(o)), Op::DisableSystemProxy)
    } else {
        tun_on_privileged_exec(s, o)
    }
}

fn api_port_exec(p: Option<u16>) -> (r: u16)
    ensures
        r == api_port(p),
{
    match p {
        Some(v) => v,
        None => DEFAULT_PORT,
    }
}

fn transition_exec(s: Session, out: Outcome) -> (r: (Session, Op))
    ensures
        r == transition(s, out),
{
    let ok = match out {
        Outcome::Flag(b) => b,
        Outcome::Ports(_, _) => false,
    };
    match s.stage {
        Stage::Idle => finish_exec(s),
        Stage::ProxyOff(o) => after_set_exec(Session { system_proxy: false, ..s }, o, true),
        Stage::ProxyTunOff(o) => {
            let s1 = Session { tun: false, ..s };
            match s1.core_mode {
                CoreMode::Service => (
                    at_exec(s1, Stage::SideStop(AfterSidecar::ProxyPorts(o))),
                    Op::StopServiceCore,
                ),
                CoreMode::Sidecar => proxy_ports_exec(s1, o),
            }
        },
        Stage::ProxyPorts(o) => {
            let (h, k) = match out {
                Outcome::Ports(h, k) => (h, k),
                Outcome::Flag(_) => (None, None),
            };
            (
                at_exec(s, Stage::ProxyEnable(o)),
                Op::EnableSystemProxy { http: api_port_exec(h), socks: api_port_exec(k) },
            )
        },
        Stage::ProxyEnable(o) => if ok {
            after_set_exec(Session { system_proxy: true, ..s }, o, true)
        } else {
            after_set_exec(s, o, false)
        },
        Stage::SideStop(r) => (at_exec(s, Stage::SideStart(r)), Op::StartSidecar),
        Stage::SideStart(r) => if ok {
            (at_exec(s, Stage::SideWait(r)), Op::WaitReady)
        } else {
            resume_sidecar_exec(s, r)
        },
        Stage::SideWait(r) => if ok {
            resume_sidecar_exec(Session { core_mode: CoreMode::Sidecar, ..s }, r)
        } else {
            resume_sidecar_exec(s, r)
        },
        Stage::TunOffDisabled(o) => {
            let s1 = Session { tun: false, ..s };
            match s1.core_mode {
                CoreMode::Service => (
                    at_exec(s1, Stage::SideStop(AfterSidecar::TunOffQuery(o))),
                    Op::StopServiceCore,
                ),
                CoreMode::Sidecar => (at_exec(s1, Stage::TunOffQuery(o)), Op::QueryService),
            }
        },
        Stage::TunOffQuery(o) => after_set_exec(Session { service_ok: ok, ..s }, o, true),
        Stage::TunOnProxyOff(o) => tun_on_privileged_exec(Session { system_proxy: false, ..s }, o),
        Stage::EnsQuery(r) => if ok {
            resume_ensure_exec(Session { service_ok: true, ..s }, r, true)
        } else {
            (at_exec(s, Stage::EnsConfirm(r)), Op::ConfirmInstall)
        },
        Stage::EnsConfirm(r) => if ok {
            (at_exec(s, Stage::EnsInstall(r)), Op::InstallService)
        } else {
            resume_ensure_exec(s, r, false)
        },
        Stage::EnsInstall(r) => if ok {
            resume_ensure_exec(Session { service_ok: true, ..s }, r, true)
        } else {
            resume_ensure_exec(s, r, false)
        },
        Stage::SvcStop(o) => (at_exec(s, Stage::SvcStart(o)), Op::StartServiceCore),
        Stage::SvcStart(o) => if ok {
            (at_exec(s, Stage::SvcWait(o)), Op::WaitReady)
        } else {
            after_set_exec(s, o, false)
        },
        Stage::SvcWait(o) => if ok {
            (
                at_exec(Session { core_mode: CoreMode::Service, ..s }, Stage::TunOnPrepared(o)),
                Op::PrepareTun,
            )
        } else {
            after_set_exec(s, o, false)
        },
        Stage::TunOnPrepared(o) => (at_exec(s, Stage::TunOnEnable(o)), Op::EnableTun),
        Stage::TunOnEnable(o) => if ok {
            (at_exec(s, Stage::TunOnQuery(o)), Op::QueryTun)
        } else {
            after_set_exec(s, o, false)
        },
        Stage::TunOnQuery(o) => (
            Session { tun: ok, stage: Stage::TunOnService(o), ..s },
            Op::QueryService,
        ),
        Stage::TunOnService(o) => after_set_exec(Session { service_ok: ok, ..s }, o, true),
        Stage::Persisted(n) => continue_after_persist_exec(s, n),
        Stage::InstQuery => rebuild_exec(Session { service_ok: ok, ..s }),
        Stage::UninstConfirm => if ok {
            (at_exec(s, Stage::Uninstalling), Op::UninstallService)
        } else {
            (at_exec(s, Stage::UninstQuery), Op::QueryService)
        },
        Stage::Uninstalling => (at_exec(s, Stage::UninstQuery), Op::QueryService),
        Stage::UninstQuery => rebuild_exec(Session { service_ok: ok, ..s }),
        Stage::Rebuilt => finish_exec(s),
    }
}

impl Session {
    /// A fresh session: switches off, the sidecar core, the saved switches from the
    /// settings, nothing running yet.
    pub fn new(
        saved_proxy: bool,
        saved_tun: bool,
        service_ok: bool,
        service_supported: bool,
        privileged_tun: bool,
    ) -> (r: Self)
        ensures
            r == (Session {
                system_proxy: false,
                tun: false,
                service_ok,
                core_mode: CoreMode::Sidecar,
                saved_proxy,
                saved_tun,
                ready: false,
                quitting: false,
                boot_started: false,
                service_supported,
                privileged_tun,
                profile_ports: None,
                stage: Stage::Idle,
            }),
    {
        Session {
            system_proxy: false,
            tun: false,
            service_ok,
            core_mode: CoreMode::Sidecar,
            saved_proxy,
            saved_tun,
            ready: false,
            quitting: false,
            boot_started: false,
            service_supported,
            privileged_tun,
            profile_ports: None,
            stage: Stage::Idle,
        }
    }

    /// Hands the outcome of the operation named last to the session, and names the next.
    pub fn step(&mut self, out: Outcome) -> (op: Op)
        ensures
            (*final(self), op) == transition(*old(self), out),
    {
        let (s, op) = transition_exec(*self, out);
        *self = s;
        op
    }

    /// The first operation of the flow a menu action starts. Nothing happens before the
    /// core is ready (except quitting) or while another flow runs.
    pub fn handle_action(&mut self, action: &Action) -> (p: Plan)
        ensures
            (!old(self).ready && !(*action is Quit)) || !(old(self).stage is Idle) ==> (p is Ignore
                && *final(self) == *old(self)),
            old(self).ready && old(self).stage is Idle ==> match *action {
                Action::ToggleSystemProxy => {
                    let (s, op) = set_proxy(*old(self), Outer::Toggle, !old(self).system_proxy);
                    *final(self) == s && p == Plan::Flow(op)
                },
                Action::ToggleTun => {
                    let (s, op) = set_tun(*old(self), Outer::Toggle, !old(self).tun);
                    *final(self) == s && p == Plan::Flow(op)
                },
                Action::InstallService => {
                    let (s, op) = begin_install(*old(self));
                    *final(self) == s && p == Plan::Flow(op)
                },
                Action::UninstallService => {
                    let (s, op) = begin_uninstall(*old(self));
                    *final(self) == s && p == Plan::Flow(op)
                },
                Action::SpeedTest(_) => p is Ignore && *final(self) == *old(self),
                Action::SelectProxy { group, name } => (p matches Plan::SelectProxy { group: g, name: n }
                    && g@ == group@ && n@ == name@) && *final(self) == *old(self),
                Action::SwitchProfile(n) => (p matches Plan::SwitchProfile(m) && m@ == n@) && *final(self) == *old(self),
                Action::ImportProfile => p is ImportProfile && *final(self) == *old(self),
                Action::OpenConfigFolder => p is OpenConfigFolder && *final(self) == *old(self),
                Action::SetLocale(l) => (p matches Plan::SetLocale(m) && m@ == l@) && *final(self)
                    == *old(self),
                Action::Quit => p is Quit && *final(self) == *old(self),
            },
            !old(self).ready && old(self).stage is Idle && *action is Quit ==> p is Quit && *final(self) == *old(self),
    {
        if !matches!(self.stage, Stage::Idle) {
            return Plan::Ignore;
        }
        if !self.ready && !matches!(action, Action::Quit) {
            return Plan::Ignore;
        }
        let s = *self;
        match action {
            Action::ToggleSystemProxy => {
                let (n, op) = set_proxy_exec(s, Outer::Toggle, !s.system_proxy);
                *self = n;
                Plan::Flow(op)
            },
            Action::ToggleTun => {
                let (n, op) = set_tun_exec(s, Outer::Toggle, !s.tun);
                *self = n;
                Plan::Flow(op)
            },
            Action::InstallService => {
                let (n, op) = if !s.service_supported {
                    finish_exec(s)
                } else {
                    ensure_service_exec(s, AfterEnsure::InstallAction)
                };
                *self = n;
                Plan::Flow(op)
            },
            Action::UninstallService => {
                let (n, op) = if !s.service_supported {
                    finish_exec(s)
                } else if s.tun {
                    set_tun_exec(s, Outer::Uninstall, false)
                } else {
                    uninstall_next_exec(s)
                };
                *self = n;
                Plan::Flow(op)
            },
            Action::SpeedTest(_) => Plan::Ignore,
            Action::SelectProxy { group, name } => Plan::SelectProxy {
                group: group.clone(),
                name: name.clone(),
            },
            Action::SwitchProfile(n) => Plan::SwitchProfile(n.clone()),
            Action::ImportProfile => Plan::ImportProfile,
            Action::OpenConfigFolder => Plan::OpenConfigFolder,
            Action::SetLocale(l) => Plan::SetLocale(*l),
            Action::Quit => Plan::Quit,
        }
    }

    /// Starts restoring the last session's switches (TUN first).
    pub fn restore(&mut self) -> (op: Op)
        requires
            old(self).stage is Idle,
        ensures
            (*final(self), op) == begin_restore(*old(self)),
    {
        let s = *self;
        let (n, op) = if s.saved_tun {
            set_tun_exec(s, Outer::Restore, true)
        } else if s.saved_proxy {
            set_proxy_exec(s, Outer::Restore, true)
        } else {
            finish_exec(s)
        };
        *self = n;
        op
    }

    /// Starts saving the live switches (when they differ from the settings file) and
    /// redrawing the tray, as before the menu opens.
    pub fn sync(&mut self) -> (op: Op)
        requires
            old(self).stage is Idle,
        ensures
            (*final(self), op) == persist_then(*old(self), AfterPersist::Rebuild),
    {
        let (n, op) = persist_then_exec(*self, AfterPersist::Rebuild);
        *self = n;
        op
    }

    /// Takes the live switches read from the OS and the API (TUN only when the API is
    /// there).
    pub fn refresh(&mut self, tun: Option<bool>, system_proxy: bool, service_ok: bool)
        ensures
            *final(self) == (Session {
                tun: match tun {
                    Some(t) => t,
                    None => old(self).tun,
                },
                system_proxy,
                service_ok,
                ..*old(self)
            }),
    {
        match tun {
            Some(t) => self.tun = t,
            None => {},
        }
        self.system_proxy = system_proxy;
        self.service_ok = service_ok;
    }

    /// Whether the tray may be refreshed before its menu opens.
    pub fn menu_refresh_allowed(&self, has_api: bool) -> (r: bool)
        ensures
            r == (self.ready && !self.quitting && has_api),
    {
        self.ready && !self.quitting && has_api
    }

    /// Whether a change of the active profile on disk is acted on.
    pub fn reload_allowed(&self) -> (r: bool)
        ensures
            r == (self.ready && !self.quitting),
    {
        self.ready && !self.quitting
    }

    /// Marks the bootstrap as started; `false` when it already was.
    pub fn begin_bootstrap(&mut self) -> (first: bool)
        ensures
            first == !old(self).boot_started,
            *final(self) == (Session { boot_started: true, ..*old(self) }),
    {
        let first = !self.boot_started;
        self.boot_started = true;
        first
    }

    /// The core runs and its API answers: the sidecar mode, the profile's ports.
    pub fn finish_bootstrap(&mut self, profile_ports: Ports, service_ok: bool)
        ensures
            *final(self) == (Session {
                ready: true,
                core_mode: CoreMode::Sidecar,
                profile_ports: Some(profile_ports),
                service_ok,
                ..*old(self)
            }),
    {
        self.ready = true;
        self.core_mode = CoreMode::Sidecar;
        self.profile_ports = Some(profile_ports);
        self.service_ok = service_ok;
    }

    /// A profile was applied: its ports are the ones the proxy uses from now on.
    pub fn profile_applied(&mut self, profile_ports: Ports)
        ensures
            *final(self) == (Session { profile_ports: Some(profile_ports), ..*old(self) }),
    {
        self.profile_ports = Some(profile_ports);
    }

    /// Starts shutting down: `None` when already done; otherwise what to stop.
    pub fn shutdown(&mut self, has_api: bool) -> (r: Option<ShutdownPlan>)
        ensures
            old(self).quitting ==> r is None && *final(self) == *old(self),
            !old(self).quitting ==> r == Some(
                ShutdownPlan {
                    disable_tun: has_api,
                    stop: if old(self).core_mode is Service {
                        CoreStop::ServiceCore
                    } else {
                        CoreStop::Sidecar
                    },
                },
            ) && *final(self) == (Session { quitting: true, ..*old(self) }),
    {
        if self.quitting {
            return None;
        }
        self.quitting = true;
        let stop = match self.core_mode {
            CoreMode::Service => CoreStop::ServiceCore,
            CoreMode::Sidecar => CoreStop::Sidecar,
        };
        Some(ShutdownPlan { disable_tun: has_api, stop })
    }

    /// How the core is restarted on a profile that the running core could not reload.
    pub fn restart_for_profile(&self) -> (r: CoreStop)
        ensures
            r == (if self.core_mode is Service {
                CoreStop::ServiceCore
            } else {
                CoreStop::Sidecar
            }),
    {
        match self.core_mode {
            CoreMode::Service => CoreStop::ServiceCore,
            CoreMode::Sidecar => CoreStop::Sidecar,
        }
    }
}

/// Which core to stop (or restart).
#[derive(Debug, Clone, Copy, PartialEq, Eq, Structural)]
pub enum CoreStop {
    Sidecar,
    ServiceCore,
}

/// Shutting down: the system proxy goes off, TUN goes off when the API is there, then the
/// core stops (the service itself stays installed).
#[derive(Debug, Clone, Copy, PartialEq, Eq, Structural)]
pub struct ShutdownPlan {
    pub disable_tun: bool,
    pub stop: CoreStop,
}

/// Whether the active profile is reloaded after a change on disk: not when its
/// modification time is known and the same as at the last load.
pub fn should_reload(mtime: Option<u64>, last_loaded: Option<u64>) -> (r: bool)
    ensures
        r == !(mtime is Some && mtime == last_loaded),
{
    match mtime {
        Some(m) => match last_loaded {
            Some(l) => m != l,
            None => true,
        },
        None => true,
    }
}

/// What the download window's progress means for the bootstrap.
#[derive(Debug, Clone, Copy, PartialEq, Eq, Structural)]
pub enum ProgressStep {
    Continue,
    /// The core is installed: finish the bootstrap.
    Finish,
    /// The installation failed: report it and quit.
    Fail,
}

pub fn progress_step(p: &InstallProgress) -> (r: ProgressStep)
    ensures
        r == match *p {
            InstallProgress::Done => ProgressStep::Finish,
            InstallProgress::Failed(_) => ProgressStep::Fail,
            _ => ProgressStep::Continue,
        },
{
    match p {
        InstallProgress::Done => ProgressStep::Finish,
        InstallProgress::Failed(_) => ProgressStep::Fail,
        _ => ProgressStep::Continue,
    }
}

/// What the bootstrap does once it knows whether the core must be installed.
#[derive(Debug, Clone, Copy, PartialEq, Eq, Structural)]
pub enum BootStep {
    /// Show the download window and install the core in the background.
    Download,
    /// Start the core right away.
    Finish,
    /// Report the error and quit.
    Fail,
}

pub fn boot_step(needs_install: Result<bool, ()>) -> (r: BootStep)
    ensures
        r == match needs_install {
            Ok(true) => BootStep::Download,
            Ok(false) => BootStep::Finish,
            Err(_) => BootStep::Fail,
        },
{
    match needs_install {
        Ok(true) => BootStep::Download,
        Ok(false) => BootStep::Finish,
        Err(_) => BootStep::Fail,
    }
}

} // verus!
