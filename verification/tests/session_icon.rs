use mihomo_tray::icon::{load_icon, whiten};
use mihomo_tray::platform::mihomo_core::InstallProgress;
use mihomo_tray::session::{
    boot_step, progress_step, should_reload, BootStep, CoreMode, CoreStop, Op, Outcome, Plan,
    Ports, ProgressStep, Session, ShutdownPlan, Stage,
};
use mihomo_tray::tray::Action;

fn ready_session() -> Session {
    let mut s = Session::new(false, false, false, true, true);
    s.finish_bootstrap(Ports { http: 7897, socks: 7898 }, false);
    s
}

/// Runs a flow to its end, answering each operation with `answer`; returns the operations.
fn run(s: &mut Session, first: Op, answer: impl Fn(Op) -> Outcome) -> Vec<Op> {
    let mut ops = vec![first];
    let mut op = first;
    while op != Op::Finish {
        op = s.step(answer(op));
        ops.push(op);
        assert!(ops.len() < 100, "flow does not end");
    }
    assert_eq!(s.stage, Stage::Idle);
    ops
}

fn flow(p: Plan) -> Op {
    match p {
        Plan::Flow(op) => op,
        other => panic!("expected a flow, got {other:?}"),
    }
}

#[test]
fn actions_wait_for_the_core() {
    let mut s = Session::new(false, false, false, true, true);
    let before = s;
    assert!(matches!(s.handle_action(&Action::ToggleTun), Plan::Ignore));
    assert_eq!(s, before);
    assert!(matches!(s.handle_action(&Action::Quit), Plan::Quit));
}

#[test]
fn system_proxy_on_turns_tun_off_first() {
    let mut s = ready_session();
    s.tun = true;
    s.core_mode = CoreMode::Service;
    let first = flow(s.handle_action(&Action::ToggleSystemProxy));
    let ops = run(&mut s, first, |_| Outcome::Flag(true));
    assert_eq!(
        ops,
        vec![
            Op::DisableTun,
            Op::StopServiceCore,
            Op::StartSidecar,
            Op::WaitReady,
            Op::EnableSystemProxy { http: 7897, socks: 7898 },
            Op::Persist { system_proxy: true, tun: false },
            Op::RebuildTray,
            Op::Finish,
        ]
    );
    assert!(s.system_proxy && !s.tun);
    assert_eq!(s.core_mode, CoreMode::Sidecar);
    assert_eq!((s.saved_proxy, s.saved_tun), (true, false));
}

#[test]
fn system_proxy_ports_from_the_api_when_no_profile() {
    let mut s = Session::new(false, false, false, false, false);
    s.ready = true;
    let first = flow(s.handle_action(&Action::ToggleSystemProxy));
    assert_eq!(first, Op::ReadApiPorts);
    let op = s.step(Outcome::Ports(Some(7891), None));
    assert_eq!(op, Op::EnableSystemProxy { http: 7891, socks: 7890 });
    let op = s.step(Outcome::Flag(false));
    assert_eq!(op, Op::RebuildTray);
    assert!(!s.system_proxy);
    assert_eq!(s.step(Outcome::Flag(true)), Op::Finish);
}

#[test]
fn tun_on_installs_the_service_when_asked() {
    let mut s = ready_session();
    s.system_proxy = true;
    let first = flow(s.handle_action(&Action::ToggleTun));
    let ops = run(&mut s, first, |op| match op {
        Op::QueryService => Outcome::Flag(false),
        _ => Outcome::Flag(true),
    });
    assert_eq!(
        ops,
        vec![
            Op::DisableSystemProxy,
            Op::QueryService,
            Op::ConfirmInstall,
            Op::InstallService,
            Op::StopSidecar,
            Op::StartServiceCore,
            Op::WaitReady,
            Op::PrepareTun,
            Op::EnableTun,
            Op::QueryTun,
            Op::QueryService,
            Op::Persist { system_proxy: false, tun: true },
            Op::RebuildTray,
            Op::Finish,
        ]
    );
    assert!(s.tun && !s.system_proxy);
    assert_eq!(s.core_mode, CoreMode::Service);
}

#[test]
fn tun_on_stops_when_the_install_is_declined() {
    let mut s = ready_session();
    let first = flow(s.handle_action(&Action::ToggleTun));
    let ops = run(&mut s, first, |op| match op {
        Op::QueryService | Op::ConfirmInstall => Outcome::Flag(false),
        _ => Outcome::Flag(true),
    });
    assert_eq!(ops, vec![Op::QueryService, Op::ConfirmInstall, Op::RebuildTray, Op::Finish]);
    assert!(!s.tun);
}

#[test]
fn uninstall_turns_tun_off_and_returns_to_the_sidecar() {
    let mut s = ready_session();
    s.tun = true;
    s.saved_tun = true;
    s.core_mode = CoreMode::Service;
    let first = flow(s.handle_action(&Action::UninstallService));
    let ops = run(&mut s, first, |_| Outcome::Flag(true));
    assert_eq!(
        ops,
        vec![
            Op::DisableTun,
            Op::StopServiceCore,
            Op::StartSidecar,
            Op::WaitReady,
            Op::QueryService,
            Op::Persist { system_proxy: false, tun: false },
            Op::ConfirmUninstall,
            Op::UninstallService,
            Op::QueryService,
            Op::RebuildTray,
            Op::Finish,
        ]
    );
    assert_eq!(s.core_mode, CoreMode::Sidecar);
}

#[test]
fn service_actions_need_a_host_with_the_service() {
    let mut s = Session::new(false, false, false, false, false);
    s.ready = true;
    assert_eq!(flow(s.handle_action(&Action::InstallService)), Op::Finish);
    assert_eq!(flow(s.handle_action(&Action::UninstallService)), Op::Finish);
}

#[test]
fn restore_prefers_tun() {
    let mut s = Session::new(true, true, false, false, false);
    s.finish_bootstrap(Ports { http: 1, socks: 2 }, false);
    let first = s.restore();
    let ops = run(&mut s, first, |_| Outcome::Flag(true));
    assert_eq!(ops, vec![Op::PrepareTun, Op::EnableTun, Op::QueryTun, Op::QueryService, Op::Persist { system_proxy: false, tun: true }, Op::Finish]);
    let mut s = Session::new(false, false, false, false, false);
    assert_eq!(s.restore(), Op::Finish);
}

#[test]
fn other_actions_are_handed_back() {
    let mut s = ready_session();
    assert!(matches!(
        s.handle_action(&Action::SelectProxy { group: "G".to_string(), name: "N".to_string() }),
        Plan::SelectProxy { group, name } if group == "G" && name == "N"
    ));
    assert!(matches!(s.handle_action(&Action::SwitchProfile("a.yaml".to_string())), Plan::SwitchProfile(p) if p == "a.yaml"));
    assert!(matches!(s.handle_action(&Action::SetLocale("en")), Plan::SetLocale("en")));
    assert!(matches!(s.handle_action(&Action::SpeedTest("G".to_string())), Plan::Ignore));
    assert!(matches!(s.handle_action(&Action::OpenConfigFolder), Plan::OpenConfigFolder));
    assert!(matches!(s.handle_action(&Action::ImportProfile), Plan::ImportProfile));
}

#[test]
fn sync_saves_only_changes() {
    let mut s = ready_session();
    assert_eq!(s.sync(), Op::RebuildTray);
    assert_eq!(s.step(Outcome::Flag(true)), Op::Finish);
    s.refresh(Some(true), false, true);
    assert_eq!(s.sync(), Op::Persist { system_proxy: false, tun: true });
    assert!(s.service_ok);
    s.refresh(None, true, false);
    assert!(s.tun && s.system_proxy);
}

#[test]
fn shutdown_once() {
    let mut s = ready_session();
    s.core_mode = CoreMode::Service;
    assert_eq!(s.shutdown(true), Some(ShutdownPlan { disable_tun: true, stop: CoreStop::ServiceCore }));
    assert_eq!(s.shutdown(true), None);
    assert!(!s.reload_allowed());
    assert!(!s.menu_refresh_allowed(true));
}

#[test]
fn bootstrap_and_reload_decisions() {
    let mut s = Session::new(false, false, false, false, false);
    assert!(s.begin_bootstrap());
    assert!(!s.begin_bootstrap());
    assert_eq!(boot_step(Ok(true)), BootStep::Download);
    assert_eq!(boot_step(Ok(false)), BootStep::Finish);
    assert_eq!(boot_step(Err(())), BootStep::Fail);
    assert_eq!(progress_step(&InstallProgress::Done), ProgressStep::Finish);
    assert_eq!(progress_step(&InstallProgress::Failed("x".to_string())), ProgressStep::Fail);
    assert_eq!(progress_step(&InstallProgress::Extracting), ProgressStep::Continue);
    assert!(!should_reload(Some(5), Some(5)));
    assert!(should_reload(Some(6), Some(5)));
    assert!(should_reload(None, None));
    assert_eq!(s.restart_for_profile(), CoreStop::Sidecar);
    s.profile_applied(Ports { http: 3, socks: 4 });
    assert_eq!(s.profile_ports, Some(Ports { http: 3, socks: 4 }));
}

#[test]
fn whitening_visible_pixels() {
    let mut px = vec![10, 20, 30, 0, 10, 20, 30, 128, 1, 2];
    whiten(&mut px);
    assert_eq!(px, vec![10, 20, 30, 0, 255, 255, 255, 128, 1, 2]);
}

fn png_2x1() -> Vec<u8> {
    let img = image::RgbaImage::from_raw(2, 1, vec![0, 0, 0, 255, 9, 9, 9, 0]).unwrap();
    let mut out = std::io::Cursor::new(Vec::new());
    img.write_to(&mut out, image::ImageFormat::Png).unwrap();
    out.into_inner()
}

#[test]
fn tray_icon_pixels() {
    let png = png_2x1();
    let plain = load_icon(&png, false, false).unwrap();
    assert_eq!((plain.width, plain.height), (2, 1));
    assert_eq!(plain.rgba, vec![0, 0, 0, 255, 9, 9, 9, 0]);
    let white = load_icon(&png, false, true).unwrap();
    assert_eq!(white.rgba, vec![255, 255, 255, 255, 9, 9, 9, 0]);
    let template = load_icon(&png, true, true).unwrap();
    assert_eq!(template.rgba, plain.rgba);
    assert!(load_icon(b"not an image", false, false).is_none());
}

#[test]
fn toggles_never_leave_both_switches_on() {
    // Each toggle, from each starting pair of switches, with every operation answered yes,
    // then no: at no step are TUN and the system proxy both on.
    for (proxy, tun) in [(false, false), (true, false), (false, true)] {
        for action in [Action::ToggleSystemProxy, Action::ToggleTun] {
            for answer in [true, false] {
                let mut s = ready_session();
                s.system_proxy = proxy;
                s.tun = tun;
                s.service_ok = true;
                let mut op = flow(s.handle_action(&action));
                assert!(!(s.system_proxy && s.tun));
                let mut steps = 0;
                while op != Op::Finish {
                    let out = match op {
                        Op::ReadApiPorts => Outcome::Ports(Some(7890), Some(7891)),
                        _ => Outcome::Flag(answer),
                    };
                    op = s.step(out);
                    assert!(!(s.system_proxy && s.tun));
                    steps += 1;
                    assert!(steps < 100);
                }
            }
        }
    }
}
