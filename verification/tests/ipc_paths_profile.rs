use mihomo_tray::host::HostOs;
use mihomo_tray::ipc::{
    command_response, core_args, core_controller_args, core_ipc_path, core_running,
    ensure_magic, helper_bin_path, ipc_path, is_core_running, is_reachable, service_command,
    sock_path, start_core, stop_core, wait_socket_step, CorePoll, IpcError, Request, Response,
    ServiceCommand, SocketWait, IPC_MAGIC, SOCKET_WAIT_ATTEMPTS,
};
use mihomo_tray::order::{lex_less, sort_by_key};
use mihomo_tray::paths::{
    active_marker_path, bin_dir, config_dir, core_binary_path, is_profile_file, is_yaml_extension,
    list_profiles,
    marker_candidate, marker_content, profile_display_name, resolve_active_profile,
    DirEntryInfo, PathsError,
};
use mihomo_tray::profile::{
    import_profile_name, needs_default_profile, nonzero_port, pick_port, same_profile,
    ImportError, ProfileMeta, DEFAULT_PORT,
};
use mihomo_tray::settings::{settings_path, LoadOutcome, Settings};

fn cs(s: &str) -> Vec<char> {
    s.chars().collect()
}

#[test]
fn request_constructors_carry_the_magic() {
    for req in [Request::ping(), Request::stop(), Request::status(), Request::start("a", "b", "c", "d")] {
        assert_eq!(req.magic(), IPC_MAGIC);
        assert!(ensure_magic(req.magic()).is_ok());
    }
    assert!(matches!(ensure_magic("mihomo-tray-ipc-v0"), Err(IpcError::InvalidMagic)));
}

#[test]
fn service_command_checks_magic_and_keeps_fields() {
    match service_command(Request::start("/bin/mihomo", "/cfg", "/cfg/a.yaml", "/cfg:/cfg")) {
        Ok(ServiceCommand::Start { core_path, config_dir, profile_path, safe_paths }) => {
            assert_eq!(core_path, "/bin/mihomo");
            assert_eq!(config_dir, "/cfg");
            assert_eq!(profile_path, "/cfg/a.yaml");
            assert_eq!(safe_paths, "/cfg:/cfg");
        }
        other => panic!("unexpected {other:?}"),
    }
    assert!(matches!(service_command(Request::ping()), Ok(ServiceCommand::Ping)));
    let forged = Request::Status { magic: "nope".to_string() };
    assert!(matches!(service_command(forged), Err(IpcError::InvalidMagic)));
}

#[test]
fn ipc_error_messages() {
    for bad in ["", "MIHOMO-TRAY-IPC-V1", "mihomo-tray-ipc-v2"] {
        match ensure_magic(bad) {
            Err(e) => assert_eq!(e.message(), "invalid IPC magic"),
            Ok(()) => panic!("accepted {bad:?}"),
        }
    }
    assert!(ensure_magic("mihomo-tray-ipc-v1").is_ok());
    match service_command(Request::Ping { magic: "x".to_string() }) {
        Err(e) => assert_eq!(e.message(), "invalid IPC magic"),
        Ok(_) => panic!("accepted a forged request"),
    }
    assert_eq!(IpcError::Unsupported.message(), "service IPC is not supported on this platform");
    assert_eq!(IpcError::Transport("connect refused".to_string()).message(), "connect refused");
    assert_eq!(IpcError::Service("start failed".to_string()).message(), "start failed");
}

#[test]
fn responses() {
    let ok = Response::ok();
    assert!(ok.ok && ok.error.is_none() && ok.running.is_none());
    let err = Response::err("boom");
    assert!(!err.ok);
    assert_eq!(err.error.as_deref(), Some("boom"));
    assert_eq!(Response::status(true).running, Some(true));
    assert!(command_response(Ok(())).ok);
    let failed = command_response(Err("core binary missing: x".to_string()));
    assert_eq!(failed.error.as_deref(), Some("core binary missing: x"));
}

#[test]
fn client_outcomes() {
    assert!(is_reachable(&Ok(Response::ok())));
    assert!(!is_reachable(&Ok(Response::err("x"))));
    assert!(!is_reachable(&Err(IpcError::Transport("refused".to_string()))));
    assert!(start_core(Ok(Response::ok())).is_ok());
    let no_text = Response { ok: false, error: None, running: None };
    assert!(matches!(start_core(Ok(no_text.clone())), Err(IpcError::Service(m)) if m == "start failed"));
    assert!(matches!(stop_core(Ok(no_text.clone())), Err(IpcError::Service(m)) if m == "stop failed"));
    assert!(matches!(stop_core(Ok(Response::err("busy"))), Err(IpcError::Service(m)) if m == "busy"));
    assert!(matches!(core_running(Ok(Response::status(true))), Ok(true)));
    assert!(matches!(core_running(Ok(Response::ok())), Ok(false)));
    assert!(matches!(core_running(Ok(no_text)), Err(IpcError::Service(m)) if m == "status failed"));
    assert!(matches!(core_running(Err(IpcError::Unsupported)), Err(IpcError::Unsupported)));
}

#[test]
fn helper_paths() {
    assert_eq!(sock_path(), "/tmp/mihomo-tray/service.sock");
    assert_eq!(helper_bin_path(), "/Library/PrivilegedHelperTools/com.mihomotray.service/mihomo-tray-service");
    assert_eq!(ipc_path(HostOs::Linux), "/tmp/mihomo-tray/mihomo.sock");
    assert_eq!(core_ipc_path(HostOs::Windows), "\\\\.\\pipe\\mihomo-tray-core");
    assert_eq!(core_controller_args(HostOs::Macos), vec!["-ext-ctl-unix", "/tmp/mihomo-tray/mihomo.sock"]);
    assert_eq!(core_controller_args(HostOs::Windows), vec!["-ext-ctl-pipe", "\\\\.\\pipe\\mihomo-tray-core"]);
    assert_eq!(
        core_args("/cfg", "/cfg/a.yaml", HostOs::Linux),
        vec!["-d", "/cfg", "-f", "/cfg/a.yaml", "-ext-ctl-unix", "/tmp/mihomo-tray/mihomo.sock"]
    );
}

#[test]
fn helper_core_polling() {
    assert_eq!(is_core_running(CorePoll::Running), (true, false));
    assert_eq!(is_core_running(CorePoll::Exited), (false, true));
    assert_eq!(is_core_running(CorePoll::PollFailed), (false, true));
    assert_eq!(is_core_running(CorePoll::NoProcess), (false, false));
    assert_eq!(wait_socket_step(CorePoll::Running, true, 0), SocketWait::Ready);
    assert_eq!(wait_socket_step(CorePoll::Running, false, 0), SocketWait::Retry);
    assert_eq!(wait_socket_step(CorePoll::Running, false, SOCKET_WAIT_ATTEMPTS - 1), SocketWait::TimedOut);
    assert_eq!(wait_socket_step(CorePoll::Exited, true, 3), SocketWait::CoreExited);
    assert_eq!(wait_socket_step(CorePoll::PollFailed, false, 3), SocketWait::PollFailed);
    assert_eq!(wait_socket_step(CorePoll::NoProcess, false, 3), SocketWait::NoProcess);
}

#[test]
fn lexicographic_order_and_sorting() {
    assert!(lex_less(&cs("a.yaml"), &cs("b.yaml")));
    assert!(lex_less(&cs("a"), &cs("ab")));
    assert!(!lex_less(&cs("b"), &cs("b")));
    let sorted = sort_by_key(vec!["c.yaml".to_string(), "a.yml".to_string(), "b.yaml".to_string(), "a.yml".to_string()]);
    assert_eq!(sorted, vec!["a.yml", "a.yml", "b.yaml", "c.yaml"]);
}

#[test]
fn data_layout() {
    let dir = config_dir("/home/u/.local/share");
    assert_eq!(dir, "/home/u/.local/share/mihomo-tray");
    assert_eq!(bin_dir(&dir), "/home/u/.local/share/mihomo-tray/bin");
    assert_eq!(core_binary_path(&dir, HostOs::Linux), "/home/u/.local/share/mihomo-tray/bin/mihomo");
    assert_eq!(core_binary_path(&dir, HostOs::Windows), "/home/u/.local/share/mihomo-tray/bin/mihomo.exe");
    assert_eq!(active_marker_path(&dir), "/home/u/.local/share/mihomo-tray/.active");
    assert_eq!(settings_path(&dir), "/home/u/.local/share/mihomo-tray/settings.json");
}

#[test]
fn profiles_are_yaml_files_sorted() {
    assert!(is_yaml_extension("YmL"));
    assert!(!is_yaml_extension("json"));
    assert!(is_profile_file("/c/a.YAML"));
    assert!(is_profile_file("/c/b.yml"));
    assert!(!is_profile_file("/c/settings.json"));
    assert!(!is_profile_file("/c/yaml"));
    let entries = vec![
        DirEntryInfo { path: "/c/z.yaml".to_string(), is_file: true },
        DirEntryInfo { path: "/c/dir.yaml".to_string(), is_file: false },
        DirEntryInfo { path: "/c/settings.json".to_string(), is_file: true },
        DirEntryInfo { path: "/c/a.yml".to_string(), is_file: true },
    ];
    assert_eq!(list_profiles(entries), vec!["/c/a.yml", "/c/z.yaml"]);
    assert_eq!(profile_display_name("/c/a.yml"), "a.yml");
    assert_eq!(profile_display_name("/"), "/");
}

#[test]
fn active_marker() {
    assert_eq!(marker_content("/c/work.yaml"), Ok("work.yaml".to_string()));
    assert_eq!(marker_content("/"), Err(PathsError::NoFileName));
    assert_eq!(marker_candidate("/c", "  work.yaml\n"), Some("/c/work.yaml".to_string()));
    assert_eq!(marker_candidate("/c", " \n"), None);
}

#[test]
fn active_profile_choice() {
    let profiles = vec!["/c/a.yaml".to_string(), "/c/b.yaml".to_string()];
    let named = resolve_active_profile(Some("/c/b.yaml".to_string()), "/c/config.yaml", true, &profiles).unwrap();
    assert_eq!((named.path.as_str(), named.write_marker), ("/c/b.yaml", false));
    let default = resolve_active_profile(None, "/c/config.yaml", true, &profiles).unwrap();
    assert_eq!((default.path.as_str(), default.write_marker), ("/c/config.yaml", true));
    let first = resolve_active_profile(None, "/c/config.yaml", false, &profiles).unwrap();
    assert_eq!((first.path.as_str(), first.write_marker), ("/c/a.yaml", true));
    assert!(matches!(resolve_active_profile(None, "/c/config.yaml", false, &vec![]), Err(PathsError::NoProfile)));
}

fn meta(mixed: Option<u16>, port: Option<u16>, socks: Option<u16>, secret: Option<&str>) -> ProfileMeta {
    ProfileMeta {
        mixed_port: mixed,
        port,
        socks_port: socks,
        external_controller: None,
        secret: secret.map(String::from),
    }
}

#[test]
fn profile_ports_skip_disabled_listeners() {
    assert_eq!(nonzero_port(Some(0)), None);
    assert_eq!(nonzero_port(Some(80)), Some(80));
    assert_eq!(pick_port(Some(0), Some(8080)), 8080);
    assert_eq!(pick_port(None, None), DEFAULT_PORT);
    let m = meta(Some(7897), Some(7891), Some(0), None);
    assert_eq!(m.http_port(), 7897);
    assert_eq!(m.socks_port(), 7897);
    let m = meta(Some(0), Some(7891), Some(7892), None);
    assert_eq!(m.http_port(), 7891);
    assert_eq!(m.socks_port(), 7892);
    let m = meta(None, None, None, None);
    assert_eq!((m.http_port(), m.socks_port()), (7890, 7890));
}

#[test]
fn profile_secret_is_trimmed() {
    assert_eq!(meta(None, None, None, Some("  abc \n")).secret(), Some("abc".to_string()));
    assert_eq!(meta(None, None, None, Some("   ")).secret(), None);
    assert_eq!(meta(None, None, None, None).secret(), None);
}

#[test]
fn importing_profiles() {
    assert!(needs_default_profile(&vec![]));
    assert!(!needs_default_profile(&vec!["/c/a.yaml".to_string()]));
    assert_eq!(import_profile_name("/tmp/x.yaml", true), Ok("x.yaml".to_string()));
    assert_eq!(import_profile_name("/tmp/x.yaml", false), Err(ImportError::NotAFile));
    assert_eq!(import_profile_name("/tmp/x.txt", true), Err(ImportError::NotYaml));
}

#[test]
fn watched_file_is_the_active_profile() {
    assert!(same_profile("/c/a.yaml", "/c/a.yaml", &None));
    assert!(same_profile("/c//a.yaml", "/c/a.yaml", &None));
    assert!(!same_profile("/c/b.yaml", "/c/a.yaml", &None));
    assert!(same_profile("/l/a.yaml", "/c/a.yaml", &Some(("/real/a.yaml".to_string(), "/real/a.yaml".to_string()))));
    assert!(!same_profile("/l/a.yaml", "/c/a.yaml", &Some(("/real/a.yaml".to_string(), "/real/b.yaml".to_string()))));
}

#[test]
fn settings_loading_and_setters() {
    let (s, write) = Settings::load_or_init(LoadOutcome::Missing, "en".to_string());
    assert!(write);
    assert_eq!((s.locale(), s.system_proxy(), s.tun()), ("en", false, false));
    let (_, write) = Settings::load_or_init(LoadOutcome::Unreadable, "zh-CN".to_string());
    assert!(write);
    let loaded = Settings::from_parts("zh-CN".to_string(), true, false);
    let (mut s, write) = Settings::load_or_init(LoadOutcome::Loaded(loaded), "en".to_string());
    assert!(!write);
    assert_eq!((s.locale(), s.system_proxy(), s.tun()), ("zh-CN", true, false));
    s.set_switches(false, true);
    assert_eq!((s.system_proxy(), s.tun()), (false, true));
    s.set_locale("en".to_string());
    assert_eq!(s.locale(), "en");
    s.set_system_proxy(true);
    s.set_tun(false);
    assert_eq!((s.system_proxy(), s.tun()), (true, false));
    let env = Settings::from_environment("zh-CN".to_string());
    assert_eq!((env.locale(), env.system_proxy(), env.tun()), ("zh-CN", false, false));
}

#[test]
fn settings_locale_is_always_one_of_the_two() {
    assert_eq!(Settings::from_parts("fr".to_string(), false, false).locale(), "en");
    assert_eq!(Settings::from_parts("zh_TW.UTF-8".to_string(), false, true).locale(), "zh-CN");
    let (s, write) = Settings::load_or_init(
        LoadOutcome::Loaded(Settings::from_parts("fr".to_string(), true, false)),
        "zh-CN".to_string(),
    );
    assert!(!write);
    assert_eq!((s.locale(), s.system_proxy(), s.tun()), ("en", true, false));
    let (s, write) = Settings::load_or_init(LoadOutcome::Missing, "zh_CN".to_string());
    assert!(write);
    assert_eq!(s.locale(), "zh-CN");
    let mut s = Settings::from_environment("de_DE".to_string());
    assert_eq!(s.locale(), "en");
    s.set_locale("fr".to_string());
    assert_eq!(s.locale(), "en");
    s.set_locale("zh".to_string());
    assert_eq!(s.locale(), "zh-CN");
    let c = s.clone();
    assert_eq!((c.locale(), c.system_proxy(), c.tun()), ("zh-CN", false, false));
}
