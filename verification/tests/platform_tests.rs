use std::io::Write;

use mihomo_tray::host::HostOs;
use mihomo_tray::ipc::Request;
use mihomo_tray::platform::appearance::{
    create_appearance, taskbar_is_dark, theme_changed, theme_poll_due, AppearanceBackend,
};
use mihomo_tray::platform::event_loop::EventLoopHost;
use mihomo_tray::platform::layout::{create_path_layout, PathLayout};
use mihomo_tray::platform::mihomo_core::{
    after_chunk, archive_kind, create_core_installer, create_core_runner, extract_core,
    extract_wintun, is_core_file_name, platform_asset_candidates, select_asset, version_flag,
    wintun_entry, ArchiveKind, GithubAsset, GithubRelease, InstallError, InstallProgress,
};
use mihomo_tray::platform::service::{
    create_service, escape_osascript, install_wait, launchd_target, pick_helper, render_plist,
    service_gid, shell_single_quote,
    InstallWait, MacosLaunchDaemonService, PrivilegedService, ServiceBackend, ServiceOp,
    UnsupportedService,
};
use mihomo_tray::platform::system::{
    create_system_proxy, default_route_interface, dns_backup, dns_restore_servers, dns_servers,
    dns_words, elevated_proxy_script, escape_applescript, extract_device, needs_secondary,
    network_services, proxy_commands, service_for_device, BypassPolicy, DefaultBypassPolicy,
    FallbackProxy, MacosBypassPolicy, MacosElevatedBackend, SysproxyBackend, SystemProxyBackend,
    DEFAULT_BYPASS,
};
use mihomo_tray::platform::tun::{create_tun, LinuxTun, MacosTun, TunBackend, TunError, TunMode};

fn st(v: &[char]) -> String {
    v.iter().collect()
}

fn cs(s: &str) -> Vec<char> {
    s.chars().collect()
}

// ------------------------------------------------------------------ system proxy
#[test]
fn bypass_lists() {
    assert_eq!(DefaultBypassPolicy.when_enabled(), DEFAULT_BYPASS);
    assert_eq!(DefaultBypassPolicy.when_disabled(), "");
    assert_eq!(MacosBypassPolicy.when_enabled(), DEFAULT_BYPASS);
    assert_eq!(MacosBypassPolicy.when_disabled(), "Empty");
}

#[test]
fn sysproxy_settings() {
    let b = SysproxyBackend::new(DefaultBypassPolicy);
    let on = b.enable_settings(7897, 7898);
    assert!(on.enable);
    assert_eq!((on.host.as_str(), on.port, on.bypass.as_str()), ("127.0.0.1", 7897, DEFAULT_BYPASS));
    let off = SysproxyBackend::new(MacosBypassPolicy).disable_settings();
    assert!(!off.enable);
    assert_eq!((off.host.as_str(), off.port, off.bypass.as_str()), ("127.0.0.1", 0, "Empty"));
}

#[test]
fn fallback_and_backends() {
    let f = FallbackProxy::new(1u8, 2u8);
    assert_eq!((f.primary, f.secondary), (1, 2));
    assert!(needs_secondary(&Err("denied".to_string())));
    assert!(!needs_secondary(&Ok(())));
    assert!(!MacosElevatedBackend.is_enabled());
    assert!(matches!(create_system_proxy(HostOs::Macos), SystemProxyBackend::MacosFallback(_)));
    assert!(matches!(create_system_proxy(HostOs::Linux), SystemProxyBackend::Sysproxy(_)));
}

/// The elevated script as the macOS backend writes it.
fn reference_script(services: &[&str], enable: bool, http: u16, socks: u16) -> String {
    let mut cmds = Vec::new();
    for svc in services {
        let escaped = svc.replace('"', "\\\"");
        if enable {
            cmds.push(format!("networksetup -setwebproxy \"{escaped}\" 127.0.0.1 {http}"));
            cmds.push(format!("networksetup -setsecurewebproxy \"{escaped}\" 127.0.0.1 {http}"));
            cmds.push(format!("networksetup -setsocksfirewallproxy \"{escaped}\" 127.0.0.1 {socks}"));
            cmds.push(format!("networksetup -setwebproxystate \"{escaped}\" on"));
            cmds.push(format!("networksetup -setsecurewebproxystate \"{escaped}\" on"));
            cmds.push(format!("networksetup -setsocksfirewallproxystate \"{escaped}\" on"));
        } else {
            cmds.push(format!("networksetup -setwebproxystate \"{escaped}\" off"));
            cmds.push(format!("networksetup -setsecurewebproxystate \"{escaped}\" off"));
            cmds.push(format!("networksetup -setsocksfirewallproxystate \"{escaped}\" off"));
        }
    }
    let shell = cmds.join(" && ");
    let escaped = shell.replace('\\', "\\\\").replace('"', "\\\"");
    format!("do shell script \"{escaped}\" with administrator privileges")
}

#[test]
fn elevated_scripts() {
    let services = vec!["Wi-Fi".to_string(), "My \"Net\"".to_string()];
    assert_eq!(
        elevated_proxy_script(&services, true, 7890, 7891),
        reference_script(&["Wi-Fi", "My \"Net\""], true, 7890, 7891)
    );
    assert_eq!(elevated_proxy_script(&services, false, 0, 0), reference_script(&["Wi-Fi", "My \"Net\""], false, 0, 0));
    assert_eq!(proxy_commands(&services, true, 1, 2).len(), 12);
    assert_eq!(
        st(&proxy_commands(&vec!["Wi-Fi".to_string()], false, 0, 0)[0]),
        "networksetup -setwebproxystate \"Wi-Fi\" off"
    );
    assert_eq!(elevated_proxy_script(&vec![], true, 1, 2), "do shell script \"\" with administrator privileges");
    assert_eq!(st(&escape_applescript("a\\b\"c")), "a\\\\b\\\"c");
}

#[test]
fn listed_network_services() {
    let out = "An asterisk (*) denotes that a network service is disabled.\nWi-Fi\n*Bluetooth PAN\n\n  Thunderbolt Bridge  \n";
    assert_eq!(network_services(out), vec!["Wi-Fi", "Thunderbolt Bridge"]);
    assert!(network_services("").is_empty());
}

const ORDER: &str = "An asterisk (*) denotes that a network service is disabled.\n(1) Wi-Fi\n(Hardware Port: Wi-Fi, Device: en0)\n\n(2) Thunderbolt Bridge\n(Hardware Port: Thunderbolt Bridge, Device: bridge0)\n";

#[test]
fn default_route_and_service() {
    let route = "   route to: default\ndestination: default\n  interface: en0\n  flags: <UP>\n";
    assert_eq!(default_route_interface(route), Some("en0".to_string()));
    assert_eq!(default_route_interface("no interface here"), None);
    assert_eq!(service_for_device(ORDER, "en0"), Some("Wi-Fi".to_string()));
    assert_eq!(service_for_device(ORDER, "bridge0"), Some("Thunderbolt Bridge".to_string()));
    assert_eq!(service_for_device(ORDER, "en9"), None);
    assert_eq!(extract_device(&cs("(Hardware Port: Wi-Fi, Device: en0)")).map(|d| st(&d)), Some("en0".to_string()));
    assert_eq!(extract_device(&cs("(1) Wi-Fi")), None);
}

#[test]
fn dns_backup_and_restore() {
    let words = dns_words("1.1.1.1\n8.8.8.8\n");
    assert_eq!(words, vec!["1.1.1.1", "8.8.8.8"]);
    let none = dns_words("There aren't any DNS Servers set on Wi-Fi.");
    let flags = vec![false; none.len()];
    assert!(dns_servers(&none, &flags).is_empty());
    assert_eq!(dns_servers(&words, &vec![true, false]), vec!["1.1.1.1"]);
    assert_eq!(dns_backup(&vec![]), "empty");
    assert_eq!(dns_backup(&words), "1.1.1.1 8.8.8.8");
    assert_eq!(dns_restore_servers("  empty \n"), vec!["empty"]);
    assert_eq!(dns_restore_servers(""), vec!["empty"]);
    assert_eq!(dns_restore_servers("1.1.1.1 8.8.8.8\n"), vec!["1.1.1.1", "8.8.8.8"]);
}

#[test]
fn dns_backup_round_trip() {
    let output = "1.1.1.1\nnot-an-ip\n2606:4700::1111\n";
    let words = dns_words(output);
    let kept = dns_servers(&words, &vec![true, false, true]);
    assert_eq!(kept, vec!["1.1.1.1", "2606:4700::1111"]);
    assert_eq!(dns_restore_servers(&dns_backup(&kept)), kept);
    let empty: Vec<String> = vec![];
    assert_eq!(dns_restore_servers(&dns_backup(&empty)), vec!["empty"]);
}

// ------------------------------------------------------------------ core install
#[test]
fn asset_candidates() {
    assert_eq!(
        platform_asset_candidates("1.19.2", "linux", "x86_64"),
        vec![
            "mihomo-linux-amd64-v1.19.2.gz",
            "mihomo-linux-amd64-1.19.2.gz",
            "mihomo-linux-amd64-compatible-v1.19.2.gz",
            "mihomo-linux-amd64-compatible-1.19.2.gz",
            "mihomo-linux-amd64-v1-v1.19.2.gz",
            "mihomo-linux-amd64-v1-1.19.2.gz",
        ]
    );
    assert_eq!(
        platform_asset_candidates("vv1.0", "windows", "aarch64"),
        vec!["mihomo-windows-arm64-v1.0.zip", "mihomo-windows-arm64-vv1.0.zip"]
    );
    assert_eq!(
        platform_asset_candidates("v1.0", "macos", "aarch64"),
        vec!["mihomo-darwin-arm64-v1.0.gz", "mihomo-darwin-arm64-v1.0.gz"]
    );
    assert_eq!(platform_asset_candidates("v1.0", "freebsd", "x86_64"), vec!["unsupported-freebsd-x86_64"]);
    assert_eq!(platform_asset_candidates("v1.0", "linux", "riscv64"), vec!["unsupported-linux-riscv64"]);
}

fn asset(name: &str) -> GithubAsset {
    GithubAsset { name: name.to_string(), browser_download_url: format!("https://example.invalid/{name}") }
}

#[test]
fn asset_selection_prefers_candidate_order() {
    let release = GithubRelease {
        tag_name: "v1".to_string(),
        assets: vec![
            asset("mihomo-linux-amd64-compatible-v1.gz"),
            asset("mihomo-linux-amd64-v1.gz"),
            asset("mihomo-linux-amd64-v1.gz"),
        ],
    };
    let cands = platform_asset_candidates(&release.tag_name, "linux", "x86_64");
    assert_eq!(select_asset(&cands, &release), Some(1));
    let none = GithubRelease { tag_name: "v1".to_string(), assets: vec![asset("checksums.txt")] };
    assert_eq!(select_asset(&cands, &none), None);
}

#[test]
fn archive_kinds() {
    assert_eq!(archive_kind("mihomo-linux-amd64-v1.gz"), ArchiveKind::Gzip);
    assert_eq!(archive_kind("mihomo.tar.gz"), ArchiveKind::Unsupported);
    assert_eq!(archive_kind("mihomo-windows-amd64-v1.zip"), ArchiveKind::Zip);
    assert_eq!(archive_kind("mihomo.deb"), ArchiveKind::Unsupported);
}

fn gzip(data: &[u8]) -> Vec<u8> {
    let mut enc = flate2::write::GzEncoder::new(Vec::new(), flate2::Compression::default());
    enc.write_all(data).unwrap();
    enc.finish().unwrap()
}

fn zip_of(entries: &[(&str, &[u8])]) -> Vec<u8> {
    let mut w = zip::ZipWriter::new(std::io::Cursor::new(Vec::new()));
    for (name, data) in entries {
        w.start_file(name.to_string(), zip::write::SimpleFileOptions::default()).unwrap();
        w.write_all(data).unwrap();
    }
    w.finish().unwrap().into_inner()
}

#[test]
fn unpacking_the_core() {
    assert_eq!(extract_core("mihomo-linux-amd64-v1.gz", &gzip(b"ELF core")), Ok(b"ELF core".to_vec()));
    assert_eq!(extract_core("mihomo-linux-amd64-v1.gz", b"not gzip"), Err(InstallError::Decompress));
    let archive = zip_of(&[("README.md", b"read me"), ("bin/mihomo-windows-amd64.exe", b"MZ core")]);
    assert_eq!(extract_core("mihomo-windows-amd64-v1.zip", &archive), Ok(b"MZ core".to_vec()));
    let no_core = zip_of(&[("README.md", b"read me")]);
    assert_eq!(extract_core("x.zip", &no_core), Err(InstallError::NoCoreInZip));
    assert_eq!(extract_core("x.zip", b"not a zip"), Err(InstallError::OpenZip));
    assert_eq!(extract_core("x.deb", b"whatever"), Err(InstallError::UnsupportedFormat));
    assert!(is_core_file_name("mihomo.exe"));
    assert!(!is_core_file_name("README.md"));
    assert_eq!(InstallError::NoCoreInZip.message(), "zip did not contain mihomo binary");
}

#[test]
fn unpacking_wintun() {
    assert_eq!(wintun_entry("aarch64"), "wintun/bin/arm64/wintun.dll");
    assert_eq!(wintun_entry("x86_64"), "wintun/bin/amd64/wintun.dll");
    let archive = zip_of(&[
        ("wintun/bin/amd64/wintun.dll", b"amd64 dll"),
        ("wintun/bin/arm64/wintun.dll", b"arm64 dll"),
    ]);
    assert_eq!(extract_wintun(&archive, "aarch64"), Some(b"arm64 dll".to_vec()));
    assert_eq!(extract_wintun(&archive, "x86_64"), Some(b"amd64 dll".to_vec()));
    assert_eq!(extract_wintun(&zip_of(&[("other.txt", b"x")]), "x86_64"), None);
    assert_eq!(extract_wintun(b"not a zip", "x86_64"), None);
}

#[test]
fn download_progress_and_checks() {
    let (n, p) = after_chunk(10, 5, Some(100));
    assert_eq!(n, 15);
    assert!(matches!(p, InstallProgress::Downloading { downloaded: 15, total: Some(100) }));
    assert_eq!(version_flag(0), Some("-v"));
    assert_eq!(version_flag(1), Some("--version"));
    assert_eq!(version_flag(2), None);
    let inst = create_core_installer("/c".to_string(), HostOs::Linux);
    assert_eq!(inst.core_path(), "/c/bin/mihomo");
    assert!(!inst.needs_install(true, true));
    assert!(inst.needs_install(true, false));
    assert!(inst.needs_install(false, true));
}

#[test]
fn sidecar_runner() {
    let r = create_core_runner("/c".to_string(), HostOs::Linux);
    assert_eq!(r.safe_paths_separator(), ":");
    assert_eq!(r.safe_paths("/c/p/a.yaml"), "/c:/c/p");
    assert_eq!(r.args("/c/a.yaml"), vec!["-d", "/c", "-f", "/c/a.yaml", "-ext-ctl-unix", "/tmp/mihomo-tray/mihomo.sock"]);
    let w = create_core_runner("C:\\data".to_string(), HostOs::Windows);
    assert_eq!(w.safe_paths_separator(), ";");
}

// ------------------------------------------------------------------ TUN and service
#[test]
fn tun_backends() {
    let linux = LinuxTun;
    assert!(!linux.requires_privileged_core());
    assert!(linux.enable_check(false).is_ok());
    assert_eq!(
        linux.prepare_command("/c/bin/mihomo"),
        Some(vec![
            "pkexec".to_string(),
            "setcap".to_string(),
            "cap_net_admin,cap_net_bind_service=+ep".to_string(),
            "/c/bin/mihomo".to_string()
        ])
    );
    let mac = MacosTun::new(ServiceBackend::Macos(MacosLaunchDaemonService));
    assert!(mac.requires_privileged_core());
    assert_eq!(mac.enable_check(false), Err(TunError::ServiceUnavailable));
    assert!(mac.enable_check(true).is_ok());
    assert_eq!(mac.prepare_command("/c/bin/mihomo"), None);
    assert!(matches!(create_tun(HostOs::Macos, create_service(HostOs::Macos)), TunBackend::Macos(_)));
    assert!(matches!(create_tun(HostOs::Linux, create_service(HostOs::Linux)), TunBackend::Linux(_)));
    assert!(matches!(create_tun(HostOs::Windows, create_service(HostOs::Windows)), TunBackend::Fallback(_)));
    assert_eq!(TunError::ServiceUnavailable.message(), "privileged service is not available; install it first");
}

fn reference_quote(s: &str) -> String {
    format!("'{}'", s.replace('\'', "'\"'\"'"))
}

fn reference_escape(s: &str) -> String {
    s.replace('\\', "\\\\").replace('"', "\\\"")
}

#[test]
fn service_scripts() {
    assert_eq!(st(&shell_single_quote("it's")), "'it'\"'\"'s'");
    assert_eq!(st(&escape_osascript("a\\\"")), "a\\\\\\\"");
    let svc = MacosLaunchDaemonService;
    let path = "/Applications/Mihomo's Tray.app/Contents/MacOS/mihomo-tray-service-install";
    let prompt = "Install the \"helper\"";
    let shell = format!("sudo MIHOMO_TRAY_SERVICE_GID=20 {}", reference_quote(path));
    assert_eq!(
        svc.install_script(path, 20, prompt),
        format!(
            "do shell script \"{}\" with administrator privileges with prompt \"{}\"",
            reference_escape(&shell),
            reference_escape(prompt)
        )
    );
    let shell = format!("sudo {}", reference_quote("/x/uninstall"));
    assert_eq!(
        svc.uninstall_script("/x/uninstall", "Remove"),
        format!("do shell script \"{}\" with administrator privileges with prompt \"Remove\"", reference_escape(&shell))
    );
}

#[test]
fn service_requests_and_polling() {
    match MacosLaunchDaemonService.start_core_request("/c/bin/mihomo", "/c", "/c/p/a.yaml") {
        Request::Start { core_path, config_dir, profile_path, safe_paths, .. } => {
            assert_eq!(
                (core_path.as_str(), config_dir.as_str(), profile_path.as_str(), safe_paths.as_str()),
                ("/c/bin/mihomo", "/c", "/c/p/a.yaml", "/c:/c/p")
            );
        }
        other => panic!("unexpected {other:?}"),
    }
    assert_eq!(install_wait(0, true), InstallWait::Ready);
    assert_eq!(install_wait(0, false), InstallWait::Retry);
    assert_eq!(install_wait(38, false), InstallWait::Retry);
    assert_eq!(install_wait(39, false), InstallWait::GiveUp);
    assert_eq!(pick_helper(&vec![false, true, true]), Some(1));
    assert_eq!(pick_helper(&vec![false, false]), None);
    assert!(create_service(HostOs::Macos).supported());
    assert!(!create_service(HostOs::Linux).supported());
    assert!(!UnsupportedService.supported());
    assert_eq!(
        UnsupportedService.refusal(ServiceOp::Install),
        "privileged service install is not supported on this platform"
    );
    assert_eq!(UnsupportedService.refusal(ServiceOp::StopCore), "privileged service is not supported on this platform");
}

// ------------------------------------------------------------------ appearance, event loop, layout
#[test]
fn taskbar_theme() {
    assert!(taskbar_is_dark(true, Some(0), Some(1)));
    assert!(!taskbar_is_dark(true, Some(1), Some(0)));
    assert!(taskbar_is_dark(true, None, Some(0)));
    assert!(!taskbar_is_dark(true, None, None));
    assert!(!taskbar_is_dark(false, Some(0), Some(0)));
}

#[test]
fn appearances() {
    let mac = create_appearance(HostOs::Macos);
    assert!(mac.uses_template_icon());
    assert_eq!(mac.theme_poll_interval_ms(), None);
    assert!(!mac.tray_background_is_dark(true));
    let win = create_appearance(HostOs::Windows);
    assert!(matches!(win, AppearanceBackend::Windows(_)));
    assert_eq!(win.theme_poll_interval_ms(), Some(5000));
    assert!(win.tray_background_is_dark(true));
    assert!(!win.tray_background_is_dark(false));
    assert!(matches!(create_appearance(HostOs::OtherUnix), AppearanceBackend::Linux(_)));
    assert!(theme_poll_due(10, None));
    assert!(!theme_poll_due(10, Some(20)));
    assert!(theme_poll_due(20, Some(20)));
    assert!(theme_changed(true, false));
    assert!(!theme_changed(true, true));
}

#[test]
fn event_loop_and_layout() {
    assert!(EventLoopHost::for_host(HostOs::Macos).is_menu_bar_agent());
    assert!(!EventLoopHost::for_host(HostOs::Linux).is_menu_bar_agent());
    let layout = create_path_layout("/d".to_string(), HostOs::Linux);
    assert_eq!(layout.config_dir(), "/d/mihomo-tray");
    assert_eq!(layout.bin_dir(), "/d/mihomo-tray/bin");
    assert_eq!(layout.core_binary_path(), "/d/mihomo-tray/bin/mihomo");
    assert_eq!(layout.profile_display_name("/d/mihomo-tray/a.yaml"), "a.yaml");
}

#[test]
fn installer_helper_values() {
    assert_eq!(service_gid(Some("20".to_string())), 20);
    assert_eq!(service_gid(Some("+5".to_string())), 5);
    assert_eq!(service_gid(Some("staff".to_string())), 0);
    assert_eq!(service_gid(Some("4294967296".to_string())), 0);
    assert_eq!(service_gid(None), 0);
    assert_eq!(launchd_target("com.mihomotray.service"), "system/com.mihomotray.service");
    assert_eq!(
        render_plist("<key>{{label}}</key><string>{{bin}}</string>{{label}}", "/opt/h"),
        "<key>com.mihomotray.service</key><string>/opt/h</string>com.mihomotray.service"
    );
}
