use mihomo_tray::api::{
    configs_call, fill_proxy_names, group_delay_call, latest_delay, patch_configs_call,
    proxies_call, reload_config_call, reply_payload, select_proxy_call, set_tun_call, urlencoding,
    version_call, wait_ready_step, ApiClient, ApiError, DelayHistory, ProxiesResponse, ProxyInfo,
    ReadyStep, RuntimeConfig, TunConfig, DEFAULT_TIMEOUT_MS, GROUP_DELAY_TIMEOUT_MS,
};
use mihomo_tray::host::HostOs;
use mihomo_tray::http::{HttpError, ResponseProgress};
use mihomo_tray::i18n::{detect_locale, is_zh, normalize};
use mihomo_tray::profile::ProfileMeta;
use mihomo_tray::tray::{
    build_menu, format_group_tooltip, Action, Label, LineKind, MenuCounter, MenuIds, TrayState,
};

fn proxy(name: &str, kind: &str, now: Option<&str>, all: &[&str], history: &[u16]) -> ProxyInfo {
    ProxyInfo {
        name: name.to_string(),
        proxy_type: kind.to_string(),
        now: now.map(String::from),
        all: if all.is_empty() { None } else { Some(all.iter().map(|s| s.to_string()).collect()) },
        history: if history.is_empty() {
            None
        } else {
            Some(history.iter().map(|d| DelayHistory { delay: *d }).collect())
        },
        alive: None,
        hidden: None,
    }
}

#[test]
fn client_from_profile() {
    let meta = ProfileMeta {
        mixed_port: None,
        port: None,
        socks_port: None,
        external_controller: None,
        secret: Some(" s3cret ".to_string()),
    };
    let c = ApiClient::from_profile(&meta, HostOs::Linux);
    assert_eq!(c.socket, "/tmp/mihomo-tray/mihomo.sock");
    assert_eq!(c.secret.as_deref(), Some("s3cret"));
    assert_eq!(c.timeout_ms, DEFAULT_TIMEOUT_MS);
    let c = c.with_timeout(1000);
    assert_eq!(c.timeout_ms, 1000);
    assert_eq!(
        c.request_text(&version_call()),
        "GET /version HTTP/1.1\r\nHost: localhost\r\nContent-Type: application/json\r\nContent-Length: 0\r\nAuthorization: Bearer s3cret\r\n\r\n"
    );
}

#[test]
fn api_calls() {
    assert_eq!((proxies_call().method, proxies_call().path.as_str()), ("GET", "/proxies"));
    assert_eq!((configs_call().method, configs_call().path.as_str()), ("GET", "/configs"));
    let sel = select_proxy_call("🚀 Proxy", "HK \"1\"");
    assert_eq!(sel.method, "PUT");
    assert_eq!(sel.path, "/proxies/%F0%9F%9A%80%20Proxy");
    assert_eq!(sel.body.as_deref(), Some("{\"name\":\"HK \\\"1\\\"\"}"));
    let ctl = select_proxy_call("G", "a\u{1}b\\c\n\t");
    assert_eq!(ctl.body.as_deref(), Some("{\"name\":\"a\\u0001b\\\\c\\n\\t\"}"));
    let ctl = select_proxy_call("G", "\u{1f}\u{8}\u{c}\r");
    assert_eq!(ctl.body.as_deref(), Some("{\"name\":\"\\u001f\\b\\f\\r\"}"));
    let delay = group_delay_call("G 1");
    assert_eq!(
        delay.path,
        "/group/G%201/delay?url=https%3A%2F%2Fwww.gstatic.com%2Fgenerate_204&timeout=5000"
    );
    assert_eq!(delay.timeout_ms, Some(GROUP_DELAY_TIMEOUT_MS));
    let reload = reload_config_call("/c/a.yaml");
    assert_eq!((reload.method, reload.path.as_str()), ("PUT", "/configs?force=true"));
    assert_eq!(reload.body.as_deref(), Some("{\"path\":\"/c/a.yaml\",\"payload\":\"\"}"));
    let on = set_tun_call(true);
    assert_eq!((on.method, on.path.as_str()), ("PATCH", "/configs"));
    assert_eq!(
        on.body.as_deref(),
        Some("{\"tun\":{\"auto-detect-interface\":true,\"auto-route\":true,\"dns-hijack\":[\"any:53\"],\"enable\":true,\"stack\":\"mixed\"}}")
    );
    assert_eq!(set_tun_call(false).body.as_deref(), Some("{\"tun\":{\"enable\":false}}"));
    assert_eq!(patch_configs_call("{}".to_string()).body.as_deref(), Some("{}"));
}

#[test]
fn reload_body_quotes_the_path_as_json() {
    let reload = reload_config_call("/c/a\"b\\c\n.yaml");
    assert_eq!(reload.body.as_deref(), Some("{\"path\":\"/c/a\\\"b\\\\c\\n.yaml\",\"payload\":\"\"}"));
}

#[test]
fn url_encoding() {
    assert_eq!(urlencoding("a b/é~-_."), "a%20b%2F%C3%A9~-_.");
    assert_eq!(urlencoding(""), "");
}

#[test]
fn reply_payloads() {
    let ok = reply_payload(ResponseProgress::Complete { status: 204, body: b"x".to_vec() });
    assert_eq!(ok.unwrap(), b"x".to_vec());
    match reply_payload(ResponseProgress::Complete { status: 401, body: b"no".to_vec() }) {
        Err(ApiError::Status { status, body }) => assert_eq!((status, body), (401, b"no".to_vec())),
        other => panic!("unexpected {other:?}"),
    }
    assert!(matches!(
        reply_payload(ResponseProgress::Failed(HttpError::InvalidStatusCode)),
        Err(ApiError::Http(HttpError::InvalidStatusCode))
    ));
    assert!(matches!(
        reply_payload(ResponseProgress::NeedMore),
        Err(ApiError::Http(HttpError::UnexpectedEofInHeaders))
    ));
}

#[test]
fn waiting_for_the_api() {
    assert_eq!(wait_ready_step(true, 40, 40), ReadyStep::Ready);
    assert_eq!(wait_ready_step(false, 1, 40), ReadyStep::Retry);
    assert_eq!(wait_ready_step(false, 40, 40), ReadyStep::GiveUp);
}

#[test]
fn runtime_ports_and_tun() {
    let cfg = RuntimeConfig { mixed_port: Some(0), port: Some(7891), socks_port: None, tun: None };
    assert_eq!(ApiClient::http_port(&cfg), 7891);
    assert_eq!(ApiClient::socks_port(&cfg), 7890);
    assert!(!ApiClient::tun_enabled(&cfg));
    let tun = TunConfig { enable: Some(true), stack: None, auto_route: None, auto_detect_interface: None, dns_hijack: None };
    let cfg = RuntimeConfig { mixed_port: Some(7897), port: None, socks_port: None, tun: Some(tun) };
    assert_eq!(ApiClient::socks_port(&cfg), 7897);
    assert!(ApiClient::tun_enabled(&cfg));
}

#[test]
fn delays_and_names() {
    assert_eq!(latest_delay(&proxy("a", "Shadowsocks", None, &[], &[10, 20])), Some(20));
    assert_eq!(latest_delay(&proxy("a", "Shadowsocks", None, &[], &[])), None);
    let resp = ProxiesResponse { proxies: vec![("key".to_string(), proxy("", "Selector", None, &[], &[]))] };
    assert_eq!(fill_proxy_names(resp).proxies[0].1.name, "key");
}

#[test]
fn groups_shown_in_the_menu() {
    let mut hidden = proxy("Auto", "URLTest", None, &[], &[]);
    hidden.hidden = Some(true);
    let resp = ProxiesResponse {
        proxies: vec![
            ("GLOBAL".to_string(), proxy("GLOBAL", "Selector", None, &[], &[])),
            ("Auto".to_string(), hidden),
            ("b".to_string(), proxy("", "Selector", None, &[], &[])),
            ("A".to_string(), proxy("A", "fallback", None, &[], &[])),
            ("DIRECT".to_string(), proxy("DIRECT", "Direct", None, &[], &[])),
        ],
    };
    let names: Vec<String> = ApiClient::proxy_groups(resp).into_iter().map(|p| p.name).collect();
    assert_eq!(names, vec!["A", "b"]);
}

#[test]
fn tooltip_text() {
    let groups = vec![
        proxy("Proxy", "Selector", Some("HK"), &["HK"], &[120]),
        proxy("Idle", "Selector", None, &[], &[]),
        proxy("Auto", "URLTest", Some("JP"), &["JP"], &[]),
        proxy("Fourth", "Selector", Some("US"), &["US"], &[]),
    ];
    assert_eq!(format_group_tooltip(&groups, "Mihomo Tray"), "Proxy: HK 120ms | Auto: JP");
    assert_eq!(format_group_tooltip(&vec![], "Mihomo Tray"), "Mihomo Tray");
    assert_eq!(
        format_group_tooltip(&vec![proxy("Idle", "Selector", None, &[], &[])], "Mihomo Tray"),
        "Mihomo Tray"
    );
}

#[test]
fn menu_ids_later_entry_wins() {
    let mut ids = MenuIds::new();
    ids.track("x:1".to_string(), Action::Quit);
    ids.track("x:1".to_string(), Action::ImportProfile);
    assert!(matches!(ids.resolve("x:1"), Some(Action::ImportProfile)));
    assert!(ids.resolve("x:2").is_none());
}

fn kinds_and_ids(lines: &[mihomo_tray::tray::MenuLine]) -> Vec<(LineKind, Option<String>)> {
    lines.iter().map(|l| (l.kind, l.id.clone())).collect()
}

#[test]
fn menu_layout_scenario() {
    let st = TrayState {
        system_proxy: false,
        tun: false,
        service_ok: false,
        service_supported: true,
        groups: vec![proxy("Proxy", "Selector", Some("HK"), &["HK", "JP"], &[])],
        delays: vec![("Proxy".to_string(), vec![("HK".to_string(), 120), ("JP".to_string(), 0)])],
        profiles: vec!["/c/a.yaml".to_string(), "/c/b.yaml".to_string()],
        active_profile: Some("/c/b.yaml".to_string()),
    };
    let menu = build_menu(&st, "en", 1);
    let id = |s: &str| Some(s.to_string());
    assert_eq!(
        kinds_and_ids(&menu.lines),
        vec![
            (LineKind::Check(false), id("sys:1")),
            (LineKind::Check(false), id("tun:2")),
            (LineKind::Item(true), id("svc:3")),
            (LineKind::Separator, None),
            (LineKind::SubmenuStart, None),
            (LineKind::Item(true), id("speed:4")),
            (LineKind::Separator, None),
            (LineKind::Check(true), id("node:5")),
            (LineKind::Check(false), id("node:6")),
            (LineKind::SubmenuEnd, None),
            (LineKind::Separator, None),
            (LineKind::SubmenuStart, None),
            (LineKind::Check(false), id("profile:7")),
            (LineKind::Check(true), id("profile:8")),
            (LineKind::Separator, None),
            (LineKind::Item(true), id("import:9")),
            (LineKind::Item(true), id("open:10")),
            (LineKind::SubmenuEnd, None),
            (LineKind::SubmenuStart, None),
            (LineKind::Check(false), id("lang:11")),
            (LineKind::Check(true), id("lang:12")),
            (LineKind::SubmenuEnd, None),
            (LineKind::Separator, None),
            (LineKind::Item(true), id("quit:13")),
        ]
    );
    assert_eq!(menu.next_id, 14);
    assert!(matches!(menu.lines[2].label, Some(Label::InstallService)));
    assert!(matches!(&menu.lines[4].label, Some(Label::Text(t)) if t == "Proxy"));
    assert!(matches!(&menu.lines[7].label, Some(Label::NodeDelay(n, 120)) if n == "HK"));
    assert!(matches!(&menu.lines[8].label, Some(Label::NodeTimeout(n)) if n == "JP"));
    assert!(matches!(&menu.lines[12].label, Some(Label::Text(t)) if t == "a.yaml"));
    assert!(matches!(menu.ids.resolve("node:6"), Some(Action::SelectProxy { group, name }) if group == "Proxy" && name == "JP"));
    assert!(matches!(menu.ids.resolve("speed:4"), Some(Action::SpeedTest(g)) if g == "Proxy"));
    assert!(matches!(menu.ids.resolve("profile:8"), Some(Action::SwitchProfile(p)) if p == "b.yaml"));
    assert!(matches!(menu.ids.resolve("lang:11"), Some(Action::SetLocale(l)) if *l == "zh-CN"));
    assert!(matches!(menu.ids.resolve("quit:13"), Some(Action::Quit)));
}

#[test]
fn menu_without_groups_or_service() {
    let st = TrayState {
        system_proxy: true,
        tun: false,
        service_ok: true,
        service_supported: false,
        groups: vec![],
        delays: vec![],
        profiles: vec![],
        active_profile: None,
    };
    let menu = build_menu(&st, "zh-CN", u64::MAX);
    assert_eq!(menu.lines[0].kind, LineKind::Check(true));
    assert_eq!(menu.lines[0].id.as_deref(), Some("sys:18446744073709551615"));
    assert_eq!(menu.lines[1].id.as_deref(), Some("tun:0"));
    assert_eq!(menu.lines[2].kind, LineKind::Separator);
    assert_eq!(menu.lines[3].kind, LineKind::Item(false));
    assert!(matches!(menu.lines[3].label, Some(Label::NoGroups)));
    let lang_zh = menu.lines.iter().position(|l| matches!(l.label, Some(Label::LangZh))).unwrap();
    assert_eq!(menu.lines[lang_zh].kind, LineKind::Check(true));
}

#[test]
fn menu_ids_count_and_freshness() {
    let st = TrayState {
        system_proxy: false,
        tun: true,
        service_ok: true,
        service_supported: true,
        groups: vec![
            proxy("A", "Selector", Some("x"), &["x", "y", "z"], &[]),
            proxy("B", "Selector", None, &[], &[]),
        ],
        delays: vec![],
        profiles: vec!["/c/a.yaml".to_string()],
        active_profile: None,
    };
    let ids_of = |m: &mihomo_tray::tray::MenuModel| -> Vec<String> {
        m.lines.iter().filter_map(|l| l.id.clone()).collect()
    };
    let first = build_menu(&st, "en", 40);
    let ids1 = ids_of(&first);
    // 7 + service 1 + 2 groups + 3 members + 1 profile
    assert_eq!(ids1.len(), 14);
    assert_eq!(first.next_id, 54);
    assert!(matches!(first.lines[2].label, Some(Label::UninstallService)));
    let second = build_menu(&st, "zh-CN", first.next_id);
    let ids2 = ids_of(&second);
    assert_eq!(ids2.len(), 14);
    assert_eq!(second.next_id, 68);
    let selects: Vec<(String, String)> = ids1
        .iter()
        .filter_map(|id| match first.ids.resolve(id) {
            Some(Action::SelectProxy { group, name }) => Some((group.clone(), name.clone())),
            _ => None,
        })
        .collect();
    let pair = |g: &str, n: &str| (g.to_string(), n.to_string());
    assert_eq!(selects, vec![pair("A", "x"), pair("A", "y"), pair("A", "z")]);
    for (i, a) in ids1.iter().enumerate() {
        for (j, b) in ids1.iter().enumerate() {
            assert!(i == j || a != b);
        }
        assert!(!ids2.contains(a));
    }
}

#[test]
fn menu_counter_never_repeats_an_id() {
    let st = TrayState {
        system_proxy: false,
        tun: false,
        service_ok: false,
        service_supported: false,
        groups: vec![proxy("A", "Selector", Some("x"), &["x", "y"], &[])],
        delays: vec![],
        profiles: vec![],
        active_profile: None,
    };
    let mut counter = MenuCounter::new();
    assert_eq!(counter.next_id(), 1);
    let mut seen: Vec<String> = Vec::new();
    for locale in ["en", "zh-CN", "en"] {
        let menu = counter.build(&st, locale);
        let ids: Vec<String> = menu.lines.iter().filter_map(|l| l.id.clone()).collect();
        assert_eq!(ids.len(), 10);
        for id in ids {
            assert!(!seen.contains(&id));
            seen.push(id);
        }
        assert_eq!(counter.next_id(), menu.next_id);
    }
    assert_eq!(counter.next_id(), 31);
    assert_eq!(seen[0], "sys:1");
    assert_eq!(seen[10], "sys:11");
}

#[test]
fn locale_normalisation() {
    assert_eq!(normalize("zh_CN.UTF-8"), "zh-CN");
    assert_eq!(normalize("ZH-tw"), "zh-CN");
    assert_eq!(normalize(" zh@x"), "zh-CN");
    assert_eq!(normalize("en_US.UTF-8"), "en");
    assert_eq!(normalize(""), "en");
    assert_eq!(normalize(&normalize("zh_HK")), normalize("zh_HK"));
    assert!(is_zh("zh-CN"));
    assert!(!is_zh("en"));
}

#[test]
fn locale_detection_order() {
    let vars = vec![None, Some("zh_CN.UTF-8".to_string()), Some("en_US".to_string()), None];
    assert_eq!(detect_locale(&vars, Some("en-US".to_string())), "zh-CN");
    let empty_first = vec![Some(String::new()), Some("zh_CN".to_string()), None, None];
    assert_eq!(detect_locale(&empty_first, Some("en-US".to_string())), "en");
    assert_eq!(detect_locale(&vec![None, None, None, None], Some("zh-Hans-CN".to_string())), "zh-CN");
    assert_eq!(detect_locale(&vec![None, None, None, None], None), "en");
}
