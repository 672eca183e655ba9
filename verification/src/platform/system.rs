//! The system proxy: the settings handed to the OS proxy backend, the fallback between two
//! backends, the macOS elevated `networksetup` scripts, and the macOS DNS helpers' text
//! handling.

use vstd::prelude::*;

use crate::host::HostOs;

use crate::text::{
    chars_eq, chars_of, decimal, decimal_chars, extend_chars, extend_str, has_prefix, lines,
    replace_all, replace_chars, split_lines, split_words, starts_with, string_from_chars,
    sub_chars, trim, trim_chars, views, words, words_scan, is_white_space,
};

verus! {

/// Hosts that bypass the proxy while it is on.
pub const DEFAULT_BYPASS: &'static str = "localhost,127.0.0.1,*.local,10.*,172.16.*,172.17.*,172.18.*,172.19.*,172.20.*,172.21.*,172.22.*,172.23.*,172.24.*,172.25.*,172.26.*,172.27.*,172.28.*,172.29.*,172.30.*,172.31.*,192.168.*,<local>";

/// The proxy bypass lists a system-proxy backend writes.
pub trait BypassPolicy: Copy {
    spec fn enabled_list(self) -> Seq<char>;

    spec fn disabled_list(self) -> Seq<char>;

    /// Hosts to bypass while the proxy is on.
    fn when_enabled(self) -> (r: &'static str)
        ensures
            r@ == self.enabled_list(),
    ;

    /// The value that clears the bypass list when the proxy is turned off.
    fn when_disabled(self) -> (r: &'static str)
        ensures
            r@ == self.disabled_list(),
    ;
}

/// Windows and Linux: an empty list clears the override.
#[derive(Clone, Copy, Debug, Default)]
pub struct DefaultBypassPolicy;

impl BypassPolicy for DefaultBypassPolicy {
    open spec fn enabled_list(self) -> Seq<char> {
        DEFAULT_BYPASS@
    }

    open spec fn disabled_list(self) -> Seq<char> {
        ""@
    }

    fn when_enabled(self) -> (r: &'static str) {
        DEFAULT_BYPASS
    }

    fn when_disabled(self) -> (r: &'static str) {
        ""
    }
}

/// macOS: `networksetup -setproxybypassdomains` clears the list with the word `Empty`.
#[derive(Clone, Copy, Debug, Default)]
pub struct MacosBypassPolicy;

impl BypassPolicy for MacosBypassPolicy {
    open spec fn enabled_list(self) -> Seq<char> {
        DEFAULT_BYPASS@
    }

    open spec fn disabled_list(self) -> Seq<char> {
        "Empty"@
    }

    fn when_enabled(self) -> (r: &'static str) {
        DEFAULT_BYPASS
    }

    fn when_disabled(self) -> (r: &'static str) {
        "Empty"
    }
}

/// The settings handed to the OS proxy backend (one host and port for HTTP and HTTPS).
#[derive(Debug, Clone)]
pub struct ProxySettings {
    pub enable: bool,
    pub host: String,
    pub port: u16,
    pub bypass: String,
}

/// The loopback address the proxy listens on.
pub const PROXY_HOST: &'static str = "127.0.0.1";

/// The OS proxy backend, with its bypass policy.
#[derive(Debug, Clone, Copy)]
pub struct SysproxyBackend<B> {
    pub bypass: B,
}

fn owned(s: &str) -> (r: String)
    ensures
        r@ == s@,
{
    let v = chars_of(s);
    string_from_chars(v.as_slice())
}

impl<B: BypassPolicy> SysproxyBackend<B> {
    pub fn new(bypass: B) -> (r: Self)
        ensures
            r.bypass == bypass,
    {
        SysproxyBackend { bypass }
    }

    /// Settings that route HTTP(S) through the local proxy port; the backend has a single
    /// port, so the SOCKS port is not used.
    pub fn enable_settings(&self, http_port: u16, socks_port: u16) -> (r: ProxySettings)
        ensures
            r.enable,
            r.host@ == PROXY_HOST@,
            r.port == http_port,
            r.bypass@ == self.bypass.enabled_list(),
    {
        ProxySettings {
            enable: true,
            host: owned(PROXY_HOST),
            port: http_port,
            bypass: owned(self.bypass.when_enabled()),
        }
    }

    /// Settings that turn the system proxy off.
    pub fn disable_settings(&self) -> (r: ProxySettings)
        ensures
            !r.enable,
            r.host@ == PROXY_HOST@,
            r.port == 0,
            r.bypass@ == self.bypass.disabled_list(),
    {
        ProxySettings {
            enable: false,
            host: owned(PROXY_HOST),
            port: 0,
            bypass: owned(self.bypass.when_disabled()),
        }
    }
}

/// Two backends: the primary is tried first and the secondary only when it fails; the
/// primary alone reports whether the proxy is on.
#[derive(Debug, Clone, Copy)]
pub struct FallbackProxy<P, S> {
    pub primary: P,
    pub secondary: S,
}

impl<P, S> FallbackProxy<P, S> {
    pub fn new(primary: P, secondary: S) -> (r: Self)
        ensures
            r.primary == primary,
            r.secondary == secondary,
    {
        FallbackProxy { primary, secondary }
    }
}

/// Whether the secondary backend must be tried after the primary's outcome.
pub fn needs_secondary(primary: &Result<(), String>) -> (r: bool)
    ensures
        r == primary is Err,
{
    primary.is_err()
}

/// The macOS backend that runs `networksetup` for every service through an administrator
/// prompt; it does not report whether the proxy is on.
#[derive(Debug, Clone, Copy, Default)]
pub struct MacosElevatedBackend;

impl MacosElevatedBackend {
    pub fn is_enabled(&self) -> (r: bool)
        ensures
            !r,
    {
        false
    }
}

/// The system-proxy backend of a host.
#[derive(Debug, Clone, Copy)]
pub enum SystemProxyBackend {
    /// The OS proxy settings, with the default bypass list.
    Sysproxy(SysproxyBackend<DefaultBypassPolicy>),
    /// macOS: the OS proxy settings first, the elevated `networksetup` scripts when they fail.
    MacosFallback(FallbackProxy<SysproxyBackend<MacosBypassPolicy>, MacosElevatedBackend>),
}

/// The system proxy of a host.
pub fn create_system_proxy(host: HostOs) -> (r: SystemProxyBackend)
    ensures
        host is Macos ==> r is MacosFallback,
        !(host is Macos) ==> r is Sysproxy,
{
    if host.is_macos() {
        SystemProxyBackend::MacosFallback(
            FallbackProxy::new(SysproxyBackend::new(MacosBypassPolicy), MacosElevatedBackend),
        )
    } else {
        SystemProxyBackend::Sysproxy(SysproxyBackend::new(DefaultBypassPolicy))
    }
}

// ------------------------------------------------------------------ macOS elevated backend
/// A network service name inside double quotes of a shell command: `"` becomes `\"`.
pub open spec fn quoted_service(svc: Seq<char>) -> Seq<char> {
    replace_all(svc, "\""@, "\\\""@)
}

pub open spec fn service_enable_commands(svc: Seq<char>, http: u16, socks: u16) -> Seq<Seq<char>> {
    let e = quoted_service(svc);
    seq![
        "networksetup -setwebproxy \""@ + e + "\" 127.0.0.1 "@ + decimal(http as nat),
        "networksetup -setsecurewebproxy \""@ + e + "\" 127.0.0.1 "@ + decimal(http as nat),
        "networksetup -setsocksfirewallproxy \""@ + e + "\" 127.0.0.1 "@ + decimal(socks as nat),
        "networksetup -setwebproxystate \""@ + e + "\" on"@,
        "networksetup -setsecurewebproxystate \""@ + e + "\" on"@,
        "networksetup -setsocksfirewallproxystate \""@ + e + "\" on"@,
    ]
}

pub open spec fn service_disable_commands(svc: Seq<char>) -> Seq<Seq<char>> {
    let e = quoted_service(svc);
    seq![
        "networksetup -setwebproxystate \""@ + e + "\" off"@,
        "networksetup -setsecurewebproxystate \""@ + e + "\" off"@,
        "networksetup -setsocksfirewallproxystate \""@ + e + "\" off"@,
    ]
}

/// Commands for all services, in service order.
pub open spec fn all_commands(services: Seq<String>, enable: bool, http: u16, socks: u16) -> Seq<Seq<char>>
    decreases services.len(),
{
    if services.len() == 0 {
        Seq::empty()
    } else {
        all_commands(services.drop_last(), enable, http, socks) + if enable {
            service_enable_commands(services.last()@, http, socks)
        } else {
            service_disable_commands(services.last()@)
        }
    }
}

/// Parts joined by a separator.
pub open spec fn join_with(parts: Seq<Seq<char>>, sep: Seq<char>) -> Seq<char>
    decreases parts.len(),
{
    if parts.len() == 0 {
        Seq::empty()
    } else if parts.len() == 1 {
        parts[0]
    } else {
        join_with(parts.drop_last(), sep) + sep + parts.last()
    }
}

fn join_chars(parts: &Vec<Vec<char>>, sep: &str) -> (r: Vec<char>)
    ensures
        r@ == join_with(views(parts@), sep@),
{
    let mut out: Vec<char> = Vec::new();
    let mut i: usize = 0;
    assert(views(parts@).take(0) =~= Seq::<Seq<char>>::empty());
    while i < parts.len()
        invariant
            i <= parts@.len(),
            out@ == join_with(views(parts@).take(i as int), sep@),
        decreases parts@.len() - i,
    {
        proof {
            let t = views(parts@).take(i + 1);
            assert(t.drop_last() =~= views(parts@).take(i as int));
            assert(t.last() == parts@[i as int]@);
        }
        if i > 0 {
            extend_str(&mut out, sep);
            extend_chars(&mut out, parts[i].as_slice());
        } else {
            extend_chars(&mut out, parts[i].as_slice());
            assert(out@ =~= parts@[0]@);
        }
        i += 1;
    }
    assert(views(parts@).take(i as int) =~= views(parts@));
    out
}

fn command(prefix: &str, quoted: &Vec<char>, suffix: &str) -> (r: Vec<char>)
    ensures
        r@ == prefix@ + quoted@ + suffix@,
{
    let mut v = chars_of(prefix);
    extend_chars(&mut v, quoted.as_slice());
    extend_str(&mut v, suffix);
    v
}

fn command_port(prefix: &str, quoted: &Vec<char>, port: u16) -> (r: Vec<char>)
    ensures
        r@ == prefix@ + quoted@ + "\" 127.0.0.1 "@ + decimal(port as nat),
{
    let mut v = chars_of(prefix);
    extend_chars(&mut v, quoted.as_slice());
    extend_str(&mut v, "\" 127.0.0.1 ");
    let d = decimal_chars(port as u64);
    extend_chars(&mut v, d.as_slice());
    v
}

fn quote_service(svc: &str) -> (r: Vec<char>)
    ensures
        r@ == quoted_service(svc@),
{
    let sv = chars_of(svc);
    let q = chars_of("\"");
    let eq = chars_of("\\\"");
    proof {
        reveal_strlit("\"");
    }
    replace_chars(sv.as_slice(), q.as_slice(), eq.as_slice())
}

fn push_line(out: &mut Vec<Vec<char>>, line: Vec<char>)
    ensures
        views(final(out)@) == views(old(out)@).push(line@),
{
    let ghost lv = line@;
    out.push(line);
    assert(views(out@) =~= views(old(out)@).push(lv));
}

/// The shell command list for turning the proxy on or off on every service.
pub fn proxy_commands(services: &Vec<String>, enable: bool, http: u16, socks: u16) -> (r: Vec<Vec<char>>)
    ensures
        views(r@) == all_commands(services@, enable, http, socks),
{
    let mut out: Vec<Vec<char>> = Vec::new();
    let mut i: usize = 0;
    assert(services@.take(0) =~= Seq::<String>::empty());
    assert(views(out@) =~= Seq::<Seq<char>>::empty());
    while i < services.len()
        invariant
            i <= services@.len(),
            views(out@) == all_commands(services@.take(i as int), enable, http, socks),
        decreases services@.len() - i,
    {
        let ghost before = views(out@);
        let e = quote_service(services[i].as_str());
        if enable {
            push_line(&mut out, command_port("networksetup -setwebproxy \"", &e, http));
            push_line(&mut out, command_port("networksetup -setsecurewebproxy \"", &e, http));
            push_line(&mut out, command_port("networksetup -setsocksfirewallproxy \"", &e, socks));
            push_line(&mut out, command("networksetup -setwebproxystate \"", &e, "\" on"));
            push_line(&mut out, command("networksetup -setsecurewebproxystate \"", &e, "\" on"));
            push_line(
                &mut out,
                command("networksetup -setsocksfirewallproxystate \"", &e, "\" on"),
            );
            assert(views(out@) =~= before + service_enable_commands(services@[i as int]@, http, socks));
        } else {
            push_line(&mut out, command("networksetup -setwebproxystate \"", &e, "\" off"));
            push_line(&mut out, command("networksetup -setsecurewebproxystate \"", &e, "\" off"));
            push_line(
                &mut out,
                command("networksetup -setsocksfirewallproxystate \"", &e, "\" off"),
            );
            assert(views(out@) =~= before + service_disable_commands(services@[i as int]@));
        }
        proof {
            assert(services@.take(i + 1).drop_last() =~= services@.take(i as int));
            assert(services@.take(i + 1).last() == services@[i as int]);
        }
        i += 1;
    }
    assert(services@.take(i as int) =~= services@);
    out
}

/// Text escaped for a double-quoted AppleScript string: `\` then `"` get a backslash.
pub open spec fn applescript_escaped(s: Seq<char>) -> Seq<char> {
    replace_all(replace_all(s, "\\"@, "\\\\"@), "\""@, "\\\""@)
}

pub fn escape_applescript(s: &str) -> (r: Vec<char>)
    ensures
        r@ == applescript_escaped(s@),
{
    let sv = chars_of(s);
    let bs = chars_of("\\");
    let bs2 = chars_of("\\\\");
    let q = chars_of("\"");
    let eq = chars_of("\\\"");
    proof {
        reveal_strlit("\\");
        reveal_strlit("\"");
    }
    let a = replace_chars(sv.as_slice(), bs.as_slice(), bs2.as_slice());
    replace_chars(a.as_slice(), q.as_slice(), eq.as_slice())
}

/// The AppleScript that runs a shell command with administrator privileges.
pub open spec fn admin_script(shell: Seq<char>) -> Seq<char> {
    "do shell script \""@ + applescript_escaped(shell) + "\" with administrator privileges"@
}

/// The elevated script that turns the proxy on (`enable`) or off on every service: the
/// commands joined with ` && `.
pub fn elevated_proxy_script(services: &Vec<String>, enable: bool, http: u16, socks: u16) -> (r:
    String)
    ensures
        r@ == admin_script(join_with(all_commands(services@, enable, http, socks), " && "@)),
{
    let cmds = proxy_commands(services, enable, http, socks);
    let joined = join_chars(&cmds, " && ");
    let shell = string_from_chars(joined.as_slice());
    let esc = escape_applescript(shell.as_str());
    let mut v = chars_of("do shell script \"");
    extend_chars(&mut v, esc.as_slice());
    extend_str(&mut v, "\" with administrator privileges");
    string_from_chars(v.as_slice())
}

/// The services named by `networksetup -listallnetworkservices`: every line after the
/// first, trimmed, except empty ones and disabled ones (marked `*`).
pub open spec fn listed_services(ls: Seq<Seq<char>>) -> Seq<Seq<char>>
    decreases ls.len(),
{
    if ls.len() <= 1 {
        Seq::empty()
    } else {
        let t = trim(ls.last());
        let pre = listed_services(ls.drop_last());
        if t.len() > 0 && t[0] != '*' {
            pre.push(t)
        } else {
            pre
        }
    }
}

pub fn network_services(output: &str) -> (r: Vec<String>)
    ensures
        r@.map_values(|s: String| s@) == listed_services(lines(output@)),
{
    let ov = chars_of(output);
    let ls = split_lines(ov.as_slice());
    let ghost lv = views(ls@);
    let mut out: Vec<String> = Vec::new();
    let mut i: usize = 1;
    if ls.len() == 0 {
        assert(out@.map_values(|s: String| s@) =~= listed_services(lv));
        return out;
    }
    assert(lv.take(1).len() == 1);
    assert(out@.map_values(|s: String| s@) =~= listed_services(lv.take(1)));
    while i < ls.len()
        invariant
            1 <= i <= ls@.len(),
            lv == views(ls@),
            lv == lines(output@),
            out@.map_values(|s: String| s@) == listed_services(lv.take(i as int)),
        decreases ls@.len() - i,
    {
        let t = trim_chars(ls[i].as_slice());
        proof {
            assert(lv.take(i + 1).drop_last() =~= lv.take(i as int));
            assert(lv.take(i + 1).last() == ls@[i as int]@);
        }
        if t.len() > 0 && t[0] != '*' {
            let ghost before = out@.map_values(|s: String| s@);
            let st = string_from_chars(t.as_slice());
            out.push(st);
            assert(out@.map_values(|s: String| s@) =~= before.push(t@));
        }
        i += 1;
    }
    assert(lv.take(i as int) =~= lv);
    out
}

// ------------------------------------------------------------------ macOS DNS
/// The value of the first line that reads `interface: <name>` once trimmed.
pub open spec fn route_interface(ls: Seq<Seq<char>>) -> Option<Seq<char>>
    decreases ls.len(),
{
    if ls.len() == 0 {
        None
    } else if starts_with(trim(ls[0]), "interface:"@) {
        Some(trim(trim(ls[0]).skip("interface:"@.len() as int)))
    } else {
        route_interface(ls.drop_first())
    }
}

/// The interface of the default route, from `route -n get default`.
pub fn default_route_interface(output: &str) -> (r: Option<String>)
    ensures
        match route_interface(lines(output@)) {
            Some(n) => (r matches Some(s) && s@ == n),
            None => r is None,
        },
{
    let ov = chars_of(output);
    let ls = split_lines(ov.as_slice());
    let ghost lv = views(ls@);
    let prefix = chars_of("interface:");
    let mut i: usize = 0;
    assert(lv.skip(0) =~= lv);
    while i < ls.len()
        invariant
            i <= ls@.len(),
            lv == views(ls@),
            lv == lines(output@),
            prefix@ == "interface:"@,
            route_interface(lv) == route_interface(lv.skip(i as int)),
        decreases ls@.len() - i,
    {
        assert(lv.skip(i as int).drop_first() =~= lv.skip(i + 1));
        assert(lv.skip(i as int)[0] == ls@[i as int]@);
        let t = trim_chars(ls[i].as_slice());
        if has_prefix(t.as_slice(), prefix.as_slice()) {
            let rest = sub_chars(t.as_slice(), prefix.len(), t.len());
            assert(rest@ =~= t@.skip("interface:"@.len() as int));
            let v = trim_chars(rest.as_slice());
            return Some(string_from_chars(v.as_slice()));
        }
        i += 1;
    }
    None
}

/// The device named in a `(Hardware Port: <port>, Device: <device>)` line: the trimmed text
/// after `Device: ` up to the next `)`.
pub open spec fn device_of(line: Seq<char>) -> Option<Seq<char>> {
    match crate::text::find(line, "Device: "@) {
        Some(i) => {
            let rest = line.skip(i + "Device: "@.len());
            Some(trim(crate::text::before_first(rest, ")"@)))
        },
        None => None,
    }
}

pub fn extract_device(line: &[char]) -> (r: Option<Vec<char>>)
    ensures
        match device_of(line@) {
            Some(d) => (r matches Some(v) && v@ == d),
            None => r is None,
        },
{
    let marker = chars_of("Device: ");
    match crate::text::find_chars(line, marker.as_slice()) {
        Some(i) => {
            proof {
                reveal_strlit("Device: ");
                crate::text::lemma_find_occurs(line@, marker@);
                assert(crate::text::find(line@, marker@) == Some(i as int));
                assert(crate::text::occurs_at(line@, marker@, i as int));
                assert(line@.len() == line.len());
            }
            let rest = sub_chars(line, i + marker.len(), line.len());
            let close = chars_of(")");
            let upto = crate::text::before_first_chars(rest.as_slice(), close.as_slice());
            Some(trim_chars(upto.as_slice()))
        },
        None => None,
    }
}

/// Scan state over `networksetup -listnetworkserviceorder`: the service of the latest
/// numbered `(n) <name>` line, and the answer once a device line names `nic`.
pub open spec fn order_scan(ls: Seq<Seq<char>>, nic: Seq<char>) -> (Option<Seq<char>>, Option<Seq<char>>)
    decreases ls.len(),
{
    if ls.len() == 0 {
        (None, None)
    } else {
        let (current, found) = order_scan(ls.drop_last(), nic);
        if found is Some {
            (current, found)
        } else {
            let t = trim(ls.last());
            if t.len() > 1 && t[0] == '(' && '0' <= t[1] <= '9' {
                let rest = t.drop_first();
                match crate::text::find(rest, ")"@) {
                    Some(k) => (Some(trim(rest.skip(k + 1))), None),
                    None => (current, None),
                }
            } else {
                match current {
                    Some(port) => if device_of(t) == Some(nic) {
                        (current, Some(port))
                    } else {
                        (current, None)
                    },
                    None => (current, None),
                }
            }
        }
    }
}

/// Once a device line has named `nic`, later lines keep that answer.
proof fn lemma_order_scan_found(ls: Seq<Seq<char>>, nic: Seq<char>, i: int)
    requires
        0 <= i <= ls.len(),
        order_scan(ls.take(i), nic).1 is Some,
    ensures
        order_scan(ls, nic).1 == order_scan(ls.take(i), nic).1,
    decreases ls.len() - i,
{
    if i < ls.len() {
        assert(ls.take(i + 1).drop_last() =~= ls.take(i));
        lemma_order_scan_found(ls, nic, i + 1);
    } else {
        assert(ls.take(i) =~= ls);
    }
}

/// The network service (hardware port) whose device is `nic`.
pub fn service_for_device(order_output: &str, nic: &str) -> (r: Option<String>)
    ensures
        match order_scan(lines(order_output@), nic@).1 {
            Some(p) => (r matches Some(s) && s@ == p),
            None => r is None,
        },
{
    let ov = chars_of(order_output);
    let nv = chars_of(nic);
    let ls = split_lines(ov.as_slice());
    let ghost lv = views(ls@);
    let mut current: Option<Vec<char>> = None;
    let mut i: usize = 0;
    assert(lv.take(0) =~= Seq::<Seq<char>>::empty());
    while i < ls.len()
        invariant
            i <= ls@.len(),
            lv == views(ls@),
            lv == lines(order_output@),
            nv@ == nic@,
            order_scan(lv.take(i as int), nic@).1 is None,
            order_scan(lv.take(i as int), nic@).0 == match current {
                Some(c) => Some(c@),
                None => None::<Seq<char>>,
            },
        decreases ls@.len() - i,
    {
        proof {
            assert(lv.take(i + 1).drop_last() =~= lv.take(i as int));
            assert(lv.take(i + 1).last() == ls@[i as int]@);
        }
        let t = trim_chars(ls[i].as_slice());
        if t.len() > 1 && t[0] == '(' && '0' <= t[1] && t[1] <= '9' {
            let rest = sub_chars(t.as_slice(), 1, t.len());
            assert(rest@ =~= t@.drop_first());
            let close = chars_of(")");
            match crate::text::find_chars(rest.as_slice(), close.as_slice()) {
                Some(k) => {
                    proof {
                        reveal_strlit(")");
                        crate::text::lemma_find_occurs(rest@, close@);
                        assert(crate::text::find(rest@, close@) == Some(k as int));
                        assert(crate::text::occurs_at(rest@, close@, k as int));
                    }
                    let name = sub_chars(rest.as_slice(), k + 1, rest.len());
                    assert(name@ =~= rest@.skip(k + 1));
                    current = Some(trim_chars(name.as_slice()));
                },
                None => {},
            }
        } else {
            match &current {
                Some(port) => {
                    match extract_device(t.as_slice()) {
                        Some(d) => {
                            if chars_eq(d.as_slice(), nv.as_slice()) {
                                proof {
                                    lemma_order_scan_found(lv, nic@, i + 1);
                                }
                                return Some(string_from_chars(port.as_slice()));
                            }
                        },
                        None => {},
                    }
                },
                None => {},
            }
        }
        i += 1;
    }
    proof {
        assert(lv.take(i as int) =~= lv);
    }
    None
}

/// The words of `networksetup -getdnsservers` output.
pub fn dns_words(output: &str) -> (r: Vec<String>)
    ensures
        r@.map_values(|s: String| s@) == words(output@),
{
    let ov = chars_of(output);
    let ws = split_words(ov.as_slice());
    let ghost wv = words(output@);
    let mut out: Vec<String> = Vec::new();
    let mut i: usize = 0;
    while i < ws.len()
        invariant
            i <= ws@.len(),
            ws@.len() == wv.len(),
            wv == words(output@),
            forall|k: int| 0 <= k < ws@.len() ==> (#[trigger] ws@[k])@ == wv[k],
            out@.map_values(|s: String| s@) == wv.take(i as int),
        decreases ws@.len() - i,
    {
        let w = string_from_chars(ws[i].as_slice());
        let ghost before = out@.map_values(|s: String| s@);
        out.push(w);
        assert(ws@[i as int]@ == wv[i as int]);
        assert(out@.map_values(|s: String| s@) =~= before.push(wv[i as int]));
        assert(wv.take(i + 1) =~= wv.take(i as int).push(wv[i as int]));
        i += 1;
    }
    assert(wv.take(i as int) =~= wv);
    out
}

/// The words marked as IP addresses, in order.
pub open spec fn marked_words(ws: Seq<Seq<char>>, marks: Seq<bool>) -> Seq<Seq<char>>
    decreases ws.len(),
{
    if ws.len() == 0 {
        Seq::empty()
    } else if marks[ws.len() - 1] {
        marked_words(ws.drop_last(), marks).push(ws.last())
    } else {
        marked_words(ws.drop_last(), marks)
    }
}

/// The DNS servers among the words of `networksetup -getdnsservers`: those that parse as an
/// IP address (`is_ip[k]` tells whether word `k` does).
pub fn dns_servers(ws: &Vec<String>, is_ip: &Vec<bool>) -> (r: Vec<String>)
    requires
        is_ip@.len() == ws@.len(),
    ensures
        r@.map_values(|s: String| s@) == marked_words(ws@.map_values(|s: String| s@), is_ip@),
{
    let ghost wv = ws@.map_values(|s: String| s@);
    let mut out: Vec<String> = Vec::new();
    let mut i: usize = 0;
    assert(out@.map_values(|s: String| s@) =~= marked_words(wv.take(0), is_ip@));
    while i < ws.len()
        invariant
            i <= ws@.len(),
            is_ip@.len() == ws@.len(),
            wv == ws@.map_values(|s: String| s@),
            out@.map_values(|s: String| s@) == marked_words(wv.take(i as int), is_ip@),
        decreases ws@.len() - i,
    {
        proof {
            assert(wv.take(i + 1).drop_last() =~= wv.take(i as int));
            assert(wv.take(i + 1).last() == ws@[i as int]@);
        }
        if is_ip[i] {
            let ghost before = out@.map_values(|s: String| s@);
            let w = owned(ws[i].as_str());
            out.push(w);
            assert(out@.map_values(|s: String| s@) =~= before.push(ws@[i as int]@));
        }
        i += 1;
    }
    assert(wv.take(i as int) =~= wv);
    out
}

/// The backup of the previous DNS servers: the word `empty`, or the servers separated by
/// spaces.
pub open spec fn dns_backup_text(servers: Seq<Seq<char>>) -> Seq<char> {
    if servers.len() == 0 {
        "empty"@
    } else {
        join_with(servers, " "@)
    }
}

pub fn dns_backup(servers: &Vec<String>) -> (r: String)
    ensures
        r@ == dns_backup_text(servers@.map_values(|s: String| s@)),
{
    if servers.len() == 0 {
        return owned("empty");
    }
    let mut parts: Vec<Vec<char>> = Vec::new();
    let mut i: usize = 0;
    while i < servers.len()
        invariant
            i <= servers@.len(),
            views(parts@) == servers@.take(i as int).map_values(|s: String| s@),
        decreases servers@.len() - i,
    {
        let v = chars_of(servers[i].as_str());
        push_line(&mut parts, v);
        assert(servers@.take(i + 1).map_values(|s: String| s@) =~= servers@.take(i as int).map_values(
            |s: String| s@,
        ).push(servers@[i as int]@));
        i += 1;
    }
    assert(servers@.take(i as int) =~= servers@);
    let joined = join_chars(&parts, " ");
    string_from_chars(joined.as_slice())
}

/// The servers to restore from a backup: its words, or the word `empty` (which clears the
/// list) when the backup is blank or says `empty`.
pub open spec fn dns_restore_args(content: Seq<char>) -> Seq<Seq<char>> {
    let t = trim(content);
    if t.len() == 0 || t == "empty"@ {
        seq!["empty"@]
    } else {
        words(t)
    }
}

pub fn dns_restore_servers(content: &str) -> (r: Vec<String>)
    ensures
        r@.map_values(|s: String| s@) == dns_restore_args(content@),
{
    let cv = chars_of(content);
    let t = trim_chars(cv.as_slice());
    let e = chars_of("empty");
    let mut out: Vec<String> = Vec::new();
    if t.len() == 0 || chars_eq(t.as_slice(), e.as_slice()) {
        out.push(owned("empty"));
        assert(out@.map_values(|s: String| s@) =~= seq!["empty"@]);
        return out;
    }
    let ws = split_words(t.as_slice());
    let mut i: usize = 0;
    while i < ws.len()
        invariant
            i <= ws@.len(),
            ws@.len() == words(t@).len(),
            forall|k: int| 0 <= k < ws@.len() ==> (#[trigger] ws@[k])@ == words(t@)[k],
            out@.map_values(|s: String| s@) == words(t@).take(i as int),
        decreases ws@.len() - i,
    {
        let ghost before = out@.map_values(|s: String| s@);
        let w = string_from_chars(ws[i].as_slice());
        out.push(w);
        assert(ws@[i as int]@ == words(t@)[i as int]);
        assert(out@.map_values(|s: String| s@) =~= before.push(words(t@)[i as int]));
        assert(words(t@).take(i + 1) =~= words(t@).take(i as int).push(words(t@)[i as int]));
        i += 1;
    }
    assert(words(t@).take(i as int) =~= words(t@));
    out
}


// ------------------------------------------------------------------ DNS backup round trip
/// A word of `networksetup` output: not empty, no white space.
pub open spec fn is_word(w: Seq<char>) -> bool {
    w.len() > 0 && forall|i: int| 0 <= i < w.len() ==> !is_white_space(#[trigger] w[i])
}

proof fn lemma_scan_word(s: Seq<char>, w: Seq<char>)
    requires
        words_scan(s).1 is None,
        is_word(w),
    ensures
        words_scan(s + w) == (words_scan(s).0, Some(w)),
    decreases w.len(),
{
    let c = w.last();
    assert(!is_white_space(w[w.len() - 1]));
    if w.len() == 1 {
        assert((s + w).drop_last() =~= s);
        assert(seq![c] =~= w);
    } else {
        let d = w.drop_last();
        assert forall|i: int| 0 <= i < d.len() implies !is_white_space(#[trigger] d[i]) by {
            assert(d[i] == w[i]);
        }
        lemma_scan_word(s, d);
        assert((s + w).drop_last() =~= s + d);
        assert(d.push(c) =~= w);
    }
    assert((s + w).last() == c);
}

proof fn lemma_scan_space(s: Seq<char>)
    ensures
        words_scan(s + seq![' ']) == (words(s), None::<Seq<char>>),
{
    assert((s + seq![' ']).drop_last() =~= s);
    assert((s + seq![' ']).last() == ' ');
    assert(is_white_space(' '));
}

proof fn lemma_words_join(ws: Seq<Seq<char>>)
    requires
        ws.len() >= 1,
        forall|i: int| 0 <= i < ws.len() ==> is_word(#[trigger] ws[i]),
    ensures
        words_scan(join_with(ws, seq![' '])) == (ws.drop_last(), Some(ws.last())),
        words(join_with(ws, seq![' '])) == ws,
        join_with(ws, seq![' ']).len() > 0,
        join_with(ws, seq![' '])[0] == ws[0][0],
        join_with(ws, seq![' ']).last() == ws.last().last(),
    decreases ws.len(),
{
    let sp = seq![' '];
    if ws.len() == 1 {
        assert(is_word(ws[0]));
        lemma_scan_word(Seq::empty(), ws[0]);
        assert(Seq::<char>::empty() + ws[0] =~= ws[0]);
        assert(ws.drop_last() =~= Seq::<Seq<char>>::empty());
        assert(seq![ws[0]] =~= ws);
    } else {
        let d = ws.drop_last();
        assert forall|i: int| 0 <= i < d.len() implies is_word(#[trigger] d[i]) by {
            assert(d[i] == ws[i]);
        }
        lemma_words_join(d);
        let jd = join_with(d, sp);
        assert(d.drop_last().push(d.last()) =~= d);
        lemma_scan_space(jd);
        assert(is_word(ws[ws.len() - 1]));
        lemma_scan_word(jd + sp, ws.last());
        assert(join_with(ws, sp) == jd + sp + ws.last());
        assert(d.push(ws.last()) =~= ws);
        assert((jd + sp + ws.last())[0] == jd[0]);
        assert(d[0] == ws[0]);
    }
}

proof fn lemma_trim_word_ends(s: Seq<char>)
    requires
        s.len() > 0,
        !is_white_space(s[0]),
        !is_white_space(s.last()),
    ensures
        trim(s) == s,
{
}

/// Restoring from the backup gives back exactly the servers that were backed up (each a
/// word, as `networksetup` prints them); when none were backed up, the single word `empty`,
/// which clears the list.
pub proof fn lemma_dns_backup_roundtrip(servers: Seq<Seq<char>>)
    requires
        forall|i: int| 0 <= i < servers.len() ==> is_word(#[trigger] servers[i]),
    ensures
        dns_restore_args(dns_backup_text(servers)) == if servers.len() == 0 {
            seq!["empty"@]
        } else {
            servers
        },
{
    reveal_strlit("empty");
    reveal_strlit(" ");
    let e = "empty"@;
    assert(is_word(e)) by {
        assert forall|i: int| 0 <= i < e.len() implies !is_white_space(#[trigger] e[i]) by {}
    }
    lemma_words_join(seq![e]);
    assert(join_with(seq![e], seq![' ']) == e);
    if servers.len() == 0 {
        lemma_trim_word_ends(e);
    } else {
        assert(" "@ =~= seq![' ']);
        lemma_words_join(servers);
        let j = join_with(servers, seq![' ']);
        assert(is_word(servers[0]));
        assert(is_word(servers[servers.len() - 1]));
        assert(!is_white_space(servers[0][0]));
        let l = servers.last();
        assert(!is_white_space(l[l.len() - 1]));
        lemma_trim_word_ends(j);
        if j == e {
            assert(words(e) == seq![e]);
        }
    }
}


proof fn lemma_scan_words(s: Seq<char>)
    ensures
        forall|i: int|
            0 <= i < words_scan(s).0.len() ==> is_word(#[trigger] words_scan(s).0[i]),
        words_scan(s).1 matches Some(w) ==> is_word(w),
    decreases s.len(),
{
    if s.len() > 0 {
        lemma_scan_words(s.drop_last());
        let (done, cur) = words_scan(s.drop_last());
        let c = s.last();
        if !is_white_space(c) {
            if let Some(w) = cur {
                let w2 = w.push(c);
                assert forall|i: int| 0 <= i < w2.len() implies !is_white_space(#[trigger] w2[i]) by {
                    if i < w.len() {
                        assert(w2[i] == w[i]);
                    }
                }
            } else {
                assert forall|i: int| 0 <= i < seq![c].len() implies !is_white_space(
                    #[trigger] seq![c][i],
                ) by {}
            }
        } else {
            if let Some(w) = cur {
                assert forall|i: int| 0 <= i < done.push(w).len() implies is_word(
                    #[trigger] done.push(w)[i],
                ) by {
                    if i < done.len() {
                        assert(done.push(w)[i] == done[i]);
                    }
                }
            }
        }
    }
}

proof fn lemma_marked_words(ws: Seq<Seq<char>>, marks: Seq<bool>)
    requires
        marks.len() >= ws.len(),
        forall|i: int| 0 <= i < ws.len() ==> is_word(#[trigger] ws[i]),
    ensures
        forall|i: int|
            0 <= i < marked_words(ws, marks).len() ==> is_word(#[trigger] marked_words(ws, marks)[i]),
    decreases ws.len(),
{
    if ws.len() > 0 {
        let d = ws.drop_last();
        assert forall|i: int| 0 <= i < d.len() implies is_word(#[trigger] d[i]) by {
            assert(d[i] == ws[i]);
        }
        lemma_marked_words(d, marks);
        let pre = marked_words(d, marks);
        if marks[ws.len() - 1] {
            assert(is_word(ws[ws.len() - 1]));
            assert forall|i: int| 0 <= i < pre.push(ws.last()).len() implies is_word(
                #[trigger] pre.push(ws.last())[i],
            ) by {
                if i < pre.len() {
                    assert(pre.push(ws.last())[i] == pre[i]);
                }
            }
        }
    }
}

/// The servers kept from `networksetup -getdnsservers` output survive the backup file:
/// restoring gives back exactly those servers, or the word `empty` when there were none.
pub proof fn lemma_dns_servers_roundtrip(output: Seq<char>, is_ip: Seq<bool>)
    requires
        is_ip.len() == words(output).len(),
    ensures
        ({
            let kept = marked_words(words(output), is_ip);
            dns_restore_args(dns_backup_text(kept)) == if kept.len() == 0 {
                seq!["empty"@]
            } else {
                kept
            }
        }),
{
    lemma_scan_words(output);
    let (done, cur) = words_scan(output);
    let ws = words(output);
    assert forall|i: int| 0 <= i < ws.len() implies is_word(#[trigger] ws[i]) by {
        if let Some(w) = cur {
            if i < done.len() {
                assert(ws[i] == done[i]);
            }
        }
    }
    lemma_marked_words(ws, is_ip);
    lemma_dns_backup_roundtrip(marked_words(ws, is_ip));
}

} // verus!
