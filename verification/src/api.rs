//! The core's REST API as the tray uses it: the requests it makes, and what it takes from
//! the answers.
//!
//! A call is described by an `ApiCall` (method, path, body, timeout); the caller sends
//! `ApiClient::request_text` over the local endpoint, reads the reply with
//! `http::parse_response`, and decodes the JSON payload into the types below.

use vstd::prelude::*;
use vstd::utf8::*;

use crate::host::HostOs;
use crate::http::{build_request, is_success, opt_view, request_text, HttpError, ResponseState};
use crate::ipc::{core_ipc_path, ipc_path_of};
use crate::order::{
    lemma_sorted_by_key_is_sorted, lemma_sorted_by_key_permutes, lex_lt, sort_by_key, sorted_by_key,
    SortKey,
};
use crate::paths::{opt_str_view, DELAY_TEST_URL, DELAY_TIMEOUT_MS};
use crate::profile::{pick_port, port_or_default, secret_of, ProfileMeta};
use crate::text::{
    chars_of, decimal, decimal_chars, eq_ignore_ascii_case, eq_ignore_case, extend_chars,
    extend_str, string_from_chars,
};

verus! {

/// Timeout of an ordinary API call.
pub const DEFAULT_TIMEOUT_MS: u64 = 15000;

/// Timeout of a group delay test, which waits for every member's probe.
pub const GROUP_DELAY_TIMEOUT_MS: u64 = 60000;

/// Client for the core's API on its local endpoint.
#[derive(Debug, Clone)]
pub struct ApiClient {
    pub socket: String,
    pub secret: Option<String>,
    pub timeout_ms: u64,
}

/// One recorded delay probe of a proxy.
#[derive(Debug, Clone, Copy, PartialEq, Eq, Structural)]
pub struct DelayHistory {
    pub delay: u16,
}

/// A proxy or proxy group as the API lists it.
#[derive(Debug, Clone)]
pub struct ProxyInfo {
    pub name: String,
    pub proxy_type: String,
    pub now: Option<String>,
    pub all: Option<Vec<String>>,
    pub history: Option<Vec<DelayHistory>>,
    pub alive: Option<bool>,
    pub hidden: Option<bool>,
}

/// The answer to `GET /proxies`: every proxy under its key, in the order the caller
/// received them.
#[derive(Debug, Clone)]
pub struct ProxiesResponse {
    pub proxies: Vec<(String, ProxyInfo)>,
}

#[derive(Debug, Clone)]
pub struct VersionInfo {
    pub version: Option<String>,
    pub meta: Option<bool>,
}

/// The answer to `GET /configs`.
#[derive(Debug, Clone)]
pub struct RuntimeConfig {
    pub mixed_port: Option<u16>,
    pub port: Option<u16>,
    pub socks_port: Option<u16>,
    pub tun: Option<TunConfig>,
}

#[derive(Debug, Clone)]
pub struct TunConfig {
    pub enable: Option<bool>,
    pub stack: Option<String>,
    pub auto_route: Option<bool>,
    pub auto_detect_interface: Option<bool>,
    pub dns_hijack: Option<Vec<String>>,
}

impl SortKey for ProxyInfo {
    open spec fn sort_key(&self) -> Seq<char> {
        self.name@
    }

    fn key_chars(&self) -> (r: Vec<char>) {
        chars_of(self.name.as_str())
    }
}

/// The delay of the most recent probe, if any.
pub open spec fn latest_delay_of(info: ProxyInfo) -> Option<u16> {
    match info.history {
        Some(h) => if h@.len() > 0 {
            Some(h@.last().delay)
        } else {
            None
        },
        None => None,
    }
}

pub fn latest_delay(info: &ProxyInfo) -> (r: Option<u16>)
    ensures
        r == latest_delay_of(*info),
{
    match &info.history {
        Some(h) => {
            if h.len() > 0 {
                Some(h[h.len() - 1].delay)
            } else {
                None
            }
        },
        None => None,
    }
}

// ------------------------------------------------------------------ proxies and groups
/// A proxy whose name is empty takes the key it was listed under.
pub open spec fn named(key: String, p: ProxyInfo) -> ProxyInfo {
    if p.name@.len() == 0 {
        ProxyInfo { name: key, ..p }
    } else {
        p
    }
}

pub open spec fn named_entries(entries: Seq<(String, ProxyInfo)>) -> Seq<(String, ProxyInfo)> {
    entries.map_values(|e: (String, ProxyInfo)| (e.0, named(e.0, e.1)))
}

fn name_entry(key: &String, p: ProxyInfo) -> (r: ProxyInfo)
    ensures
        r == named(*key, p),
{
    if p.name.as_str().is_empty() {
        ProxyInfo { name: key.clone(), ..p }
    } else {
        p
    }
}

/// Fills in empty proxy names from their keys.
pub fn fill_proxy_names(resp: ProxiesResponse) -> (r: ProxiesResponse)
    ensures
        r.proxies@ == named_entries(resp.proxies@),
{
    let mut input = resp.proxies;
    let ghost all = input@;
    let total = input.len();
    let mut out: Vec<(String, ProxyInfo)> = Vec::new();
    let mut n: usize = 0;
    while input.len() > 0
        invariant
            n + input@.len() == all.len(),
            all.len() == total,
            input@ == all.skip(n as int),
            out@ == named_entries(all.take(n as int)),
        decreases input@.len(),
    {
        let (k, p) = input.remove(0);
        let q = name_entry(&k, p);
        out.push((k, q));
        n += 1;
        assert(input@ =~= all.skip(n as int));
        assert(out@ =~= named_entries(all.take(n as int)));
    }
    assert(all.take(n as int) =~= all);
    ProxiesResponse { proxies: out }
}

/// The proxy types that are groups, matched without regard to ASCII case.
pub open spec fn is_group_type(t: Seq<char>) -> bool {
    eq_ignore_ascii_case("Selector"@, t) || eq_ignore_ascii_case("URLTest"@, t)
        || eq_ignore_ascii_case("Fallback"@, t) || eq_ignore_ascii_case("LoadBalance"@, t)
        || eq_ignore_ascii_case("Relay"@, t)
}

/// A group shown in the menu: a group type, not hidden, and not the `GLOBAL` group.
pub open spec fn shown_group(p: ProxyInfo) -> bool {
    is_group_type(p.proxy_type@) && !(p.hidden == Some(true)) && p.name@ != "GLOBAL"@
}

/// The shown groups, named, in listing order.
pub open spec fn shown_groups(entries: Seq<(String, ProxyInfo)>) -> Seq<ProxyInfo>
    decreases entries.len(),
{
    if entries.len() == 0 {
        Seq::empty()
    } else {
        let pre = shown_groups(entries.drop_last());
        let p = named(entries.last().0, entries.last().1);
        if shown_group(p) {
            pre.push(p)
        } else {
            pre
        }
    }
}

/// The menu's group types, written out: Selector, URLTest, Fallback, LoadBalance or Relay,
/// in any ASCII case.
pub open spec fn listed_group_type(t: Seq<char>) -> bool {
    ||| eq_ignore_ascii_case(t, "Selector"@)
    ||| eq_ignore_ascii_case(t, "URLTest"@)
    ||| eq_ignore_ascii_case(t, "Fallback"@)
    ||| eq_ignore_ascii_case(t, "LoadBalance"@)
    ||| eq_ignore_ascii_case(t, "Relay"@)
}

proof fn lemma_is_group_type_listed(t: Seq<char>)
    ensures
        is_group_type(t) == listed_group_type(t),
{
    assert(eq_ignore_ascii_case("Selector"@, t) == eq_ignore_ascii_case(t, "Selector"@));
    assert(eq_ignore_ascii_case("URLTest"@, t) == eq_ignore_ascii_case(t, "URLTest"@));
    assert(eq_ignore_ascii_case("Fallback"@, t) == eq_ignore_ascii_case(t, "Fallback"@));
    assert(eq_ignore_ascii_case("LoadBalance"@, t) == eq_ignore_ascii_case(t, "LoadBalance"@));
    assert(eq_ignore_ascii_case("Relay"@, t) == eq_ignore_ascii_case(t, "Relay"@));
}

proof fn lemma_shown_groups_members(entries: Seq<(String, ProxyInfo)>)
    ensures
        forall|i: int|
            0 <= i < entries.len() && shown_group(named(entries[i].0, entries[i].1))
                ==> #[trigger] shown_groups(entries).contains(named(entries[i].0, entries[i].1)),
        forall|q: ProxyInfo|
            #[trigger] shown_groups(entries).contains(q) ==> shown_group(q) && exists|i: int|
                0 <= i < entries.len() && q == named(entries[i].0, entries[i].1),
    decreases entries.len(),
{
    if entries.len() > 0 {
        let rest = entries.drop_last();
        lemma_shown_groups_members(rest);
        let pre = shown_groups(rest);
        let p = named(entries.last().0, entries.last().1);
        assert forall|i: int|
            0 <= i < entries.len() && shown_group(named(entries[i].0, entries[i].1))
                implies #[trigger] shown_groups(entries).contains(
            named(entries[i].0, entries[i].1),
        ) by {
            if i < entries.len() - 1 {
                assert(entries[i] == rest[i]);
                assert(pre.contains(named(rest[i].0, rest[i].1)));
                let k = choose|k: int| 0 <= k < pre.len() && pre[k] == named(rest[i].0, rest[i].1);
                if shown_group(p) {
                    assert(shown_groups(entries) == pre.push(p));
                    assert(shown_groups(entries)[k] == pre[k]);
                } else {
                    assert(shown_groups(entries) == pre);
                }
            } else {
                assert(shown_groups(entries) == pre.push(p));
                assert(shown_groups(entries)[pre.len() as int] == p);
            }
        }
        assert forall|q: ProxyInfo| #[trigger] shown_groups(entries).contains(q) implies shown_group(
            q,
        ) && exists|i: int| 0 <= i < entries.len() && q == named(entries[i].0, entries[i].1) by {
            let k = choose|k: int| 0 <= k < shown_groups(entries).len() && shown_groups(entries)[k] == q;
            if shown_group(p) {
                assert(shown_groups(entries) == pre.push(p));
            } else {
                assert(shown_groups(entries) == pre);
            }
            if k < pre.len() {
                assert(pre[k] == q);
                assert(pre.contains(q));
                let i = choose|i: int| 0 <= i < rest.len() && q == named(rest[i].0, rest[i].1);
                assert(entries[i] == rest[i]);
            } else {
                assert(q == p);
                assert(entries[entries.len() - 1] == entries.last());
            }
        }
    }
}

/// The groups the menu shows, from the answer to `GET /proxies`: every listed proxy of one
/// of the group types (see `listed_group_type`) that is not hidden and not named `GLOBAL`
/// is among them (under its key when it has no name), nothing else is, and they come in
/// order of name.
pub proof fn lemma_proxy_groups_members(entries: Seq<(String, ProxyInfo)>)
    ensures
        forall|i: int|
            0 <= i < entries.len() && listed_group_type(named(entries[i].0, entries[i].1).proxy_type@)
                && named(entries[i].0, entries[i].1).hidden != Some(true) && named(
                entries[i].0,
                entries[i].1,
            ).name@ != "GLOBAL"@ ==> #[trigger] sorted_by_key(shown_groups(entries)).contains(
                named(entries[i].0, entries[i].1),
            ),
        forall|q: ProxyInfo|
            #[trigger] sorted_by_key(shown_groups(entries)).contains(q) ==> listed_group_type(
                q.proxy_type@,
            ) && q.hidden != Some(true) && q.name@ != "GLOBAL"@ && exists|i: int|
                0 <= i < entries.len() && q == named(entries[i].0, entries[i].1),
        forall|i: int, j: int|
            0 <= i < j < sorted_by_key(shown_groups(entries)).len() ==> !lex_lt(
                (#[trigger] sorted_by_key(shown_groups(entries))[j]).name@,
                (#[trigger] sorted_by_key(shown_groups(entries))[i]).name@,
            ),
{
    lemma_sorted_by_key_is_sorted(shown_groups(entries));
    let shown = shown_groups(entries);
    let sorted = sorted_by_key(shown);
    assert forall|i: int, j: int| 0 <= i < j < sorted.len() implies !lex_lt(
        (#[trigger] sorted[j]).name@,
        (#[trigger] sorted[i]).name@,
    ) by {
        assert(sorted[j].sort_key() == sorted[j].name@);
        assert(sorted[i].sort_key() == sorted[i].name@);
        assert(!lex_lt(sorted[j].sort_key(), sorted[i].sort_key()));
    }
    lemma_shown_groups_members(entries);
    lemma_sorted_by_key_permutes(shown);
    assert forall|q: ProxyInfo| #[trigger] sorted.contains(q) == shown.contains(q) by {
        vstd::seq_lib::to_multiset_contains(sorted, q);
        vstd::seq_lib::to_multiset_contains(shown, q);
    }
    assert forall|i: int|
        0 <= i < entries.len() && listed_group_type(named(entries[i].0, entries[i].1).proxy_type@)
            && named(entries[i].0, entries[i].1).hidden != Some(true) && named(
            entries[i].0,
            entries[i].1,
        ).name@ != "GLOBAL"@ implies #[trigger] sorted.contains(named(entries[i].0, entries[i].1)) by {
        let p = named(entries[i].0, entries[i].1);
        lemma_is_group_type_listed(p.proxy_type@);
        assert(shown.contains(p));
    }
    assert forall|q: ProxyInfo| #[trigger] sorted.contains(q) implies listed_group_type(
        q.proxy_type@,
    ) && q.hidden != Some(true) && q.name@ != "GLOBAL"@ && exists|i: int|
        0 <= i < entries.len() && q == named(entries[i].0, entries[i].1) by {
        assert(shown.contains(q));
        lemma_is_group_type_listed(q.proxy_type@);
    }
}

fn group_type_exec(t: &str) -> (r: bool)
    ensures
        r == is_group_type(t@),
{
    let tv = chars_of(t);
    let a = chars_of("Selector");
    let b = chars_of("URLTest");
    let c = chars_of("Fallback");
    let d = chars_of("LoadBalance");
    let e = chars_of("Relay");
    eq_ignore_case(a.as_slice(), tv.as_slice()) || eq_ignore_case(b.as_slice(), tv.as_slice())
        || eq_ignore_case(c.as_slice(), tv.as_slice()) || eq_ignore_case(
        d.as_slice(),
        tv.as_slice(),
    ) || eq_ignore_case(e.as_slice(), tv.as_slice())
}

fn shown_group_exec(p: &ProxyInfo) -> (r: bool)
    ensures
        r == shown_group(*p),
{
    let hidden = match p.hidden {
        Some(h) => h,
        None => false,
    };
    let nv = chars_of(p.name.as_str());
    let g = chars_of("GLOBAL");
    group_type_exec(p.proxy_type.as_str()) && !hidden && !crate::text::chars_eq(
        nv.as_slice(),
        g.as_slice(),
    )
}

impl ApiClient {
    /// A client for the core started with this profile: the host's local endpoint, the
    /// profile's secret, and the default timeout.
    pub fn from_profile(meta: &ProfileMeta, host: HostOs) -> (r: Self)
        ensures
            r.socket@ == ipc_path_of(host),
            opt_str_view(r.secret) == secret_of(opt_str_view(meta.secret)),
            r.timeout_ms == DEFAULT_TIMEOUT_MS,
    {
        ApiClient { socket: core_ipc_path(host), secret: meta.secret(), timeout_ms: DEFAULT_TIMEOUT_MS }
    }

    pub fn with_timeout(self, timeout_ms: u64) -> (r: Self)
        ensures
            r.socket == self.socket,
            r.secret == self.secret,
            r.timeout_ms == timeout_ms,
    {
        ApiClient { timeout_ms, ..self }
    }

    /// The request text for a call, with this client's secret.
    pub fn request_text(&self, call: &ApiCall) -> (r: String)
        ensures
            r@ == request_text(
                call.method@,
                call.path@,
                opt_view(self.secret),
                match call.body {
                    Some(b) => b@,
                    None => Seq::empty(),
                },
            ),
    {
        match &call.body {
            Some(b) => build_request(call.method, call.path.as_str(), &self.secret, Some(b.as_str())),
            None => build_request(call.method, call.path.as_str(), &self.secret, None),
        }
    }

    /// The groups for the menu, from the answer to `GET /proxies`: named, shown groups only
    /// (see `shown_group`), stably sorted by name.
    pub fn proxy_groups(resp: ProxiesResponse) -> (r: Vec<ProxyInfo>)
        ensures
            r@ == sorted_by_key(shown_groups(resp.proxies@)),
    {
        let mut input = resp.proxies;
        let ghost all = input@;
        let total = input.len();
        let mut keep: Vec<ProxyInfo> = Vec::new();
        let mut n: usize = 0;
        while input.len() > 0
            invariant
                n + input@.len() == all.len(),
                all.len() == total,
                input@ == all.skip(n as int),
                keep@ == shown_groups(all.take(n as int)),
            decreases input@.len(),
        {
            let (k, p) = input.remove(0);
            let q = name_entry(&k, p);
            assert(all.take(n + 1).drop_last() =~= all.take(n as int));
            assert(all.take(n + 1).last() == (k, p));
            if shown_group_exec(&q) {
                keep.push(q);
            }
            n += 1;
            assert(input@ =~= all.skip(n as int));
        }
        assert(all.take(n as int) =~= all);
        sort_by_key(keep)
    }

    /// The HTTP proxy port the core listens on, from `GET /configs` (0 means unset).
    pub fn http_port(cfg: &RuntimeConfig) -> (r: u16)
        ensures
            r == port_or_default(cfg.mixed_port, cfg.port),
            r != 0,
    {
        pick_port(cfg.mixed_port, cfg.port)
    }

    /// The SOCKS proxy port the core listens on, from `GET /configs` (0 means unset).
    pub fn socks_port(cfg: &RuntimeConfig) -> (r: u16)
        ensures
            r == port_or_default(cfg.socks_port, cfg.mixed_port),
            r != 0,
    {
        pick_port(cfg.socks_port, cfg.mixed_port)
    }

    /// Whether TUN is on, from `GET /configs`; absent means off.
    pub fn tun_enabled(cfg: &RuntimeConfig) -> (r: bool)
        ensures
            r == match cfg.tun {
                Some(t) => t.enable == Some(true),
                None => false,
            },
    {
        match &cfg.tun {
            Some(t) => match t.enable {
                Some(b) => b,
                None => false,
            },
            None => false,
        }
    }
}

// ------------------------------------------------------------------ calls
/// A call to the API.
#[derive(Debug, Clone)]
pub struct ApiCall {
    pub method: &'static str,
    pub path: String,
    pub body: Option<String>,
    /// `None` keeps the client's timeout.
    pub timeout_ms: Option<u64>,
}

fn owned(s: &str) -> (r: String)
    ensures
        r@ == s@,
{
    let v = chars_of(s);
    string_from_chars(v.as_slice())
}

fn simple_call(method: &'static str, path: &str) -> (r: ApiCall)
    ensures
        r.method@ == method@,
        r.path@ == path@,
        r.body is None,
        r.timeout_ms is None,
{
    ApiCall { method, path: owned(path), body: None, timeout_ms: None }
}

pub fn version_call() -> (r: ApiCall)
    ensures
        r.method@ == "GET"@,
        r.path@ == "/version"@,
        r.body is None,
        r.timeout_ms is None,
{
    simple_call("GET", "/version")
}

pub fn proxies_call() -> (r: ApiCall)
    ensures
        r.method@ == "GET"@,
        r.path@ == "/proxies"@,
        r.body is None,
        r.timeout_ms is None,
{
    simple_call("GET", "/proxies")
}

pub fn configs_call() -> (r: ApiCall)
    ensures
        r.method@ == "GET"@,
        r.path@ == "/configs"@,
        r.body is None,
        r.timeout_ms is None,
{
    simple_call("GET", "/configs")
}

/// A lower-case hexadecimal digit.
pub open spec fn hex_lower(v: u32) -> char {
    if v < 10 {
        (v + 48) as char
    } else {
        (v - 10 + 97) as char
    }
}

/// One character inside a JSON string as `serde_json` writes it: `"` and `\` behind a
/// backslash, the short escapes `\b \f \n \r \t`, `\u00xx` (lower-case hex) for the other
/// control characters below 0x20, and every other character as it is.
pub open spec fn json_char(c: char) -> Seq<char> {
    let u = c as u32;
    if c == '"' {
        seq!['\\', '"']
    } else if c == '\\' {
        seq!['\\', '\\']
    } else if u == 0x08 {
        seq!['\\', 'b']
    } else if u == 0x0c {
        seq!['\\', 'f']
    } else if u == 0x0a {
        seq!['\\', 'n']
    } else if u == 0x0d {
        seq!['\\', 'r']
    } else if u == 0x09 {
        seq!['\\', 't']
    } else if u < 0x20 {
        seq!['\\', 'u', '0', '0', hex_lower(u / 16), hex_lower(u % 16)]
    } else {
        seq![c]
    }
}

pub open spec fn json_chars(s: Seq<char>) -> Seq<char>
    decreases s.len(),
{
    if s.len() == 0 {
        Seq::empty()
    } else {
        json_chars(s.drop_last()) + json_char(s.last())
    }
}

/// JSON text of a string value as `serde_json` writes it: the escaped characters in
/// double quotes.
pub open spec fn json_string(s: Seq<char>) -> Seq<char> {
    seq!['"'] + json_chars(s) + seq!['"']
}

/// The JSON string literal for `s` (`serde_json::to_string` of a `str`): its escape table
/// (`ESCAPE` and `write_char_escape` in `ser.rs`) is what `json_string` states. Serialising
/// a `str` into memory cannot fail.
#[verifier::external_body]
pub(crate) fn json_quote(s: &str) -> (r: String)
    ensures
        r@ == json_string(s@),
{
    serde_json::to_string(s).unwrap_or_default()
}

/// `PUT /proxies/<group>` with `{"name": <name>}`: select a group member.
pub open spec fn select_body(name: Seq<char>) -> Seq<char> {
    "{\"name\":"@ + json_string(name) + "}"@
}

pub fn select_proxy_call(group: &str, name: &str) -> (r: ApiCall)
    ensures
        r.method@ == "PUT"@,
        r.path@ == "/proxies/"@ + url_encode(group@),
        r.body matches Some(b) && b@ == select_body(name@),
        r.timeout_ms is None,
{
    let mut path = chars_of("/proxies/");
    let enc = urlencoding(group);
    let ev = chars_of(enc.as_str());
    extend_chars(&mut path, ev.as_slice());
    let mut body = chars_of("{\"name\":");
    let q = json_quote(name);
    extend_str(&mut body, q.as_str());
    extend_str(&mut body, "}");
    ApiCall {
        method: "PUT",
        path: string_from_chars(path.as_slice()),
        body: Some(string_from_chars(body.as_slice())),
        timeout_ms: None,
    }
}

/// `GET /group/<group>/delay?url=<test url>&timeout=<ms>`, allowed a longer timeout.
pub open spec fn group_delay_path(group: Seq<char>) -> Seq<char> {
    "/group/"@ + url_encode(group) + "/delay?url="@ + url_encode(DELAY_TEST_URL@) + "&timeout="@
        + decimal(DELAY_TIMEOUT_MS as nat)
}

pub fn group_delay_call(group: &str) -> (r: ApiCall)
    ensures
        r.method@ == "GET"@,
        r.path@ == group_delay_path(group@),
        r.body is None,
        r.timeout_ms == Some(GROUP_DELAY_TIMEOUT_MS),
{
    let mut path = chars_of("/group/");
    let g = urlencoding(group);
    extend_str(&mut path, g.as_str());
    extend_str(&mut path, "/delay?url=");
    let u = urlencoding(DELAY_TEST_URL);
    extend_str(&mut path, u.as_str());
    extend_str(&mut path, "&timeout=");
    let d = decimal_chars(DELAY_TIMEOUT_MS as u64);
    extend_chars(&mut path, d.as_slice());
    ApiCall {
        method: "GET",
        path: string_from_chars(path.as_slice()),
        body: None,
        timeout_ms: Some(GROUP_DELAY_TIMEOUT_MS),
    }
}

/// `PATCH /configs` with the given JSON document.
pub fn patch_configs_call(body: String) -> (r: ApiCall)
    ensures
        r.method@ == "PATCH"@,
        r.path@ == "/configs"@,
        r.body == Some(body),
        r.timeout_ms is None,
{
    ApiCall { method: "PATCH", path: owned("/configs"), body: Some(body), timeout_ms: None }
}

/// `PUT /configs?force=true` with `{"path": <path>, "payload": ""}`: reload a profile.
pub open spec fn reload_body(path: Seq<char>) -> Seq<char> {
    "{\"path\":"@ + json_string(path) + ",\"payload\":\"\"}"@
}

pub fn reload_config_call(path: &str) -> (r: ApiCall)
    ensures
        r.method@ == "PUT"@,
        r.path@ == "/configs?force=true"@,
        r.body matches Some(b) && b@ == reload_body(path@),
        r.timeout_ms is None,
{
    let mut body = chars_of("{\"path\":");
    let q = json_quote(path);
    extend_str(&mut body, q.as_str());
    extend_str(&mut body, ",\"payload\":\"\"}");
    ApiCall {
        method: "PUT",
        path: owned("/configs?force=true"),
        body: Some(string_from_chars(body.as_slice())),
        timeout_ms: None,
    }
}

/// The configuration patch that turns TUN on (mixed stack, automatic routing and interface
/// detection, DNS hijack of port 53) or off. Keys are in the order `serde_json` writes an
/// object's keys.
pub open spec fn tun_patch(enable: bool) -> Seq<char> {
    if enable {
        "{\"tun\":{\"auto-detect-interface\":true,\"auto-route\":true,\"dns-hijack\":[\"any:53\"],\"enable\":true,\"stack\":\"mixed\"}}"@
    } else {
        "{\"tun\":{\"enable\":false}}"@
    }
}

pub fn set_tun_call(enable: bool) -> (r: ApiCall)
    ensures
        r.method@ == "PATCH"@,
        r.path@ == "/configs"@,
        r.body matches Some(b) && b@ == tun_patch(enable),
        r.timeout_ms is None,
{
    let body = if enable {
        owned(
            "{\"tun\":{\"auto-detect-interface\":true,\"auto-route\":true,\"dns-hijack\":[\"any:53\"],\"enable\":true,\"stack\":\"mixed\"}}",
        )
    } else {
        owned("{\"tun\":{\"enable\":false}}")
    };
    patch_configs_call(body)
}

// ------------------------------------------------------------------ replies
/// Why a call failed, as far as the reply shows.
#[derive(Debug, Clone)]
pub enum ApiError {
    /// The reply was not a readable HTTP response.
    Http(HttpError),
    /// The reply's status was not a success.
    Status { status: u16, body: Vec<u8> },
}

/// The payload of a complete reply: its body on a 2xx status, otherwise an error carrying
/// the status and body.
pub open spec fn payload_of(state: ResponseState) -> Option<Result<Seq<u8>, (u16, Seq<u8>)>> {
    match state {
        ResponseState::Complete(status, body) => if is_success(status) {
            Some(Ok(body))
        } else {
            Some(Err((status, body)))
        },
        _ => None,
    }
}

/// The payload of a reply read to the end of the stream.
pub fn reply_payload(progress: crate::http::ResponseProgress) -> (r: Result<Vec<u8>, ApiError>)
    ensures
        match progress@ {
            ResponseState::Complete(status, body) => if is_success(status) {
                r matches Ok(b) && b@ == body
            } else {
                r matches Err(ApiError::Status { status: s, body: b }) && s == status && b@
                    == body
            },
            ResponseState::Failed(e) => r matches Err(ApiError::Http(x)) && x == e,
            ResponseState::NeedMore => r matches Err(ApiError::Http(x)) && x
                == HttpError::UnexpectedEofInHeaders,
        },
{
    match progress {
        crate::http::ResponseProgress::Complete { status, body } => {
            if crate::http::status_is_success(status) {
                Ok(body)
            } else {
                Err(ApiError::Status { status, body })
            }
        },
        crate::http::ResponseProgress::Failed(e) => Err(ApiError::Http(e)),
        crate::http::ResponseProgress::NeedMore => Err(
            ApiError::Http(HttpError::UnexpectedEofInHeaders),
        ),
    }
}

/// One step of waiting for the API: after `attempt` failed probes (counted from one), try
/// again while fewer than `attempts` have been made.
#[derive(Debug, Clone, Copy, PartialEq, Eq, Structural)]
pub enum ReadyStep {
    Ready,
    Retry,
    GiveUp,
}

pub fn wait_ready_step(probe_ok: bool, attempt: u32, attempts: u32) -> (r: ReadyStep)
    ensures
        probe_ok ==> r == ReadyStep::Ready,
        !probe_ok ==> (r == if attempt >= attempts {
            ReadyStep::GiveUp
        } else {
            ReadyStep::Retry
        }),
{
    if probe_ok {
        ReadyStep::Ready
    } else if attempt >= attempts {
        ReadyStep::GiveUp
    } else {
        ReadyStep::Retry
    }
}

// ------------------------------------------------------------------ URL encoding
/// Bytes that stand for themselves in a URL: ASCII letters, digits, and `-_.~`.
pub open spec fn is_unreserved(b: u8) -> bool {
    (65 <= b <= 90) || (97 <= b <= 122) || (48 <= b <= 57) || b == 45 || b == 95 || b == 46 || b
        == 126
}

pub open spec fn hex_digit(v: u8) -> char {
    if v < 10 {
        ((v + 48) as u32) as char
    } else {
        ((v - 10 + 65) as u32) as char
    }
}

/// One byte, percent-encoded unless unreserved (upper-case hex digits).
pub open spec fn encode_byte(b: u8) -> Seq<char> {
    if is_unreserved(b) {
        seq![(b as u32) as char]
    } else {
        seq!['%', hex_digit(b >> 4), hex_digit(b & 15)]
    }
}

pub open spec fn url_encode_bytes(bs: Seq<u8>) -> Seq<char>
    decreases bs.len(),
{
    if bs.len() == 0 {
        Seq::empty()
    } else {
        encode_byte(bs[0]) + url_encode_bytes(bs.drop_first())
    }
}

/// Percent-encoding of the UTF-8 bytes of `s`.
pub open spec fn url_encode(s: Seq<char>) -> Seq<char> {
    url_encode_bytes(encode_utf8(s))
}

proof fn lemma_url_encode_push(bs: Seq<u8>, b: u8)
    ensures
        url_encode_bytes(bs.push(b)) == url_encode_bytes(bs) + encode_byte(b),
    decreases bs.len(),
{
    let t = bs.push(b);
    assert(t.len() > 0);
    assert(url_encode_bytes(t) == encode_byte(t[0]) + url_encode_bytes(t.drop_first()));
    if bs.len() == 0 {
        assert(t.drop_first() =~= Seq::<u8>::empty());
        assert(url_encode_bytes(t.drop_first()) == Seq::<char>::empty());
        assert(t[0] == b);
        assert(url_encode_bytes(bs) == Seq::<char>::empty());
        assert(encode_byte(b) + Seq::<char>::empty() =~= encode_byte(b));
        assert(Seq::<char>::empty() + encode_byte(b) =~= encode_byte(b));
    } else {
        lemma_url_encode_push(bs.drop_first(), b);
        assert(t.drop_first() =~= bs.drop_first().push(b));
        assert(t[0] == bs[0]);
        assert(url_encode_bytes(bs) == encode_byte(bs[0]) + url_encode_bytes(bs.drop_first()));
        assert(encode_byte(bs[0]) + (url_encode_bytes(bs.drop_first()) + encode_byte(b))
            =~= (encode_byte(bs[0]) + url_encode_bytes(bs.drop_first())) + encode_byte(b));
    }
}

fn hex_char(v: u8) -> (r: char)
    requires
        v < 16,
    ensures
        r == hex_digit(v),
{
    if v < 10 {
        (48u8 + v) as char
    } else {
        (v - 10 + 65) as char
    }
}

/// Percent-encodes every byte of `s` that is not unreserved.
pub fn urlencoding(s: &str) -> (r: String)
    ensures
        r@ == url_encode(s@),
{
    let bytes = s.as_bytes();
    let mut out: Vec<char> = Vec::new();
    let mut i: usize = 0;
    while i < bytes.len()
        invariant
            i <= bytes@.len(),
            bytes@ == encode_utf8(s@),
            out@ == url_encode_bytes(bytes@.take(i as int)),
        decreases bytes@.len() - i,
    {
        let b = bytes[i];
        proof {
            lemma_url_encode_push(bytes@.take(i as int), b);
            assert(bytes@.take(i + 1) =~= bytes@.take(i as int).push(b));
        }
        if (65 <= b && b <= 90) || (97 <= b && b <= 122) || (48 <= b && b <= 57) || b == 45 || b
            == 95 || b == 46 || b == 126 {
            out.push(b as char);
            assert(out@ =~= url_encode_bytes(bytes@.take(i as int)) + encode_byte(b));
        } else {
            assert(b >> 4 < 16 && b & 15 < 16) by (bit_vector);
            out.push('%');
            out.push(hex_char(b >> 4));
            out.push(hex_char(b & 15));
            assert(out@ =~= url_encode_bytes(bytes@.take(i as int)) + encode_byte(b));
        }
        i += 1;
    }
    assert(bytes@.take(i as int) =~= bytes@);
    string_from_chars(out.as_slice())
}

/// Value of an upper-case hex digit.
pub open spec fn hex_value(c: char) -> int {
    if '0' <= c <= '9' {
        (c as u32) - 48
    } else {
        (c as u32) - 55
    }
}

/// Percent-decoding: `%XY` stands for the byte `0xXY`; any other character for its own
/// code (the encoder only writes ASCII).
pub open spec fn url_decode(t: Seq<char>) -> Seq<u8>
    decreases t.len(),
{
    if t.len() == 0 {
        Seq::empty()
    } else if t[0] == '%' && t.len() >= 3 {
        seq![(hex_value(t[1]) * 16 + hex_value(t[2])) as u8] + url_decode(t.skip(3))
    } else {
        seq![(t[0] as u32) as u8] + url_decode(t.drop_first())
    }
}

proof fn lemma_decode_byte(b: u8, rest: Seq<char>)
    ensures
        url_decode(encode_byte(b) + rest) == seq![b] + url_decode(rest),
{
    let e = encode_byte(b);
    if is_unreserved(b) {
        assert((e + rest).drop_first() =~= rest);
        assert(((b as u32) as char) as u32 == b as u32);
    } else {
        assert((e + rest).skip(3) =~= rest);
        let hi = b >> 4;
        let lo = b & 15;
        assert((b >> 4) < 16 && (b & 15) < 16 && (b >> 4) * 16 + (b & 15) == b) by (bit_vector);
        assert(hex_value(hex_digit(hi)) == hi);
        assert(hex_value(hex_digit(lo)) == lo);
    }
}

/// Percent-decoding undoes the encoding.
pub proof fn lemma_url_roundtrip(bs: Seq<u8>)
    ensures
        url_decode(url_encode_bytes(bs)) == bs,
    decreases bs.len(),
{
    if bs.len() > 0 {
        lemma_url_roundtrip(bs.drop_first());
        lemma_decode_byte(bs[0], url_encode_bytes(bs.drop_first()));
        assert(seq![bs[0]] + bs.drop_first() =~= bs);
    }
}

} // verus!
