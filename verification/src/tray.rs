//! The tray menu: what it holds, in order, and which action each item triggers.
//!
//! `build_menu` lays the menu out as a flat list of lines, where a submenu is the lines
//! between its `SubmenuStart` and `SubmenuEnd`. Items that trigger an action get an id
//! `"<prefix>:<n>"` from a running counter, and the id is recorded with the action in
//! `MenuIds`. Labels are message keys (with their arguments); the caller translates them.

use vstd::prelude::*;

use crate::api::{latest_delay, latest_delay_of, ProxyInfo};
use crate::paths::{display_name, profile_display_name};
use crate::profile::{path_eq, paths_equal};
use crate::text::{
    chars_eq, chars_of, decimal, decimal_chars, extend_chars, extend_str, lemma_decimal_injective,
    starts_with, string_from_chars,
};

verus! {

/// What a menu item does.
#[derive(Debug, Clone)]
pub enum Action {
    ToggleSystemProxy,
    ToggleTun,
    InstallService,
    UninstallService,
    SpeedTest(String),
    SelectProxy { group: String, name: String },
    SwitchProfile(String),
    ImportProfile,
    OpenConfigFolder,
    SetLocale(&'static str),
    Quit,
}

pub enum ActionView {
    ToggleSystemProxy,
    ToggleTun,
    InstallService,
    UninstallService,
    SpeedTest(Seq<char>),
    SelectProxy { group: Seq<char>, name: Seq<char> },
    SwitchProfile(Seq<char>),
    ImportProfile,
    OpenConfigFolder,
    SetLocale(Seq<char>),
    Quit,
}

impl View for Action {
    type V = ActionView;

    open spec fn view(&self) -> ActionView {
        match self {
            Action::ToggleSystemProxy => ActionView::ToggleSystemProxy,
            Action::ToggleTun => ActionView::ToggleTun,
            Action::InstallService => ActionView::InstallService,
            Action::UninstallService => ActionView::UninstallService,
            Action::SpeedTest(g) => ActionView::SpeedTest(g@),
            Action::SelectProxy { group, name } => ActionView::SelectProxy {
                group: group@,
                name: name@,
            },
            Action::SwitchProfile(p) => ActionView::SwitchProfile(p@),
            Action::ImportProfile => ActionView::ImportProfile,
            Action::OpenConfigFolder => ActionView::OpenConfigFolder,
            Action::SetLocale(l) => ActionView::SetLocale(l@),
            Action::Quit => ActionView::Quit,
        }
    }
}

/// Menu ids and the actions they trigger; a later entry for an id replaces an earlier one.
#[derive(Debug, Clone)]
pub struct MenuIds {
    pub map: Vec<(String, Action)>,
}

pub open spec fn ids_map(entries: Seq<(String, Action)>) -> Map<Seq<char>, ActionView>
    decreases entries.len(),
{
    if entries.len() == 0 {
        Map::empty()
    } else {
        ids_map(entries.drop_last()).insert(entries.last().0@, entries.last().1@)
    }
}

impl View for MenuIds {
    type V = Map<Seq<char>, ActionView>;

    open spec fn view(&self) -> Map<Seq<char>, ActionView> {
        ids_map(self.map@)
    }
}

proof fn lemma_ids_map_last(entries: Seq<(String, Action)>, key: Seq<char>, j: int)
    requires
        -1 <= j < entries.len(),
        forall|k: int| j < k < entries.len() ==> (#[trigger] entries[k]).0@ != key,
        j >= 0 ==> entries[j].0@ == key,
    ensures
        j >= 0 ==> ids_map(entries).contains_key(key) && ids_map(entries)[key] == entries[j].1@,
        j < 0 ==> !ids_map(entries).contains_key(key),
    decreases entries.len(),
{
    if entries.len() > 0 {
        let pre = entries.drop_last();
        if j == entries.len() - 1 {
        } else {
            assert forall|k: int| j < k < pre.len() implies (#[trigger] pre[k]).0@ != key by {
                assert(pre[k] == entries[k]);
            }
            if j >= 0 {
                assert(pre[j] == entries[j]);
            }
            lemma_ids_map_last(pre, key, j);
        }
    }
}

impl MenuIds {
    pub fn new() -> (r: Self)
        ensures
            r@ == Map::<Seq<char>, ActionView>::empty(),
    {
        MenuIds { map: Vec::new() }
    }

    /// Records that `id` triggers `action`.
    pub fn track(&mut self, id: String, action: Action)
        ensures
            final(self)@ == old(self)@.insert(id@, action@),
    {
        self.map.push((id, action));
        assert(self.map@.drop_last() =~= old(self).map@);
    }

    /// The action of a menu id.
    pub fn resolve(&self, id: &str) -> (r: Option<&Action>)
        ensures
            self@.contains_key(id@) ==> (r matches Some(a) && a@ == self@[id@]),
            !self@.contains_key(id@) ==> r is None,
    {
        let key = chars_of(id);
        let mut i = self.map.len();
        while i > 0
            invariant
                i <= self.map@.len(),
                key@ == id@,
                forall|k: int| i <= k < self.map@.len() ==> (#[trigger] self.map@[k]).0@ != id@,
            decreases i,
        {
            let ek = chars_of(self.map[i - 1].0.as_str());
            if chars_eq(ek.as_slice(), key.as_slice()) {
                proof {
                    lemma_ids_map_last(self.map@, id@, i - 1);
                }
                return Some(&self.map[i - 1].1);
            }
            i -= 1;
        }
        proof {
            lemma_ids_map_last(self.map@, id@, -1);
        }
        None
    }
}

/// An id recorded for an action resolves to that action.
pub proof fn lemma_track_resolves(ids: Map<Seq<char>, ActionView>, id: Seq<char>, a: ActionView)
    ensures
        ids.insert(id, a).contains_key(id),
        ids.insert(id, a)[id] == a,
{
}

// ------------------------------------------------------------------ labels and lines
/// Message shown on a menu line.
#[derive(Debug, Clone)]
pub enum Label {
    SystemProxy,
    TunMode,
    UninstallService,
    InstallService,
    NoGroups,
    SpeedTest,
    /// A node whose last delay test timed out.
    NodeTimeout(String),
    /// A node with its tested delay in milliseconds.
    NodeDelay(String, u16),
    /// Literal text: a group, node or profile name.
    Text(String),
    Config,
    ImportProfile,
    OpenConfigFolder,
    Language,
    LangZh,
    LangEn,
    Quit,
}

pub enum LabelView {
    SystemProxy,
    TunMode,
    UninstallService,
    InstallService,
    NoGroups,
    SpeedTest,
    NodeTimeout(Seq<char>),
    NodeDelay(Seq<char>, u16),
    Text(Seq<char>),
    Config,
    ImportProfile,
    OpenConfigFolder,
    Language,
    LangZh,
    LangEn,
    Quit,
}

impl View for Label {
    type V = LabelView;

    open spec fn view(&self) -> LabelView {
        match self {
            Label::SystemProxy => LabelView::SystemProxy,
            Label::TunMode => LabelView::TunMode,
            Label::UninstallService => LabelView::UninstallService,
            Label::InstallService => LabelView::InstallService,
            Label::NoGroups => LabelView::NoGroups,
            Label::SpeedTest => LabelView::SpeedTest,
            Label::NodeTimeout(n) => LabelView::NodeTimeout(n@),
            Label::NodeDelay(n, d) => LabelView::NodeDelay(n@, *d),
            Label::Text(t) => LabelView::Text(t@),
            Label::Config => LabelView::Config,
            Label::ImportProfile => LabelView::ImportProfile,
            Label::OpenConfigFolder => LabelView::OpenConfigFolder,
            Label::Language => LabelView::Language,
            Label::LangZh => LabelView::LangZh,
            Label::LangEn => LabelView::LangEn,
            Label::Quit => LabelView::Quit,
        }
    }
}

/// Kind of a menu line.
#[derive(Debug, Clone, Copy, PartialEq, Eq, Structural)]
pub enum LineKind {
    /// A check item, checked or not.
    Check(bool),
    /// A plain item, enabled or not.
    Item(bool),
    Separator,
    /// Opens a submenu; the lines up to the matching `SubmenuEnd` are its items.
    SubmenuStart,
    SubmenuEnd,
}

/// A menu line before ids are given out.
pub struct Draft {
    pub kind: LineKind,
    pub label: Option<Label>,
    /// The id prefix and action of an item that triggers one.
    pub track: Option<(&'static str, Action)>,
}

pub struct DraftView {
    pub kind: LineKind,
    pub label: Option<LabelView>,
    pub track: Option<(Seq<char>, ActionView)>,
}

impl View for Draft {
    type V = DraftView;

    open spec fn view(&self) -> DraftView {
        DraftView {
            kind: self.kind,
            label: match self.label {
                Some(l) => Some(l@),
                None => None,
            },
            track: match self.track {
                Some((p, a)) => Some((p@, a@)),
                None => None,
            },
        }
    }
}

/// A line of the built menu.
#[derive(Debug, Clone)]
pub struct MenuLine {
    pub kind: LineKind,
    pub label: Option<Label>,
    pub id: Option<String>,
}

pub struct LineView {
    pub kind: LineKind,
    pub label: Option<LabelView>,
    pub id: Option<Seq<char>>,
}

impl View for MenuLine {
    type V = LineView;

    open spec fn view(&self) -> LineView {
        LineView {
            kind: self.kind,
            label: match self.label {
                Some(l) => Some(l@),
                None => None,
            },
            id: match self.id {
                Some(i) => Some(i@),
                None => None,
            },
        }
    }
}

pub open spec fn lines_view(s: Seq<MenuLine>) -> Seq<LineView> {
    s.map_values(|l: MenuLine| l@)
}

pub open spec fn drafts_view(s: Seq<Draft>) -> Seq<DraftView> {
    s.map_values(|d: Draft| d@)
}

/// The id counter after `n`; it wraps around like an atomic counter.
pub open spec fn next_counter(n: u64) -> u64 {
    if n == u64::MAX {
        0
    } else {
        (n + 1) as u64
    }
}

/// The id `"<prefix>:<n>"`.
pub open spec fn id_text(prefix: Seq<char>, n: u64) -> Seq<char> {
    prefix + ":"@ + decimal(n as nat)
}

/// The lines, with ids given out in order from `n`, the recorded (id, action) pairs in
/// order, and the counter afterwards.
pub open spec fn numbered(drafts: Seq<DraftView>, n: u64) -> (Seq<LineView>, Seq<(Seq<char>, ActionView)>, u64)
    decreases drafts.len(),
{
    if drafts.len() == 0 {
        (Seq::empty(), Seq::empty(), n)
    } else {
        let (lines, actions, m) = numbered(drafts.drop_last(), n);
        let d = drafts.last();
        match d.track {
            Some((prefix, action)) => {
                let id = id_text(prefix, m);
                (
                    lines.push(LineView { kind: d.kind, label: d.label, id: Some(id) }),
                    actions.push((id, action)),
                    next_counter(m),
                )
            },
            None => (lines.push(LineView { kind: d.kind, label: d.label, id: None }), actions, m),
        }
    }
}

pub open spec fn tracked_view(s: Seq<(String, Action)>) -> Seq<(Seq<char>, ActionView)> {
    s.map_values(|e: (String, Action)| (e.0@, e.1@))
}

fn id_string(prefix: &str, n: u64) -> (r: String)
    ensures
        r@ == id_text(prefix@, n),
{
    let mut v = chars_of(prefix);
    extend_str(&mut v, ":");
    let d = decimal_chars(n);
    extend_chars(&mut v, d.as_slice());
    string_from_chars(v.as_slice())
}

/// Gives out ids; see `numbered`.
pub fn number_drafts(drafts: Vec<Draft>, first: u64) -> (r: (Vec<MenuLine>, MenuIds, u64))
    ensures
        (lines_view(r.0@), tracked_view(r.1.map@), r.2) == numbered(drafts_view(drafts@), first),
{
    let mut input = drafts;
    let ghost all = drafts_view(input@);
    let total = input.len();
    let mut lines: Vec<MenuLine> = Vec::new();
    let mut ids = MenuIds { map: Vec::new() };
    let mut m = first;
    let mut k: usize = 0;
    assert(all.take(0) =~= Seq::<DraftView>::empty());
    assert(lines_view(lines@) =~= Seq::<LineView>::empty());
    assert(tracked_view(ids.map@) =~= Seq::<(Seq<char>, ActionView)>::empty());
    assert(all.skip(0) =~= all);
    while input.len() > 0
        invariant
            k + input@.len() == all.len(),
            all.len() == total,
            drafts_view(input@) == all.skip(k as int),
            (lines_view(lines@), tracked_view(ids.map@), m) == numbered(all.take(k as int), first),
        decreases input@.len(),
    {
        let ghost before = input@;
        let d = input.remove(0);
        proof {
            assert(drafts_view(before)[0] == d@);
            assert(all.take(k + 1).drop_last() =~= all.take(k as int));
            assert(all.take(k + 1).last() == d@);
            assert(input@ =~= before.skip(1));
            assert(drafts_view(input@) =~= drafts_view(before).skip(1));
            assert(all.skip(k as int).skip(1) =~= all.skip(k + 1));
        }
        match d.track {
            Some((prefix, action)) => {
                let id = id_string(prefix, m);
                let id2 = id.clone();
                lines.push(MenuLine { kind: d.kind, label: d.label, id: Some(id) });
                ids.map.push((id2, action));
                m = if m == u64::MAX {
                    0
                } else {
                    m + 1
                };
            },
            None => {
                lines.push(MenuLine { kind: d.kind, label: d.label, id: None });
            },
        }
        k += 1;
        proof {
            assert(lines_view(lines@) =~= numbered(all.take(k as int), first).0);
            assert(tracked_view(ids.map@) =~= numbered(all.take(k as int), first).1);
        }
    }
    assert(all.take(k as int) =~= all);
    (lines, ids, m)
}

// ------------------------------------------------------------------ layout
/// Everything the menu shows.
#[derive(Debug, Clone)]
pub struct TrayState {
    pub system_proxy: bool,
    pub tun: bool,
    pub service_ok: bool,
    pub service_supported: bool,
    pub groups: Vec<ProxyInfo>,
    /// Tested delays per group name, then per member name. Where a group or member name
    /// appears twice, its first entry counts (see `lookup_first`).
    pub delays: Vec<(String, Vec<(String, u16)>)>,
    pub profiles: Vec<String>,
    pub active_profile: Option<String>,
}

pub open spec fn check_draft(label: LabelView, checked: bool, prefix: Seq<char>, action: ActionView) -> DraftView {
    DraftView { kind: LineKind::Check(checked), label: Some(label), track: Some((prefix, action)) }
}

pub open spec fn item_draft(label: LabelView, prefix: Seq<char>, action: ActionView) -> DraftView {
    DraftView { kind: LineKind::Item(true), label: Some(label), track: Some((prefix, action)) }
}

pub open spec fn separator_draft() -> DraftView {
    DraftView { kind: LineKind::Separator, label: None, track: None }
}

pub open spec fn start_draft(label: LabelView) -> DraftView {
    DraftView { kind: LineKind::SubmenuStart, label: Some(label), track: None }
}

pub open spec fn end_draft() -> DraftView {
    DraftView { kind: LineKind::SubmenuEnd, label: None, track: None }
}

/// The switches, the service item where the host has a service, and a separator.
pub open spec fn head_drafts(st: TrayState) -> Seq<DraftView> {
    seq![
        check_draft(LabelView::SystemProxy, st.system_proxy, "sys"@, ActionView::ToggleSystemProxy),
        check_draft(LabelView::TunMode, st.tun, "tun"@, ActionView::ToggleTun),
    ] + (if st.service_supported {
        if st.service_ok {
            seq![item_draft(LabelView::UninstallService, "svc"@, ActionView::UninstallService)]
        } else {
            seq![item_draft(LabelView::InstallService, "svc"@, ActionView::InstallService)]
        }
    } else {
        Seq::empty()
    }) + seq![separator_draft()]
}

/// The value of the first entry with the given key (later entries with the same key are
/// not looked at).
pub open spec fn lookup_first<V>(pairs: Seq<(String, V)>, key: Seq<char>) -> Option<V>
    decreases pairs.len(),
{
    if pairs.len() == 0 {
        None
    } else if pairs[0].0@ == key {
        Some(pairs[0].1)
    } else {
        lookup_first(pairs.drop_first(), key)
    }
}

/// A node's label: its tested delay, a timeout for a delay of 0, or its bare name.
pub open spec fn node_label(name: Seq<char>, delay: Option<u16>) -> LabelView {
    match delay {
        Some(d) => if d == 0 {
            LabelView::NodeTimeout(name)
        } else {
            LabelView::NodeDelay(name, d)
        },
        None => LabelView::Text(name),
    }
}

pub open spec fn member_delay(delays: Option<Seq<(String, u16)>>, member: Seq<char>) -> Option<u16> {
    match delays {
        Some(d) => lookup_first(d, member),
        None => None,
    }
}

pub open spec fn opt_seq<V>(o: Option<Vec<V>>) -> Option<Seq<V>> {
    match o {
        Some(v) => Some(v@),
        None => None,
    }
}

/// One check item per member, checked for the group's current selection.
pub open spec fn member_drafts(
    group: Seq<char>,
    members: Seq<String>,
    delays: Option<Seq<(String, u16)>>,
    now: Seq<char>,
) -> Seq<DraftView>
    decreases members.len(),
{
    if members.len() == 0 {
        Seq::empty()
    } else {
        let m = members.last()@;
        member_drafts(group, members.drop_last(), delays, now).push(
            check_draft(
                node_label(m, member_delay(delays, m)),
                m == now,
                "node"@,
                ActionView::SelectProxy { group, name: m },
            ),
        )
    }
}

pub open spec fn opt_or_empty(o: Option<String>) -> Seq<char> {
    match o {
        Some(s) => s@,
        None => Seq::empty(),
    }
}

pub open spec fn members_of(g: ProxyInfo) -> Seq<String> {
    match g.all {
        Some(a) => a@,
        None => Seq::empty(),
    }
}

/// A group's submenu: the speed test, a separator, and its members.
pub open spec fn group_drafts(g: ProxyInfo, delays: Seq<(String, Vec<(String, u16)>)>) -> Seq<DraftView> {
    seq![
        start_draft(LabelView::Text(g.name@)),
        item_draft(LabelView::SpeedTest, "speed"@, ActionView::SpeedTest(g.name@)),
        separator_draft(),
    ] + member_drafts(
        g.name@,
        members_of(g),
        opt_seq(lookup_first(delays, g.name@)),
        opt_or_empty(g.now),
    ) + seq![end_draft()]
}

pub open spec fn groups_drafts(gs: Seq<ProxyInfo>, delays: Seq<(String, Vec<(String, u16)>)>) -> Seq<DraftView>
    decreases gs.len(),
{
    if gs.len() == 0 {
        Seq::empty()
    } else {
        groups_drafts(gs.drop_last(), delays) + group_drafts(gs.last(), delays)
    }
}

/// The group submenus, or a disabled placeholder when there are none.
pub open spec fn groups_part(st: TrayState) -> Seq<DraftView> {
    if st.groups@.len() == 0 {
        seq![DraftView { kind: LineKind::Item(false), label: Some(LabelView::NoGroups), track: None }]
    } else {
        groups_drafts(st.groups@, st.delays@)
    }
}

pub open spec fn is_active(active: Option<String>, p: Seq<char>) -> bool {
    match active {
        Some(a) => path_eq(a@, p),
        None => false,
    }
}

/// One check item per profile, checked for the active one.
pub open spec fn profile_drafts(profiles: Seq<String>, active: Option<String>) -> Seq<DraftView>
    decreases profiles.len(),
{
    if profiles.len() == 0 {
        Seq::empty()
    } else {
        let p = profiles.last()@;
        profile_drafts(profiles.drop_last(), active).push(
            check_draft(
                LabelView::Text(display_name(p)),
                is_active(active, p),
                "profile"@,
                ActionView::SwitchProfile(display_name(p)),
            ),
        )
    }
}

/// The configuration submenu, the language submenu, a separator and Quit.
pub open spec fn tail_drafts(st: TrayState, zh: bool) -> Seq<DraftView> {
    seq![start_draft(LabelView::Config)] + profile_drafts(st.profiles@, st.active_profile) + seq![
        separator_draft(),
        item_draft(LabelView::ImportProfile, "import"@, ActionView::ImportProfile),
        item_draft(LabelView::OpenConfigFolder, "open"@, ActionView::OpenConfigFolder),
        end_draft(),
        start_draft(LabelView::Language),
        check_draft(LabelView::LangZh, zh, "lang"@, ActionView::SetLocale("zh-CN"@)),
        check_draft(LabelView::LangEn, !zh, "lang"@, ActionView::SetLocale("en"@)),
        end_draft(),
        separator_draft(),
        item_draft(LabelView::Quit, "quit"@, ActionView::Quit),
    ]
}

/// The whole menu, top to bottom, for the current interface locale.
pub open spec fn menu_drafts(st: TrayState, locale: Seq<char>) -> Seq<DraftView> {
    head_drafts(st) + groups_part(st) + seq![separator_draft()] + tail_drafts(
        st,
        starts_with(locale, "zh"@),
    )
}

fn owned(s: &str) -> (r: String)
    ensures
        r@ == s@,
{
    let v = chars_of(s);
    string_from_chars(v.as_slice())
}

fn push_draft(out: &mut Vec<Draft>, d: Draft)
    ensures
        drafts_view(final(out)@) == drafts_view(old(out)@).push(d@),
{
    let ghost dv = d@;
    out.push(d);
    assert(drafts_view(out@) =~= drafts_view(old(out)@).push(dv));
}

fn check(label: Label, checked: bool, prefix: &'static str, action: Action) -> (r: Draft)
    ensures
        r@ == check_draft(label@, checked, prefix@, action@),
{
    Draft { kind: LineKind::Check(checked), label: Some(label), track: Some((prefix, action)) }
}

fn item(label: Label, prefix: &'static str, action: Action) -> (r: Draft)
    ensures
        r@ == item_draft(label@, prefix@, action@),
{
    Draft { kind: LineKind::Item(true), label: Some(label), track: Some((prefix, action)) }
}

fn separator() -> (r: Draft)
    ensures
        r@ == separator_draft(),
{
    Draft { kind: LineKind::Separator, label: None, track: None }
}

fn start(label: Label) -> (r: Draft)
    ensures
        r@ == start_draft(label@),
{
    Draft { kind: LineKind::SubmenuStart, label: Some(label), track: None }
}

fn end() -> (r: Draft)
    ensures
        r@ == end_draft(),
{
    Draft { kind: LineKind::SubmenuEnd, label: None, track: None }
}

fn lookup_index<V>(pairs: &Vec<(String, V)>, key: &str) -> (r: Option<usize>)
    ensures
        match lookup_first(pairs@, key@) {
            Some(v) => (r matches Some(i) && i < pairs@.len() && pairs@[i as int].1 == v),
            None => r is None,
        },
{
    let kv = chars_of(key);
    let mut i: usize = 0;
    assert(pairs@.skip(0) =~= pairs@);
    while i < pairs.len()
        invariant
            i <= pairs@.len(),
            kv@ == key@,
            lookup_first(pairs@, key@) == lookup_first(pairs@.skip(i as int), key@),
        decreases pairs@.len() - i,
    {
        assert(pairs@.skip(i as int).drop_first() =~= pairs@.skip(i + 1));
        let pk = chars_of(pairs[i].0.as_str());
        if chars_eq(pk.as_slice(), kv.as_slice()) {
            return Some(i);
        }
        i += 1;
    }
    None
}

fn member_lines(
    out: &mut Vec<Draft>,
    group: &String,
    members: &Vec<String>,
    delays: Option<&Vec<(String, u16)>>,
    now: &str,
)
    ensures
        drafts_view(final(out)@) == drafts_view(old(out)@) + member_drafts(
            group@,
            members@,
            match delays {
                Some(d) => Some(d@),
                None => None,
            },
            now@,
        ),
{
    let mut i: usize = 0;
    let ghost base = drafts_view(out@);
    let ghost ds = match delays {
        Some(d) => Some(d@),
        None => None::<Seq<(String, u16)>>,
    };
    let nv = chars_of(now);
    assert(members@.take(0) =~= Seq::<String>::empty());
    assert(base + member_drafts(group@, members@.take(0), ds, now@) =~= base);
    while i < members.len()
        invariant
            i <= members@.len(),
            nv@ == now@,
            drafts_view(out@) == base + member_drafts(group@, members@.take(i as int), ds, now@),
            ds == match delays {
                Some(d) => Some(d@),
                None => None::<Seq<(String, u16)>>,
            },
        decreases members@.len() - i,
    {
        let m = &members[i];
        let delay: Option<u16> = match delays {
            Some(d) => match lookup_index(d, m.as_str()) {
                Some(j) => Some(d[j].1),
                None => None,
            },
            None => None,
        };
        assert(delay == member_delay(ds, m@));
        let label = match delay {
            Some(d) => {
                if d == 0 {
                    Label::NodeTimeout(m.clone())
                } else {
                    Label::NodeDelay(m.clone(), d)
                }
            },
            None => Label::Text(m.clone()),
        };
        let mv = chars_of(m.as_str());
        let checked = chars_eq(mv.as_slice(), nv.as_slice());
        let d = check(
            label,
            checked,
            "node",
            Action::SelectProxy { group: group.clone(), name: m.clone() },
        );
        push_draft(out, d);
        proof {
            assert(members@.take(i + 1).drop_last() =~= members@.take(i as int));
            assert(members@.take(i + 1).last() == members@[i as int]);
            assert(drafts_view(out@) =~= base + member_drafts(
                group@,
                members@.take(i + 1),
                ds,
                now@,
            ));
        }
        i += 1;
    }
    assert(members@.take(i as int) =~= members@);
}

fn group_lines(out: &mut Vec<Draft>, g: &ProxyInfo, delays: &Vec<(String, Vec<(String, u16)>)>)
    ensures
        drafts_view(final(out)@) == drafts_view(old(out)@) + group_drafts(*g, delays@),
{
    let ghost base = drafts_view(out@);
    push_draft(out, start(Label::Text(g.name.clone())));
    push_draft(out, item(Label::SpeedTest, "speed", Action::SpeedTest(g.name.clone())));
    push_draft(out, separator());
    let ghost mid = drafts_view(out@);
    let ghost head = seq![
        start_draft(LabelView::Text(g.name@)),
        item_draft(LabelView::SpeedTest, "speed"@, ActionView::SpeedTest(g.name@)),
        separator_draft(),
    ];
    assert(mid =~= base + head);
    let gi = lookup_index(delays, g.name.as_str());
    let group_delays: Option<&Vec<(String, u16)>> = match gi {
        Some(j) => Some(&delays[j].1),
        None => None,
    };
    let now: &str = match &g.now {
        Some(n) => n.as_str(),
        None => "",
    };
    proof {
        reveal_strlit("");
        assert(now@ == opt_or_empty(g.now));
    }
    let empty: Vec<String> = Vec::new();
    let members: &Vec<String> = match &g.all {
        Some(a) => a,
        None => &empty,
    };
    assert(members@ == members_of(*g));
    member_lines(out, &g.name, members, group_delays, now);
    let ghost ms = member_drafts(
        g.name@,
        members_of(*g),
        opt_seq(lookup_first(delays@, g.name@)),
        opt_or_empty(g.now),
    );
    assert(drafts_view(out@) == mid + ms);
    push_draft(out, end());
    assert(drafts_view(out@) =~= base + (head + ms + seq![end_draft()]));
}

fn profile_lines(out: &mut Vec<Draft>, profiles: &Vec<String>, active: &Option<String>)
    ensures
        drafts_view(final(out)@) == drafts_view(old(out)@) + profile_drafts(profiles@, *active),
{
    let mut i: usize = 0;
    let ghost base = drafts_view(out@);
    assert(profiles@.take(0) =~= Seq::<String>::empty());
    while i < profiles.len()
        invariant
            i <= profiles@.len(),
            drafts_view(out@) == base + profile_drafts(profiles@.take(i as int), *active),
        decreases profiles@.len() - i,
    {
        let p = &profiles[i];
        let name = profile_display_name(p.as_str());
        let checked = match active {
            Some(a) => paths_equal(a.as_str(), p.as_str()),
            None => false,
        };
        let d = check(Label::Text(name.clone()), checked, "profile", Action::SwitchProfile(name));
        push_draft(out, d);
        proof {
            assert(profiles@.take(i + 1).drop_last() =~= profiles@.take(i as int));
            assert(drafts_view(out@) =~= base + profile_drafts(profiles@.take(i + 1), *active));
        }
        i += 1;
    }
    assert(profiles@.take(i as int) =~= profiles@);
}

/// The menu's lines in order, before ids are given out; see `menu_drafts`.
fn head_lines(out: &mut Vec<Draft>, st: &TrayState)
    ensures
        drafts_view(final(out)@) == drafts_view(old(out)@) + head_drafts(*st),
{
    let ghost base = drafts_view(out@);
    push_draft(out, check(Label::SystemProxy, st.system_proxy, "sys", Action::ToggleSystemProxy));
    push_draft(out, check(Label::TunMode, st.tun, "tun", Action::ToggleTun));
    if st.service_supported {
        if st.service_ok {
            push_draft(out, item(Label::UninstallService, "svc", Action::UninstallService));
        } else {
            push_draft(out, item(Label::InstallService, "svc", Action::InstallService));
        }
    }
    push_draft(out, separator());
    assert(drafts_view(out@) =~= base + head_drafts(*st));
}

fn groups_lines(out: &mut Vec<Draft>, st: &TrayState)
    ensures
        drafts_view(final(out)@) == drafts_view(old(out)@) + groups_part(*st),
{
    let ghost base = drafts_view(out@);
    if st.groups.len() == 0 {
        push_draft(
            out,
            Draft { kind: LineKind::Item(false), label: Some(Label::NoGroups), track: None },
        );
        assert(drafts_view(out@) =~= base + groups_part(*st));
    } else {
        let mut i: usize = 0;
        assert(st.groups@.take(0) =~= Seq::<ProxyInfo>::empty());
        assert(base + groups_drafts(st.groups@.take(0), st.delays@) =~= base);
        while i < st.groups.len()
            invariant
                i <= st.groups@.len(),
                drafts_view(out@) == base + groups_drafts(st.groups@.take(i as int), st.delays@),
            decreases st.groups@.len() - i,
        {
            group_lines(out, &st.groups[i], &st.delays);
            proof {
                assert(st.groups@.take(i + 1).drop_last() =~= st.groups@.take(i as int));
                assert(st.groups@.take(i + 1).last() == st.groups@[i as int]);
                assert(drafts_view(out@) =~= base + groups_drafts(
                    st.groups@.take(i + 1),
                    st.delays@,
                ));
            }
            i += 1;
        }
        assert(st.groups@.take(i as int) =~= st.groups@);
    }
}

fn tail_lines(out: &mut Vec<Draft>, st: &TrayState, zh: bool)
    ensures
        drafts_view(final(out)@) == drafts_view(old(out)@) + tail_drafts(*st, zh),
{
    let ghost base = drafts_view(out@);
    push_draft(out, start(Label::Config));
    let ghost c1 = drafts_view(out@);
    profile_lines(out, &st.profiles, &st.active_profile);
    let ghost c2 = drafts_view(out@);
    push_draft(out, separator());
    push_draft(out, item(Label::ImportProfile, "import", Action::ImportProfile));
    push_draft(out, item(Label::OpenConfigFolder, "open", Action::OpenConfigFolder));
    push_draft(out, end());
    push_draft(out, start(Label::Language));
    push_draft(out, check(Label::LangZh, zh, "lang", Action::SetLocale("zh-CN")));
    push_draft(out, check(Label::LangEn, !zh, "lang", Action::SetLocale("en")));
    push_draft(out, end());
    push_draft(out, separator());
    push_draft(out, item(Label::Quit, "quit", Action::Quit));
    proof {
        let rest = seq![
            separator_draft(),
            item_draft(LabelView::ImportProfile, "import"@, ActionView::ImportProfile),
            item_draft(LabelView::OpenConfigFolder, "open"@, ActionView::OpenConfigFolder),
            end_draft(),
            start_draft(LabelView::Language),
            check_draft(LabelView::LangZh, zh, "lang"@, ActionView::SetLocale("zh-CN"@)),
            check_draft(LabelView::LangEn, !zh, "lang"@, ActionView::SetLocale("en"@)),
            end_draft(),
            separator_draft(),
            item_draft(LabelView::Quit, "quit"@, ActionView::Quit),
        ];
        assert(c1 =~= base + seq![start_draft(LabelView::Config)]);
        assert(drafts_view(out@) =~= c2 + rest);
        assert(tail_drafts(*st, zh) =~= seq![start_draft(LabelView::Config)] + profile_drafts(
            st.profiles@,
            st.active_profile,
        ) + rest);
        assert(drafts_view(out@) =~= base + tail_drafts(*st, zh));
    }
}

/// The menu's lines in order, before ids are given out; see `menu_drafts`.
pub fn menu_layout(st: &TrayState, locale: &str) -> (r: Vec<Draft>)
    ensures
        drafts_view(r@) == menu_drafts(*st, locale@),
{
    let mut out: Vec<Draft> = Vec::new();
    assert(drafts_view(out@) =~= Seq::<DraftView>::empty());
    head_lines(&mut out, st);
    groups_lines(&mut out, st);
    push_draft(&mut out, separator());
    let zh = crate::i18n::is_zh(locale);
    let ghost before_tail = drafts_view(out@);
    tail_lines(&mut out, st, zh);
    assert(drafts_view(out@) =~= menu_drafts(*st, locale@));
    out
}

/// The built menu: its lines, the actions of its ids, and the id counter afterwards.
pub struct MenuModel {
    pub lines: Vec<MenuLine>,
    pub ids: MenuIds,
    pub next_id: u64,
}

/// Lays out the menu and gives its items ids from `first_id` on.
pub fn build_menu(st: &TrayState, locale: &str, first_id: u64) -> (r: MenuModel)
    ensures
        (lines_view(r.lines@), tracked_view(r.ids.map@), r.next_id) == numbered(
            menu_drafts(*st, locale@),
            first_id,
        ),
{
    let drafts = menu_layout(st, locale);
    let (lines, ids, next_id) = number_drafts(drafts, first_id);
    MenuModel { lines, ids, next_id }
}


// ------------------------------------------------------------------ ids given out
/// The (prefix, action) pairs of the tracked drafts, in order: one per id that `numbered`
/// gives out.
pub open spec fn tracked_entries(ds: Seq<DraftView>) -> Seq<(Seq<char>, ActionView)>
    decreases ds.len(),
{
    if ds.len() == 0 {
        Seq::empty()
    } else {
        tracked_entries(ds.drop_last()) + entry_of(ds.last())
    }
}

pub open spec fn entry_of(d: DraftView) -> Seq<(Seq<char>, ActionView)> {
    match d.track {
        Some(t) => seq![t],
        None => Seq::empty(),
    }
}

/// A prefix without `':'`, so that an id `"<prefix>:<n>"` tells its prefix and number.
pub open spec fn colon_free(p: Seq<char>) -> bool {
    forall|i: int| 0 <= i < p.len() ==> #[trigger] p[i] != ':'
}

pub open spec fn is_service_action(a: ActionView) -> bool {
    a is InstallService || a is UninstallService
}

/// Every prefix is colon-free, and no action is a service action.
pub open spec fn plain_entries(es: Seq<(Seq<char>, ActionView)>) -> bool {
    forall|i: int|
        0 <= i < es.len() ==> colon_free(#[trigger] es[i].0) && !is_service_action(es[i].1)
}

proof fn lemma_te_push(a: Seq<DraftView>, d: DraftView)
    ensures
        tracked_entries(a.push(d)) == tracked_entries(a) + entry_of(d),
{
    assert(a.push(d).drop_last() =~= a);
}

proof fn lemma_te_concat(a: Seq<DraftView>, b: Seq<DraftView>)
    ensures
        tracked_entries(a + b) == tracked_entries(a) + tracked_entries(b),
    decreases b.len(),
{
    if b.len() == 0 {
        assert(a + b =~= a);
        assert(tracked_entries(a) + tracked_entries(b) =~= tracked_entries(a));
    } else {
        Seq::drop_last_distributes_over_add(a, b);
        lemma_te_concat(a, b.drop_last());
        assert((a + b).last() == b.last());
        assert(tracked_entries(a + b) =~= tracked_entries(a) + tracked_entries(b));
    }
}

proof fn lemma_plain_concat(a: Seq<(Seq<char>, ActionView)>, b: Seq<(Seq<char>, ActionView)>)
    requires
        plain_entries(a),
        plain_entries(b),
    ensures
        plain_entries(a + b),
{
    assert forall|i: int| 0 <= i < (a + b).len() implies colon_free(#[trigger] (a + b)[i].0)
        && !is_service_action((a + b)[i].1) by {
        if i < a.len() {
            assert((a + b)[i] == a[i]);
            assert(colon_free(a[i].0) && !is_service_action(a[i].1));
        } else {
            let k = i - a.len();
            assert((a + b)[i] == b[k]);
            assert(colon_free(b[k].0) && !is_service_action(b[k].1));
        }
    }
}

/// How many members the groups list in all.
pub open spec fn member_total(gs: Seq<ProxyInfo>) -> nat
    decreases gs.len(),
{
    if gs.len() == 0 {
        0
    } else {
        member_total(gs.drop_last()) + members_of(gs.last()).len()
    }
}

/// How many ids a menu of `st` gives out: the two switches, the service item where there
/// is one, per group its speed test and its members, per profile one, import, open, the
/// two languages and Quit.
pub open spec fn menu_id_count(st: TrayState) -> nat {
    7 + (if st.service_supported {
        1nat
    } else {
        0nat
    }) + st.groups@.len() + member_total(st.groups@) + st.profiles@.len()
}

/// The (id, action) pairs that `build_menu` records from `first_id` on.
pub open spec fn menu_ids(st: TrayState, locale: Seq<char>, first_id: u64) -> Seq<(Seq<char>, ActionView)> {
    numbered(menu_drafts(st, locale), first_id).1
}

/// The counter that `build_menu` hands back.
pub open spec fn menu_next_id(st: TrayState, locale: Seq<char>, first_id: u64) -> u64 {
    numbered(menu_drafts(st, locale), first_id).2
}

proof fn lemma_prefixes_colon_free()
    ensures
        colon_free("sys"@),
        colon_free("tun"@),
        colon_free("svc"@),
        colon_free("speed"@),
        colon_free("node"@),
        colon_free("profile"@),
        colon_free("import"@),
        colon_free("open"@),
        colon_free("lang"@),
        colon_free("quit"@),
{
    reveal_strlit("sys");
    reveal_strlit("tun");
    reveal_strlit("svc");
    reveal_strlit("speed");
    reveal_strlit("node");
    reveal_strlit("profile");
    reveal_strlit("import");
    reveal_strlit("open");
    reveal_strlit("lang");
    reveal_strlit("quit");
}

proof fn lemma_te_members(
    group: Seq<char>,
    members: Seq<String>,
    delays: Option<Seq<(String, u16)>>,
    now: Seq<char>,
)
    ensures
        tracked_entries(member_drafts(group, members, delays, now)).len() == members.len(),
        plain_entries(tracked_entries(member_drafts(group, members, delays, now))),
    decreases members.len(),
{
    if members.len() > 0 {
        let rest = member_drafts(group, members.drop_last(), delays, now);
        let m = members.last()@;
        let d = check_draft(
            node_label(m, member_delay(delays, m)),
            m == now,
            "node"@,
            ActionView::SelectProxy { group, name: m },
        );
        lemma_te_members(group, members.drop_last(), delays, now);
        lemma_te_push(rest, d);
        lemma_prefixes_colon_free();
        lemma_plain_concat(tracked_entries(rest), entry_of(d));
    }
}

proof fn lemma_te_profiles(profiles: Seq<String>, active: Option<String>)
    ensures
        tracked_entries(profile_drafts(profiles, active)).len() == profiles.len(),
        plain_entries(tracked_entries(profile_drafts(profiles, active))),
    decreases profiles.len(),
{
    if profiles.len() > 0 {
        let rest = profile_drafts(profiles.drop_last(), active);
        let p = profiles.last()@;
        let d = check_draft(
            LabelView::Text(display_name(p)),
            is_active(active, p),
            "profile"@,
            ActionView::SwitchProfile(display_name(p)),
        );
        lemma_te_profiles(profiles.drop_last(), active);
        lemma_te_push(rest, d);
        lemma_prefixes_colon_free();
        lemma_plain_concat(tracked_entries(rest), entry_of(d));
    }
}

proof fn lemma_te_group(g: ProxyInfo, delays: Seq<(String, Vec<(String, u16)>)>)
    ensures
        tracked_entries(group_drafts(g, delays)).len() == 1 + members_of(g).len(),
        plain_entries(tracked_entries(group_drafts(g, delays))),
{
    let a = start_draft(LabelView::Text(g.name@));
    let b = item_draft(LabelView::SpeedTest, "speed"@, ActionView::SpeedTest(g.name@));
    let c = separator_draft();
    let e = end_draft();
    let head = seq![a, b, c];
    let ms = member_drafts(
        g.name@,
        members_of(g),
        opt_seq(lookup_first(delays, g.name@)),
        opt_or_empty(g.now),
    );
    let s0 = Seq::<DraftView>::empty();
    lemma_te_push(s0, a);
    lemma_te_push(s0.push(a), b);
    lemma_te_push(s0.push(a).push(b), c);
    assert(head =~= s0.push(a).push(b).push(c));
    assert(tracked_entries(head) =~= seq![("speed"@, ActionView::SpeedTest(g.name@))]);
    lemma_te_push(s0, e);
    assert(seq![e] == s0.push(e));
    assert(tracked_entries(seq![e]) =~= Seq::<(Seq<char>, ActionView)>::empty());
    lemma_te_concat(head, ms);
    lemma_te_concat(head + ms, seq![e]);
    lemma_te_members(
        g.name@,
        members_of(g),
        opt_seq(lookup_first(delays, g.name@)),
        opt_or_empty(g.now),
    );
    lemma_prefixes_colon_free();
    lemma_plain_concat(tracked_entries(head), tracked_entries(ms));
    assert(tracked_entries(group_drafts(g, delays)) =~= tracked_entries(head) + tracked_entries(
        ms,
    ));
}

proof fn lemma_te_groups(gs: Seq<ProxyInfo>, delays: Seq<(String, Vec<(String, u16)>)>)
    ensures
        tracked_entries(groups_drafts(gs, delays)).len() == gs.len() + member_total(gs),
        plain_entries(tracked_entries(groups_drafts(gs, delays))),
    decreases gs.len(),
{
    if gs.len() > 0 {
        lemma_te_groups(gs.drop_last(), delays);
        lemma_te_group(gs.last(), delays);
        lemma_te_concat(groups_drafts(gs.drop_last(), delays), group_drafts(gs.last(), delays));
        lemma_plain_concat(
            tracked_entries(groups_drafts(gs.drop_last(), delays)),
            tracked_entries(group_drafts(gs.last(), delays)),
        );
    }
}

/// The service item where the host has a service.
pub open spec fn service_entries(st: TrayState) -> Seq<(Seq<char>, ActionView)> {
    if st.service_supported {
        if st.service_ok {
            seq![("svc"@, ActionView::UninstallService)]
        } else {
            seq![("svc"@, ActionView::InstallService)]
        }
    } else {
        Seq::empty()
    }
}

proof fn lemma_te_head(st: TrayState)
    ensures
        tracked_entries(head_drafts(st)) == seq![
            ("sys"@, ActionView::ToggleSystemProxy),
            ("tun"@, ActionView::ToggleTun),
        ] + service_entries(st),
{
    let a = check_draft(LabelView::SystemProxy, st.system_proxy, "sys"@, ActionView::ToggleSystemProxy);
    let b = check_draft(LabelView::TunMode, st.tun, "tun"@, ActionView::ToggleTun);
    let sep = separator_draft();
    let svc: Seq<DraftView> = if st.service_supported {
        if st.service_ok {
            seq![item_draft(LabelView::UninstallService, "svc"@, ActionView::UninstallService)]
        } else {
            seq![item_draft(LabelView::InstallService, "svc"@, ActionView::InstallService)]
        }
    } else {
        Seq::empty()
    };
    let s0 = Seq::<DraftView>::empty();
    lemma_te_push(s0, a);
    lemma_te_push(s0.push(a), b);
    assert(seq![a, b] =~= s0.push(a).push(b));
    if st.service_supported {
        lemma_te_push(s0, svc[0]);
        assert(svc =~= s0.push(svc[0]));
    }
    assert(tracked_entries(svc) =~= service_entries(st));
    lemma_te_push(s0, sep);
    assert(seq![sep] == s0.push(sep));
    lemma_te_concat(seq![a, b], svc);
    lemma_te_concat(seq![a, b] + svc, seq![sep]);
    assert(head_drafts(st) == seq![a, b] + svc + seq![sep]);
    assert(tracked_entries(head_drafts(st)) =~= seq![
        ("sys"@, ActionView::ToggleSystemProxy),
        ("tun"@, ActionView::ToggleTun),
    ] + service_entries(st));
}

proof fn lemma_te_tail(st: TrayState, zh: bool)
    ensures
        tracked_entries(tail_drafts(st, zh)).len() == 5 + st.profiles@.len(),
        plain_entries(tracked_entries(tail_drafts(st, zh))),
{
    let x0 = separator_draft();
    let x1 = item_draft(LabelView::ImportProfile, "import"@, ActionView::ImportProfile);
    let x2 = item_draft(LabelView::OpenConfigFolder, "open"@, ActionView::OpenConfigFolder);
    let x3 = end_draft();
    let x4 = start_draft(LabelView::Language);
    let x5 = check_draft(LabelView::LangZh, zh, "lang"@, ActionView::SetLocale("zh-CN"@));
    let x6 = check_draft(LabelView::LangEn, !zh, "lang"@, ActionView::SetLocale("en"@));
    let x7 = end_draft();
    let x8 = separator_draft();
    let x9 = item_draft(LabelView::Quit, "quit"@, ActionView::Quit);
    let rest = seq![x0, x1, x2, x3, x4, x5, x6, x7, x8, x9];
    let s0 = Seq::<DraftView>::empty();
    let s1 = s0.push(x0);
    let s2 = s1.push(x1);
    let s3 = s2.push(x2);
    let s4 = s3.push(x3);
    let s5 = s4.push(x4);
    let s6 = s5.push(x5);
    let s7 = s6.push(x6);
    let s8 = s7.push(x7);
    let s9 = s8.push(x8);
    let s10 = s9.push(x9);
    lemma_te_push(s0, x0);
    lemma_te_push(s1, x1);
    lemma_te_push(s2, x2);
    lemma_te_push(s3, x3);
    lemma_te_push(s4, x4);
    lemma_te_push(s5, x5);
    lemma_te_push(s6, x6);
    lemma_te_push(s7, x7);
    lemma_te_push(s8, x8);
    lemma_te_push(s9, x9);
    assert(rest =~= s10);
    let fixed = seq![
        ("import"@, ActionView::ImportProfile),
        ("open"@, ActionView::OpenConfigFolder),
        ("lang"@, ActionView::SetLocale("zh-CN"@)),
        ("lang"@, ActionView::SetLocale("en"@)),
        ("quit"@, ActionView::Quit),
    ];
    assert(tracked_entries(rest) =~= fixed);
    let c = start_draft(LabelView::Config);
    lemma_te_push(s0, c);
    assert(seq![c] == s0.push(c));
    let ps = profile_drafts(st.profiles@, st.active_profile);
    lemma_te_profiles(st.profiles@, st.active_profile);
    lemma_te_concat(seq![c], ps);
    lemma_te_concat(seq![c] + ps, rest);
    assert(tail_drafts(st, zh) == seq![c] + ps + rest);
    lemma_prefixes_colon_free();
    assert(plain_entries(fixed));
    assert(tracked_entries(seq![c]) + tracked_entries(ps) =~= tracked_entries(ps));
    lemma_plain_concat(tracked_entries(ps), fixed);
}

/// The menu's entries: the head's, then entries with colon-free prefixes and no service
/// action, `menu_id_count(st)` in all.
proof fn lemma_te_menu(st: TrayState, locale: Seq<char>)
    ensures
        tracked_entries(menu_drafts(st, locale)).len() == menu_id_count(st),
        tracked_entries(menu_drafts(st, locale)) == tracked_entries(head_drafts(st))
            + tracked_entries(menu_drafts(st, locale)).skip(
            tracked_entries(head_drafts(st)).len() as int,
        ),
        plain_entries(
            tracked_entries(menu_drafts(st, locale)).skip(
                tracked_entries(head_drafts(st)).len() as int,
            ),
        ),
{
    let head = head_drafts(st);
    let groups = groups_part(st);
    let sep = seq![separator_draft()];
    let tail = tail_drafts(st, starts_with(locale, "zh"@));
    lemma_te_head(st);
    if st.groups@.len() == 0 {
        let ph = DraftView {
            kind: LineKind::Item(false),
            label: Some(LabelView::NoGroups),
            track: None,
        };
        lemma_te_push(Seq::empty(), ph);
        assert(groups == Seq::<DraftView>::empty().push(ph));
        assert(tracked_entries(groups) =~= Seq::<(Seq<char>, ActionView)>::empty());
        assert(member_total(st.groups@) == 0);
    } else {
        lemma_te_groups(st.groups@, st.delays@);
    }
    lemma_te_push(Seq::empty(), separator_draft());
    assert(sep == Seq::<DraftView>::empty().push(separator_draft()));
    assert(tracked_entries(sep) =~= Seq::<(Seq<char>, ActionView)>::empty());
    lemma_te_tail(st, starts_with(locale, "zh"@));
    lemma_te_concat(head, groups);
    lemma_te_concat(head + groups, sep);
    lemma_te_concat(head + groups + sep, tail);
    lemma_plain_concat(tracked_entries(groups), tracked_entries(sep));
    lemma_plain_concat(tracked_entries(groups) + tracked_entries(sep), tracked_entries(tail));
    let all = tracked_entries(menu_drafts(st, locale));
    let h = tracked_entries(head);
    let rest = tracked_entries(groups) + tracked_entries(sep) + tracked_entries(tail);
    assert(all =~= h + rest);
    assert(all.skip(h.len() as int) =~= rest);
}

/// Some entry carries the action.
pub open spec fn offers(es: Seq<(Seq<char>, ActionView)>, a: ActionView) -> bool {
    exists|i: int| 0 <= i < es.len() && (#[trigger] es[i]).1 == a
}

/// Some member of the list has the name.
pub open spec fn has_member(members: Seq<String>, name: Seq<char>) -> bool {
    exists|j: int| 0 <= j < members.len() && (#[trigger] members[j])@ == name
}

/// Some group has the name and lists the member.
pub open spec fn group_lists(gs: Seq<ProxyInfo>, group: Seq<char>, name: Seq<char>) -> bool {
    exists|k: int|
        0 <= k < gs.len() && (#[trigger] gs[k]).name@ == group && has_member(members_of(gs[k]), name)
}

proof fn lemma_offers_concat(a: Seq<(Seq<char>, ActionView)>, b: Seq<(Seq<char>, ActionView)>, x: ActionView)
    ensures
        offers(a + b, x) == (offers(a, x) || offers(b, x)),
{
    if offers(a + b, x) {
        let i = choose|i: int| 0 <= i < (a + b).len() && (#[trigger] (a + b)[i]).1 == x;
        if i < a.len() {
            assert(a[i] == (a + b)[i]);
        } else {
            assert(b[i - a.len()] == (a + b)[i]);
        }
    }
    if offers(a, x) {
        let i = choose|i: int| 0 <= i < a.len() && (#[trigger] a[i]).1 == x;
        assert((a + b)[i] == a[i]);
    }
    if offers(b, x) {
        let i = choose|i: int| 0 <= i < b.len() && (#[trigger] b[i]).1 == x;
        assert((a + b)[i + a.len()] == b[i]);
    }
}

proof fn lemma_offers_entry(d: DraftView, x: ActionView)
    ensures
        offers(entry_of(d), x) == (d.track matches Some(t) && t.1 == x),
{
    if let Some(t) = d.track {
        if t.1 == x {
            assert(entry_of(d)[0] == t);
        }
    }
}

proof fn lemma_has_member_last(ms: Seq<String>, name: Seq<char>)
    requires
        ms.len() > 0,
    ensures
        has_member(ms, name) == (has_member(ms.drop_last(), name) || ms.last()@ == name),
{
    if has_member(ms, name) {
        let j = choose|j: int| 0 <= j < ms.len() && (#[trigger] ms[j])@ == name;
        if j < ms.len() - 1 {
            assert(ms.drop_last()[j] == ms[j]);
        }
    }
    if has_member(ms.drop_last(), name) {
        let j = choose|j: int| 0 <= j < ms.drop_last().len() && (#[trigger] ms.drop_last()[j])@ == name;
        assert(ms[j] == ms.drop_last()[j]);
    }
    if ms.last()@ == name {
        assert(ms[ms.len() - 1] == ms.last());
    }
}

proof fn lemma_group_lists_last(gs: Seq<ProxyInfo>, group: Seq<char>, name: Seq<char>)
    requires
        gs.len() > 0,
    ensures
        group_lists(gs, group, name) == (group_lists(gs.drop_last(), group, name) || (
        gs.last().name@ == group && has_member(members_of(gs.last()), name))),
{
    if group_lists(gs, group, name) {
        let k = choose|k: int|
            0 <= k < gs.len() && (#[trigger] gs[k]).name@ == group && has_member(
                members_of(gs[k]),
                name,
            );
        if k < gs.len() - 1 {
            assert(gs.drop_last()[k] == gs[k]);
        }
    }
    if group_lists(gs.drop_last(), group, name) {
        let k = choose|k: int|
            0 <= k < gs.drop_last().len() && (#[trigger] gs.drop_last()[k]).name@ == group
                && has_member(members_of(gs.drop_last()[k]), name);
        assert(gs[k] == gs.drop_last()[k]);
    }
    if gs.last().name@ == group && has_member(members_of(gs.last()), name) {
        assert(gs[gs.len() - 1] == gs.last());
    }
}

proof fn lemma_select_members(
    group: Seq<char>,
    members: Seq<String>,
    delays: Option<Seq<(String, u16)>>,
    now: Seq<char>,
    g: Seq<char>,
    name: Seq<char>,
)
    ensures
        offers(
            tracked_entries(member_drafts(group, members, delays, now)),
            ActionView::SelectProxy { group: g, name },
        ) == (g == group && has_member(members, name)),
        !offers(
            tracked_entries(member_drafts(group, members, delays, now)),
            ActionView::SpeedTest(g),
        ),
    decreases members.len(),
{
    let x = ActionView::SelectProxy { group: g, name };
    if members.len() == 0 {
        assert(!has_member(members, name));
    } else {
        let rest = member_drafts(group, members.drop_last(), delays, now);
        let m = members.last()@;
        let d = check_draft(
            node_label(m, member_delay(delays, m)),
            m == now,
            "node"@,
            ActionView::SelectProxy { group, name: m },
        );
        lemma_select_members(group, members.drop_last(), delays, now, g, name);
        lemma_te_push(rest, d);
        lemma_offers_concat(tracked_entries(rest), entry_of(d), x);
        lemma_offers_entry(d, x);
        lemma_offers_concat(tracked_entries(rest), entry_of(d), ActionView::SpeedTest(g));
        lemma_offers_entry(d, ActionView::SpeedTest(g));
        lemma_has_member_last(members, name);
    }
}

proof fn lemma_select_group(g: ProxyInfo, delays: Seq<(String, Vec<(String, u16)>)>, group: Seq<char>, name: Seq<char>)
    ensures
        offers(
            tracked_entries(group_drafts(g, delays)),
            ActionView::SelectProxy { group, name },
        ) == (g.name@ == group && has_member(members_of(g), name)),
{
    let x = ActionView::SelectProxy { group, name };
    let a = start_draft(LabelView::Text(g.name@));
    let b = item_draft(LabelView::SpeedTest, "speed"@, ActionView::SpeedTest(g.name@));
    let c = separator_draft();
    let e = end_draft();
    let head = seq![a, b, c];
    let now = opt_or_empty(g.now);
    let ds = opt_seq(lookup_first(delays, g.name@));
    let ms = member_drafts(g.name@, members_of(g), ds, now);
    let s0 = Seq::<DraftView>::empty();
    lemma_te_push(s0, a);
    lemma_te_push(s0.push(a), b);
    lemma_te_push(s0.push(a).push(b), c);
    assert(head =~= s0.push(a).push(b).push(c));
    let th = seq![("speed"@, ActionView::SpeedTest(g.name@))];
    assert(tracked_entries(head) =~= th);
    lemma_te_push(s0, e);
    assert(seq![e] == s0.push(e));
    assert(tracked_entries(seq![e]) =~= Seq::<(Seq<char>, ActionView)>::empty());
    lemma_te_concat(head, ms);
    lemma_te_concat(head + ms, seq![e]);
    assert(tracked_entries(group_drafts(g, delays)) =~= th + tracked_entries(ms));
    lemma_offers_concat(th, tracked_entries(ms), x);
    assert(!offers(th, x)) by {
        if offers(th, x) {
            let i = choose|i: int| 0 <= i < th.len() && (#[trigger] th[i]).1 == x;
            assert(th[i] == th[0]);
        }
    }
    lemma_select_members(g.name@, members_of(g), ds, now, group, name);
}

proof fn lemma_select_groups(gs: Seq<ProxyInfo>, delays: Seq<(String, Vec<(String, u16)>)>, group: Seq<char>, name: Seq<char>)
    ensures
        offers(
            tracked_entries(groups_drafts(gs, delays)),
            ActionView::SelectProxy { group, name },
        ) == group_lists(gs, group, name),
    decreases gs.len(),
{
    let x = ActionView::SelectProxy { group, name };
    if gs.len() == 0 {
        assert(tracked_entries(groups_drafts(gs, delays)) =~= Seq::<(Seq<char>, ActionView)>::empty());
    } else {
        lemma_select_groups(gs.drop_last(), delays, group, name);
        lemma_select_group(gs.last(), delays, group, name);
        lemma_te_concat(groups_drafts(gs.drop_last(), delays), group_drafts(gs.last(), delays));
        lemma_offers_concat(
            tracked_entries(groups_drafts(gs.drop_last(), delays)),
            tracked_entries(group_drafts(gs.last(), delays)),
            x,
        );
        lemma_group_lists_last(gs, group, name);
    }
}

/// `numbered` records the tracked drafts' actions in order, whatever the counter.
proof fn lemma_numbered_actions(ds: Seq<DraftView>, n: u64)
    ensures
        numbered(ds, n).1.len() == tracked_entries(ds).len(),
        forall|i: int|
            0 <= i < tracked_entries(ds).len() ==> (#[trigger] numbered(ds, n).1[i]).1
                == tracked_entries(ds)[i].1,
    decreases ds.len(),
{
    if ds.len() > 0 {
        let rest = ds.drop_last();
        lemma_numbered_actions(rest, n);
        let te = tracked_entries(ds);
        let actions = numbered(rest, n).1;
        assert forall|i: int| 0 <= i < te.len() implies (#[trigger] numbered(ds, n).1[i]).1
            == te[i].1 by {
            if i < tracked_entries(rest).len() {
                assert(numbered(ds, n).1[i] == actions[i]);
            }
        }
    }
}

/// While the counter does not wrap, `numbered` gives the i-th tracked draft the id
/// `"<its prefix>:<n + i>"`, and advances the counter by the number of ids.
proof fn lemma_numbered_ids(ds: Seq<DraftView>, n: u64)
    requires
        n + tracked_entries(ds).len() <= u64::MAX,
    ensures
        numbered(ds, n).1.len() == tracked_entries(ds).len(),
        numbered(ds, n).2 == n + tracked_entries(ds).len(),
        forall|i: int|
            0 <= i < tracked_entries(ds).len() ==> (#[trigger] numbered(ds, n).1[i]).0 == id_text(
                tracked_entries(ds)[i].0,
                (n + i) as u64,
            ),
    decreases ds.len(),
{
    if ds.len() > 0 {
        let rest = ds.drop_last();
        lemma_numbered_ids(rest, n);
        let (lines, actions, m) = numbered(rest, n);
        let te = tracked_entries(ds);
        match ds.last().track {
            Some((prefix, action)) => {
                assert(m < u64::MAX);
                assert(next_counter(m) == m + 1);
                assert forall|i: int| 0 <= i < te.len() implies (#[trigger] numbered(
                    ds,
                    n,
                ).1[i]).0 == id_text(te[i].0, (n + i) as u64) by {
                    if i < tracked_entries(rest).len() {
                        assert(numbered(ds, n).1[i] == actions[i]);
                    }
                }
            },
            None => {
                assert(te =~= tracked_entries(rest));
            },
        }
    }
}

/// Two ids with colon-free prefixes are equal only for the same prefix and number.
proof fn lemma_id_text_injective(p1: Seq<char>, k1: u64, p2: Seq<char>, k2: u64)
    requires
        colon_free(p1),
        colon_free(p2),
        id_text(p1, k1) == id_text(p2, k2),
    ensures
        p1 == p2,
        k1 == k2,
{
    reveal_strlit(":");
    let s = id_text(p1, k1);
    assert(s == p1 + ":"@ + decimal(k1 as nat));
    assert(s == p2 + ":"@ + decimal(k2 as nat));
    if p1.len() < p2.len() {
        assert(s[p1.len() as int] == ':');
        assert(s[p1.len() as int] == p2[p1.len() as int]);
        assert(false);
    }
    if p2.len() < p1.len() {
        assert(s[p2.len() as int] == ':');
        assert(s[p2.len() as int] == p1[p2.len() as int]);
        assert(false);
    }
    assert(p1 =~= s.subrange(0, p1.len() as int));
    assert(p2 =~= s.subrange(0, p2.len() as int));
    assert(decimal(k1 as nat) =~= s.subrange(p1.len() as int + 1, s.len() as int));
    assert(decimal(k2 as nat) =~= s.subrange(p2.len() as int + 1, s.len() as int));
    lemma_decimal_injective(k1 as nat, k2 as nat);
}

/// Every prefix of a menu's entries is colon-free.
proof fn lemma_menu_colon_free(st: TrayState, locale: Seq<char>, i: int)
    requires
        0 <= i < menu_id_count(st),
    ensures
        colon_free(tracked_entries(menu_drafts(st, locale))[i].0),
{
    lemma_te_menu(st, locale);
    lemma_te_head(st);
    lemma_prefixes_colon_free();
    let te = tracked_entries(menu_drafts(st, locale));
    let h = tracked_entries(head_drafts(st));
    if i < h.len() {
        assert(te[i] == h[i]);
    } else {
        let k = i - h.len();
        assert(te[i] == te.skip(h.len() as int)[k]);
        assert(colon_free(te.skip(h.len() as int)[k].0));
    }
}

/// One menu's ids: while the counter does not wrap, `build_menu` gives out
/// `menu_id_count(st)` ids, no two alike, and hands back the counter advanced by as many.
pub proof fn lemma_menu_ids_distinct(st: TrayState, locale: Seq<char>, first_id: u64)
    requires
        first_id + menu_id_count(st) <= u64::MAX,
    ensures
        menu_ids(st, locale, first_id).len() == menu_id_count(st),
        menu_next_id(st, locale, first_id) == first_id + menu_id_count(st),
        forall|i: int, j: int|
            0 <= i < j < menu_id_count(st) ==> (#[trigger] menu_ids(st, locale, first_id)[i]).0
                != (#[trigger] menu_ids(st, locale, first_id)[j]).0,
{
    let ds = menu_drafts(st, locale);
    lemma_te_menu(st, locale);
    lemma_numbered_ids(ds, first_id);
    let te = tracked_entries(ds);
    let ids = menu_ids(st, locale, first_id);
    assert forall|i: int, j: int| 0 <= i < j < menu_id_count(st) implies (
    #[trigger] ids[i]).0 != (#[trigger] ids[j]).0 by {
        lemma_menu_colon_free(st, locale, i);
        lemma_menu_colon_free(st, locale, j);
        if ids[i].0 == ids[j].0 {
            lemma_id_text_injective(te[i].0, (first_id + i) as u64, te[j].0, (first_id + j) as u64);
        }
    }
}

/// Menus built one after another, each from the counter handed back by the build before
/// (or from further on), never give out an id twice while the counter does not wrap.
pub proof fn lemma_menu_ids_fresh(
    st1: TrayState,
    locale1: Seq<char>,
    first1: u64,
    st2: TrayState,
    locale2: Seq<char>,
    first2: u64,
)
    requires
        menu_next_id(st1, locale1, first1) <= first2,
        first1 + menu_id_count(st1) <= u64::MAX,
        first2 + menu_id_count(st2) <= u64::MAX,
    ensures
        forall|i: int, j: int|
            0 <= i < menu_ids(st1, locale1, first1).len() && 0 <= j < menu_ids(
                st2,
                locale2,
                first2,
            ).len() ==> (#[trigger] menu_ids(st1, locale1, first1)[i]).0 != (
            #[trigger] menu_ids(st2, locale2, first2)[j]).0,
{
    let ds1 = menu_drafts(st1, locale1);
    let ds2 = menu_drafts(st2, locale2);
    lemma_te_menu(st1, locale1);
    lemma_te_menu(st2, locale2);
    lemma_numbered_ids(ds1, first1);
    lemma_numbered_ids(ds2, first2);
    let te1 = tracked_entries(ds1);
    let te2 = tracked_entries(ds2);
    let ids1 = menu_ids(st1, locale1, first1);
    let ids2 = menu_ids(st2, locale2, first2);
    assert forall|i: int, j: int|
        0 <= i < ids1.len() && 0 <= j < ids2.len() implies (#[trigger] ids1[i]).0 != (
        #[trigger] ids2[j]).0 by {
        lemma_menu_colon_free(st1, locale1, i);
        lemma_menu_colon_free(st2, locale2, j);
        if ids1[i].0 == ids2[j].0 {
            lemma_id_text_injective(te1[i].0, (first1 + i) as u64, te2[j].0, (first2 + j) as u64);
        }
    }
}

/// The service item: the menu offers to uninstall the service exactly when the host has
/// one and it is running, and to install it exactly when the host has one that is not.
pub proof fn lemma_menu_service_item(st: TrayState, locale: Seq<char>, first_id: u64)
    ensures
        (exists|i: int|
            0 <= i < menu_ids(st, locale, first_id).len() && (#[trigger] menu_ids(
                st,
                locale,
                first_id,
            )[i]).1 == ActionView::UninstallService) <==> st.service_supported && st.service_ok,
        (exists|i: int|
            0 <= i < menu_ids(st, locale, first_id).len() && (#[trigger] menu_ids(
                st,
                locale,
                first_id,
            )[i]).1 == ActionView::InstallService) <==> st.service_supported && !st.service_ok,
{
    let ds = menu_drafts(st, locale);
    lemma_te_menu(st, locale);
    lemma_te_head(st);
    lemma_numbered_actions(ds, first_id);
    let te = tracked_entries(ds);
    let ids = menu_ids(st, locale, first_id);
    let h = tracked_entries(head_drafts(st));
    assert forall|i: int| 0 <= i < ids.len() && i != 2 implies !is_service_action(
        #[trigger] ids[i].1,
    ) by {
        assert(ids[i].1 == te[i].1);
        if i < h.len() {
            assert(te[i] == h[i]);
            assert(h[0].1 == ActionView::ToggleSystemProxy);
            assert(h[1].1 == ActionView::ToggleTun);
        } else {
            let k = i - h.len();
            assert(te[i] == te.skip(h.len() as int)[k]);
            assert(colon_free(te.skip(h.len() as int)[k].0));
        }
    }
    if st.service_supported {
        assert(ids[2].1 == te[2].1);
        assert(te[2] == h[2]);
    } else {
        assert(h.len() == 2);
        assert forall|i: int| 0 <= i < ids.len() implies !is_service_action(
            #[trigger] ids[i].1,
        ) by {
            assert(ids[i].1 == te[i].1);
            if i < h.len() {
                assert(te[i] == h[i]);
                assert(h[0].1 == ActionView::ToggleSystemProxy);
                assert(h[1].1 == ActionView::ToggleTun);
            } else {
                let k = i - h.len();
                assert(te[i] == te.skip(h.len() as int)[k]);
                assert(colon_free(te.skip(h.len() as int)[k].0));
            }
        }
    }
}

proof fn lemma_no_select_profiles(profiles: Seq<String>, active: Option<String>, x: ActionView)
    requires
        x is SelectProxy,
    ensures
        !offers(tracked_entries(profile_drafts(profiles, active)), x),
    decreases profiles.len(),
{
    if profiles.len() == 0 {
        assert(tracked_entries(profile_drafts(profiles, active)) =~= Seq::<(Seq<char>, ActionView)>::empty());
    } else {
        let rest = profile_drafts(profiles.drop_last(), active);
        let p = profiles.last()@;
        let d = check_draft(
            LabelView::Text(display_name(p)),
            is_active(active, p),
            "profile"@,
            ActionView::SwitchProfile(display_name(p)),
        );
        lemma_no_select_profiles(profiles.drop_last(), active, x);
        lemma_te_push(rest, d);
        lemma_offers_concat(tracked_entries(rest), entry_of(d), x);
        lemma_offers_entry(d, x);
    }
}

/// The menu offers to select member `name` of group `group` exactly when a group of the
/// state has that name and lists that member.
pub proof fn lemma_menu_select_items(
    st: TrayState,
    locale: Seq<char>,
    first_id: u64,
    group: Seq<char>,
    name: Seq<char>,
)
    ensures
        (exists|i: int|
            0 <= i < menu_ids(st, locale, first_id).len() && (#[trigger] menu_ids(
                st,
                locale,
                first_id,
            )[i]).1 == ActionView::SelectProxy { group, name }) <==> group_lists(
            st.groups@,
            group,
            name,
        ),
{
    let x = ActionView::SelectProxy { group, name };
    let head = head_drafts(st);
    let groups = groups_part(st);
    let sep = seq![separator_draft()];
    let zh = starts_with(locale, "zh"@);
    let tail = tail_drafts(st, zh);
    let ds = menu_drafts(st, locale);
    // the head: the switches and the service item
    lemma_te_head(st);
    let th = tracked_entries(head);
    assert(!offers(th, x)) by {
        if offers(th, x) {
            let i = choose|i: int| 0 <= i < th.len() && (#[trigger] th[i]).1 == x;
            assert(th[0].1 == ActionView::ToggleSystemProxy);
            assert(th[1].1 == ActionView::ToggleTun);
            if i >= 2 {
                assert(th[i] == service_entries(st)[i - 2]);
            }
        }
    }
    // the groups, or the placeholder
    if st.groups@.len() == 0 {
        let ph = DraftView {
            kind: LineKind::Item(false),
            label: Some(LabelView::NoGroups),
            track: None,
        };
        lemma_te_push(Seq::empty(), ph);
        assert(groups == Seq::<DraftView>::empty().push(ph));
        assert(tracked_entries(groups) =~= Seq::<(Seq<char>, ActionView)>::empty());
    } else {
        lemma_select_groups(st.groups@, st.delays@, group, name);
    }
    assert(offers(tracked_entries(groups), x) == group_lists(st.groups@, group, name));
    // the separator
    lemma_te_push(Seq::empty(), separator_draft());
    assert(sep == Seq::<DraftView>::empty().push(separator_draft()));
    assert(tracked_entries(sep) =~= Seq::<(Seq<char>, ActionView)>::empty());
    // the tail: profiles, import, open, languages, Quit
    let c = start_draft(LabelView::Config);
    let ps = profile_drafts(st.profiles@, st.active_profile);
    let x0 = separator_draft();
    let x1 = item_draft(LabelView::ImportProfile, "import"@, ActionView::ImportProfile);
    let x2 = item_draft(LabelView::OpenConfigFolder, "open"@, ActionView::OpenConfigFolder);
    let x3 = end_draft();
    let x4 = start_draft(LabelView::Language);
    let x5 = check_draft(LabelView::LangZh, zh, "lang"@, ActionView::SetLocale("zh-CN"@));
    let x6 = check_draft(LabelView::LangEn, !zh, "lang"@, ActionView::SetLocale("en"@));
    let x7 = end_draft();
    let x8 = separator_draft();
    let x9 = item_draft(LabelView::Quit, "quit"@, ActionView::Quit);
    let rest = seq![x0, x1, x2, x3, x4, x5, x6, x7, x8, x9];
    let s0 = Seq::<DraftView>::empty();
    let s1 = s0.push(x0);
    let s2 = s1.push(x1);
    let s3 = s2.push(x2);
    let s4 = s3.push(x3);
    let s5 = s4.push(x4);
    let s6 = s5.push(x5);
    let s7 = s6.push(x6);
    let s8 = s7.push(x7);
    let s9 = s8.push(x8);
    lemma_te_push(s0, x0);
    lemma_te_push(s1, x1);
    lemma_te_push(s2, x2);
    lemma_te_push(s3, x3);
    lemma_te_push(s4, x4);
    lemma_te_push(s5, x5);
    lemma_te_push(s6, x6);
    lemma_te_push(s7, x7);
    lemma_te_push(s8, x8);
    lemma_te_push(s9, x9);
    assert(rest =~= s9.push(x9));
    let fixed = tracked_entries(rest);
    assert(!offers(fixed, x)) by {
        if offers(fixed, x) {
            let i = choose|i: int| 0 <= i < fixed.len() && (#[trigger] fixed[i]).1 == x;
            assert(fixed =~= seq![
                ("import"@, ActionView::ImportProfile),
                ("open"@, ActionView::OpenConfigFolder),
                ("lang"@, ActionView::SetLocale("zh-CN"@)),
                ("lang"@, ActionView::SetLocale("en"@)),
                ("quit"@, ActionView::Quit),
            ]);
        }
    }
    lemma_te_push(s0, c);
    assert(seq![c] == s0.push(c));
    assert(tracked_entries(seq![c]) =~= Seq::<(Seq<char>, ActionView)>::empty());
    lemma_no_select_profiles(st.profiles@, st.active_profile, x);
    lemma_te_concat(seq![c], ps);
    lemma_te_concat(seq![c] + ps, rest);
    assert(tail == seq![c] + ps + rest);
    lemma_offers_concat(tracked_entries(seq![c]), tracked_entries(ps), x);
    lemma_offers_concat(tracked_entries(seq![c] + ps), fixed, x);
    // the whole menu
    lemma_te_concat(head, groups);
    lemma_te_concat(head + groups, sep);
    lemma_te_concat(head + groups + sep, tail);
    lemma_offers_concat(th, tracked_entries(groups), x);
    lemma_offers_concat(tracked_entries(head + groups), tracked_entries(sep), x);
    lemma_offers_concat(tracked_entries(head + groups + sep), tracked_entries(tail), x);
    let te = tracked_entries(ds);
    assert(offers(te, x) == group_lists(st.groups@, group, name));
    // and what `build_menu` records
    lemma_numbered_actions(ds, first_id);
    let ids = menu_ids(st, locale, first_id);
    if offers(te, x) {
        let i = choose|i: int| 0 <= i < te.len() && (#[trigger] te[i]).1 == x;
        assert(ids[i].1 == x);
    }
    if exists|i: int| 0 <= i < ids.len() && (#[trigger] ids[i]).1 == x {
        let i = choose|i: int| 0 <= i < ids.len() && (#[trigger] ids[i]).1 == x;
        assert(te[i].1 == x);
    }
}

/// The lines `build_menu` lays out from `first_id` on.
pub open spec fn menu_lines(st: TrayState, locale: Seq<char>, first_id: u64) -> Seq<LineView> {
    numbered(menu_drafts(st, locale), first_id).0
}

/// `numbered` keeps each draft's kind and label, line for line.
proof fn lemma_numbered_lines(ds: Seq<DraftView>, n: u64)
    ensures
        numbered(ds, n).0.len() == ds.len(),
        forall|i: int|
            0 <= i < ds.len() ==> (#[trigger] numbered(ds, n).0[i]).kind == ds[i].kind
                && numbered(ds, n).0[i].label == ds[i].label,
    decreases ds.len(),
{
    if ds.len() > 0 {
        lemma_numbered_lines(ds.drop_last(), n);
        let lines = numbered(ds.drop_last(), n).0;
        assert forall|i: int| 0 <= i < ds.len() implies (#[trigger] numbered(ds, n).0[i]).kind
            == ds[i].kind && numbered(ds, n).0[i].label == ds[i].label by {
            if i < ds.len() - 1 {
                assert(numbered(ds, n).0[i] == lines[i]);
                assert(ds[i] == ds.drop_last()[i]);
            }
        }
    }
}

/// The two switches open the menu: its first line is the system-proxy item, checked exactly
/// when the system proxy is on, and its second the TUN item, checked exactly when TUN is
/// on; they trigger the system-proxy and the TUN toggle.
pub proof fn lemma_menu_switch_items(st: TrayState, locale: Seq<char>, first_id: u64)
    ensures
        menu_lines(st, locale, first_id).len() >= 2,
        menu_lines(st, locale, first_id)[0].kind == LineKind::Check(st.system_proxy),
        menu_lines(st, locale, first_id)[0].label == Some(LabelView::SystemProxy),
        menu_lines(st, locale, first_id)[1].kind == LineKind::Check(st.tun),
        menu_lines(st, locale, first_id)[1].label == Some(LabelView::TunMode),
        menu_ids(st, locale, first_id)[0].1 == ActionView::ToggleSystemProxy,
        menu_ids(st, locale, first_id)[1].1 == ActionView::ToggleTun,
{
    let ds = menu_drafts(st, locale);
    let head = head_drafts(st);
    lemma_numbered_lines(ds, first_id);
    lemma_te_menu(st, locale);
    lemma_te_head(st);
    lemma_numbered_actions(ds, first_id);
    assert(ds[0] == head[0]);
    assert(ds[1] == head[1]);
    let te = tracked_entries(ds);
    let h = tracked_entries(head);
    assert(te[0] == h[0]);
    assert(te[1] == h[1]);
}

// ------------------------------------------------------------------ the id counter
/// The ids of recorded (id, action) pairs.
pub open spec fn ids_of(es: Seq<(Seq<char>, ActionView)>) -> Seq<Seq<char>> {
    es.map_values(|e: (Seq<char>, ActionView)| e.0)
}

/// The menu-id counter. It starts at 1, and each menu built through it numbers its ids on
/// from where the menu before stopped.
pub struct MenuCounter {
    next_id: u64,
    /// Where the counter started.
    first: Ghost<u64>,
    /// Every id given out so far, in order.
    issued: Ghost<Seq<Seq<char>>>,
    /// The prefix of each id given out.
    prefixes: Ghost<Seq<Seq<char>>>,
    /// Whether the counter has gone past `u64::MAX` and started again from 0.
    wrapped: Ghost<bool>,
}

pub struct MenuCounterView {
    pub next_id: u64,
    pub issued: Seq<Seq<char>>,
    pub wrapped: bool,
}

impl View for MenuCounter {
    type V = MenuCounterView;

    closed spec fn view(&self) -> MenuCounterView {
        MenuCounterView { next_id: self.next_id, issued: self.issued@, wrapped: self.wrapped@ }
    }
}

/// No id occurs twice.
pub open spec fn all_distinct(ids: Seq<Seq<char>>) -> bool {
    forall|i: int, j: int| 0 <= i < j < ids.len() ==> #[trigger] ids[i] != #[trigger] ids[j]
}

impl MenuCounter {
    /// Until the counter wraps, the ids given out are `"<prefix>:<n>"` with colon-free
    /// prefixes and consecutive numbers from where it started.
    #[verifier::type_invariant]
    spec fn numbered_in_order(self) -> bool {
        !self.wrapped@ ==> {
            &&& self.next_id == self.first@ + self.issued@.len()
            &&& self.prefixes@.len() == self.issued@.len()
            &&& forall|j: int|
                0 <= j < self.issued@.len() ==> colon_free(#[trigger] self.prefixes@[j])
                    && self.issued@[j] == id_text(self.prefixes@[j], (self.first@ + j) as u64)
        }
    }

    /// A counter that has given out nothing yet and starts at 1.
    pub fn new() -> (r: Self)
        ensures
            r@ == (MenuCounterView { next_id: 1, issued: Seq::empty(), wrapped: false }),
    {
        MenuCounter {
            next_id: 1,
            first: Ghost(1),
            issued: Ghost(Seq::empty()),
            prefixes: Ghost(Seq::empty()),
            wrapped: Ghost(false),
        }
    }

    /// The number the next id gets.
    pub fn next_id(&self) -> (r: u64)
        ensures
            r == self@.next_id,
    {
        self.next_id
    }

    /// Builds the menu with ids from the counter on, and moves the counter past them.
    /// Until the counter wraps, no id is ever given out twice: every id of this menu is new.
    pub fn build(&mut self, st: &TrayState, locale: &str) -> (r: MenuModel)
        ensures
            (lines_view(r.lines@), tracked_view(r.ids.map@), r.next_id) == numbered(
                menu_drafts(*st, locale@),
                old(self)@.next_id,
            ),
            final(self)@.next_id == r.next_id,
            final(self)@.issued == old(self)@.issued + ids_of(tracked_view(r.ids.map@)),
            final(self)@.wrapped == (old(self)@.wrapped || old(self)@.next_id + menu_id_count(*st)
                > u64::MAX),
            !final(self)@.wrapped ==> all_distinct(final(self)@.issued),
    {
        proof {
            use_type_invariant(&*self);
        }
        let r = build_menu(st, locale, self.next_id);
        let ghost old_next = self.next_id;
        let ghost ds = menu_drafts(*st, locale@);
        let ghost te = tracked_entries(ds);
        let ghost new_ids = ids_of(tracked_view(r.ids.map@));
        let ghost wraps = self.wrapped@ || old_next + menu_id_count(*st) > u64::MAX;
        let ghost issued = self.issued@ + new_ids;
        let ghost prefixes = self.prefixes@ + te.map_values(|e: (Seq<char>, ActionView)| e.0);
        proof {
            lemma_te_menu(*st, locale@);
            if !wraps {
                lemma_numbered_ids(ds, old_next);
                assert forall|j: int| 0 <= j < issued.len() implies colon_free(
                    #[trigger] prefixes[j],
                ) && issued[j] == id_text(prefixes[j], (self.first@ + j) as u64) by {
                    if j >= self.issued@.len() {
                        let i = j - self.issued@.len();
                        lemma_menu_colon_free(*st, locale@, i);
                        assert(new_ids[i] == numbered(ds, old_next).1[i].0);
                    }
                }
                lemma_numbered_distinct(issued, prefixes, self.first@);
            }
        }
        *self = MenuCounter {
            next_id: r.next_id,
            first: Ghost(self.first@),
            issued: Ghost(issued),
            prefixes: Ghost(prefixes),
            wrapped: Ghost(wraps),
        };
        r
    }
}

/// Ids numbered in order from `first` with colon-free prefixes are all different.
proof fn lemma_numbered_distinct(ids: Seq<Seq<char>>, prefixes: Seq<Seq<char>>, first: u64)
    requires
        first + ids.len() <= u64::MAX + 1,
        prefixes.len() == ids.len(),
        forall|j: int|
            0 <= j < ids.len() ==> colon_free(#[trigger] prefixes[j]) && ids[j] == id_text(
                prefixes[j],
                (first + j) as u64,
            ),
    ensures
        all_distinct(ids),
{
    assert forall|i: int, j: int| 0 <= i < j < ids.len() implies #[trigger] ids[i]
        != #[trigger] ids[j] by {
        assert(colon_free(prefixes[i]));
        assert(colon_free(prefixes[j]));
        if ids[i] == ids[j] {
            lemma_id_text_injective(prefixes[i], (first + i) as u64, prefixes[j], (first + j) as u64);
        }
    }
}

// ------------------------------------------------------------------ tooltip
/// `"<group>: <selection>"`, with `" <delay>ms"` when the group was tested.
pub open spec fn tooltip_part(g: ProxyInfo) -> Option<Seq<char>> {
    match g.now {
        Some(now) => Some(
            g.name@ + ": "@ + now@ + match latest_delay_of(g) {
                Some(d) => " "@ + decimal(d as nat) + "ms"@,
                None => Seq::empty(),
            },
        ),
        None => None,
    }
}

pub open spec fn tooltip_parts(gs: Seq<ProxyInfo>) -> Seq<Seq<char>>
    decreases gs.len(),
{
    if gs.len() == 0 {
        Seq::empty()
    } else {
        match tooltip_part(gs.last()) {
            Some(p) => tooltip_parts(gs.drop_last()).push(p),
            None => tooltip_parts(gs.drop_last()),
        }
    }
}

/// Parts joined by a separator.
pub open spec fn join(parts: Seq<Seq<char>>, sep: Seq<char>) -> Seq<char>
    decreases parts.len(),
{
    if parts.len() == 0 {
        Seq::empty()
    } else if parts.len() == 1 {
        parts[0]
    } else {
        join(parts.drop_last(), sep) + sep + parts.last()
    }
}

/// The tray tooltip: the selections of the first three groups that have one, joined by
/// `" | "`; the application name when there are none.
pub open spec fn tooltip(groups: Seq<ProxyInfo>, app_name: Seq<char>) -> Seq<char> {
    let parts = tooltip_parts(groups.take(if groups.len() < 3 {
        groups.len() as int
    } else {
        3
    }));
    if parts.len() == 0 {
        app_name
    } else {
        join(parts, " | "@)
    }
}

pub fn format_group_tooltip(groups: &Vec<ProxyInfo>, app_name: &str) -> (r: String)
    ensures
        r@ == tooltip(groups@, app_name@),
{
    let limit: usize = if groups.len() < 3 {
        groups.len()
    } else {
        3
    };
    let mut text: Vec<char> = Vec::new();
    let mut count: usize = 0;
    let mut i: usize = 0;
    let ghost gs = groups@.take(limit as int);
    assert(groups@.take(0) =~= Seq::<ProxyInfo>::empty());
    while i < limit
        invariant
            i <= limit <= groups@.len(),
            gs == groups@.take(limit as int),
            count == tooltip_parts(groups@.take(i as int)).len(),
            count <= i,
            text@ == join(tooltip_parts(groups@.take(i as int)), " | "@),
        decreases limit - i,
    {
        let g = &groups[i];
        proof {
            assert(groups@.take(i + 1).drop_last() =~= groups@.take(i as int));
            assert(groups@.take(i + 1).last() == groups@[i as int]);
        }
        match &g.now {
            Some(now) => {
                let mut part = chars_of(g.name.as_str());
                extend_str(&mut part, ": ");
                extend_str(&mut part, now.as_str());
                match latest_delay(g) {
                    Some(d) => {
                        extend_str(&mut part, " ");
                        let dv = decimal_chars(d as u64);
                        extend_chars(&mut part, dv.as_slice());
                        extend_str(&mut part, "ms");
                    },
                    None => {},
                }
                proof {
                    let parts = tooltip_parts(groups@.take(i + 1));
                    assert(tooltip_part(*g) == Some(part@)) by {
                        match latest_delay_of(*g) {
                            Some(d) => {},
                            None => {
                                assert(part@ =~= g.name@ + ": "@ + now@ + Seq::<char>::empty());
                            },
                        }
                    }
                    assert(parts == tooltip_parts(groups@.take(i as int)).push(part@));
                    assert(parts.drop_last() =~= tooltip_parts(groups@.take(i as int)));
                }
                if count > 0 {
                    extend_str(&mut text, " | ");
                    extend_chars(&mut text, part.as_slice());
                } else {
                    extend_chars(&mut text, part.as_slice());
                    assert(text@ =~= part@);
                }
                count += 1;
            },
            None => {},
        }
        i += 1;
    }
    if count == 0 {
        owned(app_name)
    } else {
        string_from_chars(text.as_slice())
    }
}

} // verus!
