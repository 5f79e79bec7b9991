//! Data handed to the desktop front end, and the small decisions the desktop
//! adapter makes about workspaces and target modules.
use vstd::prelude::*;
use crate::app::{LogLevel, PluginDetails};
use crate::events::DebuggeeEvent;
use crate::frames::{enrich_frames, frames_of_message, frames_view, parse_script_frames, ScriptFrame};
use crate::stats::StatNode;
use crate::app_state::{clone_opt, plugin_view, plugin_views};
use crate::stats::string_views;
use crate::text::{
    chars_of, push_str_chars, eq_ignore_ascii_case_chars, eq_ignore_ascii_case_spec, slice_range, string_from,
};

verus! {

/// Protocol version and default port of the adapter.
#[derive(Debug, Clone, PartialEq, Eq, Structural)]
pub struct AdapterInfo {
    pub protocol_version: u8,
    pub default_port: u16,
}

/// A plugin as the front end sees it.
#[derive(Debug, Clone, PartialEq, Eq)]
pub struct PluginInfo {
    pub name: String,
    pub module_uuid: String,
}

/// Desktop source-map configuration status.
#[derive(Debug, Clone, PartialEq, Eq)]
pub struct WorkspaceMapStatus {
    pub enabled: bool,
    pub map_path: Option<String>,
    pub error: Option<String>,
}

/// Handshake data as the front end sees it.
#[derive(Debug, Clone)]
pub struct HandshakeInfo {
    pub version: u8,
    pub plugins: Vec<PluginInfo>,
    pub require_passcode: bool,
    pub source_map_status: WorkspaceMapStatus,
}

/// An opened workspace: its root, packs and script modules.
#[derive(Debug, Clone, PartialEq, Eq)]
pub struct WorkspaceInfo {
    pub root: String,
    pub behavior_pack_path: String,
    pub resource_pack_path: Option<String>,
    pub behavior_pack_uuid: Option<String>,
    pub resource_pack_uuid: Option<String>,
    pub script_module_uuids: Vec<String>,
}

/// The workspace chosen in the front end and the source-map status it led to.
#[derive(Debug, Clone, PartialEq, Eq)]
pub struct WorkspaceSelection {
    pub workspace: Option<WorkspaceInfo>,
    pub source_map_status: WorkspaceMapStatus,
}

pub open spec fn info_view(p: PluginInfo) -> (Seq<char>, Seq<char>) {
    (p.name@, p.module_uuid@)
}

impl HandshakeInfo {
    /// The front-end form of a session handshake; source maps start disabled.
    pub fn from_session(hs: &crate::events::HandshakeInfo) -> (r: Self)
        ensures
            r.version == hs.version,
            r.require_passcode == hs.require_passcode,
            r.plugins@.map_values(|p: PluginInfo| info_view(p)) == plugin_views(hs.plugins@),
            !r.source_map_status.enabled,
            r.source_map_status.map_path is None,
            r.source_map_status.error is None,
    {
        let mut plugins: Vec<PluginInfo> = Vec::new();
        let mut i: usize = 0;
        while i < hs.plugins.len()
            invariant
                0 <= i <= hs.plugins@.len(),
                plugins@.map_values(|p: PluginInfo| info_view(p)) == plugin_views(hs.plugins@).take(
                    i as int,
                ),
            decreases hs.plugins@.len() - i,
        {
            let p = &hs.plugins[i];
            plugins.push(PluginInfo { name: p.name.clone(), module_uuid: p.module_uuid.clone() });
            assert(plugin_views(hs.plugins@).take(i + 1) =~= plugin_views(hs.plugins@).take(
                i as int,
            ).push(plugin_view(*p)));
            assert(plugins@.map_values(|p: PluginInfo| info_view(p)) =~= plugin_views(
                hs.plugins@,
            ).take(i as int).push(plugin_view(*p)));
            i += 1;
        }
        assert(plugin_views(hs.plugins@).take(hs.plugins@.len() as int) =~= plugin_views(
            hs.plugins@,
        ));
        HandshakeInfo {
            version: hs.version,
            plugins,
            require_passcode: hs.require_passcode,
            source_map_status: WorkspaceMapStatus { enabled: false, map_path: None, error: None },
        }
    }
}

/// A debuggee event as the front end receives it.
pub enum McEvent {
    Protocol { version: u8, plugins: Vec<PluginInfo>, require_passcode: bool },
    Stopped { reason: String, thread: u32 },
    Thread { reason: String, thread: u32 },
    /// `frames` are the stack frames found in the message.
    Print { message: String, log_level: u8, frames: Vec<ScriptFrame> },
    Notification { message: String, log_level: u8, frames: Vec<ScriptFrame> },
    Stat2 { tick: u64, stats: Vec<StatNode> },
    ProfilerCapture { capture_base_path: String },
    /// A diagnostics schema, by its number of tab descriptors.
    Schema { count: usize },
    Terminated { reason: Option<String> },
    Unknown { event_type: String },
}

/// The number under which the front end receives a log level: its place
/// in the protocol's list of levels.
pub open spec fn level_number(level: LogLevel) -> u8 {
    match level {
        LogLevel::Verbose => 0,
        LogLevel::Log => 1,
        LogLevel::Warn => 2,
        LogLevel::Error => 3,
        LogLevel::Stop => 4,
    }
}

fn level_number_exec(level: LogLevel) -> (r: u8)
    ensures
        r == level_number(level),
{
    match level {
        LogLevel::Verbose => 0,
        LogLevel::Log => 1,
        LogLevel::Warn => 2,
        LogLevel::Error => 3,
        LogLevel::Stop => 4,
    }
}

/// The front-end form of a list of plugins.
fn plugin_infos(plugins: &Vec<PluginDetails>) -> (r: Vec<PluginInfo>)
    ensures
        r@.map_values(|p: PluginInfo| info_view(p)) == plugin_views(plugins@),
{
    let mut out: Vec<PluginInfo> = Vec::new();
    let mut i: usize = 0;
    while i < plugins.len()
        invariant
            0 <= i <= plugins@.len(),
            out@.map_values(|p: PluginInfo| info_view(p)) == plugin_views(plugins@).take(i as int),
        decreases plugins@.len() - i,
    {
        let p = &plugins[i];
        out.push(PluginInfo { name: p.name.clone(), module_uuid: p.module_uuid.clone() });
        assert(plugin_views(plugins@).take(i + 1) =~= plugin_views(plugins@).take(i as int).push(
            plugin_view(*p),
        ));
        assert(out@.map_values(|p: PluginInfo| info_view(p)) =~= plugin_views(plugins@).take(
            i as int,
        ).push(plugin_view(*p)));
        i += 1;
    }
    assert(plugin_views(plugins@).take(plugins@.len() as int) =~= plugin_views(plugins@));
    out
}

impl McEvent {
    /// The front-end form of a debuggee event: print and notification
    /// messages come with the stack frames found in them, and responses
    /// are passed on only by their kind.
    pub fn from_debuggee(event: DebuggeeEvent) -> (r: Self)
        ensures
            match event {
                DebuggeeEvent::Protocol { version, plugins, require_passcode } => r matches McEvent::Protocol {
                    version: v,
                    plugins: ps,
                    require_passcode: rp,
                } && v == version && rp == require_passcode && ps@.map_values(
                    |p: PluginInfo| info_view(p),
                ) == plugin_views(plugins@),
                DebuggeeEvent::Stopped { reason, thread } => r == (McEvent::Stopped { reason, thread }),
                DebuggeeEvent::Thread { reason, thread } => r == (McEvent::Thread { reason, thread }),
                DebuggeeEvent::Print { message, log_level } => r matches McEvent::Print {
                    message: m,
                    log_level: l,
                    frames: f,
                } && m == message && l == level_number(log_level) && frames_view(f@)
                    == frames_of_message(message@),
                DebuggeeEvent::Notification { message, log_level } => r matches McEvent::Notification {
                    message: m,
                    log_level: l,
                    frames: f,
                } && m == message && l == level_number(log_level) && frames_view(f@)
                    == frames_of_message(message@),
                DebuggeeEvent::Stat2 { tick, stats } => r == (McEvent::Stat2 { tick, stats }),
                DebuggeeEvent::ProfilerCapture { capture_base_path, .. } => r == (
                McEvent::ProfilerCapture { capture_base_path }),
                DebuggeeEvent::DebuggeeResponse { .. } => r matches McEvent::Unknown { event_type: t }
                    && t@ == "debuggee-response"@,
                DebuggeeEvent::Response { .. } => r matches McEvent::Unknown { event_type: t } && t@
                    == "response"@,
                DebuggeeEvent::Schema { descriptor_count } => r == (McEvent::Schema {
                    count: descriptor_count,
                }),
                DebuggeeEvent::Terminated { reason } => r == (McEvent::Terminated { reason }),
                DebuggeeEvent::Unknown { event_type } => r == (McEvent::Unknown { event_type }),
            },
    {
        match event {
            DebuggeeEvent::Protocol { version, plugins, require_passcode } => McEvent::Protocol {
                version,
                plugins: plugin_infos(&plugins),
                require_passcode,
            },
            DebuggeeEvent::Stopped { reason, thread } => McEvent::Stopped { reason, thread },
            DebuggeeEvent::Thread { reason, thread } => McEvent::Thread { reason, thread },
            DebuggeeEvent::Print { message, log_level } => {
                let frames = parse_script_frames(message.as_str());
                McEvent::Print { message, log_level: level_number_exec(log_level), frames }
            },
            DebuggeeEvent::Notification { message, log_level } => {
                let frames = parse_script_frames(message.as_str());
                McEvent::Notification { message, log_level: level_number_exec(log_level), frames }
            },
            DebuggeeEvent::Stat2 { tick, stats } => McEvent::Stat2 { tick, stats },
            DebuggeeEvent::ProfilerCapture { capture_base_path, .. } => McEvent::ProfilerCapture {
                capture_base_path,
            },
            DebuggeeEvent::DebuggeeResponse { .. } => McEvent::Unknown {
                event_type: "debuggee-response".to_owned(),
            },
            DebuggeeEvent::Response { .. } => McEvent::Unknown { event_type: "response".to_owned() },
            DebuggeeEvent::Schema { descriptor_count } => McEvent::Schema { count: descriptor_count },
            DebuggeeEvent::Terminated { reason } => McEvent::Terminated { reason },
            DebuggeeEvent::Unknown { event_type } => McEvent::Unknown { event_type },
        }
    }

    /// The frames an event carries: those of a print or notification.
    pub open spec fn frames_of(&self) -> Option<Seq<ScriptFrame>> {
        match self {
            McEvent::Print { frames, .. } => Some(frames@),
            McEvent::Notification { frames, .. } => Some(frames@),
            _ => None,
        }
    }

    /// How many frames the event carries (0 for events without frames); the
    /// caller looks each up in the source map and hands the answers to
    /// `enrich`.
    pub fn frame_count(&self) -> (r: usize)
        ensures
            r == match self.frames_of() {
                Some(f) => f.len(),
                None => 0,
            },
    {
        match self {
            McEvent::Print { frames, .. } => frames.len(),
            McEvent::Notification { frames, .. } => frames.len(),
            _ => 0,
        }
    }

    /// Enrich the frames of a print or notification with the source map's
    /// answers, one per frame; other events stay as they are.
    pub fn enrich(&mut self, answers: Vec<Option<crate::frames::OriginalPosition>>)
        requires
            answers@.len() == match old(self).frames_of() {
                Some(f) => f.len(),
                None => 0,
            },
        ensures
            old(self).frames_of() is None ==> *final(self) == *old(self),
            old(self).frames_of() matches Some(before) ==> (final(self).frames_of() matches Some(
                after,
            ) && after.len() == before.len() && forall|i: int|
                0 <= i < before.len() ==> (#[trigger] after[i])@ == crate::frames::enriched(
                    before[i]@,
                    crate::frames::original_view(answers@[i]),
                )),
    {
        match self {
            McEvent::Print { frames, .. } => enrich_frames(frames, answers),
            McEvent::Notification { frames, .. } => enrich_frames(frames, answers),
            _ => {},
        }
    }
}

/// Whether `module_uuid` is one of `uuids`, ignoring ASCII case.
pub open spec fn has_module(uuids: Seq<Seq<char>>, module_uuid: Seq<char>) -> bool {
    exists|i: int| 0 <= i < uuids.len() && eq_ignore_ascii_case_spec(uuids[i], module_uuid)
}

/// Whether a workspace's script modules include `module_uuid` (ASCII case
/// ignored).
pub fn workspace_has_module(uuids: &Vec<String>, module_uuid: &str) -> (r: bool)
    ensures
        r == has_module(string_views(uuids@), module_uuid@),
{
    let target = chars_of(module_uuid);
    let mut i: usize = 0;
    while i < uuids.len()
        invariant
            0 <= i <= uuids@.len(),
            target@ == module_uuid@,
            forall|j: int|
                0 <= j < i ==> !eq_ignore_ascii_case_spec(string_views(uuids@)[j], module_uuid@),
        decreases uuids@.len() - i,
    {
        let u = chars_of(uuids[i].as_str());
        if eq_ignore_ascii_case_chars(u.as_slice(), target.as_slice()) {
            assert(string_views(uuids@)[i as int] == uuids@[i as int]@);
            return true;
        }
        assert(string_views(uuids@)[i as int] == uuids@[i as int]@);
        i += 1;
    }
    false
}

/// The module whose source maps to use: the one asked for, else the one
/// selected before, else the only plugin of the handshake.
pub open spec fn module_choice(
    requested: Option<Seq<char>>,
    selected: Option<Seq<char>>,
    plugins: Seq<(Seq<char>, Seq<char>)>,
) -> Option<Seq<char>> {
    if requested is Some {
        requested
    } else if selected is Some {
        selected
    } else if plugins.len() == 1 {
        Some(plugins[0].1)
    } else {
        None
    }
}

pub fn selected_module_uuid(
    requested: Option<String>,
    selected: &Option<String>,
    handshake: &crate::events::HandshakeInfo,
) -> (r: Option<String>)
    ensures
        crate::frames::opt_view(r) == module_choice(
            crate::frames::opt_view(requested),
            crate::frames::opt_view(*selected),
            plugin_views(handshake.plugins@),
        ),
{
    match requested {
        Some(u) => Some(u),
        None => match selected {
            Some(s) => Some(s.clone()),
            None => if handshake.plugins.len() == 1 {
                Some(handshake.plugins[0].module_uuid.clone())
            } else {
                None
            },
        },
    }
}

/// The non-empty components of a path other than `.`, split at `/` and `\`.
pub open spec fn path_components(path: Seq<char>) -> Seq<Seq<char>> {
    split_any(path).filter(real_component())
}

/// Keeps the components that are neither empty nor `.`.
pub open spec fn real_component() -> spec_fn(Seq<char>) -> bool {
    |part: Seq<char>| part.len() > 0 && part != seq!['.']
}

/// `path` split at every `/` and `\`.
pub open spec fn split_any(path: Seq<char>) -> Seq<Seq<char>>
    decreases path.len(),
{
    if path.len() == 0 {
        seq![Seq::<char>::empty()]
    } else {
        let rest = split_any(path.drop_last());
        if path.last() == '/' || path.last() == '\\' {
            rest.push(Seq::<char>::empty())
        } else {
            rest.update(rest.len() - 1, rest.last().push(path.last()))
        }
    }
}

proof fn lemma_split_any_nonempty(path: Seq<char>)
    ensures
        split_any(path).len() >= 1,
    decreases path.len(),
{
    if path.len() > 0 {
        lemma_split_any_nonempty(path.drop_last());
    }
}

/// The components of a relative path written with either separator, for
/// joining below a pack root.
pub fn portable_relative_path(path: &str) -> (r: Vec<String>)
    ensures
        string_views(r@) == path_components(path@),
{
    let cs = chars_of(path);
    let ghost p = path@;
    let mut parts: Vec<Vec<char>> = Vec::new();
    let mut cur: Vec<char> = Vec::new();
    let mut i: usize = 0;
    proof {
        assert(p.take(0) =~= Seq::<char>::empty());
    }
    while i < cs.len()
        invariant
            cs@ == p,
            0 <= i <= p.len(),
            parts@.len() + 1 == split_any(p.take(i as int)).len(),
            forall|k: int|
                0 <= k < parts@.len() ==> #[trigger] parts@[k]@ == split_any(p.take(i as int))[k],
            cur@ == split_any(p.take(i as int)).last(),
        decreases p.len() - i,
    {
        let c = cs[i];
        proof {
            assert(p.take(i + 1).drop_last() =~= p.take(i as int));
            lemma_split_any_nonempty(p.take(i as int));
        }
        if c == '/' || c == '\\' {
            parts.push(cur);
            cur = Vec::new();
        } else {
            cur.push(c);
        }
        i += 1;
    }
    parts.push(cur);
    proof {
        assert(p.take(p.len() as int) =~= p);
    }
    let ghost all = split_any(p);
    let ghost keep = real_component();
    let mut out: Vec<String> = Vec::new();
    let mut k: usize = 0;
    proof {
        assert(all.take(0) =~= Seq::<Seq<char>>::empty());
        assert(all.take(0).filter(keep) =~= Seq::<Seq<char>>::empty()) by {
            reveal(Seq::filter);
        }
    }
    while k < parts.len()
        invariant
            all == split_any(p),
            keep == real_component(),
            parts@.len() == all.len(),
            forall|j: int| 0 <= j < parts@.len() ==> #[trigger] parts@[j]@ == all[j],
            0 <= k <= parts@.len(),
            string_views(out@) == all.take(k as int).filter(keep),
        decreases parts@.len() - k,
    {
        let part = &parts[k];
        proof {
            assert(all.take(k + 1) =~= all.take(k as int).push(part@));
            all.take(k as int).lemma_filter_push(part@, keep);
        }
        let is_dot = part.len() == 1 && part[0] == '.';
        proof {
            if part@.len() == 1 {
                assert(is_dot == (part@ == seq!['.'])) by {
                    if part@[0] == '.' {
                        assert(part@ =~= seq!['.']);
                    }
                }
            } else {
                assert(part@ != seq!['.']);
            }
        }
        assert(keep(part@) == (part@.len() > 0 && part@ != seq!['.']));
        if part.len() > 0 && !is_dot {
            out.push(string_from(part.as_slice()));
            assert(string_views(out@) =~= all.take(k as int).filter(keep).push(part@));
        }
        k += 1;
    }
    proof {
        assert(all.take(all.len() as int) =~= all);
    }
    out
}

// ── Source-map status for the connected module ───────────────────────

/// What came of searching one `com.mojang` directory for the connected
/// module's source map.
pub enum MapSearch {
    /// No pack there has the module with a map beside its entry; the
    /// message says what was found.
    NotFound(String),
    /// A map was found at `map_path`; `load_error` is why loading it failed,
    /// if it did.
    Found { map_path: String, load_error: Option<String> },
}

/// A search outcome taken as character sequences.
pub open spec fn search_view(s: MapSearch) -> (bool, Seq<char>, Option<Seq<char>>) {
    match s {
        MapSearch::NotFound(m) => (false, m@, None),
        MapSearch::Found { map_path, load_error } => (
            true,
            map_path@,
            match load_error {
                Some(e) => Some(e@),
                None => None,
            },
        ),
    }
}

/// The messages joined with `"; "` between them.
pub open spec fn joined(msgs: Seq<Seq<char>>) -> Seq<char>
    decreases msgs.len(),
{
    if msgs.len() == 0 {
        Seq::empty()
    } else if msgs.len() == 1 {
        msgs[0]
    } else {
        joined(msgs.drop_last()) + "; "@ + msgs.last()
    }
}

/// A source-map status as plain values: enabled, map path, error.
pub open spec fn status_view(s: WorkspaceMapStatus) -> (bool, Option<Seq<char>>, Option<Seq<char>>) {
    (
        s.enabled,
        match s.map_path {
            Some(p) => Some(p@),
            None => None,
        },
        match s.error {
            Some(e) => Some(e@),
            None => None,
        },
    )
}

/// The status after the searches `s[k..]`, the earlier ones having found
/// nothing with the messages `failed`.
pub open spec fn status_after(s: Seq<(bool, Seq<char>, Option<Seq<char>>)>, k: int, failed: Seq<Seq<char>>) -> (
    bool,
    Option<Seq<char>>,
    Option<Seq<char>>,
)
    decreases s.len() - k,
{
    if k >= s.len() || k < 0 {
        (false, None, Some(joined(failed)))
    } else if s[k].0 {
        (s[k].2 is None, Some(s[k].1), s[k].2)
    } else {
        status_after(s, k + 1, failed.push(s[k].1))
    }
}

/// The source-map status for the connected module: none selected, or a
/// module the open workspace does not contain, is an error; with no
/// `com.mojang` directory to search, too; otherwise the first directory
/// where a map was found decides (enabled when it loaded), and when none
/// had one, the reasons are joined.
pub open spec fn module_map_status_spec(
    module_uuid: Option<Seq<char>>,
    workspace_modules: Option<Seq<Seq<char>>>,
    searches: Seq<(bool, Seq<char>, Option<Seq<char>>)>,
) -> (bool, Option<Seq<char>>, Option<Seq<char>>) {
    match module_uuid {
        None => (false, None, Some("no connected script module is selected"@)),
        Some(m) => if workspace_modules matches Some(ws) && !has_module(ws, m) {
            (false, None, Some("open workspace does not contain connected script module "@ + m))
        } else if searches.len() == 0 {
            (false, None, Some("MOJANG_DIR is not set and no standard com.mojang directory was found"@))
        } else {
            status_after(searches, 0, Seq::empty())
        },
    }
}

fn joined_exec(msgs: &Vec<Vec<char>>) -> (r: Vec<char>)
    ensures
        r@ == joined(crate::order::views(msgs@)),
{
    let ghost m = crate::order::views(msgs@);
    let mut out: Vec<char> = Vec::new();
    let mut i: usize = 0;
    while i < msgs.len()
        invariant
            0 <= i <= msgs@.len(),
            m == crate::order::views(msgs@),
            out@ == joined(m.take(i as int)),
        decreases msgs@.len() - i,
    {
        if i > 0 {
            push_str_chars(&mut out, "; ");
        }
        crate::text::extend_chars(&mut out, msgs[i].as_slice());
        assert(m.take(i + 1).drop_last() =~= m.take(i as int));
        i += 1;
    }
    assert(m.take(msgs@.len() as int) =~= m);
    out
}

/// Decide the source-map status for the connected module from the open
/// workspace's script modules (if a workspace is open) and the outcomes of
/// the searches under each candidate `com.mojang` directory, in order; the
/// caller searches the next directory only when the previous one found no
/// map.
pub fn module_map_status(
    module_uuid: Option<&str>,
    workspace_modules: Option<&Vec<String>>,
    searches: &Vec<MapSearch>,
) -> (r: WorkspaceMapStatus)
    ensures
        status_view(r) == module_map_status_spec(
            match module_uuid {
                Some(m) => Some(m@),
                None => None,
            },
            match workspace_modules {
                Some(w) => Some(string_views(w@)),
                None => None,
            },
            searches@.map_values(|s: MapSearch| search_view(s)),
        ),
{
    let m = match module_uuid {
        None => {
            return WorkspaceMapStatus {
                enabled: false,
                map_path: None,
                error: Some("no connected script module is selected".to_owned()),
            };
        },
        Some(m) => m,
    };
    match workspace_modules {
        Some(ws) => {
            if !workspace_has_module(ws, m) {
                let mut out: Vec<char> = Vec::new();
                push_str_chars(&mut out, "open workspace does not contain connected script module ");
                push_str_chars(&mut out, m);
                return WorkspaceMapStatus {
                    enabled: false,
                    map_path: None,
                    error: Some(string_from(out.as_slice())),
                };
            }
        },
        None => {},
    }
    let ghost sv = searches@.map_values(|s: MapSearch| search_view(s));
    if searches.len() == 0 {
        return WorkspaceMapStatus {
            enabled: false,
            map_path: None,
            error: Some("MOJANG_DIR is not set and no standard com.mojang directory was found".to_owned()),
        };
    }
    let ghost goal = module_map_status_spec(
        Some(m@),
        match workspace_modules {
            Some(w) => Some(string_views(w@)),
            None => None,
        },
        sv,
    );
    let mut failed: Vec<Vec<char>> = Vec::new();
    proof {
        assert(crate::order::views(failed@) =~= Seq::<Seq<char>>::empty());
    }
    let mut k: usize = 0;
    while k < searches.len()
        invariant
            0 <= k <= searches@.len(),
            sv == searches@.map_values(|s: MapSearch| search_view(s)),
            goal == status_after(sv, k as int, crate::order::views(failed@)),
            goal == module_map_status_spec(
                match module_uuid {
                    Some(m) => Some(m@),
                    None => None,
                },
                match workspace_modules {
                    Some(w) => Some(string_views(w@)),
                    None => None,
                },
                searches@.map_values(|s: MapSearch| search_view(s)),
            ),
        decreases searches@.len() - k,
    {
        assert(sv[k as int] == search_view(searches@[k as int]));
        match &searches[k] {
            MapSearch::Found { map_path, load_error } => {
                let error = match load_error {
                    Some(e) => Some(e.clone()),
                    None => None,
                };
                return WorkspaceMapStatus {
                    enabled: load_error.is_none(),
                    map_path: Some(map_path.clone()),
                    error,
                };
            },
            MapSearch::NotFound(msg) => {
                let ghost before = crate::order::views(failed@);
                failed.push(chars_of(msg.as_str()));
                assert(crate::order::views(failed@) =~= before.push(msg@));
            },
        }
        k += 1;
    }
    let out = joined_exec(&failed);
    WorkspaceMapStatus { enabled: false, map_path: None, error: Some(string_from(out.as_slice())) }
}

// ── Choosing a map inside a pack folder ──────────────────────────────

/// A module of a pack manifest, with the source maps that exist beside its
/// entry script (`<entry>.map`, then `<stem>.map.js`).
pub struct PackModule {
    pub module_type: String,
    pub uuid: String,
    pub existing_maps: Vec<String>,
}

/// What a pack folder offers as the source map for a manual override.
pub enum PackChoice {
    /// A module UUID was asked for and no script module matches it.
    NoMatchingModule,
    /// Exactly one map exists for the chosen modules.
    Single(String),
    /// No map exists for them; the search goes on elsewhere.
    NoMap,
    /// Several exist; the user has to pick a map file.
    Several,
}

/// Whether a module is a script module chosen by `selected` (any script
/// module when none is asked for; else one whose UUID matches, ASCII case
/// ignored).
pub open spec fn chosen_module(m: PackModule, selected: Option<Seq<char>>) -> bool {
    &&& m.module_type@ == "script"@
    &&& match selected {
        Some(u) => eq_ignore_ascii_case_spec(m.uuid@, u),
        None => true,
    }
}

/// The existing maps of the chosen modules, module by module.
pub open spec fn chosen_maps(ms: Seq<PackModule>, selected: Option<Seq<char>>) -> Seq<Seq<char>>
    decreases ms.len(),
{
    if ms.len() == 0 {
        Seq::empty()
    } else {
        chosen_maps(ms.drop_last(), selected) + if chosen_module(ms.last(), selected) {
            string_views(ms.last().existing_maps@)
        } else {
            Seq::empty()
        }
    }
}

/// Whether any module is chosen.
pub open spec fn any_chosen(ms: Seq<PackModule>, selected: Option<Seq<char>>) -> bool {
    exists|i: int| 0 <= i < ms.len() && chosen_module(#[trigger] ms[i], selected)
}

/// The map a pack folder offers: with a module asked for that no script
/// module matches, none at all; else the single map of the chosen modules,
/// if there is exactly one.
pub fn pack_map_choice(modules: &Vec<PackModule>, selected: Option<&str>) -> (r: PackChoice)
    ensures
        ({
            let sel = match selected {
                Some(u) => Some(u@),
                None => None,
            };
            let maps = chosen_maps(modules@, sel);
            &&& (sel is Some && !any_chosen(modules@, sel)) <==> r is NoMatchingModule
            &&& r is NoMatchingModule || (match r {
                PackChoice::Single(m) => maps.len() == 1 && m@ == maps[0],
                PackChoice::NoMap => maps.len() == 0,
                PackChoice::Several => maps.len() > 1,
                PackChoice::NoMatchingModule => false,
            })
        }),
{
    let ghost sel = match selected {
        Some(u) => Some(u@),
        None => None,
    };
    let mut maps: Vec<Vec<char>> = Vec::new();
    let mut any = false;
    let mut i: usize = 0;
    while i < modules.len()
        invariant
            0 <= i <= modules@.len(),
            sel == match selected {
                Some(u) => Some(u@),
                None => None,
            },
            crate::order::views(maps@) == chosen_maps(modules@.take(i as int), sel),
            any == any_chosen(modules@.take(i as int), sel),
        decreases modules@.len() - i,
    {
        let m = &modules[i];
        let is_script = crate::text::str_eq(m.module_type.as_str(), "script");
        let chosen = is_script && match selected {
            Some(u) => {
                let a = chars_of(m.uuid.as_str());
                let b = chars_of(u);
                eq_ignore_ascii_case_chars(a.as_slice(), b.as_slice())
            },
            None => true,
        };
        assert(modules@.take(i + 1).drop_last() =~= modules@.take(i as int));
        assert(modules@.take(i + 1).last() == modules@[i as int]);
        if chosen {
            let ghost before = crate::order::views(maps@);
            let mut j: usize = 0;
            while j < m.existing_maps.len()
                invariant
                    0 <= j <= m.existing_maps@.len(),
                    crate::order::views(maps@) == before + string_views(m.existing_maps@).take(
                        j as int,
                    ),
                decreases m.existing_maps@.len() - j,
            {
                let c = chars_of(m.existing_maps[j].as_str());
                let ghost was = crate::order::views(maps@);
                maps.push(c);
                assert(crate::order::views(maps@) =~= was.push(c@));
                assert(string_views(m.existing_maps@)[j as int] == m.existing_maps@[j as int]@);
                assert(string_views(m.existing_maps@).take(j + 1) =~= string_views(
                    m.existing_maps@,
                ).take(j as int).push(m.existing_maps@[j as int]@));
                assert(crate::order::views(maps@) =~= before + string_views(m.existing_maps@).take(
                    j + 1,
                ));
                j += 1;
            }
            assert(string_views(m.existing_maps@).take(m.existing_maps@.len() as int)
                =~= string_views(m.existing_maps@));
            any = true;
            assert(chosen_module(modules@.take(i + 1)[i as int], sel));
        } else {
            assert(crate::order::views(maps@) =~= chosen_maps(modules@.take(i + 1), sel));
            assert forall|k: int| 0 <= k < i + 1 && chosen_module(#[trigger] modules@.take(i + 1)[k], sel)
                implies 0 <= k < i && chosen_module(modules@.take(i as int)[k], sel) by {
                if k == i {
                    assert(modules@.take(i + 1)[k] == modules@[i as int]);
                } else {
                    assert(modules@.take(i + 1)[k] == modules@.take(i as int)[k]);
                }
            }
        }
        assert(any == any_chosen(modules@.take(i + 1), sel)) by {
            if any_chosen(modules@.take(i as int), sel) {
                let k = choose|k: int| 0 <= k < i && chosen_module(#[trigger] modules@.take(i as int)[k], sel);
                assert(modules@.take(i + 1)[k] == modules@.take(i as int)[k]);
            }
        }
        i += 1;
    }
    assert(modules@.take(modules@.len() as int) =~= modules@);
    if selected.is_some() && !any {
        return PackChoice::NoMatchingModule;
    }
    if maps.len() == 1 {
        PackChoice::Single(string_from(maps[0].as_slice()))
    } else if maps.len() == 0 {
        PackChoice::NoMap
    } else {
        PackChoice::Several
    }
}

} // verus!
