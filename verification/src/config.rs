//! Versioned configuration: what is persisted between sessions (known
//! plugins, last target, passcode, filter state) and how it is merged with
//! command-line overrides and with the running state.
use vstd::prelude::*;
use vstd::std_specs::convert::FromSpecImpl;
use crate::app::{LogKindFilter, LogLevelFilter, PluginDetails};
use crate::app_state::{clone_opt, plugin_view, plugin_views};

verus! {

/// Schema version for forward compatibility.
#[derive(Debug, Clone, Copy, PartialEq, Eq, Structural)]
pub enum ConfigVersion {
    V1,
}

impl Default for ConfigVersion {
    fn default() -> (r: Self)
        ensures
            r == ConfigVersion::V1,
    {
        ConfigVersion::V1
    }
}

/// Persisted mirror of [`LogKindFilter`]; each toggle defaults to on.
#[derive(Debug, Clone, PartialEq, Eq, Structural)]
pub struct SerializableKindFilter {
    pub system: bool,
    pub protocol: bool,
    pub stopped: bool,
    pub thread: bool,
    pub print: bool,
    pub notification: bool,
    pub stat: bool,
    pub profiler_capture: bool,
    pub schema: bool,
    pub terminated: bool,
    pub unknown: bool,
}

/// The value a missing toggle takes.
pub fn default_true() -> (r: bool)
    ensures
        r,
{
    true
}

impl SerializableKindFilter {
    pub open spec fn all_enabled_spec() -> SerializableKindFilter {
        SerializableKindFilter {
            system: true,
            protocol: true,
            stopped: true,
            thread: true,
            print: true,
            notification: true,
            stat: true,
            profiler_capture: true,
            schema: true,
            terminated: true,
            unknown: true,
        }
    }

    pub fn all_enabled() -> (r: Self)
        ensures
            r == SerializableKindFilter::all_enabled_spec(),
    {
        SerializableKindFilter {
            system: true,
            protocol: true,
            stopped: true,
            thread: true,
            print: true,
            notification: true,
            stat: true,
            profiler_capture: true,
            schema: true,
            terminated: true,
            unknown: true,
        }
    }
}

impl Default for SerializableKindFilter {
    fn default() -> (r: Self)
        ensures
            r == SerializableKindFilter::all_enabled_spec(),
    {
        Self::all_enabled()
    }
}

/// The persisted form of a kind filter.
pub open spec fn kinds_to_file(f: LogKindFilter) -> SerializableKindFilter {
    SerializableKindFilter {
        system: f.system,
        protocol: f.protocol,
        stopped: f.stopped,
        thread: f.thread,
        print: f.print,
        notification: f.notification,
        stat: f.stat,
        profiler_capture: f.profiler_capture,
        schema: f.schema,
        terminated: f.terminated,
        unknown: f.unknown,
    }
}

/// The runtime form of a persisted kind filter.
pub open spec fn kinds_from_file(f: SerializableKindFilter) -> LogKindFilter {
    LogKindFilter {
        system: f.system,
        protocol: f.protocol,
        stopped: f.stopped,
        thread: f.thread,
        print: f.print,
        notification: f.notification,
        stat: f.stat,
        profiler_capture: f.profiler_capture,
        schema: f.schema,
        terminated: f.terminated,
        unknown: f.unknown,
    }
}

impl From<&LogKindFilter> for SerializableKindFilter {
    fn from(f: &LogKindFilter) -> (r: Self) {
        SerializableKindFilter {
            system: f.system,
            protocol: f.protocol,
            stopped: f.stopped,
            thread: f.thread,
            print: f.print,
            notification: f.notification,
            stat: f.stat,
            profiler_capture: f.profiler_capture,
            schema: f.schema,
            terminated: f.terminated,
            unknown: f.unknown,
        }
    }
}

impl FromSpecImpl<&LogKindFilter> for SerializableKindFilter {
    open spec fn obeys_from_spec() -> bool {
        true
    }

    open spec fn from_spec(f: &LogKindFilter) -> SerializableKindFilter {
        kinds_to_file(*f)
    }
}

impl From<SerializableKindFilter> for LogKindFilter {
    fn from(f: SerializableKindFilter) -> (r: Self) {
        LogKindFilter {
            system: f.system,
            protocol: f.protocol,
            stopped: f.stopped,
            thread: f.thread,
            print: f.print,
            notification: f.notification,
            stat: f.stat,
            profiler_capture: f.profiler_capture,
            schema: f.schema,
            terminated: f.terminated,
            unknown: f.unknown,
        }
    }
}

impl FromSpecImpl<SerializableKindFilter> for LogKindFilter {
    open spec fn obeys_from_spec() -> bool {
        true
    }

    open spec fn from_spec(f: SerializableKindFilter) -> LogKindFilter {
        kinds_from_file(f)
    }
}

/// Persisted mirror of [`LogLevelFilter`]; each toggle defaults to on.
#[derive(Debug, Clone, PartialEq, Eq, Structural)]
pub struct SerializableLevelFilter {
    pub log: bool,
    pub warn: bool,
    pub error: bool,
}

impl SerializableLevelFilter {
    pub open spec fn all_enabled_spec() -> SerializableLevelFilter {
        SerializableLevelFilter { log: true, warn: true, error: true }
    }

    pub fn all_enabled() -> (r: Self)
        ensures
            r == SerializableLevelFilter::all_enabled_spec(),
    {
        SerializableLevelFilter { log: true, warn: true, error: true }
    }
}

impl Default for SerializableLevelFilter {
    fn default() -> (r: Self)
        ensures
            r == SerializableLevelFilter::all_enabled_spec(),
    {
        Self::all_enabled()
    }
}

impl From<&LogLevelFilter> for SerializableLevelFilter {
    fn from(f: &LogLevelFilter) -> (r: Self) {
        SerializableLevelFilter { log: f.log, warn: f.warn, error: f.error }
    }
}

impl FromSpecImpl<&LogLevelFilter> for SerializableLevelFilter {
    open spec fn obeys_from_spec() -> bool {
        true
    }

    open spec fn from_spec(f: &LogLevelFilter) -> SerializableLevelFilter {
        SerializableLevelFilter { log: f.log, warn: f.warn, error: f.error }
    }
}

impl From<SerializableLevelFilter> for LogLevelFilter {
    fn from(f: SerializableLevelFilter) -> (r: Self) {
        LogLevelFilter { log: f.log, warn: f.warn, error: f.error }
    }
}

impl FromSpecImpl<SerializableLevelFilter> for LogLevelFilter {
    open spec fn obeys_from_spec() -> bool {
        true
    }

    open spec fn from_spec(f: SerializableLevelFilter) -> LogLevelFilter {
        LogLevelFilter { log: f.log, warn: f.warn, error: f.error }
    }
}

/// Persisted filter configuration.
#[derive(Debug, Clone, PartialEq, Eq)]
pub struct SerializableFilterState {
    pub search: String,
    pub kinds: SerializableKindFilter,
    pub levels: SerializableLevelFilter,
}

impl Default for SerializableFilterState {
    fn default() -> (r: Self)
        ensures
            r.search@ == Seq::<char>::empty(),
            r.kinds == SerializableKindFilter::all_enabled_spec(),
            r.levels == SerializableLevelFilter::all_enabled_spec(),
    {
        SerializableFilterState {
            search: String::new(),
            kinds: SerializableKindFilter::all_enabled(),
            levels: SerializableLevelFilter::all_enabled(),
        }
    }
}

/// A cached plugin descriptor stored in the config.
#[derive(Debug, Clone, PartialEq, Eq)]
pub struct CachedPlugin {
    pub name: String,
    pub module_uuid: String,
}

impl From<&PluginDetails> for CachedPlugin {
    fn from(p: &PluginDetails) -> (r: Self) {
        CachedPlugin { name: p.name.clone(), module_uuid: p.module_uuid.clone() }
    }
}

impl FromSpecImpl<&PluginDetails> for CachedPlugin {
    open spec fn obeys_from_spec() -> bool {
        true
    }

    open spec fn from_spec(p: &PluginDetails) -> CachedPlugin {
        CachedPlugin { name: p.name, module_uuid: p.module_uuid }
    }
}

impl From<CachedPlugin> for PluginDetails {
    fn from(c: CachedPlugin) -> (r: Self) {
        PluginDetails { name: c.name, module_uuid: c.module_uuid }
    }
}

impl FromSpecImpl<CachedPlugin> for PluginDetails {
    open spec fn obeys_from_spec() -> bool {
        true
    }

    open spec fn from_spec(c: CachedPlugin) -> PluginDetails {
        PluginDetails { name: c.name, module_uuid: c.module_uuid }
    }
}

pub open spec fn cached_view(c: CachedPlugin) -> (Seq<char>, Seq<char>) {
    (c.name@, c.module_uuid@)
}

pub open spec fn cached_views(cs: Seq<CachedPlugin>) -> Seq<(Seq<char>, Seq<char>)> {
    cs.map_values(|c: CachedPlugin| cached_view(c))
}

/// The configuration as stored.
#[derive(Debug, Clone, PartialEq, Eq)]
pub struct AppConfigFile {
    pub version: ConfigVersion,
    /// Cached plugins from previous connections.
    pub known_plugins: Vec<CachedPlugin>,
    /// Last-used target module UUID (for quick reconnect).
    pub last_target_uuid: Option<String>,
    /// Passcode from the last successful connection.
    pub passcode: Option<String>,
    /// Full filter state (search, kind toggles, level toggles).
    pub filters: SerializableFilterState,
}

impl Default for AppConfigFile {
    fn default() -> (r: Self)
        ensures
            r.version == ConfigVersion::V1,
            r.known_plugins@.len() == 0,
            r.last_target_uuid is None,
            r.passcode is None,
            r.filters.search@ == Seq::<char>::empty(),
            r.filters.kinds == SerializableKindFilter::all_enabled_spec(),
            r.filters.levels == SerializableLevelFilter::all_enabled_spec(),
    {
        AppConfigFile {
            version: ConfigVersion::V1,
            known_plugins: Vec::new(),
            last_target_uuid: None,
            passcode: None,
            filters: SerializableFilterState::default(),
        }
    }
}

/// Resolved configuration that merges file values with CLI overrides.
#[derive(Debug, Clone)]
pub struct AppConfig {
    pub known_plugins: Vec<PluginDetails>,
    pub last_target_uuid: Option<String>,
    pub passcode: Option<String>,
    pub search: String,
    pub kinds: LogKindFilter,
    pub levels: LogLevelFilter,
}

/// The known plugins after adding each of `ps` that is not yet known by
/// UUID at the front, the last of `ps` first, so that `ps` ends up in its
/// own order ahead of the plugins known before.
pub open spec fn front_merge(
    known: Seq<(Seq<char>, Seq<char>)>,
    ps: Seq<(Seq<char>, Seq<char>)>,
) -> Seq<(Seq<char>, Seq<char>)>
    decreases ps.len(),
{
    if ps.len() == 0 {
        known
    } else {
        let p = ps.last();
        let known1 = if exists|i: int| 0 <= i < known.len() && known[i].1 == p.1 {
            known
        } else {
            seq![p] + known
        };
        front_merge(known1, ps.drop_last())
    }
}

/// No two plugins share a module UUID.
pub open spec fn uuids_unique(ps: Seq<(Seq<char>, Seq<char>)>) -> bool {
    forall|i: int, j: int| 0 <= i < j < ps.len() ==> ps[i].1 != ps[j].1
}

/// Converting a kind filter to its stored form and back gives the filter
/// back, and so does the other way round: nothing is lost in a save.
pub proof fn lemma_kind_filter_round_trip(k: LogKindFilter, f: SerializableKindFilter)
    ensures
        kinds_from_file(kinds_to_file(k)) == k,
        kinds_to_file(kinds_from_file(f)) == f,
{
}

/// Merging never introduces a second plugin with the same module UUID.
pub proof fn lemma_front_merge_keeps_uuids_unique(
    known: Seq<(Seq<char>, Seq<char>)>,
    ps: Seq<(Seq<char>, Seq<char>)>,
)
    requires
        uuids_unique(known),
    ensures
        uuids_unique(front_merge(known, ps)),
    decreases ps.len(),
{
    if ps.len() > 0 {
        let p = ps.last();
        if exists|i: int| 0 <= i < known.len() && known[i].1 == p.1 {
            lemma_front_merge_keeps_uuids_unique(known, ps.drop_last());
        } else {
            let k1 = seq![p] + known;
            assert forall|i: int, j: int| 0 <= i < j < k1.len() implies k1[i].1 != k1[j].1 by {
                if i == 0 {
                    assert(k1[j] == known[j - 1]);
                } else {
                    assert(k1[i] == known[i - 1]);
                    assert(k1[j] == known[j - 1]);
                }
            }
            lemma_front_merge_keeps_uuids_unique(k1, ps.drop_last());
        }
    }
}

/// Every plugin known before, and every plugin merged in, is known after
/// (by module UUID).
pub proof fn lemma_front_merge_keeps_all(
    known: Seq<(Seq<char>, Seq<char>)>,
    ps: Seq<(Seq<char>, Seq<char>)>,
    uuid: Seq<char>,
)
    requires
        (exists|i: int| 0 <= i < known.len() && known[i].1 == uuid) || (exists|i: int|
            0 <= i < ps.len() && ps[i].1 == uuid),
    ensures
        exists|i: int|
            0 <= i < front_merge(known, ps).len() && front_merge(known, ps)[i].1 == uuid,
    decreases ps.len(),
{
    if ps.len() == 0 {
        if exists|i: int| 0 <= i < known.len() && known[i].1 == uuid {
            let i = choose|i: int| 0 <= i < known.len() && known[i].1 == uuid;
            assert(front_merge(known, ps)[i].1 == uuid);
        }
    } else {
        let p = ps.last();
        let present = exists|i: int| 0 <= i < known.len() && known[i].1 == p.1;
        let k1 = if present {
            known
        } else {
            seq![p] + known
        };
        assert(front_merge(known, ps) == front_merge(k1, ps.drop_last()));
        if exists|i: int| 0 <= i < known.len() && known[i].1 == uuid {
            let i = choose|i: int| 0 <= i < known.len() && known[i].1 == uuid;
            if present {
                assert(k1[i].1 == uuid);
            } else {
                assert(k1[i + 1] == known[i]);
                assert(k1[i + 1].1 == uuid);
            }
        } else if p.1 == uuid {
            if present {
                let i = choose|i: int| 0 <= i < known.len() && known[i].1 == p.1;
                assert(k1[i].1 == uuid);
            } else {
                assert(k1[0] == p);
                assert(k1[0].1 == uuid);
            }
        } else {
            let i = choose|i: int| 0 <= i < ps.len() && ps[i].1 == uuid;
            assert(i < ps.len() - 1);
            assert(ps.drop_last()[i] == ps[i]);
            assert(ps.drop_last()[i].1 == uuid);
        }
        lemma_front_merge_keeps_all(k1, ps.drop_last(), uuid);
    }
}

/// `file` is what saving `cfg` writes, with the plugins of the latest
/// handshake, `new_plugins`, merged into the known ones.
pub open spec fn saved_as(
    cfg: AppConfig,
    new_plugins: Seq<(Seq<char>, Seq<char>)>,
    file: AppConfigFile,
) -> bool {
    &&& file.version == ConfigVersion::V1
    &&& cached_views(file.known_plugins@) == front_merge(plugin_views(cfg.known_plugins@), new_plugins)
    &&& file.last_target_uuid == cfg.last_target_uuid
    &&& file.passcode == cfg.passcode
    &&& file.filters.search == cfg.search
    &&& file.filters.kinds == kinds_to_file(cfg.kinds)
    &&& file.filters.levels == (SerializableLevelFilter {
        log: cfg.levels.log,
        warn: cfg.levels.warn,
        error: cfg.levels.error,
    })
}

/// `cfg` is what loading `file` gives, the command-line target and
/// passcode winning where given.
pub open spec fn loaded_as(
    file: AppConfigFile,
    cli_target_uuid: Option<String>,
    cli_passcode: Option<String>,
    cfg: AppConfig,
) -> bool {
    &&& plugin_views(cfg.known_plugins@) == cached_views(file.known_plugins@)
    &&& cfg.last_target_uuid == (if cli_target_uuid is Some {
        cli_target_uuid
    } else {
        file.last_target_uuid
    })
    &&& cfg.passcode == (if cli_passcode is Some {
        cli_passcode
    } else {
        file.passcode
    })
    &&& cfg.search == file.filters.search
    &&& cfg.kinds == kinds_from_file(file.filters.kinds)
    &&& cfg.levels == (LogLevelFilter {
        log: file.filters.levels.log,
        warn: file.filters.levels.warn,
        error: file.filters.levels.error,
    })
}

/// Saving a config and loading it back without command-line overrides
/// gives the same target, passcode, search and filters, and the known
/// plugins merged with the latest handshake's.
pub proof fn lemma_save_then_load_restores(
    cfg: AppConfig,
    new_plugins: Seq<(Seq<char>, Seq<char>)>,
    file: AppConfigFile,
    back: AppConfig,
)
    requires
        saved_as(cfg, new_plugins, file),
        loaded_as(file, None, None, back),
    ensures
        back.last_target_uuid == cfg.last_target_uuid,
        back.passcode == cfg.passcode,
        back.search == cfg.search,
        back.kinds == cfg.kinds,
        back.levels == cfg.levels,
        plugin_views(back.known_plugins@) == front_merge(plugin_views(cfg.known_plugins@), new_plugins),
{
    lemma_kind_filter_round_trip(cfg.kinds, file.filters.kinds);
}

impl AppConfig {
    /// Build a runtime config from the stored one; command-line target and
    /// passcode, when given, win over the stored values.
    pub fn from_file_with_cli(
        file: &AppConfigFile,
        cli_target_uuid: Option<String>,
        cli_passcode: Option<String>,
    ) -> (r: Self)
        ensures
            loaded_as(*file, cli_target_uuid, cli_passcode, r),
            plugin_views(r.known_plugins@) == cached_views(file.known_plugins@),
            r.last_target_uuid == (if cli_target_uuid is Some {
                cli_target_uuid
            } else {
                file.last_target_uuid
            }),
            r.passcode == (if cli_passcode is Some {
                cli_passcode
            } else {
                file.passcode
            }),
            r.search == file.filters.search,
            r.kinds == kinds_from_file(file.filters.kinds),
            r.levels == (LogLevelFilter {
                log: file.filters.levels.log,
                warn: file.filters.levels.warn,
                error: file.filters.levels.error,
            }),
    {
        let mut known: Vec<PluginDetails> = Vec::new();
        let mut i: usize = 0;
        while i < file.known_plugins.len()
            invariant
                0 <= i <= file.known_plugins@.len(),
                plugin_views(known@) == cached_views(file.known_plugins@).take(i as int),
            decreases file.known_plugins@.len() - i,
        {
            let c = &file.known_plugins[i];
            known.push(PluginDetails { name: c.name.clone(), module_uuid: c.module_uuid.clone() });
            assert(cached_views(file.known_plugins@).take(i + 1) =~= cached_views(
                file.known_plugins@,
            ).take(i as int).push(cached_view(*c)));
            assert(plugin_views(known@) =~= cached_views(file.known_plugins@).take(i as int).push(
                cached_view(*c),
            ));
            i += 1;
        }
        assert(cached_views(file.known_plugins@).take(file.known_plugins@.len() as int)
            =~= cached_views(file.known_plugins@));
        let last_target_uuid = match cli_target_uuid {
            Some(t) => Some(t),
            None => clone_opt(&file.last_target_uuid),
        };
        let passcode = match cli_passcode {
            Some(p) => Some(p),
            None => clone_opt(&file.passcode),
        };
        let k = &file.filters.kinds;
        AppConfig {
            known_plugins: known,
            last_target_uuid,
            passcode,
            search: file.filters.search.clone(),
            kinds: LogKindFilter {
                system: k.system,
                protocol: k.protocol,
                stopped: k.stopped,
                thread: k.thread,
                print: k.print,
                notification: k.notification,
                stat: k.stat,
                profiler_capture: k.profiler_capture,
                schema: k.schema,
                terminated: k.terminated,
                unknown: k.unknown,
            },
            levels: LogLevelFilter {
                log: file.filters.levels.log,
                warn: file.filters.levels.warn,
                error: file.filters.levels.error,
            },
        }
    }

    /// The stored form of this configuration, with `new_plugins` merged into
    /// the known plugins: those not yet known by UUID go to the front, in
    /// their own order.
    pub fn into_file(self, new_plugins: Vec<PluginDetails>) -> (r: AppConfigFile)
        ensures
            saved_as(self, plugin_views(new_plugins@), r),
            r.version == ConfigVersion::V1,
            cached_views(r.known_plugins@) == front_merge(
                plugin_views(self.known_plugins@),
                plugin_views(new_plugins@),
            ),
            r.last_target_uuid == self.last_target_uuid,
            r.passcode == self.passcode,
            r.filters.search == self.search,
            r.filters.kinds == kinds_to_file(self.kinds),
            r.filters.levels == (SerializableLevelFilter {
                log: self.levels.log,
                warn: self.levels.warn,
                error: self.levels.error,
            }),
    {
        let ghost k0 = plugin_views(self.known_plugins@);
        let ghost ps = plugin_views(new_plugins@);
        let mut known: Vec<CachedPlugin> = Vec::new();
        let mut i: usize = 0;
        while i < self.known_plugins.len()
            invariant
                k0 == plugin_views(self.known_plugins@),
                0 <= i <= self.known_plugins@.len(),
                cached_views(known@) == k0.take(i as int),
            decreases self.known_plugins@.len() - i,
        {
            let p = &self.known_plugins[i];
            known.push(CachedPlugin { name: p.name.clone(), module_uuid: p.module_uuid.clone() });
            assert(k0.take(i + 1) =~= k0.take(i as int).push(plugin_view(*p)));
            assert(cached_views(known@) =~= k0.take(i as int).push(plugin_view(*p)));
            i += 1;
        }
        assert(k0.take(k0.len() as int) =~= k0);
        assert(ps.take(ps.len() as int) =~= ps);
        let mut j: usize = new_plugins.len();
        while j > 0
            invariant
                ps == plugin_views(new_plugins@),
                0 <= j <= new_plugins@.len(),
                front_merge(cached_views(known@), ps.take(j as int)) == front_merge(k0, ps),
            decreases j,
        {
            let p = &new_plugins[j - 1];
            let ghost kv = cached_views(known@);
            proof {
                assert(ps.take(j as int).last() == plugin_view(*p));
                assert(ps.take(j as int).drop_last() =~= ps.take(j - 1));
            }
            let mut k: usize = 0;
            let mut present = false;
            while k < known.len()
                invariant_except_break
                    !present,
                invariant
                    kv == cached_views(known@),
                    0 <= k <= known@.len(),
                    forall|m: int| 0 <= m < k ==> kv[m].1 != p.module_uuid@,
                ensures
                    present ==> k < known@.len() && kv[k as int].1 == p.module_uuid@,
                    !present ==> forall|m: int| 0 <= m < known@.len() ==> kv[m].1 != p.module_uuid@,
                decreases known@.len() - k,
            {
                if crate::text::str_eq(known[k].module_uuid.as_str(), p.module_uuid.as_str()) {
                    present = true;
                    break;
                }
                k += 1;
            }
            if !present {
                known.insert(
                    0,
                    CachedPlugin { name: p.name.clone(), module_uuid: p.module_uuid.clone() },
                );
                assert(cached_views(known@) =~= seq![plugin_view(*p)] + kv);
            }
            j -= 1;
        }
        assert(ps.take(0) =~= Seq::<(Seq<char>, Seq<char>)>::empty());
        let k = &self.kinds;
        AppConfigFile {
            version: ConfigVersion::V1,
            known_plugins: known,
            last_target_uuid: self.last_target_uuid,
            passcode: self.passcode,
            filters: SerializableFilterState {
                search: self.search,
                kinds: SerializableKindFilter {
                    system: k.system,
                    protocol: k.protocol,
                    stopped: k.stopped,
                    thread: k.thread,
                    print: k.print,
                    notification: k.notification,
                    stat: k.stat,
                    profiler_capture: k.profiler_capture,
                    schema: k.schema,
                    terminated: k.terminated,
                    unknown: k.unknown,
                },
                levels: SerializableLevelFilter {
                    log: self.levels.log,
                    warn: self.levels.warn,
                    error: self.levels.error,
                },
            },
        }
    }
}

} // verus!
