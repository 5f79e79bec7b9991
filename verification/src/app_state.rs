//! Single-owner state of the debugger client: the bounded event log and its
//! filtered view, connection and debug state, focus, popups and the stats
//! dashboard selection. The session itself (sockets, tasks, channels) lives
//! with the caller, which performs what the methods here ask for and hands
//! back what came of it.
use std::collections::VecDeque;
use vstd::prelude::*;
use crate::app::{
    clamp_to, toggle_report, toggled_filter, FilterToggle, LogKindFilter, LogLevelFilter, COMPACT_HEIGHT, COMPACT_WIDTH, WIDE_WIDTH, allows_spec, entry_view, evaluate_entry_for, EvaluateResult, SessionError, clock_spec, fits, CommandInput, ConnectionState, ErrorPopup, EvaluateInput,
    FilterPopup, Focus, HelpPopup, LogEntry, LogFilterState, LogKind, LogState, Mode,
    PluginDetails, PluginSelection, SearchInput, SidebarForm, Tab, MAX_LOG_ENTRIES,
};
use crate::config::AppConfig;
use crate::events::{
    countable, debuggee_event_log_level, event_text, format_debuggee_event, kind_of, level_of,
    log_kind_for, DebuggeeEvent, HandshakeInfo, SessionEvent,
};
use crate::stats::{
    accumulate_nodes_spec, addon_id_set, category_keys, client_id_set, string_views,
    StatCategory, StatSeries,
};
use crate::order::sorted_seq_of;
use crate::text::eq_ignore_ascii_case_spec;
use crate::fields::{clamp_index, FieldState};
use crate::text::{byte_len, is_digit};
use crate::stats::StatsState;
use crate::frames::{lines_spec, opt_view};
use crate::text::{decimal_spec, parse_unsigned_spec, push_str_chars, string_from, trim_spec};

verus! {

/// Indices of the log entries that `f` lets through, in log order.
pub open spec fn filtered_indices(log: Seq<LogEntry>, f: LogFilterState) -> Seq<usize>
    decreases log.len(),
{
    if log.len() == 0 {
        Seq::empty()
    } else {
        let rest = filtered_indices(log.drop_last(), f);
        if allows_spec(f, log.last()) {
            rest.push((log.len() - 1) as usize)
        } else {
            rest
        }
    }
}

proof fn lemma_filtered_bounds(log: Seq<LogEntry>, f: LogFilterState)
    ensures
        filtered_indices(log, f).len() <= log.len(),
        forall|k: int|
            0 <= k < filtered_indices(log, f).len() ==> #[trigger] filtered_indices(log, f)[k]
                < log.len(),
    decreases log.len(),
{
    if log.len() > 0 {
        lemma_filtered_bounds(log.drop_last(), f);
    }
}

/// The filtered view lists exactly the entries the filter lets through:
/// their positions, oldest first, each once.
pub proof fn lemma_filtered_view_is_exact(log: Seq<LogEntry>, f: LogFilterState)
    requires
        log.len() <= usize::MAX,
    ensures
        forall|a: int, b: int|
            0 <= a < b < filtered_indices(log, f).len() ==> #[trigger] filtered_indices(log, f)[a]
                < #[trigger] filtered_indices(log, f)[b],
        forall|k: int|
            0 <= k < filtered_indices(log, f).len() ==> filtered_indices(log, f)[k] < log.len()
                && allows_spec(f, log[#[trigger] filtered_indices(log, f)[k] as int]),
        forall|i: int|
            0 <= i < log.len() && allows_spec(f, #[trigger] log[i]) ==> exists|k: int|
                0 <= k < filtered_indices(log, f).len() && filtered_indices(log, f)[k] == i,
    decreases log.len(),
{
    if log.len() > 0 {
        let prev = log.drop_last();
        lemma_filtered_view_is_exact(prev, f);
        lemma_filtered_bounds(prev, f);
        let rest = filtered_indices(prev, f);
        let all = filtered_indices(log, f);
        assert forall|k: int| 0 <= k < rest.len() implies rest[k] < prev.len() && log[rest[k] as int]
            == prev[rest[k] as int] by {}
        assert forall|i: int| 0 <= i < log.len() && allows_spec(f, #[trigger] log[i]) implies exists|k: int|
            0 <= k < all.len() && all[k] == i by {
            if i < log.len() - 1 {
                assert(prev[i] == log[i]);
                let k = choose|k: int| 0 <= k < rest.len() && rest[k] == i;
                assert(all[k] == i);
            } else {
                assert(all[all.len() - 1] == i);
            }
        }
    }
}

/// With every kind and level shown and no search, the filtered view is the
/// whole log.
pub proof fn lemma_identity_filter_shows_all(log: Seq<LogEntry>, f: LogFilterState)
    requires
        log.len() <= usize::MAX,
        f.search@.len() == 0,
        f.kinds == LogKindFilter::all_enabled_spec(),
        f.levels == LogLevelFilter::all_enabled_spec(),
    ensures
        filtered_indices(log, f) == Seq::new(log.len(), |i: int| i as usize),
    decreases log.len(),
{
    if log.len() > 0 {
        lemma_identity_filter_shows_all(log.drop_last(), f);
        let e = log.last();
        assert(f.kinds.get_spec(e.kind));
        assert(e.log_level matches Some(level) ==> f.levels.get_spec(level));
        assert(filtered_indices(log, f) =~= Seq::new(log.len(), |i: int| i as usize));
    }
}

/// The log after appending `e`: the oldest entry leaves once the log is full.
pub open spec fn appended_log(log: Seq<LogEntry>, e: LogEntry) -> Seq<LogEntry> {
    if log.len() >= MAX_LOG_ENTRIES {
        log.drop_first().push(e)
    } else {
        log.push(e)
    }
}

/// What the caller should start after the form was accepted.
#[derive(Debug)]
pub enum ConnectRequest {
    Connect { host: String, port: u16, target_uuid: Option<String>, passcode: Option<String> },
    Listen { port: u16, target_uuid: Option<String>, passcode: Option<String> },
}

/// A form value as an optional setting: trimmed, absent when empty.
pub open spec fn optional_text(v: Seq<char>) -> Option<Seq<char>> {
    if trim_spec(v).len() == 0 {
        None
    } else {
        Some(trim_spec(v))
    }
}

fn optional_text_of(v: &str) -> (r: Option<String>)
    ensures
        opt_view(r) == optional_text(v@),
{
    let cs = crate::text::chars_of(v);
    let t = crate::text::trim_chars(cs.as_slice());
    if t.len() == 0 {
        None
    } else {
        Some(string_from(t.as_slice()))
    }
}

pub fn clone_opt(o: &Option<String>) -> (r: Option<String>)
    ensures
        r == *o,
{
    match o {
        Some(s) => Some(s.clone()),
        None => None,
    }
}

fn push_decimal(out: &mut Vec<char>, n: u64)
    ensures
        final(out)@ == old(out)@ + decimal_spec(n as nat),
{
    let d = crate::text::decimal_chars(n);
    crate::text::extend_chars(out, d.as_slice());
}

/// A plugin as (name, module UUID).
pub open spec fn plugin_view(p: PluginDetails) -> (Seq<char>, Seq<char>) {
    (p.name@, p.module_uuid@)
}

pub open spec fn plugin_views(ps: Seq<PluginDetails>) -> Seq<(Seq<char>, Seq<char>)> {
    ps.map_values(|p: PluginDetails| plugin_view(p))
}

/// `k` is the first plugin in `known` with module UUID `uuid`.
pub open spec fn is_first_with_uuid(known: Seq<(Seq<char>, Seq<char>)>, uuid: Seq<char>, k: int) -> bool {
    &&& 0 <= k < known.len()
    &&& known[k].1 == uuid
    &&& forall|j: int| 0 <= j < k ==> known[j].1 != uuid
}

/// The known plugins after learning of `p`: the first entry with its UUID
/// takes its name, or it is appended.
pub open spec fn merged_plugin(
    known: Seq<(Seq<char>, Seq<char>)>,
    p: (Seq<char>, Seq<char>),
) -> Seq<(Seq<char>, Seq<char>)> {
    if exists|k: int| is_first_with_uuid(known, p.1, k) {
        let k = choose|k: int| is_first_with_uuid(known, p.1, k);
        known.update(k, (p.0, known[k].1))
    } else {
        known.push(p)
    }
}

/// The known plugins after learning of each of `ps` in turn.
pub open spec fn merged_plugins(
    known: Seq<(Seq<char>, Seq<char>)>,
    ps: Seq<(Seq<char>, Seq<char>)>,
) -> Seq<(Seq<char>, Seq<char>)>
    decreases ps.len(),
{
    if ps.len() == 0 {
        known
    } else {
        merged_plugin(merged_plugins(known, ps.drop_last()), ps.last())
    }
}

fn merge_known_plugins(known: &mut Vec<PluginDetails>, plugins: &Vec<PluginDetails>)
    ensures
        plugin_views(final(known)@) == merged_plugins(plugin_views(old(known)@), plugin_views(plugins@)),
{
    let ghost k0 = plugin_views(known@);
    let ghost pv = plugin_views(plugins@);
    let mut i: usize = 0;
    proof {
        assert(pv.take(0) =~= Seq::<(Seq<char>, Seq<char>)>::empty());
    }
    while i < plugins.len()
        invariant
            pv == plugin_views(plugins@),
            0 <= i <= plugins@.len(),
            plugin_views(known@) == merged_plugins(k0, pv.take(i as int)),
        decreases plugins@.len() - i,
    {
        let p = &plugins[i];
        let ghost before = plugin_views(known@);
        proof {
            assert(pv.take(i + 1).drop_last() =~= pv.take(i as int));
            assert(pv.take(i + 1).last() == plugin_view(*p));
        }
        let mut k: usize = 0;
        let mut found = false;
        while k < known.len()
            invariant_except_break
                !found,
            invariant
                before == plugin_views(known@),
                0 <= k <= known@.len(),
                forall|j: int| 0 <= j < k ==> known@[j].module_uuid@ != p.module_uuid@,
            ensures
                before == plugin_views(known@),
                0 <= k <= known@.len(),
                forall|j: int| 0 <= j < k ==> known@[j].module_uuid@ != p.module_uuid@,
                found ==> k < known@.len() && known@[k as int].module_uuid@ == p.module_uuid@,
                !found ==> k == known@.len(),
            decreases known@.len() - k,
        {
            if crate::text::str_eq(known[k].module_uuid.as_str(), p.module_uuid.as_str()) {
                found = true;
                break;
            }
            k += 1;
        }
        if found {
            proof {
                assert(before[k as int].1 == known@[k as int].module_uuid@);
                assert forall|j: int| 0 <= j < k implies before[j].1 != p.module_uuid@ by {
                    assert(before[j].1 == known@[j].module_uuid@);
                }
                assert(is_first_with_uuid(before, p.module_uuid@, k as int));
                let c = choose|c: int| is_first_with_uuid(before, p.module_uuid@, c);
                assert(is_first_with_uuid(before, p.module_uuid@, c));
                if c < k {
                    assert(before[c].1 == known@[c].module_uuid@);
                } else if c > k {
                    assert(before[k as int].1 == p.module_uuid@);
                }
                assert(c == k);
                let q = plugin_view(*p);
                assert(q.1 == p.module_uuid@ && q.0 == p.name@);
                assert(is_first_with_uuid(before, q.1, k as int));
                assert(merged_plugin(before, plugin_view(*p)) == before.update(
                    k as int,
                    (p.name@, before[k as int].1),
                ));
            }
            let name = p.name.clone();
            let uuid = known[k].module_uuid.clone();
            known.set(k, PluginDetails { name, module_uuid: uuid });
            assert(plugin_views(known@) =~= before.update(k as int, (p.name@, before[k as int].1)));
            assert(plugin_views(known@) == merged_plugin(before, plugin_view(*p)));
        } else {
            proof {
                assert forall|c: int| !is_first_with_uuid(before, p.module_uuid@, c) by {
                    if 0 <= c < before.len() {
                        assert(before[c].1 == known@[c].module_uuid@);
                    }
                }
            }
            known.push(PluginDetails { name: p.name.clone(), module_uuid: p.module_uuid.clone() });
            assert(plugin_views(known@) =~= before.push(plugin_view(*p)));
            assert(plugin_views(known@) == merged_plugin(before, plugin_view(*p)));
        }
        i += 1;
    }
    proof {
        assert(pv.take(plugins@.len() as int) =~= pv);
    }
}

/// Which request resumes a stopped thread.
#[derive(Debug, Clone, Copy, PartialEq, Eq, Structural)]
pub enum ResumeKind {
    Continue,
    StepNext,
    StepIn,
    StepOut,
}

/// How a resume request is named in the log.
pub open spec fn resume_label(kind: ResumeKind) -> Seq<char> {
    match kind {
        ResumeKind::Continue => "Continue"@,
        ResumeKind::StepNext => "Step next"@,
        ResumeKind::StepIn => "Step in"@,
        ResumeKind::StepOut => "Step out"@,
    }
}

/// The first line of `s` as `str::lines` gives it, or nothing.
pub open spec fn first_line(s: Seq<char>) -> Seq<char> {
    if lines_spec(s).len() > 0 {
        lines_spec(s)[0]
    } else {
        Seq::empty()
    }
}

fn first_line_of(s: &str) -> (r: Vec<char>)
    ensures
        r@ == first_line(s@),
{
    let cs = crate::text::chars_of(s);
    let lines = crate::frames::lines_chars(cs.as_slice());
    if lines.len() > 0 {
        crate::text::slice_range(lines[0].as_slice(), 0, lines[0].len())
    } else {
        Vec::new()
    }
}

/// What a result channel held when a pending attempt was cancelled.
pub enum PendingPoll {
    /// No attempt was being tracked.
    NoReceiver,
    /// The attempt had finished with this result.
    Ready(Result<HandshakeInfo, SessionError>),
    /// The attempt was still running.
    Empty,
    /// The attempt's task ended without a result.
    Closed,
}

/// What the caller must still ask of the session.
#[derive(Debug, Clone, Copy, PartialEq, Eq, Structural)]
pub enum SessionAction {
    Nothing,
    Disconnect,
    CancelPending,
}

/// The focus targets in tab order: main, then, when the sidebar shows, the
/// mode buttons, the host (connect mode), the port, the advanced toggle,
/// target and passcode (advanced open) and the primary button.
pub open spec fn focus_targets(sidebar: bool, mode: Mode, advanced: bool) -> Seq<Focus> {
    if !sidebar {
        seq![Focus::Main]
    } else {
        seq![Focus::Main, Focus::SidebarModeListen, Focus::SidebarModeConnect] + (if mode
            == Mode::Connect {
            seq![Focus::SidebarHost]
        } else {
            Seq::empty()
        }) + seq![Focus::SidebarPort, Focus::SidebarAdvanced] + (if advanced {
            seq![Focus::SidebarTargetUuid, Focus::SidebarPasscode]
        } else {
            Seq::empty()
        }) + seq![Focus::SidebarPrimary]
    }
}

pub open spec fn is_index_of(t: Seq<Focus>, f: Focus, i: int) -> bool {
    &&& 0 <= i < t.len()
    &&& t[i] == f
    &&& forall|j: int| 0 <= j < i ==> t[j] != f
}

/// Position of the first `f` in `t`.
pub open spec fn index_in(t: Seq<Focus>, f: Focus) -> Option<int> {
    if exists|i: int| is_index_of(t, f, i) {
        Some(choose|i: int| is_index_of(t, f, i))
    } else {
        None
    }
}

proof fn lemma_index_in(t: Seq<Focus>, f: Focus, i: int)
    requires
        is_index_of(t, f, i),
    ensures
        index_in(t, f) == Some(i),
{
    let k = choose|k: int| is_index_of(t, f, k);
    assert(is_index_of(t, f, k));
    if k < i {
        assert(t[k] == f);
    } else if i < k {
        assert(t[i] == f);
    }
}

/// Where cycling moves the focus within the targets `t`: to the next (or
/// previous) target, wrapping around; from a focus that is not among them,
/// the move starts at the first target.
pub open spec fn cycle_target(t: Seq<Focus>, f: Focus, forward: bool) -> Focus {
    let pos = match index_in(t, f) {
        Some(i) => i,
        None => 0,
    };
    let next = if forward {
        (pos + 1) % (t.len() as int)
    } else if pos == 0 {
        t.len() - 1
    } else {
        pos - 1
    };
    t[next]
}

proof fn lemma_focus_targets_distinct(sidebar: bool, mode: Mode, advanced: bool)
    ensures
        focus_targets(sidebar, mode, advanced).len() >= 1,
        forall|i: int, j: int|
            0 <= i < j < focus_targets(sidebar, mode, advanced).len() ==> focus_targets(
                sidebar,
                mode,
                advanced,
            )[i] != focus_targets(sidebar, mode, advanced)[j],
{
    let t = focus_targets(sidebar, mode, advanced);
    if !sidebar {
    } else if mode == Mode::Connect && advanced {
        assert(t =~= seq![
            Focus::Main, Focus::SidebarModeListen, Focus::SidebarModeConnect, Focus::SidebarHost,
            Focus::SidebarPort, Focus::SidebarAdvanced, Focus::SidebarTargetUuid,
            Focus::SidebarPasscode, Focus::SidebarPrimary,
        ]);
    } else if mode == Mode::Connect {
        assert(t =~= seq![
            Focus::Main, Focus::SidebarModeListen, Focus::SidebarModeConnect, Focus::SidebarHost,
            Focus::SidebarPort, Focus::SidebarAdvanced, Focus::SidebarPrimary,
        ]);
    } else if advanced {
        assert(t =~= seq![
            Focus::Main, Focus::SidebarModeListen, Focus::SidebarModeConnect, Focus::SidebarPort,
            Focus::SidebarAdvanced, Focus::SidebarTargetUuid, Focus::SidebarPasscode,
            Focus::SidebarPrimary,
        ]);
    } else {
        assert(t =~= seq![
            Focus::Main, Focus::SidebarModeListen, Focus::SidebarModeConnect, Focus::SidebarPort,
            Focus::SidebarAdvanced, Focus::SidebarPrimary,
        ]);
    }
}

/// Cycling the focus forward and then back, or back and then forward,
/// returns to the target one started on.
pub proof fn lemma_cycle_focus_round_trip(sidebar: bool, mode: Mode, advanced: bool, f: Focus)
    requires
        focus_targets(sidebar, mode, advanced).contains(f),
    ensures
        cycle_target(
            focus_targets(sidebar, mode, advanced),
            cycle_target(focus_targets(sidebar, mode, advanced), f, true),
            false,
        ) == f,
        cycle_target(
            focus_targets(sidebar, mode, advanced),
            cycle_target(focus_targets(sidebar, mode, advanced), f, false),
            true,
        ) == f,
{
    let t = focus_targets(sidebar, mode, advanced);
    let n = t.len() as int;
    lemma_focus_targets_distinct(sidebar, mode, advanced);
    let p = choose|p: int| 0 <= p < n && t[p] == f;
    assert forall|k: int| 0 <= k < n implies index_in(t, #[trigger] t[k]) == Some(k) by {
        lemma_index_in(t, t[k], k);
    }
    assert(index_in(t, f) == Some(p));
    let up = if p + 1 < n {
        p + 1
    } else {
        0
    };
    if p + 1 < n {
        vstd::arithmetic::div_mod::lemma_small_mod((p + 1) as nat, n as nat);
    } else {
        vstd::arithmetic::div_mod::lemma_mod_self_0(n);
    }
    assert(cycle_target(t, f, true) == t[up]);
    assert(index_in(t, t[up]) == Some(up));
    let down = if p == 0 {
        n - 1
    } else {
        p - 1
    };
    assert(cycle_target(t, f, false) == t[down]);
    assert(index_in(t, t[down]) == Some(down));
    if down + 1 < n {
        vstd::arithmetic::div_mod::lemma_small_mod((down + 1) as nat, n as nat);
    } else {
        vstd::arithmetic::div_mod::lemma_mod_self_0(n);
    }
}

/// The sidebar field a focus target edits, if it is one.
pub open spec fn field_of(form: SidebarForm, focus: Focus) -> Option<FieldState> {
    match focus {
        Focus::SidebarHost => Some(form.host),
        Focus::SidebarPort => Some(form.port),
        Focus::SidebarTargetUuid => Some(form.target_uuid),
        Focus::SidebarPasscode => Some(form.passcode),
        _ => None,
    }
}

/// The form with the field of `focus` replaced by `f`.
pub open spec fn with_field(form: SidebarForm, focus: Focus, f: FieldState) -> SidebarForm {
    match focus {
        Focus::SidebarHost => SidebarForm { host: f, ..form },
        Focus::SidebarPort => SidebarForm { port: f, ..form },
        Focus::SidebarTargetUuid => SidebarForm { target_uuid: f, ..form },
        Focus::SidebarPasscode => SidebarForm { passcode: f, ..form },
        _ => form,
    }
}

/// `i` is the first position of `x` in `s`.
pub open spec fn is_first_position<T>(s: Seq<T>, x: T, i: int) -> bool {
    &&& 0 <= i < s.len()
    &&& s[i] == x
    &&& forall|j: int| 0 <= j < i ==> s[j] != x
}

/// The first position of `x` in `s`, when `x` is given and occurs there.
pub open spec fn first_position<T>(s: Seq<T>, x: Option<T>) -> Option<int> {
    match x {
        Some(v) => if exists|i: int| is_first_position(s, v, i) {
            Some(choose|i: int| is_first_position(s, v, i))
        } else {
            None
        },
        None => None,
    }
}

proof fn lemma_first_position<T>(s: Seq<T>, x: T, i: int)
    requires
        is_first_position(s, x, i),
    ensures
        first_position(s, Some(x)) == Some(i),
{
    let k = choose|k: int| is_first_position(s, x, k);
    assert(is_first_position(s, x, k));
    if k < i {
        assert(s[k] == x);
    } else if i < k {
        assert(s[i] == x);
    }
}

/// Client IDs in the collected stats, sorted.
pub open spec fn client_list(c: Seq<StatSeries>) -> Seq<Seq<char>> {
    sorted_seq_of(client_id_set(c))
}

/// Scripting addon IDs in the collected stats, sorted.
pub open spec fn addon_list(c: Seq<StatSeries>) -> Seq<Seq<char>> {
    sorted_seq_of(addon_id_set(c))
}

/// The category and scroll offset after reconciling: a category that is no
/// longer present falls back to the first one, resetting the scroll.
pub open spec fn reconciled_category(
    keys: Seq<Seq<char>>,
    category: Option<Seq<char>>,
    scroll: usize,
) -> (Option<Seq<char>>, usize) {
    if category matches Some(k) && keys.contains(k) {
        (category, scroll)
    } else {
        (Some(keys[0]), 0)
    }
}

/// The client selection under category `cat`: only the client category
/// with several clients keeps one, falling back to the first client.
pub open spec fn reconciled_client(
    cat: Option<Seq<char>>,
    clients: Seq<Seq<char>>,
    client: Option<Seq<char>>,
) -> Option<Seq<char>> {
    if cat == Some("client"@) && clients.len() > 1 {
        if client matches Some(id) && clients.contains(id) {
            client
        } else {
            Some(clients[0])
        }
    } else {
        None
    }
}

/// The addon selection under category `cat`: only the scripting category
/// keeps one, and only while that addon is still present.
pub open spec fn reconciled_addon(
    cat: Option<Seq<char>>,
    addons: Seq<Seq<char>>,
    addon: Option<Seq<char>>,
) -> Option<Seq<char>> {
    if cat == Some("scripting"@) {
        if addon matches Some(a) && !addons.contains(a) {
            None
        } else {
            addon
        }
    } else {
        None
    }
}

/// Category, client, addon and scroll offset after reconciling a selection
/// with the available category keys, clients and addons.
pub open spec fn reconciled(
    keys: Seq<Seq<char>>,
    clients: Seq<Seq<char>>,
    addons: Seq<Seq<char>>,
    category: Option<Seq<char>>,
    client: Option<Seq<char>>,
    addon: Option<Seq<char>>,
    scroll: usize,
) -> (Option<Seq<char>>, Option<Seq<char>>, Option<Seq<char>>, usize) {
    if keys.len() == 0 {
        (None, None, addon, 0)
    } else {
        let (cat, new_scroll) = reconciled_category(keys, category, scroll);
        (cat, reconciled_client(cat, clients, client), reconciled_addon(cat, addons, addon), new_scroll)
    }
}

/// The item one step after (`forward`) or before `current` in `s`,
/// wrapping around; without a current item found in `s`, the first item.
pub open spec fn step_choice<T>(s: Seq<T>, current: Option<T>, forward: bool) -> T {
    let next = match first_position(s, current) {
        Some(i) => if forward {
            (i + 1) % (s.len() as int)
        } else if i == 0 {
            s.len() - 1
        } else {
            i - 1
        },
        None => 0,
    };
    s[next]
}

/// In a list without repeats, a step forward and a step back (or back and
/// then forward) return to the item one started on: switching to the next
/// category or client and back restores the selection.
pub proof fn lemma_step_choice_round_trip<T>(s: Seq<T>, x: T)
    requires
        s.no_duplicates(),
        s.contains(x),
    ensures
        step_choice(s, Some(step_choice(s, Some(x), true)), false) == x,
        step_choice(s, Some(step_choice(s, Some(x), false)), true) == x,
{
    let n = s.len() as int;
    let p = choose|p: int| 0 <= p < n && s[p] == x;
    assert forall|k: int| 0 <= k < n implies first_position(s, Some(#[trigger] s[k])) == Some(k) by {
        lemma_first_position(s, s[k], k);
    }
    assert(first_position(s, Some(x)) == Some(p));
    let up = if p + 1 < n {
        p + 1
    } else {
        0
    };
    if p + 1 < n {
        vstd::arithmetic::div_mod::lemma_small_mod((p + 1) as nat, n as nat);
    } else {
        vstd::arithmetic::div_mod::lemma_mod_self_0(n);
    }
    assert(step_choice(s, Some(x), true) == s[up]);
    assert(first_position(s, Some(s[up])) == Some(up));
    let down = if p == 0 {
        n - 1
    } else {
        p - 1
    };
    assert(step_choice(s, Some(x), false) == s[down]);
    assert(first_position(s, Some(s[down])) == Some(down));
    if down + 1 < n {
        vstd::arithmetic::div_mod::lemma_small_mod((down + 1) as nat, n as nat);
    } else {
        vstd::arithmetic::div_mod::lemma_mod_self_0(n);
    }
}

/// `after` is `before` with the addon selection moved by `step` through
/// "all addons" followed by each addon, when the scripting category is
/// selected and addons exist; otherwise nothing changed.
pub open spec fn stepped_addon(before: App, after: App, step: int) -> bool {
    let addons = addon_list(before.stats.series());
    if addons.len() == 0 || opt_view(before.stats_selected_category) != Some("scripting"@) {
        after == before
    } else {
        let current = match first_position(addons, opt_view(before.stats_selected_addon)) {
            Some(i) => i + 1,
            None => 0,
        };
        let next = (current + step) % (addons.len() + 1) as int;
        &&& opt_view(after.stats_selected_addon) == (if next == 0 {
            None
        } else {
            Some(addons[next - 1])
        })
        &&& after == (App { stats_selected_addon: after.stats_selected_addon, ..before })
    }
}

/// A value that occurs has a first occurrence.
proof fn lemma_exists_first<T>(s: Seq<T>, x: T, i: int)
    requires
        0 <= i < s.len(),
        s[i] == x,
    ensures
        exists|f: int| is_first_position(s, x, f),
    decreases i,
{
    if exists|j: int| 0 <= j < i && s[j] == x {
        let j = choose|j: int| 0 <= j < i && s[j] == x;
        lemma_exists_first(s, x, j);
    } else {
        assert(is_first_position(s, x, i));
    }
}

fn category_position(cats: &Vec<StatCategory>, key: &str) -> (r: Option<usize>)
    ensures
        match r {
            Some(i) => first_position(cats@.map_values(|x: StatCategory| x.key@), Some(key@))
                == Some(i as int),
            None => first_position(cats@.map_values(|x: StatCategory| x.key@), Some(key@)) is None,
        },
        r matches Some(i) ==> i < cats@.len(),
{
    let ghost keys = cats@.map_values(|x: StatCategory| x.key@);
    let mut i: usize = 0;
    while i < cats.len()
        invariant
            keys == cats@.map_values(|x: StatCategory| x.key@),
            0 <= i <= cats@.len(),
            forall|j: int| 0 <= j < i ==> keys[j] != key@,
        decreases cats@.len() - i,
    {
        if crate::text::str_eq(cats[i].key, key) {
            proof {
                lemma_first_position(keys, key@, i as int);
            }
            return Some(i);
        }
        i += 1;
    }
    proof {
        assert forall|k: int| !is_first_position(keys, key@, k) by {}
    }
    None
}

fn string_position(v: &Vec<String>, s: &str) -> (r: Option<usize>)
    ensures
        match r {
            Some(i) => first_position(string_views(v@), Some(s@)) == Some(i as int),
            None => first_position(string_views(v@), Some(s@)) is None,
        },
        r matches Some(i) ==> i < v@.len(),
{
    let ghost views = string_views(v@);
    let mut i: usize = 0;
    while i < v.len()
        invariant
            views == string_views(v@),
            0 <= i <= v@.len(),
            forall|j: int| 0 <= j < i ==> views[j] != s@,
        decreases v@.len() - i,
    {
        if crate::text::str_eq(v[i].as_str(), s) {
            proof {
                lemma_first_position(views, s@, i as int);
            }
            return Some(i);
        }
        i += 1;
    }
    proof {
        assert forall|k: int| !is_first_position(views, s@, k) by {}
    }
    None
}

/// Put `value` into an empty field; a field holding text is kept.
fn fill_if_empty(field: &mut FieldState, value: &Option<String>)
    requires
        old(field).wf(),
        value matches Some(v) ==> fits(v@),
    ensures
        final(field).wf(),
        final(field).value@ == (if old(field).value@.len() == 0 && value is Some {
            value->Some_0@
        } else {
            old(field).value@
        }),
        if old(field).value@.len() == 0 && value is Some {
            final(field).cursor == byte_len(final(field).value@)
        } else {
            *final(field) == *old(field)
        },
{
    if field.value.as_str().is_empty() {
        match value {
            Some(v) => {
                *field = FieldState::new(v.clone());
            },
            None => {},
        }
    }
}

/// Keep a value that is set; otherwise take `fallback`.
fn keep_or(current: &mut Option<String>, fallback: &Option<String>)
    ensures
        *final(current) == (if *old(current) is None {
            *fallback
        } else {
            *old(current)
        }),
{
    if current.is_none() {
        *current = clone_opt(fallback);
    }
}

fn copy_kinds(k: &LogKindFilter) -> (r: LogKindFilter)
    ensures
        r == *k,
{
    LogKindFilter {
        system: k.system,
        protocol: k.protocol,
        stopped: k.stopped,
        thread: k.thread,
        print: k.print,
        notification: k.notification,
        stat: k.stat,
        profiler_capture: k.profiler_capture,
        schema: k.schema,
        terminated: k.terminated,
        unknown: k.unknown,
    }
}

/// A copy of a plugin list.
pub fn copy_plugins(ps: &Vec<PluginDetails>) -> (r: Vec<PluginDetails>)
    ensures
        plugin_views(r@) == plugin_views(ps@),
        r@ == ps@,
{
    let mut r: Vec<PluginDetails> = Vec::new();
    let mut i: usize = 0;
    while i < ps.len()
        invariant
            0 <= i <= ps@.len(),
            r@ == ps@.take(i as int),
        decreases ps@.len() - i,
    {
        r.push(PluginDetails { name: ps[i].name.clone(), module_uuid: ps[i].module_uuid.clone() });
        assert(ps@.take(i + 1) =~= ps@.take(i as int).push(ps@[i as int]));
        i += 1;
    }
    assert(ps@.take(ps@.len() as int) =~= ps@);
    r
}

/// What losing the session does besides its log line: the session's
/// transient state goes (handshake, popup, stopped state, busy flags, open
/// command and evaluate lines), one System entry is logged, and the form,
/// filters, statistics, known plugins, credentials and histories stay.
pub open spec fn session_dropped(before: App, after: App) -> bool {
    &&& after.event_log@ == appended_log(before.event_log@, after.event_log@.last())
    &&& after.event_log@.last().kind == LogKind::System
    &&& !after.command_input.open
    &&& after.command_input.history@ == before.command_input.history@
    &&& !after.evaluate_input.open
    &&& !after.evaluate_input.busy
    &&& after.evaluate_input.history@ == before.evaluate_input.history@
    &&& after.evaluate_input.pending_expression@ == Seq::<char>::empty()
    &&& after == (App {
        state: after.state,
        event_log: after.event_log,
        filtered_log_indices: after.filtered_log_indices,
        log_state: after.log_state,
        handshake: None,
        plugin_selection: None,
        stopped: false,
        stop_reason: after.stop_reason,
        stopped_thread_id: None,
        busy: false,
        command_input: after.command_input,
        evaluate_input: after.evaluate_input,
        search_input: after.search_input,
        filter_popup: after.filter_popup,
        ..before
    })
}

/// The state after handling a session event: a debuggee event is logged
/// (statistics accumulated, stop and thread-exit tracked), a target request
/// opens the plugin popup, and a disconnect or termination drops the
/// session.
pub open spec fn session_event_applied(before: App, event: SessionEvent, after: App) -> bool {
    match event {
        SessionEvent::Debuggee(e) => {
            let last = after.event_log@.last();
            &&& after.stats.samples() == match e {
                DebuggeeEvent::Stat2 { tick, stats } => accumulate_nodes_spec(
                    before.stats.samples(),
                    stats@,
                    tick,
                    Seq::<char>::empty(),
                ),
                _ => before.stats.samples(),
            }
            &&& after.event_log@ == appended_log(before.event_log@, last)
            &&& last.kind == kind_of(e)
            &&& last.message@ == event_text(e)
            &&& last.log_level == level_of(e)
            &&& after.state == before.state
            &&& match e {
                DebuggeeEvent::Stopped { reason, thread } => {
                    &&& after.stopped
                    &&& after.stop_reason@ == reason@
                    &&& after.stopped_thread_id == Some(thread)
                },
                DebuggeeEvent::Thread { reason, thread } => if eq_ignore_ascii_case_spec(
                    reason@,
                    "exited"@,
                ) && before.stopped_thread_id == Some(thread) {
                    &&& !after.stopped
                    &&& after.stop_reason@ == Seq::<char>::empty()
                    &&& after.stopped_thread_id is None
                } else {
                    &&& after.stopped == before.stopped
                    &&& after.stop_reason == before.stop_reason
                    &&& after.stopped_thread_id == before.stopped_thread_id
                },
                _ => {
                    &&& after.stopped == before.stopped
                    &&& after.stop_reason == before.stop_reason
                    &&& after.stopped_thread_id == before.stopped_thread_id
                },
            }
        },
        SessionEvent::TargetSelectionRequired { plugins } => {
            &&& after.event_log@.last().message@ == "Target selection required: "@
                + decimal_spec(plugins@.len()) + " plugin(s) available"@
            &&& after.plugin_selection matches Some(sel) && sel.plugins@ == plugins@
                && sel.selected == 0 && sel.scroll_offset == 0
            &&& after.state == before.state
        },
        SessionEvent::Disconnected => {
            &&& after.state == ConnectionState::Disconnected
            &&& after.handshake is None
            &&& after.plugin_selection is None
            &&& !after.stopped
            &&& !after.busy
            &&& after.event_log@.last().message@ == "Connection lost (disconnected)."@
            &&& session_dropped(before, after)
        },
        SessionEvent::Terminated { reason } => {
            &&& after.state == ConnectionState::Disconnected
            &&& after.handshake is None
            &&& after.plugin_selection is None
            &&& !after.stopped
            &&& !after.busy
            &&& after.event_log@.last().message@ == match reason {
                Some(r) => "Debuggee terminated: "@ + r@,
                None => "Debuggee terminated."@,
            }
            &&& session_dropped(before, after)
        },
    }
}

/// The state after a connect/listen attempt ended: connected with the
/// handshake recorded and the attempt's credentials kept, or back to idle
/// with the failure shown (a cancelled attempt is not reported).
pub open spec fn connection_result_applied(
    before: App,
    result: Result<HandshakeInfo, SessionError>,
    after: App,
) -> bool {
    match result {
        Ok(info) => {
            &&& after.handshake == Some(info)
            &&& after.state == (ConnectionState::Connected {
                version: info.version,
                plugin_count: info.plugins@.len() as usize,
            })
            &&& after.event_log@.last().message@ == "Connected — protocol v"@
                + decimal_spec(info.version as nat) + ", "@ + decimal_spec(
                info.plugins@.len(),
            ) + " plugin(s) registered."@
            &&& plugin_views(after.known_plugins@) == merged_plugins(
                plugin_views(before.known_plugins@),
                plugin_views(info.plugins@),
            )
            &&& after.persisted_target_uuid == match before.pending_target_uuid {
                Some(t) => Some(t),
                None => if info.plugins@.len() == 1 {
                    Some(info.plugins@[0].module_uuid)
                } else {
                    None
                },
            }
            &&& after.persisted_passcode == before.pending_passcode
            &&& after.pending_target_uuid is None
            &&& after.pending_passcode is None
            &&& after.config_dirty
            &&& !after.config_save_error_shown
            &&& after.event_log@ == appended_log(
                before.event_log@,
                after.event_log@.last(),
            )
            &&& after == (App {
                state: after.state,
                event_log: after.event_log,
                filtered_log_indices: after.filtered_log_indices,
                log_state: after.log_state,
                known_plugins: after.known_plugins,
                persisted_target_uuid: after.persisted_target_uuid,
                persisted_passcode: after.persisted_passcode,
                pending_target_uuid: None,
                pending_passcode: None,
                handshake: after.handshake,
                config_dirty: true,
                config_save_error_shown: false,
                ..before
            })
        },
        Err(e) => {
            &&& after.state == ConnectionState::Idle
            &&& after.handshake is None
            &&& after.pending_target_uuid is None
            &&& after.pending_passcode is None
            &&& !after.stopped
            &&& !after.busy
            &&& after.known_plugins == before.known_plugins
            &&& after.persisted_target_uuid == before.persisted_target_uuid
            &&& after.persisted_passcode == before.persisted_passcode
            &&& after.sidebar == before.sidebar
            &&& after.log_filter == before.log_filter
            &&& after.stats == before.stats
            &&& !e.cancelled ==> after.event_log@ == appended_log(
                before.event_log@,
                after.event_log@.last(),
            )
            &&& e.cancelled ==> after.event_log@ == before.event_log@
                && after.error_popup == before.error_popup
            &&& !e.cancelled ==> (after.event_log@.last().message@
                == "Connection failed."@ && (after.error_popup matches Some(p)
                && p.title@ == "Connection failed"@ && p.message@
                == "Could not establish the debugger connection. Check the target, port, and passcode."@))
        },
    }
}

/// Single-owner application state for the TUI.
pub struct App {
    pub state: ConnectionState,
    pub event_log: VecDeque<LogEntry>,
    pub tab: Tab,
    pub focus: Focus,
    pub show_sidebar: bool,
    pub sidebar: SidebarForm,
    pub plugin_selection: Option<PluginSelection>,
    pub log_state: LogState,
    /// Indices into `event_log` of the entries the active filter lets
    /// through; `log_state` refers to this filtered view.
    pub filtered_log_indices: Vec<usize>,
    pub stopped: bool,
    pub stop_reason: String,
    pub stopped_thread_id: Option<u32>,
    pub busy: bool,
    pub command_input: CommandInput,
    pub evaluate_input: EvaluateInput,
    pub search_input: SearchInput,
    pub filter_popup: FilterPopup,
    pub error_popup: Option<ErrorPopup>,
    pub config_save_error_shown: bool,
    pub log_filter: LogFilterState,
    pub handshake: Option<HandshakeInfo>,
    pub default_host: String,
    pub default_port: u16,
    pub default_target_uuid: Option<String>,
    pub default_passcode: Option<String>,
    /// Known plugins, kept across saves and merged with new handshakes.
    pub known_plugins: Vec<PluginDetails>,
    /// Set whenever something worth persisting changed; cleared after a save.
    pub config_dirty: bool,
    /// Target UUID that survives disconnects.
    pub persisted_target_uuid: Option<String>,
    /// Passcode that survives disconnects.
    pub persisted_passcode: Option<String>,
    /// Credentials captured when the current connection attempt started.
    pub pending_target_uuid: Option<String>,
    pub pending_passcode: Option<String>,
    /// Whether an auto-relisten retry is pending.
    pub auto_relisten_pending: bool,
    /// Last known terminal size, for focus visibility and paging.
    pub last_width: u16,
    pub last_height: u16,
    pub stats: StatsState,
    pub stats_selected_category: Option<String>,
    pub stats_selected_client: Option<String>,
    /// Active scripting addon; `None` means all addons.
    pub stats_selected_addon: Option<String>,
    pub stats_scroll_offset: usize,
    pub help_popup: HelpPopup,
}

impl App {
    /// The invariant every method keeps.
    pub open spec fn wf(&self) -> bool {
        &&& self.event_log@.len() <= MAX_LOG_ENTRIES
        &&& self.filtered_log_indices@ == filtered_indices(self.event_log@, self.log_filter)
        &&& (self.log_state.selected matches Some(s) ==> s <= MAX_LOG_ENTRIES)
        &&& self.sidebar.wf()
        &&& self.command_input.wf()
        &&& self.search_input.field.wf()
        &&& self.evaluate_input.field.wf()
        &&& self.stats.wf()
    }

    /// A fresh application state with the form filled from the defaults.
    pub fn new(
        default_host: String,
        default_port: u16,
        default_target_uuid: Option<String>,
        default_passcode: Option<String>,
    ) -> (r: Self)
        requires
            fits(default_host@),
            default_target_uuid matches Some(u) ==> fits(u@),
            default_passcode matches Some(p) ==> fits(p@),
        ensures
            r.wf(),
            r.state == ConnectionState::Idle,
            r.event_log@.len() == 0,
            r.tab == Tab::Log,
            r.focus == Focus::Main,
            !r.show_sidebar,
            r.plugin_selection is None,
            r.sidebar.mode == Mode::Listen,
            r.sidebar.host.value@ == default_host@,
            r.sidebar.port.value@ == decimal_spec(default_port as nat),
            r.sidebar.target_uuid.value@ == match default_target_uuid {
                Some(u) => u@,
                None => Seq::<char>::empty(),
            },
            r.sidebar.passcode.value@ == match default_passcode {
                Some(p) => p@,
                None => Seq::<char>::empty(),
            },
            r.persisted_target_uuid == default_target_uuid,
            r.persisted_passcode == default_passcode,
            r.last_width == 80,
            r.last_height == 24,
            !r.stopped,
            !r.busy,
            !r.config_dirty,
            r.error_popup is None,
    {
        let sidebar = SidebarForm::new(
            default_host.as_str(),
            default_port,
            match &default_target_uuid {
                Some(u) => Some(u.as_str()),
                None => None,
            },
            match &default_passcode {
                Some(p) => Some(p.as_str()),
                None => None,
            },
        );
        let persisted_target_uuid = match &default_target_uuid {
            Some(u) => Some(u.clone()),
            None => None,
        };
        let persisted_passcode = match &default_passcode {
            Some(p) => Some(p.clone()),
            None => None,
        };
        let r = App {
            state: ConnectionState::Idle,
            event_log: VecDeque::new(),
            tab: Tab::Log,
            focus: Focus::Main,
            show_sidebar: false,
            sidebar,
            plugin_selection: None,
            log_state: LogState::default(),
            filtered_log_indices: Vec::new(),
            stopped: false,
            stop_reason: String::new(),
            stopped_thread_id: None,
            busy: false,
            command_input: CommandInput::new(),
            evaluate_input: EvaluateInput::new(),
            search_input: SearchInput::new(),
            filter_popup: FilterPopup::new(),
            error_popup: None,
            config_save_error_shown: false,
            log_filter: LogFilterState::show_all(),
            handshake: None,
            default_host,
            default_port,
            default_target_uuid,
            default_passcode,
            known_plugins: Vec::new(),
            config_dirty: false,
            persisted_target_uuid,
            persisted_passcode,
            pending_target_uuid: None,
            pending_passcode: None,
            auto_relisten_pending: false,
            last_width: 80,
            last_height: 24,
            stats: StatsState::new(),
            stats_selected_category: None,
            stats_selected_client: None,
            stats_selected_addon: None,
            stats_scroll_offset: 0,
            help_popup: HelpPopup::Hidden,
        };
        assert(r.filtered_log_indices@ =~= filtered_indices(r.event_log@, r.log_filter));
        r
    }

    // ── Log ───────────────────────────────────────────────────────────

    /// Recompute the filtered view from the log and the current filter,
    /// keeping the selection inside it.
    pub fn rebuild_filtered_log_indices(&mut self)
        requires
            old(self).event_log@.len() <= MAX_LOG_ENTRIES,
        ensures
            final(self).filtered_log_indices@ == filtered_indices(
                final(self).event_log@,
                final(self).log_filter,
            ),
            ({
                let n = final(self).filtered_log_indices@.len();
                if old(self).log_state.follow {
                    &&& final(self).log_state.selected == (if n == 0 {
                        None
                    } else {
                        Some((n - 1) as usize)
                    })
                    &&& final(self).log_state.offset == 0
                    &&& final(self).log_state.follow
                } else {
                    &&& final(self).log_state.offset == old(self).log_state.offset
                    &&& !final(self).log_state.follow
                    &&& final(self).log_state.selected == match old(self).log_state.selected {
                        Some(s) => Some(
                            (if n == 0 {
                                0
                            } else if s < n - 1 {
                                s as int
                            } else {
                                n - 1
                            }) as usize,
                        ),
                        None => None,
                    }
                }
            }),
            final(self).filtered_log_indices@.len() <= MAX_LOG_ENTRIES,
            final(self).log_state.selected matches Some(s) ==> s <= MAX_LOG_ENTRIES,
            *final(self) == (App {
                filtered_log_indices: final(self).filtered_log_indices,
                log_state: final(self).log_state,
                ..*old(self)
            }),
    {
        let mut idx: Vec<usize> = Vec::new();
        let mut i: usize = 0;
        let ghost log = self.event_log@;
        proof {
            assert(log.take(0) =~= Seq::<LogEntry>::empty());
        }
        while i < self.event_log.len()
            invariant
                log == self.event_log@,
                log.len() <= MAX_LOG_ENTRIES,
                0 <= i <= log.len(),
                idx@ == filtered_indices(log.take(i as int), self.log_filter),
            decreases log.len() - i,
        {
            proof {
                assert(log.take(i + 1).drop_last() =~= log.take(i as int));
                assert(log.take(i + 1).last() == log[i as int]);
            }
            if self.log_filter.allows(&self.event_log[i]) {
                idx.push(i);
            }
            i += 1;
        }
        proof {
            assert(log.take(log.len() as int) =~= log);
            lemma_filtered_bounds(log, self.log_filter);
        }
        self.filtered_log_indices = idx;
        let n = self.filtered_log_indices.len();
        if self.log_state.follow {
            self.log_state.bottom(n);
        } else {
            match self.log_state.selected {
                Some(s) => {
                    let max: usize = if n == 0 {
                        0
                    } else {
                        n - 1
                    };
                    self.log_state.selected = Some(
                        if s < max {
                            s
                        } else {
                            max
                        },
                    );
                },
                None => {},
            }
        }
    }

    fn push_log(&mut self, entry: LogEntry)
        requires
            old(self).wf(),
        ensures
            final(self).wf(),
            final(self).event_log@ == appended_log(old(self).event_log@, entry),
            *final(self) == (App {
                event_log: final(self).event_log,
                filtered_log_indices: final(self).filtered_log_indices,
                log_state: final(self).log_state,
                ..*old(self)
            }),
    {
        if self.event_log.len() >= MAX_LOG_ENTRIES {
            self.event_log.pop_front();
        }
        self.event_log.push_back(entry);
        self.rebuild_filtered_log_indices();
    }

    /// Record an informational message in the log.
    pub fn add_log(&mut self, message: String)
        requires
            old(self).wf(),
        ensures
            final(self).wf(),
            final(self).event_log@.len() == (if old(self).event_log@.len() < MAX_LOG_ENTRIES {
                old(self).event_log@.len() + 1
            } else {
                MAX_LOG_ENTRIES as nat
            }),
            ({
                let e = final(self).event_log@.last();
                &&& e.kind == LogKind::System
                &&& e.message == message
                &&& e.log_level is None
                &&& exists|t: u64| e.timestamp@ == clock_spec(t as nat)
                &&& final(self).event_log@ == appended_log(old(self).event_log@, e)
            }),
            *final(self) == (App {
                event_log: final(self).event_log,
                filtered_log_indices: final(self).filtered_log_indices,
                log_state: final(self).log_state,
                ..*old(self)
            }),
    {
        let entry = LogEntry::system(message);
        self.push_log(entry);
    }

    pub fn show_error(&mut self, title: String, message: String)
        ensures
            *final(self) == (App { error_popup: Some(ErrorPopup { title, message }), ..*old(self) }),
    {
        self.error_popup = Some(ErrorPopup::new(title, message));
    }

    pub fn dismiss_error(&mut self)
        ensures
            *final(self) == (App { error_popup: None, ..*old(self) }),
    {
        self.error_popup = None;
    }

    pub fn set_startup_warning(&mut self, warning: String)
        ensures
            *final(self) == (App {
                error_popup: Some(ErrorPopup { title: final(self).error_popup->Some_0.title, message: warning }),
                ..*old(self)
            }),
            final(self).error_popup->Some_0.title@ == "Configuration warning"@,
    {
        let title = "Configuration warning".to_owned();
        self.show_error(title, warning);
    }

    /// Tell the user once that settings could not be saved.
    pub fn show_config_save_error_once(&mut self)
        ensures
            old(self).config_save_error_shown ==> *final(self) == *old(self),
            !old(self).config_save_error_shown ==> {
                &&& *final(self) == (App {
                    config_save_error_shown: true,
                    error_popup: final(self).error_popup,
                    ..*old(self)
                })
                &&& final(self).error_popup matches Some(e) && e.title@ == "Settings not saved"@
                    && e.message@ == "Could not save settings. Changes will be retried."@
            },
    {
        if !self.config_save_error_shown {
            self.config_save_error_shown = true;
            let title = "Settings not saved".to_owned();
            let message = "Could not save settings. Changes will be retried.".to_owned();
            self.show_error(title, message);
        }
    }

    /// Clear the stopped debug state without logging.
    pub fn clear_stopped(&mut self)
        ensures
            *final(self) == (App {
                stopped: false,
                stop_reason: final(self).stop_reason,
                stopped_thread_id: None,
                ..*old(self)
            }),
            final(self).stop_reason@ == Seq::<char>::empty(),
    {
        self.stopped = false;
        self.stop_reason = String::new();
        self.stopped_thread_id = None;
    }

    /// Clear state that must never leak from one debugger session to another.
    /// Filter configuration is preserved; only transient editors are closed.
    pub fn clear_session_transients(&mut self)
        requires
            old(self).wf(),
        ensures
            final(self).wf(),
            *final(self) == (App {
                handshake: None,
                plugin_selection: None,
                stopped: false,
                stop_reason: final(self).stop_reason,
                stopped_thread_id: None,
                busy: false,
                command_input: final(self).command_input,
                evaluate_input: final(self).evaluate_input,
                search_input: final(self).search_input,
                filter_popup: FilterPopup { open: false, ..old(self).filter_popup },
                ..*old(self)
            }),
            final(self).stop_reason@ == Seq::<char>::empty(),
            !final(self).command_input.open,
            final(self).command_input.field.value@ == Seq::<char>::empty(),
            final(self).command_input.history@ == old(self).command_input.history@,
            !final(self).evaluate_input.open,
            !final(self).evaluate_input.busy,
            final(self).evaluate_input.history@ == old(self).evaluate_input.history@,
            final(self).evaluate_input.pending_expression@ == Seq::<char>::empty(),
            !final(self).search_input.open,
            final(self).search_input.field.value@ == Seq::<char>::empty(),
    {
        self.handshake = None;
        self.plugin_selection = None;
        self.clear_stopped();
        self.busy = false;
        self.command_input.reset_transient();
        self.evaluate_input.reset_transient();
        self.search_input.reset_transient();
        self.filter_popup.close();
    }

    /// Abandon the credentials captured for a pending connection attempt.
    pub fn clear_pending_attempt_snapshots(&mut self)
        ensures
            *final(self) == (App { pending_target_uuid: None, pending_passcode: None, ..*old(self) }),
    {
        self.pending_target_uuid = None;
        self.pending_passcode = None;
    }

    /// Close input popups, keeping what they hold.
    pub fn close_inputs(&mut self)
        ensures
            *final(self) == (App {
                command_input: final(self).command_input,
                evaluate_input: final(self).evaluate_input,
                search_input: SearchInput { open: false, ..old(self).search_input },
                filter_popup: FilterPopup { open: false, ..old(self).filter_popup },
                ..*old(self)
            }),
            !final(self).command_input.open,
            final(self).command_input.field == old(self).command_input.field,
            final(self).command_input.history@ == old(self).command_input.history@,
            !final(self).evaluate_input.open,
            final(self).evaluate_input.field == old(self).evaluate_input.field,
            final(self).evaluate_input.busy == old(self).evaluate_input.busy,
            final(self).evaluate_input.history@ == old(self).evaluate_input.history@,
    {
        self.command_input.close();
        self.evaluate_input.close();
        self.search_input.close();
        self.filter_popup.close();
    }

    // ── Connection actions ────────────────────────────────────────────

    /// Enter the pending state for a connection attempt to `host:port`,
    /// capturing the credentials it uses. The caller starts the attempt.
    pub fn start_connect(
        &mut self,
        host: String,
        port: u16,
        target_uuid: Option<String>,
        passcode: Option<String>,
    )
        requires
            old(self).wf(),
        ensures
            final(self).wf(),
            final(self).state == ConnectionState::Pending,
            final(self).pending_target_uuid == target_uuid,
            final(self).pending_passcode == passcode,
            final(self).handshake is None,
            final(self).plugin_selection is None,
            !final(self).stopped,
            !final(self).busy,
            final(self).event_log@.last().message@ == "Connecting to "@ + host@ + ":"@
                + decimal_spec(port as nat) + "..."@,
            final(self).event_log@.last().kind == LogKind::System,
            final(self).log_filter == old(self).log_filter,
            final(self).sidebar == old(self).sidebar,
            final(self).known_plugins == old(self).known_plugins,
            final(self).persisted_target_uuid == old(self).persisted_target_uuid,
            final(self).persisted_passcode == old(self).persisted_passcode,
    {
        self.clear_session_transients();
        self.pending_target_uuid = target_uuid;
        self.pending_passcode = passcode;
        self.state = ConnectionState::Pending;
        let mut out: Vec<char> = Vec::new();
        push_str_chars(&mut out, "Connecting to ");
        push_str_chars(&mut out, host.as_str());
        push_str_chars(&mut out, ":");
        push_decimal(&mut out, port as u64);
        push_str_chars(&mut out, "...");
        assert(out@ =~= "Connecting to "@ + host@ + ":"@ + decimal_spec(port as nat) + "..."@);
        self.add_log(string_from(out.as_slice()));
    }

    /// Enter the pending state for listening on `port`, capturing the
    /// credentials the attempt uses. The caller starts the listener.
    pub fn start_listen(&mut self, port: u16, target_uuid: Option<String>, passcode: Option<String>)
        requires
            old(self).wf(),
        ensures
            final(self).wf(),
            final(self).state == ConnectionState::Pending,
            final(self).pending_target_uuid == target_uuid,
            final(self).pending_passcode == passcode,
            final(self).handshake is None,
            final(self).plugin_selection is None,
            !final(self).stopped,
            !final(self).busy,
            final(self).event_log@.last().message@ == "Listening on port "@ + decimal_spec(
                port as nat,
            ) + "..."@,
            final(self).event_log@.last().kind == LogKind::System,
            final(self).log_filter == old(self).log_filter,
            final(self).sidebar == old(self).sidebar,
            final(self).known_plugins == old(self).known_plugins,
            final(self).persisted_target_uuid == old(self).persisted_target_uuid,
            final(self).persisted_passcode == old(self).persisted_passcode,
    {
        self.clear_session_transients();
        self.pending_target_uuid = target_uuid;
        self.pending_passcode = passcode;
        self.state = ConnectionState::Pending;
        let mut out: Vec<char> = Vec::new();
        push_str_chars(&mut out, "Listening on port ");
        push_decimal(&mut out, port as u64);
        push_str_chars(&mut out, "...");
        assert(out@ =~= "Listening on port "@ + decimal_spec(port as nat) + "..."@);
        self.add_log(string_from(out.as_slice()));
    }

    /// Start a connection attempt from the sidebar form: with a valid port,
    /// enter the pending state and say what to connect to; otherwise log and
    /// show the problem.
    pub fn start_connect_from_sidebar(&mut self) -> (r: Option<ConnectRequest>)
        requires
            old(self).wf(),
        ensures
            final(self).wf(),
            final(self).sidebar == old(self).sidebar,
            match parse_unsigned_spec(trim_spec(old(self).sidebar.port.value@), 65535) {
                Some(port) => {
                    &&& r matches Some(ConnectRequest::Connect { host, port: p, target_uuid, passcode })
                    &&& host@ == old(self).sidebar.host.value@
                    &&& p == port
                    &&& opt_view(target_uuid) == optional_text(old(self).sidebar.target_uuid.value@)
                    &&& opt_view(passcode) == optional_text(old(self).sidebar.passcode.value@)
                    &&& final(self).state == ConnectionState::Pending
                    &&& final(self).pending_target_uuid == target_uuid
                    &&& final(self).pending_passcode == passcode
                },
                None => {
                    &&& r is None
                    &&& final(self).state == old(self).state
                    &&& final(self).event_log@.last().message@ == "Invalid port number."@
                    &&& final(self).error_popup matches Some(e) && e.title@ == "Invalid port"@
                        && e.message@ == "Enter a valid port number before connecting."@
                },
            },
    {
        let port = match self.sidebar.port_u16() {
            Some(p) => p,
            None => {
                self.add_log("Invalid port number.".to_owned());
                self.show_error(
                    "Invalid port".to_owned(),
                    "Enter a valid port number before connecting.".to_owned(),
                );
                return None;
            },
        };
        let host = self.sidebar.host.value.clone();
        let target_uuid = optional_text_of(self.sidebar.target_uuid.value.as_str());
        let passcode = optional_text_of(self.sidebar.passcode.value.as_str());
        self.start_connect(host.clone(), port, clone_opt(&target_uuid), clone_opt(&passcode));
        Some(ConnectRequest::Connect { host, port, target_uuid, passcode })
    }

    /// Start listening from the sidebar form: with a valid port, enter the
    /// pending state and say what to listen on; otherwise log and show the
    /// problem.
    pub fn start_listen_from_sidebar(&mut self) -> (r: Option<ConnectRequest>)
        requires
            old(self).wf(),
        ensures
            final(self).wf(),
            final(self).sidebar == old(self).sidebar,
            match parse_unsigned_spec(trim_spec(old(self).sidebar.port.value@), 65535) {
                Some(port) => {
                    &&& r matches Some(ConnectRequest::Listen { port: p, target_uuid, passcode })
                    &&& p == port
                    &&& opt_view(target_uuid) == optional_text(old(self).sidebar.target_uuid.value@)
                    &&& opt_view(passcode) == optional_text(old(self).sidebar.passcode.value@)
                    &&& final(self).state == ConnectionState::Pending
                    &&& final(self).pending_target_uuid == target_uuid
                    &&& final(self).pending_passcode == passcode
                },
                None => {
                    &&& r is None
                    &&& final(self).state == old(self).state
                    &&& final(self).event_log@.last().message@ == "Invalid port number."@
                    &&& final(self).error_popup matches Some(e) && e.title@ == "Invalid port"@
                        && e.message@ == "Enter a valid port number before listening."@
                },
            },
    {
        let port = match self.sidebar.port_u16() {
            Some(p) => p,
            None => {
                self.add_log("Invalid port number.".to_owned());
                self.show_error(
                    "Invalid port".to_owned(),
                    "Enter a valid port number before listening.".to_owned(),
                );
                return None;
            },
        };
        let target_uuid = optional_text_of(self.sidebar.target_uuid.value.as_str());
        let passcode = optional_text_of(self.sidebar.passcode.value.as_str());
        self.start_listen(port, clone_opt(&target_uuid), clone_opt(&passcode));
        Some(ConnectRequest::Listen { port, target_uuid, passcode })
    }

    // ── Event handling ────────────────────────────────────────────────

    /// Process one event from the session.
    pub fn handle_session_event(&mut self, event: SessionEvent)
        requires
            old(self).wf(),
            event matches SessionEvent::Debuggee(e) ==> countable(e),
        ensures
            final(self).wf(),
            session_event_applied(*old(self), event, *final(self)),
    {
        match event {
            SessionEvent::Debuggee(e) => {
                match &e {
                    DebuggeeEvent::Stat2 { tick, stats } => {
                        self.stats.accumulate(stats, *tick);
                    },
                    _ => {},
                }
                let kind = log_kind_for(&e);
                let message = format_debuggee_event(&e);
                let level = debuggee_event_log_level(&e);
                match &e {
                    DebuggeeEvent::Stopped { reason, thread } => {
                        self.stopped = true;
                        self.stop_reason = reason.clone();
                        self.stopped_thread_id = Some(*thread);
                    },
                    DebuggeeEvent::Thread { reason, thread } => {
                        let rc = crate::text::chars_of(reason.as_str());
                        let exited = crate::text::chars_of("exited");
                        let same_thread = match self.stopped_thread_id {
                            Some(t) => t == *thread,
                            None => false,
                        };
                        if crate::text::eq_ignore_ascii_case_chars(rc.as_slice(), exited.as_slice())
                            && same_thread {
                            self.clear_stopped();
                        }
                    },
                    _ => {},
                }
                let entry = LogEntry::event_with_level(kind, message, level);
                self.push_log(entry);
            },
            SessionEvent::TargetSelectionRequired { plugins } => {
                let mut out: Vec<char> = Vec::new();
                push_str_chars(&mut out, "Target selection required: ");
                push_decimal(&mut out, plugins.len() as u64);
                push_str_chars(&mut out, " plugin(s) available");
                assert(out@ =~= "Target selection required: "@ + decimal_spec(plugins@.len())
                    + " plugin(s) available"@);
                self.add_log(string_from(out.as_slice()));
                self.plugin_selection = Some(PluginSelection::new(plugins));
            },
            SessionEvent::Disconnected => {
                self.state = ConnectionState::Disconnected;
                self.clear_session_transients();
                self.add_log("Connection lost (disconnected).".to_owned());
            },
            SessionEvent::Terminated { reason } => {
                let msg = match &reason {
                    Some(r) => {
                        let mut out: Vec<char> = Vec::new();
                        push_str_chars(&mut out, "Debuggee terminated: ");
                        push_str_chars(&mut out, r.as_str());
                        assert(out@ =~= "Debuggee terminated: "@ + r@);
                        string_from(out.as_slice())
                    },
                    None => "Debuggee terminated.".to_owned(),
                };
                self.state = ConnectionState::Disconnected;
                self.clear_session_transients();
                self.add_log(msg);
            },
        }
    }

    /// Mark the configuration as needing to be saved.
    pub fn mark_config_dirty(&mut self)
        ensures
            *final(self) == (App { config_dirty: true, config_save_error_shown: false, ..*old(self) }),
    {
        self.config_dirty = true;
        self.config_save_error_shown = false;
    }

    /// Handle the outcome of a connect/listen attempt.
    pub fn handle_connection_result(&mut self, result: Result<HandshakeInfo, SessionError>)
        requires
            old(self).wf(),
        ensures
            final(self).wf(),
            connection_result_applied(*old(self), result, *final(self)),
    {
        match result {
            Ok(info) => {
                let mut out: Vec<char> = Vec::new();
                push_str_chars(&mut out, "Connected — protocol v");
                push_decimal(&mut out, info.version as u64);
                push_str_chars(&mut out, ", ");
                push_decimal(&mut out, info.plugins.len() as u64);
                push_str_chars(&mut out, " plugin(s) registered.");
                assert(out@ =~= "Connected — protocol v"@ + decimal_spec(info.version as nat) + ", "@
                    + decimal_spec(info.plugins@.len()) + " plugin(s) registered."@);
                self.state = ConnectionState::Connected {
                    version: info.version,
                    plugin_count: info.plugins.len(),
                };
                self.add_log(string_from(out.as_slice()));
                merge_known_plugins(&mut self.known_plugins, &info.plugins);
                let target = match self.pending_target_uuid.take() {
                    Some(t) => Some(t),
                    None => if info.plugins.len() == 1 {
                        Some(info.plugins[0].module_uuid.clone())
                    } else {
                        None
                    },
                };
                self.persisted_target_uuid = target;
                self.persisted_passcode = self.pending_passcode.take();
                self.handshake = Some(info);
                self.mark_config_dirty();
            },
            Err(e) => {
                if !e.cancelled {
                    self.add_log("Connection failed.".to_owned());
                    self.show_error(
                        "Connection failed".to_owned(),
                        "Could not establish the debugger connection. Check the target, port, and passcode.".to_owned(),
                    );
                }
                self.clear_pending_attempt_snapshots();
                self.clear_session_transients();
                self.state = ConnectionState::Idle;
            },
        }
    }

    // ── Debug controls ────────────────────────────────────────────────

    pub fn set_busy(&mut self, busy: bool)
        ensures
            *final(self) == (App { busy, ..*old(self) }),
    {
        self.busy = busy;
    }

    /// A debug request or an evaluation is in flight.
    pub fn is_debug_busy(&self) -> (r: bool)
        ensures
            r == (self.busy || self.evaluate_input.busy),
    {
        self.busy || self.evaluate_input.busy
    }

    pub fn can_pause(&self) -> (r: bool)
        ensures
            r == (self.state is Connected && !self.stopped && !self.busy
                && !self.evaluate_input.busy),
    {
        matches!(self.state, ConnectionState::Connected { .. }) && !self.stopped
            && !self.is_debug_busy()
    }

    pub fn can_continue(&self) -> (r: bool)
        ensures
            r == (self.state is Connected && self.stopped && self.stopped_thread_id is Some
                && !self.busy && !self.evaluate_input.busy),
    {
        matches!(self.state, ConnectionState::Connected { .. }) && self.stopped
            && self.stopped_thread_id.is_some() && !self.is_debug_busy()
    }

    pub fn can_step(&self) -> (r: bool)
        ensures
            r == (self.state is Connected && self.stopped && self.stopped_thread_id is Some
                && !self.busy && !self.evaluate_input.busy),
    {
        self.can_continue()
    }

    /// Mark a pause request on `thread_id` as sent.
    pub fn begin_pause(&mut self, thread_id: u32)
        ensures
            *final(self) == (App { busy: true, ..*old(self) }),
    {
        self.set_busy(true);
    }

    /// Record how a pause request ended. The stopped state is left alone.
    pub fn finish_pause(&mut self, thread_id: u32, result: Result<(), SessionError>)
        requires
            old(self).wf(),
        ensures
            final(self).wf(),
            !final(self).busy,
            final(self).stopped == old(self).stopped,
            final(self).stopped_thread_id == old(self).stopped_thread_id,
            final(self).state == old(self).state,
            final(self).event_log@.last().message@ == match result {
                Ok(_) => "Pause requested (thread "@ + decimal_spec(thread_id as nat) + ")."@,
                Err(e) => "Pause failed: "@ + e.message@,
            },
            final(self).event_log@ == appended_log(old(self).event_log@, final(self).event_log@.last()),
            *final(self) == (App {
                busy: false,
                event_log: final(self).event_log,
                filtered_log_indices: final(self).filtered_log_indices,
                log_state: final(self).log_state,
                ..*old(self)
            }),
    {
        self.set_busy(false);
        let mut out: Vec<char> = Vec::new();
        match &result {
            Ok(_) => {
                push_str_chars(&mut out, "Pause requested (thread ");
                push_decimal(&mut out, thread_id as u64);
                push_str_chars(&mut out, ").");
                assert(out@ =~= "Pause requested (thread "@ + decimal_spec(thread_id as nat) + ")."@);
            },
            Err(e) => {
                push_str_chars(&mut out, "Pause failed: ");
                push_str_chars(&mut out, e.message.as_str());
                assert(out@ =~= "Pause failed: "@ + e.message@);
            },
        }
        self.add_log(string_from(out.as_slice()));
    }

    /// Start a continue or step request: when allowed, mark it as sent and
    /// give the stopped thread it is for.
    pub fn begin_resume(&mut self) -> (r: Option<u32>)
        ensures
            r == (if old(self).can_continue_spec() {
                old(self).stopped_thread_id
            } else {
                None
            }),
            r is Some ==> *final(self) == (App { busy: true, ..*old(self) }),
            r is None ==> *final(self) == *old(self),
    {
        let thread_id = match self.stopped_thread_id {
            Some(t) => t,
            None => return None,
        };
        if !self.can_continue() {
            return None;
        }
        self.set_busy(true);
        Some(thread_id)
    }

    pub open spec fn can_continue_spec(&self) -> bool {
        self.state is Connected && self.stopped && self.stopped_thread_id is Some && !self.busy
            && !self.evaluate_input.busy
    }

    /// Record how a continue or step request ended: on success the thread
    /// runs again and the stopped state is cleared.
    pub fn finish_resume(&mut self, kind: ResumeKind, thread_id: u32, result: Result<(), SessionError>)
        requires
            old(self).wf(),
        ensures
            final(self).wf(),
            !final(self).busy,
            final(self).state == old(self).state,
            result is Ok ==> !final(self).stopped && final(self).stopped_thread_id is None,
            result is Err ==> final(self).stopped == old(self).stopped
                && final(self).stopped_thread_id == old(self).stopped_thread_id,
            final(self).event_log@.last().message@ == resume_label(kind) + match result {
                Ok(_) => " requested (thread "@ + decimal_spec(thread_id as nat) + ")."@,
                Err(e) => " failed: "@ + e.message@,
            },
            final(self).event_log@ == appended_log(old(self).event_log@, final(self).event_log@.last()),
            result is Err ==> *final(self) == (App {
                busy: false,
                event_log: final(self).event_log,
                filtered_log_indices: final(self).filtered_log_indices,
                log_state: final(self).log_state,
                ..*old(self)
            }),
            result is Ok ==> *final(self) == (App {
                busy: false,
                stopped: false,
                stop_reason: final(self).stop_reason,
                stopped_thread_id: None,
                event_log: final(self).event_log,
                filtered_log_indices: final(self).filtered_log_indices,
                log_state: final(self).log_state,
                ..*old(self)
            }),
    {
        self.set_busy(false);
        let mut out: Vec<char> = Vec::new();
        match kind {
            ResumeKind::Continue => push_str_chars(&mut out, "Continue"),
            ResumeKind::StepNext => push_str_chars(&mut out, "Step next"),
            ResumeKind::StepIn => push_str_chars(&mut out, "Step in"),
            ResumeKind::StepOut => push_str_chars(&mut out, "Step out"),
        }
        let ghost label = out@;
        match &result {
            Ok(_) => {
                self.clear_stopped();
                push_str_chars(&mut out, " requested (thread ");
                push_decimal(&mut out, thread_id as u64);
                push_str_chars(&mut out, ").");
                assert(out@ =~= label + (" requested (thread "@ + decimal_spec(thread_id as nat)
                    + ")."@));
            },
            Err(e) => {
                push_str_chars(&mut out, " failed: ");
                push_str_chars(&mut out, e.message.as_str());
                assert(out@ =~= label + (" failed: "@ + e.message@));
            },
        }
        self.add_log(string_from(out.as_slice()));
    }

    /// Start sending a Minecraft command: an empty command does nothing;
    /// otherwise it is recorded in the history and the request marked as sent.
    pub fn begin_minecraft_command(&mut self, command: String) -> (started: bool)
        requires
            old(self).wf(),
            fits(command@),
        ensures
            final(self).wf(),
            started == (command@.len() > 0),
            !started ==> *final(self) == *old(self),
            started ==> final(self).busy && final(self).command_input.history_view()
                == crate::app::pushed_history(old(self).command_input.history_view(), command@),
    {
        if command.as_str().is_empty() {
            return false;
        }
        self.command_input.push_history(command);
        self.set_busy(true);
        true
    }

    /// Record how sending a Minecraft command ended.
    pub fn finish_minecraft_command(&mut self, command: String, result: Result<(), SessionError>)
        requires
            old(self).wf(),
        ensures
            final(self).wf(),
            !final(self).busy,
            match result {
                Ok(_) => {
                    &&& !final(self).command_input.open
                    &&& final(self).event_log@.last().message@ == "Command: /"@ + command@
                },
                Err(e) => {
                    &&& final(self).command_input.error matches Some(m) && m@ == "Send failed: "@
                        + e.message@
                    &&& final(self).event_log@ == old(self).event_log@
                },
            },
    {
        self.set_busy(false);
        match result {
            Ok(_) => {
                self.command_input.close();
                let mut out: Vec<char> = Vec::new();
                push_str_chars(&mut out, "Command: /");
                push_str_chars(&mut out, command.as_str());
                assert(out@ =~= "Command: /"@ + command@);
                self.add_log(string_from(out.as_slice()));
            },
            Err(e) => {
                let mut out: Vec<char> = Vec::new();
                push_str_chars(&mut out, "Send failed: ");
                push_str_chars(&mut out, e.message.as_str());
                assert(out@ =~= "Send failed: "@ + e.message@);
                self.command_input.error = Some(string_from(out.as_slice()));
            },
        }
    }

    /// The expression to send for evaluation, if one may be sent now: the
    /// field must hold one, no evaluation may be in flight (logged) and the
    /// debuggee must be stopped (logged).
    pub fn begin_evaluate(&mut self) -> (r: Option<String>)
        requires
            old(self).wf(),
        ensures
            final(self).wf(),
            old(self).evaluate_input.field.value@.len() == 0 ==> r is None && *final(self)
                == *old(self),
            old(self).evaluate_input.field.value@.len() > 0 && old(self).evaluate_input.busy ==> r is None
                && final(self).event_log@.last().message@ == "Evaluate already in progress."@,
            old(self).evaluate_input.field.value@.len() > 0 && !old(self).evaluate_input.busy
                && !old(self).stopped ==> r is None && final(self).event_log@.last().message@
                == "Evaluate is only available while stopped."@,
            old(self).evaluate_input.field.value@.len() > 0 && !old(self).evaluate_input.busy
                && old(self).stopped ==> (r matches Some(e) && e@
                == old(self).evaluate_input.field.value@ && *final(self) == *old(self)),
    {
        if self.evaluate_input.field.value.as_str().is_empty() {
            return None;
        }
        if self.evaluate_input.busy {
            self.add_log("Evaluate already in progress.".to_owned());
            return None;
        }
        if !self.stopped {
            self.add_log("Evaluate is only available while stopped.".to_owned());
            return None;
        }
        Some(self.evaluate_input.field.value.clone())
    }

    /// Record whether the evaluate request for `expression` could be sent.
    pub fn evaluate_sent(&mut self, expression: String, result: Result<(), SessionError>)
        requires
            old(self).wf(),
        ensures
            final(self).wf(),
            match result {
                Ok(_) => final(self).evaluate_input.busy == (old(self).evaluate_input.busy
                    || expression@.len() > 0),
                Err(e) => (final(self).evaluate_input.error matches Some(m) && m@ == "Send failed: "@
                    + e.message@),
            },
    {
        match result {
            Ok(_) => {
                self.evaluate_input.start(expression);
            },
            Err(e) => {
                let mut out: Vec<char> = Vec::new();
                push_str_chars(&mut out, "Send failed: ");
                push_str_chars(&mut out, e.message.as_str());
                assert(out@ =~= "Send failed: "@ + e.message@);
                self.evaluate_input.error = Some(string_from(out.as_slice()));
            },
        }
    }

    /// Record the answer to the evaluation in flight and log its first line.
    pub fn receive_evaluate(&mut self, result: Result<EvaluateResult, SessionError>)
        requires
            old(self).wf(),
        ensures
            final(self).wf(),
            !final(self).evaluate_input.busy,
            ({
                let (expr, ok, detail) = evaluate_entry_for(
                    old(self).evaluate_input.pending_expression,
                    result,
                );
                &&& final(self).evaluate_input.history@.len() > 0
                &&& entry_view(final(self).evaluate_input.history@[0]) == (expr, ok, detail)
                &&& final(self).event_log@.last().message@ == "Evaluate "@ + (if ok {
                    "ok"@
                } else {
                    "failed"@
                }) + ": "@ + expr + " = "@ + first_line(detail)
            }),
    {
        let entry = self.evaluate_input.finish(result);
        match entry {
            Some(e) => {
                let mut out: Vec<char> = Vec::new();
                push_str_chars(&mut out, "Evaluate ");
                if e.success {
                    push_str_chars(&mut out, "ok");
                } else {
                    push_str_chars(&mut out, "failed");
                }
                push_str_chars(&mut out, ": ");
                push_str_chars(&mut out, e.expression.as_str());
                push_str_chars(&mut out, " = ");
                let line = first_line_of(e.detail.as_str());
                crate::text::extend_chars(&mut out, line.as_slice());
                self.add_log(string_from(out.as_slice()));
            },
            None => {},
        }
    }

    /// Cancel a pending connection attempt, given what its result channel
    /// held at that moment. Says what the caller must still do to the session.
    pub fn cancel_pending_with_result(&mut self, poll: PendingPoll) -> (action: SessionAction)
        requires
            old(self).wf(),
        ensures
            final(self).wf(),
            final(self).state == ConnectionState::Idle,
            final(self).pending_target_uuid is None,
            final(self).pending_passcode is None,
            !final(self).busy,
            !final(self).stopped,
            final(self).handshake is None,
            match poll {
                PendingPoll::Ready(Ok(_)) => action == SessionAction::Disconnect
                    && final(self).event_log@.last().message@ == "Disconnected."@,
                PendingPoll::Ready(Err(_)) => action == SessionAction::Nothing,
                PendingPoll::Empty => action == SessionAction::CancelPending
                    && final(self).event_log@.last().message@ == "Pending operation cancelled."@,
                PendingPoll::Closed => action == SessionAction::Disconnect
                    && final(self).event_log@.last().message@
                    == "Connection task ended unexpectedly."@,
                PendingPoll::NoReceiver => action == SessionAction::CancelPending
                    && final(self).event_log@ == old(self).event_log@,
            },
            !(poll is Ready) ==> final(self).persisted_target_uuid == old(self).persisted_target_uuid
                && final(self).persisted_passcode == old(self).persisted_passcode
                && final(self).known_plugins == old(self).known_plugins && final(self).sidebar
                == old(self).sidebar,
    {
        match poll {
            PendingPoll::Ready(result) => {
                self.handle_connection_result(result);
                let connected = matches!(self.state, ConnectionState::Connected { .. });
                let action = if connected {
                    self.clear_session_transients();
                    self.add_log("Disconnected.".to_owned());
                    SessionAction::Disconnect
                } else {
                    SessionAction::Nothing
                };
                self.state = ConnectionState::Idle;
                action
            },
            PendingPoll::Empty => {
                self.clear_pending_attempt_snapshots();
                self.clear_session_transients();
                self.state = ConnectionState::Idle;
                self.add_log("Pending operation cancelled.".to_owned());
                SessionAction::CancelPending
            },
            PendingPoll::Closed => {
                self.clear_pending_attempt_snapshots();
                self.clear_session_transients();
                self.state = ConnectionState::Idle;
                self.add_log("Connection task ended unexpectedly.".to_owned());
                SessionAction::Disconnect
            },
            PendingPoll::NoReceiver => {
                self.clear_pending_attempt_snapshots();
                self.clear_session_transients();
                self.state = ConnectionState::Idle;
                SessionAction::CancelPending
            },
        }
    }

    // ── Focus / navigation ────────────────────────────────────────────

    /// Toggle the sidebar overlay (relevant in non-wide layouts).
    pub fn toggle_sidebar(&mut self)
        ensures
            *final(self) == (App {
                show_sidebar: !old(self).show_sidebar,
                focus: if !old(self).show_sidebar {
                    Focus::SidebarModeListen
                } else {
                    Focus::Main
                },
                ..*old(self)
            }),
    {
        self.show_sidebar = !self.show_sidebar;
        if self.show_sidebar {
            self.focus = Focus::SidebarModeListen;
        } else {
            self.focus = Focus::Main;
        }
    }

    /// Close the sidebar overlay and return focus to main.
    pub fn close_sidebar(&mut self)
        ensures
            *final(self) == (App { show_sidebar: false, focus: Focus::Main, ..*old(self) }),
    {
        self.show_sidebar = false;
        self.focus = Focus::Main;
    }

    /// The focus targets on screen, in tab order.
    pub open spec fn focus_targets_spec(&self) -> Seq<Focus> {
        focus_targets(
            self.show_sidebar || self.last_width >= WIDE_WIDTH,
            self.sidebar.mode,
            self.sidebar.advanced_open,
        )
    }

    /// Return the ordered list of focus targets that are visible right now.
    pub fn visible_focus_targets(&self) -> (r: Vec<Focus>)
        ensures
            r@ == self.focus_targets_spec(),
    {
        let mut targets: Vec<Focus> = Vec::new();
        targets.push(Focus::Main);
        if self.show_sidebar || self.sidebar_visible_by_layout(self.last_known_width()) {
            targets.push(Focus::SidebarModeListen);
            targets.push(Focus::SidebarModeConnect);
            if self.sidebar.mode == Mode::Connect {
                targets.push(Focus::SidebarHost);
            }
            targets.push(Focus::SidebarPort);
            targets.push(Focus::SidebarAdvanced);
            if self.sidebar.advanced_open {
                targets.push(Focus::SidebarTargetUuid);
                targets.push(Focus::SidebarPasscode);
            }
            targets.push(Focus::SidebarPrimary);
        }
        assert(targets@ =~= self.focus_targets_spec());
        targets
    }

    /// Cycle focus forward or backward through currently visible targets;
    /// from a target that is not visible, the move starts at the first one.
    pub fn cycle_focus(&mut self, forward: bool)
        ensures
            *final(self) == (App {
                focus: cycle_target(old(self).focus_targets_spec(), old(self).focus, forward),
                ..*old(self)
            }),
    {
        let targets = self.visible_focus_targets();
        let ghost t = targets@;
        let mut pos: usize = 0;
        let mut k: usize = 0;
        let mut found = false;
        while k < targets.len()
            invariant_except_break
                !found,
            invariant
                t == targets@,
                0 <= k <= t.len(),
                forall|j: int| 0 <= j < k ==> t[j] != self.focus,
            ensures
                0 <= k <= t.len(),
                forall|j: int| 0 <= j < k ==> t[j] != self.focus,
                found ==> k < t.len() && t[k as int] == self.focus,
                !found ==> k == t.len(),
            decreases t.len() - k,
        {
            if targets[k] == self.focus {
                found = true;
                break;
            }
            k += 1;
        }
        proof {
            if found {
                lemma_index_in(t, self.focus, k as int);
            } else {
                assert forall|i: int| !is_index_of(t, self.focus, i) by {}
            }
        }
        if found {
            pos = k;
        }
        let next = if forward {
            (pos + 1) % targets.len()
        } else if pos == 0 {
            targets.len() - 1
        } else {
            pos - 1
        };
        self.focus = targets[next];
    }

    /// True when the sidebar would be visible due to layout width.
    pub fn sidebar_visible_by_layout(&self, width: u16) -> (r: bool)
        ensures
            r == (width >= WIDE_WIDTH),
    {
        width >= WIDE_WIDTH
    }

    /// Last known terminal width; used for focus visibility.
    pub fn last_known_width(&self) -> (r: u16)
        ensures
            r == self.last_width,
    {
        self.last_width
    }

    /// Last known terminal height; used for paging calculations.
    pub fn last_known_height(&self) -> (r: u16)
        ensures
            r == self.last_height,
    {
        self.last_height
    }

    pub fn set_last_known_size(&mut self, width: u16, height: u16)
        ensures
            *final(self) == (App { last_width: width, last_height: height, ..*old(self) }),
    {
        self.last_width = width;
        self.last_height = height;
    }

    /// True when the terminal is in compact mode.
    pub fn compact(&self) -> (r: bool)
        ensures
            r == (self.last_width < COMPACT_WIDTH || self.last_height < COMPACT_HEIGHT),
    {
        self.last_width < COMPACT_WIDTH || self.last_height < COMPACT_HEIGHT
    }

    /// True when the sidebar is currently visible (persistent wide or overlay).
    pub fn is_sidebar_visible(&self) -> (r: bool)
        ensures
            r == (self.show_sidebar || self.last_width >= WIDE_WIDTH),
    {
        self.show_sidebar || self.sidebar_visible_by_layout(self.last_width)
    }

    /// True when focus is currently on an editable text field.
    pub fn is_field_focused(&self) -> (r: bool)
        ensures
            r == (self.focus == Focus::SidebarHost || self.focus == Focus::SidebarPort
                || self.focus == Focus::SidebarTargetUuid || self.focus
                == Focus::SidebarPasscode),
    {
        matches!(
            self.focus,
            Focus::SidebarHost | Focus::SidebarPort | Focus::SidebarTargetUuid
                | Focus::SidebarPasscode
        )
    }

    pub fn set_tab(&mut self, tab: Tab)
        ensures
            *final(self) == (App { tab, ..*old(self) }),
    {
        self.tab = tab;
    }

    pub fn toggle_help(&mut self)
        ensures
            *final(self) == (App {
                help_popup: if old(self).help_popup == HelpPopup::Hidden {
                    HelpPopup::Visible
                } else {
                    HelpPopup::Hidden
                },
                ..*old(self)
            }),
    {
        self.help_popup = match self.help_popup {
            HelpPopup::Hidden => HelpPopup::Visible,
            HelpPopup::Visible => HelpPopup::Hidden,
        };
    }

    // ── Log scrolling (on the filtered view) ──────────────────────────

    pub fn scroll_log_up(&mut self, n: usize)
        requires
            old(self).wf(),
            n <= isize::MAX,
        ensures
            final(self).wf(),
            *final(self) == (App { log_state: final(self).log_state, ..*old(self) }),
            ({
                let len = old(self).filtered_log_indices@.len();
                let base = match old(self).log_state.selected {
                    Some(s) => s as int,
                    None => len - 1,
                };
                &&& len == 0 ==> final(self).log_state.selected is None
                &&& len > 0 ==> final(self).log_state.selected == Some(
                    clamp_to(base - n, len - 1) as usize,
                )
            }),
    {
        proof {
            lemma_filtered_bounds(self.event_log@, self.log_filter);
        }
        let len = self.filtered_log_indices.len();
        self.log_state.scroll(-(n as isize), len);
    }

    pub fn scroll_log_down(&mut self, n: usize)
        requires
            old(self).wf(),
            n + MAX_LOG_ENTRIES <= isize::MAX,
        ensures
            final(self).wf(),
            *final(self) == (App { log_state: final(self).log_state, ..*old(self) }),
            ({
                let len = old(self).filtered_log_indices@.len();
                let base = match old(self).log_state.selected {
                    Some(s) => s as int,
                    None => len - 1,
                };
                &&& len == 0 ==> final(self).log_state.selected is None
                &&& len > 0 ==> final(self).log_state.selected == Some(
                    clamp_to(base + n, len - 1) as usize,
                )
            }),
    {
        proof {
            lemma_filtered_bounds(self.event_log@, self.log_filter);
        }
        let len = self.filtered_log_indices.len();
        self.log_state.scroll(n as isize, len);
    }

    pub fn scroll_log_page_up(&mut self, page: usize)
        requires
            old(self).wf(),
            page <= isize::MAX,
        ensures
            final(self).wf(),
            *final(self) == (App { log_state: final(self).log_state, ..*old(self) }),
            ({
                let len = old(self).filtered_log_indices@.len();
                let base = match old(self).log_state.selected {
                    Some(s) => s as int,
                    None => len - 1,
                };
                &&& len == 0 ==> final(self).log_state.selected is None
                &&& len > 0 ==> final(self).log_state.selected == Some(
                    clamp_to(base - page, len - 1) as usize,
                )
            }),
    {
        proof {
            lemma_filtered_bounds(self.event_log@, self.log_filter);
        }
        let len = self.filtered_log_indices.len();
        self.log_state.page_up(page, len);
    }

    pub fn scroll_log_page_down(&mut self, page: usize)
        requires
            old(self).wf(),
            page + MAX_LOG_ENTRIES <= isize::MAX,
        ensures
            final(self).wf(),
            *final(self) == (App { log_state: final(self).log_state, ..*old(self) }),
            ({
                let len = old(self).filtered_log_indices@.len();
                let base = match old(self).log_state.selected {
                    Some(s) => s as int,
                    None => len - 1,
                };
                &&& len == 0 ==> final(self).log_state.selected is None
                &&& len > 0 ==> final(self).log_state.selected == Some(
                    clamp_to(base + page, len - 1) as usize,
                )
            }),
    {
        proof {
            lemma_filtered_bounds(self.event_log@, self.log_filter);
        }
        let len = self.filtered_log_indices.len();
        self.log_state.page_down(page, len);
    }

    pub fn scroll_log_top(&mut self)
        requires
            old(self).wf(),
        ensures
            final(self).wf(),
            *final(self) == (App {
                log_state: LogState { selected: Some(0), offset: 0, follow: false },
                ..*old(self)
            }),
    {
        self.log_state.top();
    }

    pub fn scroll_log_bottom(&mut self)
        requires
            old(self).wf(),
        ensures
            final(self).wf(),
            ({
                let n = old(self).filtered_log_indices@.len();
                *final(self) == (App {
                    log_state: LogState {
                        selected: if n == 0 {
                            None
                        } else {
                            Some((n - 1) as usize)
                        },
                        offset: 0,
                        follow: true,
                    },
                    ..*old(self)
                })
            }),
    {
        proof {
            lemma_filtered_bounds(self.event_log@, self.log_filter);
        }
        let n = self.filtered_log_indices.len();
        self.log_state.bottom(n);
    }

    // ── Field editing ─────────────────────────────────────────────────

    /// Return the currently focused field, if any.
    pub fn focused_field(&self) -> (r: Option<&FieldState>)
        ensures
            match field_of(self.sidebar, self.focus) {
                Some(f) => r matches Some(g) && *g == f,
                None => r is None,
            },
    {
        match self.focus {
            Focus::SidebarHost => Some(&self.sidebar.host),
            Focus::SidebarPort => Some(&self.sidebar.port),
            Focus::SidebarTargetUuid => Some(&self.sidebar.target_uuid),
            Focus::SidebarPasscode => Some(&self.sidebar.passcode),
            _ => None,
        }
    }

    /// Type `ch` into the focused field; the port field takes only digits.
    pub fn insert_char(&mut self, ch: char)
        requires
            old(self).wf(),
            field_of(old(self).sidebar, old(self).focus) matches Some(f) ==> byte_len(f.value@) + 4
                <= usize::MAX,
        ensures
            final(self).wf(),
            match field_of(old(self).sidebar, old(self).focus) {
                None => *final(self) == *old(self),
                Some(f) => {
                    let g = field_of(final(self).sidebar, old(self).focus)->0;
                    &&& field_of(final(self).sidebar, old(self).focus) is Some
                    &&& *final(self) == (App {
                        sidebar: with_field(old(self).sidebar, old(self).focus, g),
                        ..*old(self)
                    })
                    &&& if old(self).focus == Focus::SidebarPort && !is_digit(ch) {
                        g == f
                    } else {
                        g.value@ == f.value@.insert(f.cursor_index(), ch) && g.cursor_index()
                            == f.cursor_index() + 1
                    }
                },
            },
    {
        match self.focus {
            Focus::SidebarHost => self.sidebar.host.insert(ch),
            Focus::SidebarPort => {
                if '0' <= ch && ch <= '9' {
                    self.sidebar.port.insert(ch);
                }
            },
            Focus::SidebarTargetUuid => self.sidebar.target_uuid.insert(ch),
            Focus::SidebarPasscode => self.sidebar.passcode.insert(ch),
            _ => {},
        }
    }

    /// Delete the character before the cursor of the focused field.
    pub fn backspace(&mut self)
        requires
            old(self).wf(),
        ensures
            final(self).wf(),
            match field_of(old(self).sidebar, old(self).focus) {
                None => *final(self) == *old(self),
                Some(f) => {
                    let g = field_of(final(self).sidebar, old(self).focus)->0;
                    &&& field_of(final(self).sidebar, old(self).focus) is Some
                    &&& *final(self) == (App {
                        sidebar: with_field(old(self).sidebar, old(self).focus, g),
                        ..*old(self)
                    })
                    &&& f.cursor_index() > 0 ==> g.value@ == f.value@.remove(f.cursor_index() - 1)
                        && g.cursor_index() == f.cursor_index() - 1
                    &&& f.cursor_index() == 0 ==> g == f
                },
            },
    {
        match self.focus {
            Focus::SidebarHost => self.sidebar.host.backspace(),
            Focus::SidebarPort => self.sidebar.port.backspace(),
            Focus::SidebarTargetUuid => self.sidebar.target_uuid.backspace(),
            Focus::SidebarPasscode => self.sidebar.passcode.backspace(),
            _ => {},
        }
    }

    /// Delete the character after the cursor of the focused field.
    pub fn delete_char(&mut self)
        requires
            old(self).wf(),
        ensures
            final(self).wf(),
            match field_of(old(self).sidebar, old(self).focus) {
                None => *final(self) == *old(self),
                Some(f) => {
                    let g = field_of(final(self).sidebar, old(self).focus)->0;
                    &&& field_of(final(self).sidebar, old(self).focus) is Some
                    &&& *final(self) == (App {
                        sidebar: with_field(old(self).sidebar, old(self).focus, g),
                        ..*old(self)
                    })
                    &&& f.cursor_index() < f.value@.len() ==> g.value@ == f.value@.remove(
                        f.cursor_index(),
                    ) && g.cursor_index() == f.cursor_index()
                    &&& f.cursor_index() == f.value@.len() ==> g == f
                },
            },
    {
        match self.focus {
            Focus::SidebarHost => self.sidebar.host.delete(),
            Focus::SidebarPort => self.sidebar.port.delete(),
            Focus::SidebarTargetUuid => self.sidebar.target_uuid.delete(),
            Focus::SidebarPasscode => self.sidebar.passcode.delete(),
            _ => {},
        }
    }

    /// Move the cursor of the focused field by `delta` characters.
    pub fn move_cursor(&mut self, delta: isize)
        requires
            old(self).wf(),
            delta > isize::MIN,
        ensures
            final(self).wf(),
            match field_of(old(self).sidebar, old(self).focus) {
                None => *final(self) == *old(self),
                Some(f) => {
                    let g = field_of(final(self).sidebar, old(self).focus)->0;
                    &&& field_of(final(self).sidebar, old(self).focus) is Some
                    &&& *final(self) == (App {
                        sidebar: with_field(old(self).sidebar, old(self).focus, g),
                        ..*old(self)
                    })
                    &&& g.value == f.value
                    &&& g.cursor_index() == clamp_index(
                        f.cursor_index() + delta,
                        f.value@.len() as int,
                    )
                },
            },
    {
        match self.focus {
            Focus::SidebarHost => self.sidebar.host.move_cursor(delta),
            Focus::SidebarPort => self.sidebar.port.move_cursor(delta),
            Focus::SidebarTargetUuid => self.sidebar.target_uuid.move_cursor(delta),
            Focus::SidebarPasscode => self.sidebar.passcode.move_cursor(delta),
            _ => {},
        }
    }

    /// Put the cursor of the focused field at its start.
    pub fn move_cursor_home(&mut self)
        requires
            old(self).wf(),
        ensures
            final(self).wf(),
            match field_of(old(self).sidebar, old(self).focus) {
                None => *final(self) == *old(self),
                Some(f) => {
                    let g = field_of(final(self).sidebar, old(self).focus)->0;
                    &&& field_of(final(self).sidebar, old(self).focus) is Some
                    &&& *final(self) == (App {
                        sidebar: with_field(old(self).sidebar, old(self).focus, g),
                        ..*old(self)
                    })
                    &&& g.value == f.value
                    &&& g.cursor == 0
                },
            },
    {
        match self.focus {
            Focus::SidebarHost => self.sidebar.host.home(),
            Focus::SidebarPort => self.sidebar.port.home(),
            Focus::SidebarTargetUuid => self.sidebar.target_uuid.home(),
            Focus::SidebarPasscode => self.sidebar.passcode.home(),
            _ => {},
        }
    }

    /// Put the cursor of the focused field at its end.
    pub fn move_cursor_end(&mut self)
        requires
            old(self).wf(),
        ensures
            final(self).wf(),
            match field_of(old(self).sidebar, old(self).focus) {
                None => *final(self) == *old(self),
                Some(f) => {
                    let g = field_of(final(self).sidebar, old(self).focus)->0;
                    &&& field_of(final(self).sidebar, old(self).focus) is Some
                    &&& *final(self) == (App {
                        sidebar: with_field(old(self).sidebar, old(self).focus, g),
                        ..*old(self)
                    })
                    &&& g.value == f.value
                    &&& g.cursor == byte_len(f.value@)
                },
            },
    {
        match self.focus {
            Focus::SidebarHost => self.sidebar.host.end(),
            Focus::SidebarPort => self.sidebar.port.end(),
            Focus::SidebarTargetUuid => self.sidebar.target_uuid.end(),
            Focus::SidebarPasscode => self.sidebar.passcode.end(),
            _ => {},
        }
    }

    // ── Sidebar actions ───────────────────────────────────────────────

    /// Switch the connection mode; focus leaves the host field when it hides.
    pub fn set_mode(&mut self, mode: Mode)
        ensures
            *final(self) == (App {
                sidebar: SidebarForm { mode, ..old(self).sidebar },
                focus: if mode == Mode::Listen && old(self).focus == Focus::SidebarHost {
                    Focus::SidebarPort
                } else {
                    old(self).focus
                },
                ..*old(self)
            }),
    {
        self.sidebar.mode = mode;
        if mode == Mode::Listen && self.focus == Focus::SidebarHost {
            self.focus = Focus::SidebarPort;
        }
    }

    pub fn toggle_advanced(&mut self)
        ensures
            *final(self) == (App {
                sidebar: SidebarForm { advanced_open: !old(self).sidebar.advanced_open, ..old(self).sidebar },
                ..*old(self)
            }),
    {
        self.sidebar.advanced_open = !self.sidebar.advanced_open;
    }

    /// Empty the log and its view.
    pub fn clear_log(&mut self)
        requires
            old(self).wf(),
        ensures
            final(self).wf(),
            final(self).event_log@.len() == 0,
            final(self).filtered_log_indices@.len() == 0,
            final(self).log_state == (LogState { selected: None, offset: 0, follow: true }),
            *final(self) == (App {
                event_log: final(self).event_log,
                filtered_log_indices: final(self).filtered_log_indices,
                log_state: final(self).log_state,
                ..*old(self)
            }),
    {
        self.event_log.clear();
        self.filtered_log_indices.clear();
        self.log_state = LogState::default();
        assert(self.filtered_log_indices@ =~= filtered_indices(self.event_log@, self.log_filter));
    }

    /// Clear only accumulated stats and the dashboard selection.
    pub fn clear_stats(&mut self)
        requires
            old(self).wf(),
        ensures
            final(self).wf(),
            final(self).stats.series().len() == 0,
            *final(self) == (App {
                stats: final(self).stats,
                stats_selected_category: None,
                stats_selected_client: None,
                stats_selected_addon: None,
                stats_scroll_offset: 0,
                ..*old(self)
            }),
    {
        self.stats.clear();
        self.stats_selected_category = None;
        self.stats_selected_client = None;
        self.stats_selected_addon = None;
        self.stats_scroll_offset = 0;
    }

    // ── Stats dashboard selection / scrolling ─────────────────────────

    /// Reconcile category, client and addon selection with the current
    /// stats: a vanished category falls back to the first; the client
    /// selector applies only to the client category with several clients;
    /// the addon selector only to the scripting category.
    pub fn reconcile_stats_selection(&mut self)
        requires
            old(self).wf(),
        ensures
            final(self).wf(),
            ({
                let keys = category_keys(old(self).stats.series());
                let r = reconciled(
                    keys,
                    client_list(old(self).stats.series()),
                    addon_list(old(self).stats.series()),
                    opt_view(old(self).stats_selected_category),
                    opt_view(old(self).stats_selected_client),
                    opt_view(old(self).stats_selected_addon),
                    old(self).stats_scroll_offset,
                );
                &&& opt_view(final(self).stats_selected_category) == r.0
                &&& opt_view(final(self).stats_selected_client) == r.1
                &&& opt_view(final(self).stats_selected_addon) == r.2
                &&& final(self).stats_scroll_offset == r.3
            }),
            *final(self) == (App {
                stats_selected_category: final(self).stats_selected_category,
                stats_selected_client: final(self).stats_selected_client,
                stats_selected_addon: final(self).stats_selected_addon,
                stats_scroll_offset: final(self).stats_scroll_offset,
                ..*old(self)
            }),
    {
        let categories = self.stats.categories();
        if categories.len() == 0 {
            self.stats_selected_category = None;
            self.stats_selected_client = None;
            self.stats_scroll_offset = 0;
            return ;
        }
        self.reconcile_category(&categories);
        self.reconcile_client();
        self.reconcile_addon();
    }

    fn reconcile_category(&mut self, categories: &Vec<StatCategory>)
        requires
            categories@.map_values(|x: StatCategory| x.key@) == category_keys(old(self).stats.series()),
            categories@.len() > 0,
        ensures
            (opt_view(final(self).stats_selected_category), final(self).stats_scroll_offset)
                == reconciled_category(
                category_keys(old(self).stats.series()),
                opt_view(old(self).stats_selected_category),
                old(self).stats_scroll_offset,
            ),
            *final(self) == (App {
                stats_selected_category: final(self).stats_selected_category,
                stats_scroll_offset: final(self).stats_scroll_offset,
                ..*old(self)
            }),
    {
        let ghost keys = categories@.map_values(|x: StatCategory| x.key@);
        let valid = match &self.stats_selected_category {
            Some(key) => category_position(categories, key.as_str()).is_some(),
            None => false,
        };
        proof {
            let o = opt_view(self.stats_selected_category);
            if o is Some && keys.contains(o->0) {
                let i = choose|i: int| 0 <= i < keys.len() && keys[i] == o->0;
                lemma_exists_first(keys, o->0, i);
            }
        }
        if !valid {
            self.stats_selected_category = Some(categories[0].key.to_owned());
            self.stats_scroll_offset = 0;
            assert(keys[0] == categories@[0].key@);
        }
    }

    fn reconcile_client(&mut self)
        ensures
            opt_view(final(self).stats_selected_client) == reconciled_client(
                opt_view(old(self).stats_selected_category),
                client_list(old(self).stats.series()),
                opt_view(old(self).stats_selected_client),
            ),
            *final(self) == (App {
                stats_selected_client: final(self).stats_selected_client,
                ..*old(self)
            }),
    {
        let is_client = match &self.stats_selected_category {
            Some(k) => crate::text::str_eq(k.as_str(), "client"),
            None => false,
        };
        if is_client {
            let clients = self.stats.client_ids();
            if clients.len() > 1 {
                let client_valid = match &self.stats_selected_client {
                    Some(id) => string_position(&clients, id.as_str()).is_some(),
                    None => false,
                };
                proof {
                    let views = string_views(clients@);
                    let o = opt_view(self.stats_selected_client);
                    if o is Some && views.contains(o->0) {
                        let i = choose|i: int| 0 <= i < views.len() && views[i] == o->0;
                        lemma_exists_first(views, o->0, i);
                    }
                }
                if !client_valid {
                    self.stats_selected_client = Some(clients[0].clone());
                    proof {
                        assert(string_views(clients@)[0] == clients@[0]@);
                    }
                }
            } else {
                self.stats_selected_client = None;
            }
        } else {
            self.stats_selected_client = None;
        }
    }

    fn reconcile_addon(&mut self)
        ensures
            opt_view(final(self).stats_selected_addon) == reconciled_addon(
                opt_view(old(self).stats_selected_category),
                addon_list(old(self).stats.series()),
                opt_view(old(self).stats_selected_addon),
            ),
            *final(self) == (App {
                stats_selected_addon: final(self).stats_selected_addon,
                ..*old(self)
            }),
    {
        let is_scripting = match &self.stats_selected_category {
            Some(k) => crate::text::str_eq(k.as_str(), "scripting"),
            None => false,
        };
        if is_scripting {
            let addons = self.stats.subscriber_addon_ids();
            let drop_addon = match &self.stats_selected_addon {
                Some(a) => string_position(&addons, a.as_str()).is_none(),
                None => false,
            };
            proof {
                let views = string_views(addons@);
                let o = opt_view(self.stats_selected_addon);
                if o is Some && views.contains(o->0) {
                    let i = choose|i: int| 0 <= i < views.len() && views[i] == o->0;
                    lemma_exists_first(views, o->0, i);
                }
            }
            if drop_addon {
                self.stats_selected_addon = None;
            }
        } else {
            self.stats_selected_addon = None;
        }
    }

    /// Move to the next category, wrapping around and resetting scroll.
    pub fn select_next_category(&mut self)
        requires
            old(self).wf(),
        ensures
            final(self).wf(),
            ({
                let keys = category_keys(old(self).stats.series());
                keys.len() == 0 ==> *final(self) == *old(self)
            }),
            ({
                let keys = category_keys(old(self).stats.series());
                let next = match first_position(keys, opt_view(old(self).stats_selected_category)) {
                    Some(i) => (i + 1) % (keys.len() as int),
                    None => 0,
                };
                let r = reconciled(
                    keys,
                    client_list(old(self).stats.series()),
                    addon_list(old(self).stats.series()),
                    Some(keys[next]),
                    opt_view(old(self).stats_selected_client),
                    opt_view(old(self).stats_selected_addon),
                    0,
                );
                keys.len() > 0 ==> {
                    &&& opt_view(final(self).stats_selected_category) == r.0
                    &&& opt_view(final(self).stats_selected_client) == r.1
                    &&& opt_view(final(self).stats_selected_addon) == r.2
                    &&& final(self).stats_scroll_offset == 0
                }
            }),
            category_keys(old(self).stats.series()).len() > 0 ==> opt_view(
                final(self).stats_selected_category,
            ) == Some(
                step_choice(
                    category_keys(old(self).stats.series()),
                    opt_view(old(self).stats_selected_category),
                    true,
                ),
            ),
    {
        let categories = self.stats.categories();
        if categories.len() == 0 {
            return ;
        }
        let pos = match &self.stats_selected_category {
            Some(key) => category_position(&categories, key.as_str()),
            None => None,
        };
        let idx = match pos {
            Some(i) => (i + 1) % categories.len(),
            None => 0,
        };
        self.stats_selected_category = Some(categories[idx].key.to_owned());
        self.stats_scroll_offset = 0;
        self.reconcile_stats_selection();
    }

    /// Move to the previous category, wrapping around and resetting scroll.
    pub fn select_prev_category(&mut self)
        requires
            old(self).wf(),
        ensures
            final(self).wf(),
            ({
                let keys = category_keys(old(self).stats.series());
                keys.len() == 0 ==> *final(self) == *old(self)
            }),
            ({
                let keys = category_keys(old(self).stats.series());
                let next = match first_position(keys, opt_view(old(self).stats_selected_category)) {
                    Some(i) => if i == 0 {
                        keys.len() - 1
                    } else {
                        i - 1
                    },
                    None => 0,
                };
                let r = reconciled(
                    keys,
                    client_list(old(self).stats.series()),
                    addon_list(old(self).stats.series()),
                    Some(keys[next]),
                    opt_view(old(self).stats_selected_client),
                    opt_view(old(self).stats_selected_addon),
                    0,
                );
                keys.len() > 0 ==> {
                    &&& opt_view(final(self).stats_selected_category) == r.0
                    &&& opt_view(final(self).stats_selected_client) == r.1
                    &&& opt_view(final(self).stats_selected_addon) == r.2
                    &&& final(self).stats_scroll_offset == 0
                }
            }),
            category_keys(old(self).stats.series()).len() > 0 ==> opt_view(
                final(self).stats_selected_category,
            ) == Some(
                step_choice(
                    category_keys(old(self).stats.series()),
                    opt_view(old(self).stats_selected_category),
                    false,
                ),
            ),
    {
        let categories = self.stats.categories();
        if categories.len() == 0 {
            return ;
        }
        let pos = match &self.stats_selected_category {
            Some(key) => category_position(&categories, key.as_str()),
            None => None,
        };
        let idx = match pos {
            Some(i) => if i == 0 {
                categories.len() - 1
            } else {
                i - 1
            },
            None => 0,
        };
        self.stats_selected_category = Some(categories[idx].key.to_owned());
        self.stats_scroll_offset = 0;
        self.reconcile_stats_selection();
    }

    /// Move to the next client ID when the client selector is visible.
    pub fn select_next_client(&mut self)
        requires
            old(self).wf(),
        ensures
            final(self).wf(),
            ({
                let clients = client_list(old(self).stats.series());
                let next = match first_position(clients, opt_view(old(self).stats_selected_client)) {
                    Some(i) => (i + 1) % (clients.len() as int),
                    None => 0,
                };
                &&& clients.len() <= 1 ==> *final(self) == *old(self)
                &&& clients.len() > 1 ==> opt_view(final(self).stats_selected_client) == Some(
                    clients[next],
                ) && *final(self) == (App {
                    stats_selected_client: final(self).stats_selected_client,
                    ..*old(self)
                })
            }),
            client_list(old(self).stats.series()).len() > 1 ==> opt_view(
                final(self).stats_selected_client,
            ) == Some(
                step_choice(
                    client_list(old(self).stats.series()),
                    opt_view(old(self).stats_selected_client),
                    true,
                ),
            ),
    {
        let clients = self.stats.client_ids();
        if clients.len() <= 1 {
            return ;
        }
        let pos = match &self.stats_selected_client {
            Some(id) => string_position(&clients, id.as_str()),
            None => None,
        };
        let idx = match pos {
            Some(i) => (i + 1) % clients.len(),
            None => 0,
        };
        self.stats_selected_client = Some(clients[idx].clone());
        proof {
            assert(string_views(clients@)[idx as int] == clients@[idx as int]@);
        }
    }

    /// Move to the previous client ID when the client selector is visible.
    pub fn select_prev_client(&mut self)
        requires
            old(self).wf(),
        ensures
            final(self).wf(),
            ({
                let clients = client_list(old(self).stats.series());
                let next = match first_position(clients, opt_view(old(self).stats_selected_client)) {
                    Some(i) => if i == 0 {
                        clients.len() - 1
                    } else {
                        i - 1
                    },
                    None => 0,
                };
                &&& clients.len() <= 1 ==> *final(self) == *old(self)
                &&& clients.len() > 1 ==> opt_view(final(self).stats_selected_client) == Some(
                    clients[next],
                ) && *final(self) == (App {
                    stats_selected_client: final(self).stats_selected_client,
                    ..*old(self)
                })
            }),
            client_list(old(self).stats.series()).len() > 1 ==> opt_view(
                final(self).stats_selected_client,
            ) == Some(
                step_choice(
                    client_list(old(self).stats.series()),
                    opt_view(old(self).stats_selected_client),
                    false,
                ),
            ),
    {
        let clients = self.stats.client_ids();
        if clients.len() <= 1 {
            return ;
        }
        let pos = match &self.stats_selected_client {
            Some(id) => string_position(&clients, id.as_str()),
            None => None,
        };
        let idx = match pos {
            Some(i) => if i == 0 {
                clients.len() - 1
            } else {
                i - 1
            },
            None => 0,
        };
        self.stats_selected_client = Some(clients[idx].clone());
        proof {
            assert(string_views(clients@)[idx as int] == clients@[idx as int]@);
        }
    }

    pub fn select_next_addon(&mut self)
        requires
            old(self).wf(),
        ensures
            final(self).wf(),
            stepped_addon(*old(self), *final(self), 1),
    {
        self.select_addon(true);
    }

    pub fn select_prev_addon(&mut self)
        requires
            old(self).wf(),
        ensures
            final(self).wf(),
            stepped_addon(*old(self), *final(self), -1),
    {
        self.select_addon(false);
    }

    /// Step through "all addons" followed by each addon, wrapping around;
    /// only on the scripting category with addons present.
    fn select_addon(&mut self, forward: bool)
        requires
            old(self).wf(),
        ensures
            final(self).wf(),
            stepped_addon(*old(self), *final(self), if forward {
                1
            } else {
                -1
            }),
    {
        let addons = self.stats.subscriber_addon_ids();
        let on_scripting = match &self.stats_selected_category {
            Some(k) => crate::text::str_eq(k.as_str(), "scripting"),
            None => false,
        };
        if addons.len() == 0 || !on_scripting {
            return ;
        }
        let current: u128 = match &self.stats_selected_addon {
            Some(id) => match string_position(&addons, id.as_str()) {
                Some(i) => i as u128 + 1,
                None => 0,
            },
            None => 0,
        };
        let n: u128 = addons.len() as u128 + 1;
        let next: u128 = if forward {
            (current + 1) % n
        } else if current == 0 {
            n - 1
        } else {
            current - 1
        };
        proof {
            let step: int = if forward {
                1
            } else {
                -1
            };
            assert(current < n);
            let ni = n as int;
            let ci = current as int;
            if forward {
                assert(next as int == (ci + step) % ni);
            } else if current == 0 {
                assert((-1int) % ni == ni - 1) by (nonlinear_arith)
                    requires
                        ni > 0,
                ;
            } else {
                assert((ci - 1) % ni == ci - 1) by (nonlinear_arith)
                    requires
                        0 <= ci - 1 < ni,
                ;
            }
            assert(next as int == (ci + step) % ni);
        }
        if next == 0 {
            self.stats_selected_addon = None;
        } else {
            let k = (next - 1) as usize;
            self.stats_selected_addon = Some(addons[k].clone());
            proof {
                assert(string_views(addons@)[k as int] == addons@[k as int]@);
            }
        }
    }

    /// Scroll the dashboard card viewport up by a number of rows.
    pub fn scroll_stats_up(&mut self, n: usize)
        ensures
            *final(self) == (App {
                stats_scroll_offset: if old(self).stats_scroll_offset >= n {
                    (old(self).stats_scroll_offset - n) as usize
                } else {
                    0
                },
                ..*old(self)
            }),
    {
        self.stats_scroll_offset = self.stats_scroll_offset.saturating_sub(n);
    }

    /// Scroll the dashboard card viewport down by a number of rows.
    pub fn scroll_stats_down(&mut self, n: usize)
        ensures
            *final(self) == (App {
                stats_scroll_offset: if old(self).stats_scroll_offset + n <= usize::MAX {
                    (old(self).stats_scroll_offset + n) as usize
                } else {
                    usize::MAX
                },
                ..*old(self)
            }),
    {
        self.stats_scroll_offset = self.stats_scroll_offset.saturating_add(n);
    }

    pub fn scroll_stats_page_up(&mut self, page: usize)
        ensures
            *final(self) == (App {
                stats_scroll_offset: if old(self).stats_scroll_offset >= page {
                    (old(self).stats_scroll_offset - page) as usize
                } else {
                    0
                },
                ..*old(self)
            }),
    {
        self.scroll_stats_up(page);
    }

    pub fn scroll_stats_page_down(&mut self, page: usize)
        ensures
            *final(self) == (App {
                stats_scroll_offset: if old(self).stats_scroll_offset + page <= usize::MAX {
                    (old(self).stats_scroll_offset + page) as usize
                } else {
                    usize::MAX
                },
                ..*old(self)
            }),
    {
        self.scroll_stats_down(page);
    }

    pub fn scroll_stats_top(&mut self)
        ensures
            *final(self) == (App { stats_scroll_offset: 0, ..*old(self) }),
    {
        self.stats_scroll_offset = 0;
    }

    /// Jump to the bottom of the dashboard (the renderer clamps the offset).
    pub fn scroll_stats_bottom(&mut self)
        ensures
            *final(self) == (App { stats_scroll_offset: usize::MAX, ..*old(self) }),
    {
        self.stats_scroll_offset = usize::MAX;
    }

    // ── Search / filter / reset ───────────────────────────────────────

    /// Open the search input, closing any other modal first.
    pub fn open_search(&mut self)
        requires
            old(self).wf(),
        ensures
            final(self).wf(),
            final(self).search_input.open,
            final(self).search_input.field.value@ == Seq::<char>::empty(),
            !final(self).command_input.open,
            !final(self).evaluate_input.open,
            !final(self).filter_popup.open,
            final(self).log_filter == old(self).log_filter,
            final(self).event_log@ == old(self).event_log@,
            *final(self) == (App {
                command_input: final(self).command_input,
                evaluate_input: final(self).evaluate_input,
                search_input: final(self).search_input,
                filter_popup: final(self).filter_popup,
                ..*old(self)
            }),
    {
        self.close_inputs();
        self.search_input.open();
    }

    /// Apply the current search field as the active filter and close the input.
    pub fn commit_search(&mut self)
        requires
            old(self).wf(),
        ensures
            final(self).wf(),
            final(self).log_filter.search@ == old(self).search_input.field.value@,
            final(self).log_filter.kinds == old(self).log_filter.kinds,
            final(self).log_filter.levels == old(self).log_filter.levels,
            !final(self).search_input.open,
            final(self).event_log@ == old(self).event_log@,
            final(self).config_dirty,
            *final(self) == (App {
                log_filter: final(self).log_filter,
                search_input: final(self).search_input,
                filtered_log_indices: final(self).filtered_log_indices,
                log_state: final(self).log_state,
                config_dirty: true,
                config_save_error_shown: false,
                ..*old(self)
            }),
    {
        self.log_filter.search = self.search_input.field.value.clone();
        self.rebuild_filtered_log_indices();
        self.search_input.close();
        self.mark_config_dirty();
    }

    /// Open the compact filter popup, closing other modals first.
    pub fn open_filter_popup(&mut self)
        requires
            old(self).wf(),
        ensures
            final(self).wf(),
            final(self).filter_popup == (FilterPopup { open: true, selected: 0 }),
            !final(self).command_input.open,
            !final(self).evaluate_input.open,
            !final(self).search_input.open,
            final(self).log_filter == old(self).log_filter,
            *final(self) == (App {
                command_input: final(self).command_input,
                evaluate_input: final(self).evaluate_input,
                search_input: final(self).search_input,
                filter_popup: final(self).filter_popup,
                ..*old(self)
            }),
    {
        self.close_inputs();
        self.filter_popup.open();
    }

    /// Toggle the selected filter row and rebuild the filtered view.
    pub fn toggle_selected_filter(&mut self) -> (r: Option<FilterToggle>)
        requires
            old(self).wf(),
        ensures
            final(self).wf(),
            final(self).log_filter == toggled_filter(
                old(self).log_filter,
                old(self).filter_popup.selected as int,
            ),
            r == toggle_report(old(self).log_filter, old(self).filter_popup.selected as int),
            final(self).event_log@ == old(self).event_log@,
            final(self).config_dirty,
            *final(self) == (App {
                log_filter: final(self).log_filter,
                filtered_log_indices: final(self).filtered_log_indices,
                log_state: final(self).log_state,
                config_dirty: true,
                config_save_error_shown: false,
                ..*old(self)
            }),
    {
        let result = self.filter_popup.toggle_selected(&mut self.log_filter);
        self.rebuild_filtered_log_indices();
        self.mark_config_dirty();
        result
    }

    /// Reset search and all filters without touching the event log.
    pub fn reset_filters(&mut self)
        requires
            old(self).wf(),
        ensures
            final(self).wf(),
            final(self).log_filter.search@ == Seq::<char>::empty(),
            final(self).log_filter.kinds == LogKindFilter::all_enabled_spec(),
            final(self).log_filter.levels == LogLevelFilter::all_enabled_spec(),
            !final(self).search_input.open,
            final(self).search_input.field.value@ == Seq::<char>::empty(),
            final(self).event_log@ == old(self).event_log@,
            final(self).config_dirty,
            *final(self) == (App {
                log_filter: final(self).log_filter,
                search_input: final(self).search_input,
                filtered_log_indices: final(self).filtered_log_indices,
                log_state: final(self).log_state,
                config_dirty: true,
                config_save_error_shown: false,
                ..*old(self)
            }),
    {
        self.log_filter = LogFilterState::show_all();
        self.search_input.reset_transient();
        self.rebuild_filtered_log_indices();
        self.mark_config_dirty();
    }

    /// True when the log view is currently filtered in any way.
    pub fn is_filtered(&self) -> (r: bool)
        ensures
            r == !(self.log_filter.search@.len() == 0 && self.log_filter.kinds
                == LogKindFilter::all_enabled_spec() && self.log_filter.levels
                == LogLevelFilter::all_enabled_spec()),
    {
        !self.log_filter.is_identity()
    }

    /// Number of entries visible after filtering.
    pub fn filtered_log_len(&self) -> (r: usize)
        ensures
            r == self.filtered_log_indices@.len(),
    {
        self.filtered_log_indices.len()
    }

    /// The search text and toggles of the active filter, for saving.
    pub fn current_filter_state(&self) -> (r: (String, LogKindFilter, LogLevelFilter))
        ensures
            r.0 == self.log_filter.search,
            r.1 == self.log_filter.kinds,
            r.2 == self.log_filter.levels,
    {
        (
            self.log_filter.search.clone(),
            LogKindFilter {
                system: self.log_filter.kinds.system,
                protocol: self.log_filter.kinds.protocol,
                stopped: self.log_filter.kinds.stopped,
                thread: self.log_filter.kinds.thread,
                print: self.log_filter.kinds.print,
                notification: self.log_filter.kinds.notification,
                stat: self.log_filter.kinds.stat,
                profiler_capture: self.log_filter.kinds.profiler_capture,
                schema: self.log_filter.kinds.schema,
                terminated: self.log_filter.kinds.terminated,
                unknown: self.log_filter.kinds.unknown,
            },
            LogLevelFilter {
                log: self.log_filter.levels.log,
                warn: self.log_filter.levels.warn,
                error: self.log_filter.levels.error,
            },
        )
    }

    /// Map a filtered view index to the absolute `event_log` index.
    pub fn filtered_to_absolute(&self, filtered_idx: usize) -> (r: Option<usize>)
        ensures
            r == (if filtered_idx < self.filtered_log_indices@.len() {
                Some(self.filtered_log_indices@[filtered_idx as int])
            } else {
                None
            }),
    {
        if filtered_idx < self.filtered_log_indices.len() {
            Some(self.filtered_log_indices[filtered_idx])
        } else {
            None
        }
    }

    // ── Config integration ────────────────────────────────────────────

    /// Apply a loaded configuration: its filter state, form fields the
    /// command line left empty, credentials not already persisted, and its
    /// plugin cache.
    #[verifier::spinoff_prover]
    pub fn apply_config(&mut self, cfg: &AppConfig)
        requires
            old(self).wf(),
            cfg.last_target_uuid matches Some(u) ==> fits(u@),
            cfg.passcode matches Some(p) ==> fits(p@),
        ensures
            final(self).wf(),
            final(self).log_filter == (LogFilterState {
                search: cfg.search,
                kinds: cfg.kinds,
                levels: cfg.levels,
            }),
            final(self).sidebar.target_uuid.value@ == (if old(self).sidebar.target_uuid.value@.len()
                == 0 && cfg.last_target_uuid is Some {
                cfg.last_target_uuid->Some_0@
            } else {
                old(self).sidebar.target_uuid.value@
            }),
            final(self).sidebar.passcode.value@ == (if old(self).sidebar.passcode.value@.len() == 0
                && cfg.passcode is Some {
                cfg.passcode->Some_0@
            } else {
                old(self).sidebar.passcode.value@
            }),
            final(self).persisted_target_uuid == (if old(self).persisted_target_uuid is None {
                cfg.last_target_uuid
            } else {
                old(self).persisted_target_uuid
            }),
            final(self).persisted_passcode == (if old(self).persisted_passcode is None {
                cfg.passcode
            } else {
                old(self).persisted_passcode
            }),
            plugin_views(final(self).known_plugins@) == plugin_views(cfg.known_plugins@),
            final(self).event_log@ == old(self).event_log@,
            final(self).state == old(self).state,
            if old(self).sidebar.target_uuid.value@.len() == 0 && cfg.last_target_uuid is Some {
                final(self).sidebar.target_uuid.cursor == byte_len(
                    final(self).sidebar.target_uuid.value@,
                )
            } else {
                final(self).sidebar.target_uuid == old(self).sidebar.target_uuid
            },
            if old(self).sidebar.passcode.value@.len() == 0 && cfg.passcode is Some {
                final(self).sidebar.passcode.cursor == byte_len(final(self).sidebar.passcode.value@)
            } else {
                final(self).sidebar.passcode == old(self).sidebar.passcode
            },
    {
        self.log_filter = LogFilterState {
            search: cfg.search.clone(),
            kinds: copy_kinds(&cfg.kinds),
            levels: LogLevelFilter { log: cfg.levels.log, warn: cfg.levels.warn, error: cfg.levels.error },
        };
        fill_if_empty(&mut self.sidebar.target_uuid, &cfg.last_target_uuid);
        fill_if_empty(&mut self.sidebar.passcode, &cfg.passcode);
        keep_or(&mut self.persisted_target_uuid, &cfg.last_target_uuid);
        keep_or(&mut self.persisted_passcode, &cfg.passcode);
        self.known_plugins = copy_plugins(&cfg.known_plugins);
        self.rebuild_filtered_log_indices();
    }

    /// The configuration to persist: the filter, the plugin cache and the
    /// persisted credentials (never unsent form values).
    pub fn config_snapshot(&self) -> (r: AppConfig)
        ensures
            plugin_views(r.known_plugins@) == plugin_views(self.known_plugins@),
            r.last_target_uuid == self.persisted_target_uuid,
            r.passcode == self.persisted_passcode,
            r.search == self.log_filter.search,
            r.kinds == self.log_filter.kinds,
            r.levels == self.log_filter.levels,
    {
        let (search, kinds, levels) = self.current_filter_state();
        AppConfig {
            known_plugins: copy_plugins(&self.known_plugins),
            last_target_uuid: clone_opt(&self.persisted_target_uuid),
            passcode: clone_opt(&self.persisted_passcode),
            search,
            kinds,
            levels,
        }
    }

    /// Record how saving the configuration went: success clears the dirty
    /// flag; failure keeps it for a retry, logs, and tells the user once.
    pub fn config_saved(&mut self, result: Result<(), String>)
        requires
            old(self).wf(),
        ensures
            final(self).wf(),
            result is Ok ==> *final(self) == (App {
                config_dirty: false,
                config_save_error_shown: false,
                ..*old(self)
            }),
            result is Err ==> {
                &&& final(self).config_dirty == old(self).config_dirty
                &&& final(self).config_save_error_shown
                &&& final(self).event_log@.last().message@ == "Settings save failed; will retry."@
                &&& !old(self).config_save_error_shown ==> (final(self).error_popup matches Some(
                    e,
                ) && e.title@ == "Settings not saved"@)
                &&& old(self).config_save_error_shown ==> final(self).error_popup == old(
                    self,
                ).error_popup
            },
    {
        match result {
            Ok(()) => {
                self.config_dirty = false;
                self.config_save_error_shown = false;
            },
            Err(_) => {
                self.add_log("Settings save failed; will retry.".to_owned());
                self.show_config_save_error_once();
            },
        }
    }

    /// The connection attempt's task ended without reporting a result:
    /// abandon the attempt, go idle, log it and tell the user.
    pub fn connection_task_lost(&mut self)
        requires
            old(self).wf(),
        ensures
            final(self).wf(),
            final(self).state == ConnectionState::Idle,
            final(self).pending_target_uuid is None,
            final(self).pending_passcode is None,
            final(self).handshake is None,
            !final(self).busy,
            final(self).event_log@.last().message@ == "Connection task ended unexpectedly."@,
            final(self).error_popup matches Some(e) && e.title@ == "Connection interrupted"@
                && e.message@ == "The connection task ended unexpectedly."@,
    {
        self.clear_pending_attempt_snapshots();
        self.clear_session_transients();
        self.state = ConnectionState::Idle;
        self.add_log("Connection task ended unexpectedly.".to_owned());
        self.show_error(
            "Connection interrupted".to_owned(),
            "The connection task ended unexpectedly.".to_owned(),
        );
    }
}

} // verus!
