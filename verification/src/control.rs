//! What a key press does: the decisions of the client's key handling, as a
//! function from the state and a key to the new state, whether to quit, and
//! the session work the caller must then perform. Also the auto-relisten
//! timer and the command-line mode.
use vstd::prelude::*;
use crate::app::{
    LogKindFilter, LogLevelFilter, fits, ConnectionState, FilterPopup, Focus, HelpPopup, Mode, SidebarForm, Tab, LOG_KIND_COUNT,
    LOG_LEVEL_ROWS, MAX_LOG_ENTRIES,
};
use crate::app_state::{
    client_list, connection_result_applied, field_of, optional_text, session_event_applied, stepped_addon, step_choice, with_field, App,
    ConnectRequest, ResumeKind,
};
use crate::app::{clamp_to, LogState};
use crate::fields::clamp_index;
use crate::stats::category_keys;
use crate::frames::opt_view;
use crate::text::{is_digit, parse_unsigned_spec, trim_spec};
use crate::events::{countable, HandshakeInfo, SessionEvent};
use crate::app::SessionError;
use crate::fields::FieldState;
use crate::text::{byte_len, push_str_chars, string_from};

verus! {

// ── Command line ──────────────────────────────────────────────────────

/// The connection mode named on the command line.
pub fn parse_mode(s: &str) -> (r: Option<Mode>)
    ensures
        s@ == "listen"@ ==> r == Some(Mode::Listen),
        s@ == "connect"@ ==> r == Some(Mode::Connect),
        s@ != "listen"@ && s@ != "connect"@ ==> r is None,
{
    proof {
        reveal_strlit("listen");
        reveal_strlit("connect");
        assert("listen"@.len() != "connect"@.len());
    }
    if crate::text::str_eq(s, "listen") {
        Some(Mode::Listen)
    } else if crate::text::str_eq(s, "connect") {
        Some(Mode::Connect)
    } else {
        None
    }
}

// ── Auto-relisten ─────────────────────────────────────────────────────

/// Delay before listening again after a listen-mode connection dropped.
pub const AUTO_RELISTEN_DELAY_MS: u64 = 800;

/// Auto-relisten state; times are milliseconds on the caller's monotonic clock.
#[derive(Debug, Clone, Copy, PartialEq, Eq, Structural)]
pub struct AutoRetryState {
    /// Whether the current/last connection mode was "listen".
    pub listen_mode: bool,
    /// When a retry is scheduled, the time it becomes due.
    pub retry_at: Option<u64>,
}

impl AutoRetryState {
    pub fn new() -> (r: Self)
        ensures
            r == (AutoRetryState { listen_mode: false, retry_at: None }),
    {
        AutoRetryState { listen_mode: false, retry_at: None }
    }

    /// A listen was started.
    pub fn on_listen_started(&mut self)
        ensures
            *final(self) == (AutoRetryState { listen_mode: true, retry_at: None }),
    {
        self.listen_mode = true;
        self.retry_at = None;
    }

    /// A connect was started (no relistening after it).
    pub fn on_connect_started(&mut self)
        ensures
            *final(self) == (AutoRetryState { listen_mode: false, retry_at: None }),
    {
        self.listen_mode = false;
        self.retry_at = None;
    }

    /// The connection failed or dropped at time `now`: in listen mode a
    /// retry is scheduled after the delay.
    pub fn on_disconnected(&mut self, now: u64)
        requires
            now + AUTO_RELISTEN_DELAY_MS <= u64::MAX,
        ensures
            old(self).listen_mode ==> *final(self) == (AutoRetryState {
                listen_mode: true,
                retry_at: Some((now + AUTO_RELISTEN_DELAY_MS) as u64),
            }),
            !old(self).listen_mode ==> *final(self) == *old(self),
    {
        if self.listen_mode {
            self.retry_at = Some(now + AUTO_RELISTEN_DELAY_MS);
        }
    }

    /// Forget any scheduled retry and the listen intent.
    pub fn cancel(&mut self)
        ensures
            *final(self) == (AutoRetryState { listen_mode: false, retry_at: None }),
    {
        self.listen_mode = false;
        self.retry_at = None;
    }

    /// Whether a retry is due at `now`; a due retry is consumed.
    pub fn try_fire(&mut self, now: u64) -> (fired: bool)
        ensures
            fired == (old(self).retry_at matches Some(t) && now >= t),
            fired ==> *final(self) == (AutoRetryState { retry_at: None, ..*old(self) }),
            !fired ==> *final(self) == *old(self),
    {
        match self.retry_at {
            Some(t) => {
                if now >= t {
                    self.retry_at = None;
                    return true;
                }
            },
            None => {},
        }
        false
    }
}

/// A scheduled retry fires once: right after firing, another attempt at the
/// same or any later time does not fire.
pub proof fn lemma_retry_fires_once(s: AutoRetryState, now: u64, later: u64)
    requires
        s.retry_at matches Some(t) && now >= t,
    ensures
        !((AutoRetryState { retry_at: None, ..s }).retry_at matches Some(t) && later >= t),
{
}

// ── Keys ──────────────────────────────────────────────────────────────

/// A key, as far as key handling looks at it.
#[derive(Debug, Clone, Copy, PartialEq, Eq, Structural)]
pub enum KeyCode {
    Char(char),
    Enter,
    Esc,
    Up,
    Down,
    Left,
    Right,
    Home,
    End,
    PageUp,
    PageDown,
    Tab,
    BackTab,
    Backspace,
    Delete,
    F(u8),
    Other,
}

/// A key event: the key, its modifiers and whether it is a release.
#[derive(Debug, Clone, Copy, PartialEq, Eq, Structural)]
pub struct Key {
    pub code: KeyCode,
    /// No modifier key was held.
    pub no_modifiers: bool,
    /// Shift was held.
    pub shift: bool,
    /// The event reports a key release.
    pub release: bool,
}

/// Session work the caller performs after a key was handled.
#[derive(Debug)]
pub enum Effect {
    Nothing,
    /// Start a connect/listen attempt.
    Start(ConnectRequest),
    /// Send a pause request; answer with `App::finish_pause`.
    Pause(u32),
    /// Send a continue or step request; answer with `App::finish_resume`.
    Resume(ResumeKind, u32),
    /// Send a Minecraft command; answer with `App::finish_minecraft_command`.
    SendCommand(String),
    /// Send an evaluate request; answer with `App::evaluate_sent`.
    Evaluate(String),
    /// Activate a target plugin; answer with `App::target_selected`.
    SelectTarget { uuid: String, name: String },
    /// Poll the pending attempt and hand it to `App::cancel_pending_with_result`.
    CancelPending,
    /// Tear the session down; the state already says so.
    Disconnect,
}

/// Every editable line has room for one more character.
pub open spec fn fields_have_room(app: App) -> bool {
    &&& byte_len(app.sidebar.host.value@) + 4 <= usize::MAX
    &&& byte_len(app.sidebar.port.value@) + 4 <= usize::MAX
    &&& byte_len(app.sidebar.target_uuid.value@) + 4 <= usize::MAX
    &&& byte_len(app.sidebar.passcode.value@) + 4 <= usize::MAX
    &&& byte_len(app.command_input.field.value@) + 4 <= usize::MAX
    &&& byte_len(app.evaluate_input.field.value@) + 4 <= usize::MAX
    &&& byte_len(app.search_input.field.value@) + 4 <= usize::MAX
}

/// Which handler a key goes to, in the order of the modal stack.
#[derive(Debug, Clone, Copy, PartialEq, Eq, Structural)]
pub enum KeyContext {
    Ignored,
    ErrorPopup,
    PluginPopup,
    HelpPopup,
    Search,
    FilterPopup,
    CommandInput,
    EvaluateInput,
    FieldEditing,
    Main,
}

pub open spec fn key_context(app: App, key: Key) -> KeyContext {
    if key.release {
        KeyContext::Ignored
    } else if app.error_popup is Some {
        KeyContext::ErrorPopup
    } else if app.plugin_selection is Some {
        KeyContext::PluginPopup
    } else if app.help_popup == HelpPopup::Visible {
        KeyContext::HelpPopup
    } else if app.search_input.open {
        KeyContext::Search
    } else if app.filter_popup.open {
        KeyContext::FilterPopup
    } else if app.command_input.open {
        KeyContext::CommandInput
    } else if app.evaluate_input.open {
        KeyContext::EvaluateInput
    } else if app.focus == Focus::SidebarHost || app.focus == Focus::SidebarPort || app.focus
        == Focus::SidebarTargetUuid || app.focus == Focus::SidebarPasscode {
        KeyContext::FieldEditing
    } else {
        KeyContext::Main
    }
}

/// The keys handled the same way wherever the focus is, outside popups
/// and text entry: quit, cancel or disconnect, help, tabs, sidebar, focus.
pub open spec fn is_global_key(code: KeyCode) -> bool {
    code == KeyCode::Char('q') || code == KeyCode::Char('x') || code == KeyCode::Char('X')
        || code == KeyCode::Char('h') || code == KeyCode::Char('1') || code == KeyCode::Char('2')
        || code == KeyCode::Char('s') || code == KeyCode::Char('S') || code == KeyCode::Tab || code
        == KeyCode::BackTab
}

/// The session work a debug key asks for on the main panel: space
/// continues when stopped and pauses when running, F5 continues, F6
/// pauses, F10
/// steps over, F11 steps in (with shift, out); each only when allowed.
pub open spec fn debug_key_effect(app: App, key: Key) -> Effect {
    if key.code == KeyCode::Char(' ') {
        if app.can_continue_spec() {
            Effect::Resume(ResumeKind::Continue, app.stopped_thread_id->Some_0)
        } else if app.state is Connected && !app.stopped && !app.busy && !app.evaluate_input.busy {
            Effect::Pause(0)
        } else {
            Effect::Nothing
        }
    } else if key.code == KeyCode::F(6) {
        if app.state is Connected && !app.stopped && !app.busy && !app.evaluate_input.busy {
            Effect::Pause(0)
        } else {
            Effect::Nothing
        }
    } else if app.can_continue_spec() && key.code == KeyCode::F(5) {
        Effect::Resume(ResumeKind::Continue, app.stopped_thread_id->Some_0)
    } else if app.can_continue_spec() && key.code == KeyCode::F(10) {
        Effect::Resume(ResumeKind::StepNext, app.stopped_thread_id->Some_0)
    } else if app.can_continue_spec() && key.code == KeyCode::F(11) {
        Effect::Resume(
            if key.shift {
                ResumeKind::StepOut
            } else {
                ResumeKind::StepIn
            },
            app.stopped_thread_id->Some_0,
        )
    } else {
        Effect::Nothing
    }
}

/// The state after a debug key: when it starts a pause or resume, the
/// client is busy until the session answers and nothing else changes;
/// otherwise nothing changes at all.
pub open spec fn debug_key_state(before: App, key: Key, after: App) -> bool {
    if debug_key_effect(before, key) is Nothing {
        after == before
    } else {
        after == (App { busy: true, ..before })
    }
}

/// Whether a key is one of the debug keys.
pub open spec fn is_debug_key(code: KeyCode) -> bool {
    code == KeyCode::Char(' ') || code == KeyCode::F(5) || code == KeyCode::F(6) || code
        == KeyCode::F(10) || code == KeyCode::F(11)
}

/// The request an attempt started from the form `form` in mode `mode`
/// carries, with the form's port `port`, and the pending credentials it
/// leaves in `after`.
pub open spec fn request_from_form(form: SidebarForm, mode: Mode, port: nat, req: ConnectRequest, after: App) -> bool {
    match req {
        ConnectRequest::Listen { port: p, target_uuid, passcode } => {
            &&& mode == Mode::Listen
            &&& p == port
            &&& opt_view(target_uuid) == optional_text(form.target_uuid.value@)
            &&& opt_view(passcode) == optional_text(form.passcode.value@)
            &&& after.pending_target_uuid == target_uuid
            &&& after.pending_passcode == passcode
        },
        ConnectRequest::Connect { host, port: p, target_uuid, passcode } => {
            &&& mode == Mode::Connect
            &&& host@ == form.host.value@
            &&& p == port
            &&& opt_view(target_uuid) == optional_text(form.target_uuid.value@)
            &&& opt_view(passcode) == optional_text(form.passcode.value@)
            &&& after.pending_target_uuid == target_uuid
            &&& after.pending_passcode == passcode
        },
    }
}

/// Starting an attempt in mode `mode` from the form `form`: when the form's
/// port is valid the attempt starts, pending, with the request the form
/// gives; otherwise nothing is started.
pub open spec fn started_from_form(form: SidebarForm, mode: Mode, effect: Effect, after: App) -> bool {
    match parse_unsigned_spec(trim_spec(form.port.value@), 65535) {
        Some(port) => {
            &&& after.state == ConnectionState::Pending
            &&& effect matches Effect::Start(req) && request_from_form(form, mode, port, req, after)
        },
        None => effect is Nothing,
    }
}

/// What the main panel does with the start, clear, command, evaluate and
/// log keys: `l` and `c` start listening or connecting from the form when
/// there is no session (and `c` clears the log while connected on the log
/// tab); `:` opens the command line and `e` the evaluate line when they
/// apply; on the log tab `/` opens the search line, `f` the filter popup
/// and `r` resets the filters; on the stats tab `r` clears the statistics.
pub open spec fn main_key_done(
    before: App,
    key: Key,
    r: KeyOutcome,
    after: App,
    retry: AutoRetryState,
) -> bool {
    let no_session = before.state == ConnectionState::Idle || before.state
        == ConnectionState::Disconnected;
    &&& key.code == KeyCode::Char('c') && key.no_modifiers && no_session ==> after.sidebar.mode
        == Mode::Connect && retry == (AutoRetryState { listen_mode: false, retry_at: None })
        && started_from_form(before.sidebar, Mode::Connect, r.effect, after)
    &&& key.code == KeyCode::Char('l') && key.no_modifiers && no_session ==> after.sidebar.mode
        == Mode::Listen && retry == (AutoRetryState { listen_mode: true, retry_at: None })
        && started_from_form(before.sidebar, Mode::Listen, r.effect, after)
    &&& (key.code == KeyCode::Char('l') || key.code == KeyCode::Char('c')) && key.no_modifiers
        && !no_session ==> r.effect is Nothing
    &&& key.code == KeyCode::Char(':') ==> r.effect is Nothing && after.command_input.open == (
    before.state is Connected || before.command_input.open)
    &&& key.code == KeyCode::Char('e') ==> r.effect is Nothing && after.evaluate_input.open == ((
    before.state is Connected && before.stopped) || before.evaluate_input.open)
    &&& key.code == KeyCode::Char('c') && key.no_modifiers && before.state is Connected
        && before.tab == Tab::Log ==> after.event_log@.len() == 0
    &&& key.code == KeyCode::Char('/') && before.tab == Tab::Log ==> after.search_input.open
    &&& key.code == KeyCode::Char('f') && before.tab == Tab::Log ==> after.filter_popup.open
    &&& key.code == KeyCode::Char('r') && before.tab == Tab::Log ==> after.log_filter.search@
        == Seq::<char>::empty() && after.log_filter.kinds == LogKindFilter::all_enabled_spec()
        && after.log_filter.levels == LogLevelFilter::all_enabled_spec()
    &&& key.code == KeyCode::Char('r') && before.tab == Tab::Stats ==> after.stats.series().len()
        == 0 && after.stats_selected_category is None
}

/// What the sidebar's primary button does: with no session it starts the
/// form's mode (a pending retry after a disconnect is only cancelled); it
/// cancels a pending attempt and ends a live session.
pub open spec fn primary_done(
    before: App,
    retry_before: AutoRetryState,
    r: KeyOutcome,
    after: App,
    retry_after: AutoRetryState,
) -> bool {
    let start = started_from_form(before.sidebar, before.sidebar.mode, r.effect, after)
        && retry_after == (AutoRetryState {
        listen_mode: before.sidebar.mode == Mode::Listen,
        retry_at: None,
    });
    &&& before.state == ConnectionState::Idle ==> start
    &&& before.state == ConnectionState::Pending ==> r.effect is CancelPending
        && after.plugin_selection is None && retry_after == (AutoRetryState {
        listen_mode: false,
        retry_at: None,
    })
    &&& before.state is Connected ==> r.effect is Disconnect && after.state
        == ConnectionState::Idle
    &&& before.state == ConnectionState::Disconnected && retry_before.retry_at is Some ==> {
        &&& r.effect is Nothing
        &&& after.state == ConnectionState::Idle
        &&& after.event_log@.last().message@ == "Cancelled retry."@
        &&& retry_after == (AutoRetryState { listen_mode: false, retry_at: None })
    }
    &&& before.state == ConnectionState::Disconnected && retry_before.retry_at is None ==> start
}

/// Rows a page of the log or dashboard moves: the height less six, at
/// least three.
pub open spec fn page_of(app: App) -> int {
    if app.last_height >= 9 {
        app.last_height - 6
    } else {
        3
    }
}

/// The log selection moved by `delta` rows over the filtered view, and
/// nothing else changed.
pub open spec fn log_moved(before: App, after: App, delta: int) -> bool {
    let len = before.filtered_log_indices@.len();
    let base = match before.log_state.selected {
        Some(s) => s as int,
        None => len - 1,
    };
    &&& after == (App { log_state: after.log_state, ..before })
    &&& len == 0 ==> after.log_state.selected is None
    &&& len > 0 ==> after.log_state.selected == Some(clamp_to(base + delta, len - 1) as usize)
}

/// The dashboard scrolled by `delta` rows (clamped to the offset's range),
/// and nothing else changed.
pub open spec fn stats_scrolled(before: App, after: App, delta: int) -> bool {
    let moved = before.stats_scroll_offset + delta;
    after == (App {
        stats_scroll_offset: if moved < 0 {
            0
        } else if moved > usize::MAX {
            usize::MAX
        } else {
            moved as usize
        },
        ..before
    })
}

/// The client selection stepped forward or back (only with several
/// clients), and nothing else changed.
pub open spec fn client_stepped(before: App, after: App, forward: bool) -> bool {
    let clients = client_list(before.stats.series());
    &&& clients.len() <= 1 ==> after == before
    &&& clients.len() > 1 ==> opt_view(after.stats_selected_client) == Some(
        step_choice(clients, opt_view(before.stats_selected_client), forward),
    ) && after == (App { stats_selected_client: after.stats_selected_client, ..before })
}

/// The category selection stepped forward or back (when there are
/// categories), with scrolling reset.
pub open spec fn category_stepped(before: App, after: App, forward: bool) -> bool {
    let keys = category_keys(before.stats.series());
    &&& keys.len() == 0 ==> after == before
    &&& keys.len() > 0 ==> opt_view(after.stats_selected_category) == Some(
        step_choice(keys, opt_view(before.stats_selected_category), forward),
    ) && after.stats_scroll_offset == 0
}

/// What the navigation keys of the main panel do: on the log tab, Up/`k`
/// and Down/`j` move the selection a row, the page keys a page, `g` and
/// `G` jump to the first and last row; on the statistics tab the same keys
/// scroll the cards, Left/Right step the category, and `[`/`]` step the
/// addon (on the scripting category) or else the client.
pub open spec fn nav_key_done(before: App, key: Key, after: App) -> bool {
    match before.tab {
        Tab::Log => log_nav_done(before, key, after),
        Tab::Stats => stats_nav_done(before, key, after),
    }
}

/// The keys that move through the log, the dashboard or its selections.
pub open spec fn is_nav_key(c: KeyCode) -> bool {
    c == KeyCode::Up || c == KeyCode::Down || c == KeyCode::Char('k') || c == KeyCode::Char('j')
        || c == KeyCode::PageUp || c == KeyCode::PageDown || c == KeyCode::Char('g') || c
        == KeyCode::Char('G') || c == KeyCode::Left || c == KeyCode::Right || c == KeyCode::Char(
        '[',
    ) || c == KeyCode::Char(']')
}

/// The navigation keys on the log tab.
pub open spec fn log_nav_done(before: App, key: Key, after: App) -> bool {
    let page = page_of(before);
    let c = key.code;

        &&& (c == KeyCode::Up || c == KeyCode::Char('k')) ==> log_moved(before, after, -1)
        &&& (c == KeyCode::Down || c == KeyCode::Char('j')) ==> log_moved(before, after, 1)
        &&& c == KeyCode::PageUp ==> log_moved(before, after, -page)
        &&& c == KeyCode::PageDown ==> log_moved(before, after, page)
        &&& c == KeyCode::Char('g') ==> after == (App {
            log_state: LogState { selected: Some(0), offset: 0, follow: false },
            ..before
        })
        &&& c == KeyCode::Char('G') ==> after == (App {
            log_state: LogState {
                selected: if before.filtered_log_indices@.len() == 0 {
                    None
                } else {
                    Some((before.filtered_log_indices@.len() - 1) as usize)
                },
                offset: 0,
                follow: true,
            },
            ..before
        })
}

/// The navigation keys on the statistics tab.
pub open spec fn stats_nav_done(before: App, key: Key, after: App) -> bool {
    let page = page_of(before);
    let c = key.code;

        let on_scripting = opt_view(before.stats_selected_category) == Some("scripting"@);
        &&& (c == KeyCode::Up || c == KeyCode::Char('k')) ==> stats_scrolled(before, after, -1)
        &&& (c == KeyCode::Down || c == KeyCode::Char('j')) ==> stats_scrolled(before, after, 1)
        &&& c == KeyCode::PageUp ==> stats_scrolled(before, after, -page)
        &&& c == KeyCode::PageDown ==> stats_scrolled(before, after, page)
        &&& c == KeyCode::Char('g') ==> after == (App { stats_scroll_offset: 0, ..before })
        &&& c == KeyCode::Char('G') ==> after == (App {
            stats_scroll_offset: usize::MAX,
            ..before
        })
        &&& c == KeyCode::Left ==> category_stepped(before, after, false)
        &&& c == KeyCode::Right ==> category_stepped(before, after, true)
        &&& c == KeyCode::Char('[') ==> if on_scripting {
            stepped_addon(before, after, -1)
        } else {
            client_stepped(before, after, false)
        }
        &&& c == KeyCode::Char(']') ==> if on_scripting {
            stepped_addon(before, after, 1)
        } else {
            client_stepped(before, after, true)
        }
}

/// What the editing keys do to the focused form field: a character is
/// typed (the port takes digits only), Backspace and Delete remove the
/// character before or under the cursor, Left/Right move it one character,
/// Home/End to either end; nothing else in the state changes.
pub open spec fn field_edit_done(before: App, key: Key, after: App) -> bool {
    let f = field_of(before.sidebar, before.focus)->0;
    let g = field_of(after.sidebar, before.focus)->0;
    let k = f.cursor_index();
    let c = key.code;
    let edits = c is Char || c == KeyCode::Backspace || c == KeyCode::Delete || c == KeyCode::Left
        || c == KeyCode::Right || c == KeyCode::Home || c == KeyCode::End;
    &&& edits ==> field_of(after.sidebar, before.focus) is Some && after == (App {
        sidebar: with_field(before.sidebar, before.focus, g),
        ..before
    })
    &&& c is Char ==> if before.focus == Focus::SidebarPort && !is_digit(c->Char_0) {
        g == f
    } else {
        g.value@ == f.value@.insert(k, c->Char_0) && g.cursor_index() == k + 1
    }
    &&& c == KeyCode::Backspace ==> if k > 0 {
        g.value@ == f.value@.remove(k - 1) && g.cursor_index() == k - 1
    } else {
        g == f
    }
    &&& c == KeyCode::Delete ==> if k < f.value@.len() {
        g.value@ == f.value@.remove(k) && g.cursor_index() == k
    } else {
        g == f
    }
    &&& c == KeyCode::Left ==> g.value == f.value && g.cursor_index() == clamp_index(
        k - 1,
        f.value@.len() as int,
    )
    &&& c == KeyCode::Right ==> g.value == f.value && g.cursor_index() == clamp_index(
        k + 1,
        f.value@.len() as int,
    )
    &&& c == KeyCode::Home ==> g.value == f.value && g.cursor == 0
    &&& c == KeyCode::End ==> g.value == f.value && g.cursor == byte_len(f.value@)
}

/// The plugin popup's highlight moved `times` rows up or down, and nothing
/// else changed.
pub open spec fn selection_moved(before: App, after: App, times: int, up: bool) -> bool {
    let b = before.plugin_selection->Some_0;
    &&& after.plugin_selection matches Some(sel) && sel.plugins@ == b.plugins@ && sel.scroll_offset
        == b.scroll_offset && sel.selected == moved_selection(
        b.selected as int,
        times,
        up,
        b.plugins@.len() as int,
    )
    &&& after == (App { plugin_selection: after.plugin_selection, ..before })
}

/// What the navigation keys of the plugin popup do: Up/`k` and Down/`j`
/// move the highlight a row, the page keys five rows.
pub open spec fn plugin_nav_done(before: App, key: Key, after: App) -> bool {
    let c = key.code;
    &&& (c == KeyCode::Up || c == KeyCode::Char('k')) ==> selection_moved(before, after, 1, true)
    &&& (c == KeyCode::Down || c == KeyCode::Char('j')) ==> selection_moved(before, after, 1, false)
    &&& c == KeyCode::PageUp ==> selection_moved(before, after, 5, true)
    &&& c == KeyCode::PageDown ==> selection_moved(before, after, 5, false)
}

/// What the filter popup's keys do: Esc closes it, Up/`k` and Down/`j`
/// move the highlight a row (within the rows), Home/`g` and End/`G` jump to
/// the first and last row, space or Enter toggles the highlighted row.
pub open spec fn filter_popup_done(before: App, key: Key, after: App) -> bool {
    let c = key.code;
    let sel = before.filter_popup.selected;
    &&& c == KeyCode::Esc ==> !after.filter_popup.open
    &&& (c == KeyCode::Up || c == KeyCode::Char('k')) ==> after.filter_popup.selected == (if sel
        > 0 {
        sel - 1
    } else {
        0
    })
    &&& (c == KeyCode::Down || c == KeyCode::Char('j')) ==> after.filter_popup.selected == (if sel
        < LOG_KIND_COUNT + LOG_LEVEL_ROWS - 1 {
        sel + 1
    } else {
        sel as int
    })
    &&& (c == KeyCode::Home || c == KeyCode::Char('g')) ==> after.filter_popup.selected == 0
    &&& (c == KeyCode::End || c == KeyCode::Char('G')) ==> after.filter_popup.selected
        == LOG_KIND_COUNT + LOG_LEVEL_ROWS - 1
    &&& (c == KeyCode::Char(' ') || c == KeyCode::Enter) ==> after.log_filter
        == crate::app::toggled_filter(before.log_filter, sel as int)
}

/// Whether a key quits the client: `q` quits except while typing into a
/// field, the search line, the command line or the evaluate line.
pub open spec fn quits(app: App, key: Key) -> bool {
    let ctx = key_context(app, key);
    key.code == KeyCode::Char('q') && ctx != KeyContext::Ignored && ctx != KeyContext::Search
        && ctx != KeyContext::CommandInput && ctx != KeyContext::EvaluateInput && ctx
        != KeyContext::FieldEditing
}

/// What handling one key yields besides the new state.
pub struct KeyOutcome {
    pub quit: bool,
    pub effect: Effect,
}

/// Handle one key: route it through the modal stack, update the state and
/// the auto-relisten intent, and say whether to quit and what session work
/// to perform.
pub fn handle_key(app: &mut App, key: Key, auto_retry: &mut AutoRetryState) -> (r: KeyOutcome)
    requires
        old(app).wf(),
        fields_have_room(*old(app)),
    ensures
        final(app).wf(),
        r.quit == quits(*old(app), key),
        key.release ==> *final(app) == *old(app) && *final(auto_retry) == *old(auto_retry)
            && r.effect is Nothing,
        r.quit ==> *final(auto_retry) == (AutoRetryState { listen_mode: false, retry_at: None })
            || key_context(*old(app), key) == KeyContext::FilterPopup,
        key_context(*old(app), key) == KeyContext::ErrorPopup ==> r.effect is Nothing && (
        (key.code == KeyCode::Esc || key.code == KeyCode::Enter) ==> final(app).error_popup is None),
        key_context(*old(app), key) == KeyContext::HelpPopup ==> r.effect is Nothing && (
        (key.code == KeyCode::Esc || key.code == KeyCode::Char('h'))
            ==> final(app).help_popup == HelpPopup::Hidden),
        key_context(*old(app), key) == KeyContext::Search ==> r.effect is Nothing && (key.code
            == KeyCode::Enter ==> final(app).log_filter.search@
            == old(app).search_input.field.value@ && !final(app).search_input.open),
        key_context(*old(app), key) == KeyContext::FilterPopup ==> r.effect is Nothing,
        key_context(*old(app), key) == KeyContext::CommandInput && key.code == KeyCode::Enter
            ==> (old(app).command_input.field.value@.len() > 0 <==> r.effect is SendCommand),
        key_context(*old(app), key) == KeyContext::FieldEditing ==> r.effect is Nothing,
        key_context(*old(app), key) == KeyContext::Main && (key.code == KeyCode::Char('x')
            || key.code == KeyCode::Char('X')) ==> match old(app).state {
            ConnectionState::Pending => r.effect is CancelPending,
            ConnectionState::Connected { .. } => r.effect is Disconnect && final(app).state
                == ConnectionState::Idle,
            _ => r.effect is Nothing && *final(app) == *old(app),
        },
        key_context(*old(app), key) == KeyContext::Main && key.code == KeyCode::Char('1')
            ==> final(app).tab == Tab::Log,
        key_context(*old(app), key) == KeyContext::Main && key.code == KeyCode::Char('2')
            ==> final(app).tab == Tab::Stats,
        key_context(*old(app), key) == KeyContext::Main && old(app).focus == Focus::Main
            && is_debug_key(key.code) ==> r.effect == debug_key_effect(*old(app), key)
            && debug_key_state(*old(app), key, *final(app)) && *final(auto_retry)
            == *old(auto_retry),
        key_context(*old(app), key) == KeyContext::Main && old(app).focus == Focus::Main
            && !is_global_key(key.code) ==> main_key_done(
            *old(app),
            key,
            r,
            *final(app),
            *final(auto_retry),
        ),
        key_context(*old(app), key) == KeyContext::Main && old(app).focus == Focus::Main
            && is_nav_key(key.code) ==> nav_key_done(*old(app), key, *final(app)),
        key_context(*old(app), key) == KeyContext::FieldEditing && is_edit_key(key.code)
            ==> field_edit_done(*old(app), key, *final(app)),
        key_context(*old(app), key) == KeyContext::PluginPopup ==> plugin_nav_done(
            *old(app),
            key,
            *final(app),
        ),
        key_context(*old(app), key) == KeyContext::FilterPopup ==> filter_popup_done(
            *old(app),
            key,
            *final(app),
        ),
        key_context(*old(app), key) == KeyContext::Main && old(app).focus == Focus::SidebarPrimary
            && (key.code == KeyCode::Enter || key.code == KeyCode::Char(' ')) ==> primary_done(
            *old(app),
            *old(auto_retry),
            r,
            *final(app),
            *final(auto_retry),
        ),
{
    if key.release {
        return KeyOutcome { quit: false, effect: Effect::Nothing };
    }
    if app.error_popup.is_some() {
        return handle_error_popup_keys(app, key, auto_retry);
    }
    if app.plugin_selection.is_some() {
        return handle_plugin_popup_keys(app, key, auto_retry);
    }
    if app.help_popup == HelpPopup::Visible {
        return handle_help_popup_keys(app, key, auto_retry);
    }
    if app.search_input.open {
        return handle_search_input_keys(app, key);
    }
    if app.filter_popup.open {
        return handle_filter_popup_keys(app, key);
    }
    if app.command_input.open {
        return handle_command_input_keys(app, key);
    }
    if app.evaluate_input.open {
        return handle_evaluate_input_keys(app, key);
    }
    if app.is_field_focused() {
        return handle_field_editing(app, key);
    }
    match handle_global_keys(app, key, auto_retry) {
        Some(outcome) => {
            return outcome;
        },
        None => {},
    }
    match app.focus {
        Focus::Main => handle_main_keys(app, key, auto_retry),
        Focus::SidebarModeListen => handle_sidebar_mode_keys(app, key, Mode::Listen, auto_retry),
        Focus::SidebarModeConnect => handle_sidebar_mode_keys(app, key, Mode::Connect, auto_retry),
        Focus::SidebarAdvanced => {
            if key.code == KeyCode::Enter || key.code == KeyCode::Char(' ') {
                app.toggle_advanced();
            }
            KeyOutcome { quit: false, effect: Effect::Nothing }
        },
        Focus::SidebarPrimary => {
            if key.code == KeyCode::Enter || key.code == KeyCode::Char(' ') {
                handle_primary_action_key(app, auto_retry)
            } else {
                KeyOutcome { quit: false, effect: Effect::Nothing }
            }
        },
        _ => KeyOutcome { quit: false, effect: Effect::Nothing },
    }
}

fn handle_error_popup_keys(app: &mut App, key: Key, auto_retry: &mut AutoRetryState) -> (r:
    KeyOutcome)
    requires
        old(app).wf(),
    ensures
        final(app).wf(),
        r.effect is Nothing,
        r.quit == (key.code == KeyCode::Char('q')),
        r.quit ==> *final(auto_retry) == (AutoRetryState { listen_mode: false, retry_at: None }),
        (key.code == KeyCode::Esc || key.code == KeyCode::Enter) ==> *final(app) == (App {
            error_popup: None,
            ..*old(app)
        }),
        !(key.code == KeyCode::Esc || key.code == KeyCode::Enter) ==> *final(app) == *old(app),
{
    match key.code {
        KeyCode::Esc | KeyCode::Enter => {
            app.dismiss_error();
        },
        KeyCode::Char('q') => {
            auto_retry.cancel();
            return KeyOutcome { quit: true, effect: Effect::Nothing };
        },
        _ => {},
    }
    KeyOutcome { quit: false, effect: Effect::Nothing }
}

fn handle_plugin_popup_keys(app: &mut App, key: Key, auto_retry: &mut AutoRetryState) -> (r:
    KeyOutcome)
    requires
        old(app).wf(),
        old(app).plugin_selection is Some,
    ensures
        final(app).wf(),
        r.quit == (key.code == KeyCode::Char('q')),
        r.quit ==> *final(auto_retry) == (AutoRetryState { listen_mode: false, retry_at: None }),
        key.code == KeyCode::Esc ==> final(app).plugin_selection is None && (old(app).state
            == ConnectionState::Pending <==> r.effect is CancelPending),
        key.code == KeyCode::Enter ==> ({
            let sel = old(app).plugin_selection->Some_0;
            if sel.selected < sel.plugins@.len() {
                r.effect matches Effect::SelectTarget { uuid, name } && uuid
                    == sel.plugins@[sel.selected as int].module_uuid && name
                    == sel.plugins@[sel.selected as int].name
            } else {
                r.effect is Nothing
            }
        }),
        key.code != KeyCode::Esc && key.code != KeyCode::Enter ==> r.effect is Nothing,
        plugin_nav_done(*old(app), key, *final(app)),
{
    match key.code {
        KeyCode::Up | KeyCode::Char('k') => {
            scroll_selection(app, 1, true);
        },
        KeyCode::Down | KeyCode::Char('j') => {
            scroll_selection(app, 1, false);
        },
        KeyCode::PageUp => {
            scroll_selection(app, 5, true);
        },
        KeyCode::PageDown => {
            scroll_selection(app, 5, false);
        },
        KeyCode::Enter => {
            let sel = app.plugin_selection.as_ref().unwrap();
            let uuid = sel.selected_uuid();
            let name = sel.selected_name();
            match (uuid, name) {
                (Some(u), Some(n)) => {
                    return KeyOutcome { quit: false, effect: Effect::SelectTarget { uuid: u, name: n } };
                },
                _ => {},
            }
            return KeyOutcome { quit: false, effect: Effect::Nothing };
        },
        KeyCode::Esc => {
            app.plugin_selection = None;
            if app.state == ConnectionState::Pending {
                auto_retry.cancel();
                return KeyOutcome { quit: false, effect: Effect::CancelPending };
            }
            return KeyOutcome { quit: false, effect: Effect::Nothing };
        },
        KeyCode::Char('q') => {
            auto_retry.cancel();
            return KeyOutcome { quit: true, effect: Effect::Nothing };
        },
        _ => {},
    }
    KeyOutcome { quit: false, effect: Effect::Nothing }
}

/// The highlighted row after moving `times` rows up (stopping at the
/// first) or down (stopping at the last) from row `s` of `len`.
pub open spec fn moved_selection(s: int, times: int, up: bool, len: int) -> int {
    if up {
        if s >= times {
            s - times
        } else {
            0
        }
    } else if s < len - 1 {
        if s + times < len - 1 {
            s + times
        } else {
            len - 1
        }
    } else {
        s
    }
}

/// Move the plugin selection `times` rows up or down.
fn scroll_selection(app: &mut App, times: usize, up: bool)
    requires
        old(app).wf(),
        old(app).plugin_selection is Some,
    ensures
        final(app).wf(),
        selection_moved(*old(app), *final(app), times as int, up),
{
    let ghost before = app.plugin_selection->Some_0;
    let mut sel = app.plugin_selection.take().unwrap();
    let mut i: usize = 0;
    while i < times
        invariant
            0 <= i <= times,
            sel.plugins@ == before.plugins@,
            sel.scroll_offset == before.scroll_offset,
            sel.selected == moved_selection(
                before.selected as int,
                i as int,
                up,
                before.plugins@.len() as int,
            ),
        decreases times - i,
    {
        if up {
            sel.scroll_up();
        } else {
            sel.scroll_down();
        }
        i += 1;
    }
    app.plugin_selection = Some(sel);
}

fn handle_help_popup_keys(app: &mut App, key: Key, auto_retry: &mut AutoRetryState) -> (r:
    KeyOutcome)
    requires
        old(app).wf(),
        old(app).help_popup == HelpPopup::Visible,
    ensures
        final(app).wf(),
        r.effect is Nothing,
        r.quit == (key.code == KeyCode::Char('q')),
        r.quit ==> *final(auto_retry) == (AutoRetryState { listen_mode: false, retry_at: None }),
        (key.code == KeyCode::Esc || key.code == KeyCode::Char('h')) ==> *final(app) == (App {
            help_popup: HelpPopup::Hidden,
            ..*old(app)
        }),
        !(key.code == KeyCode::Esc || key.code == KeyCode::Char('h')) ==> *final(app) == *old(app),
{
    match key.code {
        KeyCode::Esc | KeyCode::Char('h') => {
            app.toggle_help();
        },
        KeyCode::Char('q') => {
            auto_retry.cancel();
            return KeyOutcome { quit: true, effect: Effect::Nothing };
        },
        _ => {},
    }
    KeyOutcome { quit: false, effect: Effect::Nothing }
}

/// Line editing shared by the popup editors.
fn edit_line(field: &mut FieldState, code: KeyCode)
    requires
        old(field).wf(),
        byte_len(old(field).value@) + 4 <= usize::MAX,
    ensures
        final(field).wf(),
        code matches KeyCode::Char(c) ==> final(field).value@ == old(field).value@.insert(
            old(field).cursor_index(),
            c,
        ),
{
    match code {
        KeyCode::Char(c) => field.insert(c),
        KeyCode::Backspace => field.backspace(),
        KeyCode::Delete => field.delete(),
        KeyCode::Left => field.move_cursor(-1),
        KeyCode::Right => field.move_cursor(1),
        KeyCode::Home => field.home(),
        KeyCode::End => field.end(),
        _ => {},
    }
}

fn handle_search_input_keys(app: &mut App, key: Key) -> (r: KeyOutcome)
    requires
        old(app).wf(),
        fields_have_room(*old(app)),
    ensures
        final(app).wf(),
        !r.quit,
        r.effect is Nothing,
        key.code == KeyCode::Esc ==> !final(app).search_input.open,
        key.code == KeyCode::Enter ==> final(app).log_filter.search@
            == old(app).search_input.field.value@ && !final(app).search_input.open,
{
    match key.code {
        KeyCode::Esc => {
            app.search_input.close();
        },
        KeyCode::Enter => {
            app.commit_search();
        },
        _ => {
            edit_line(&mut app.search_input.field, key.code);
        },
    }
    KeyOutcome { quit: false, effect: Effect::Nothing }
}

fn handle_filter_popup_keys(app: &mut App, key: Key) -> (r: KeyOutcome)
    requires
        old(app).wf(),
    ensures
        final(app).wf(),
        r.quit == (key.code == KeyCode::Char('q')),
        r.effect is Nothing,
        key.code == KeyCode::Esc ==> !final(app).filter_popup.open,
        (key.code == KeyCode::Home || key.code == KeyCode::Char('g'))
            ==> final(app).filter_popup.selected == 0,
        (key.code == KeyCode::End || key.code == KeyCode::Char('G'))
            ==> final(app).filter_popup.selected == LOG_KIND_COUNT + LOG_LEVEL_ROWS - 1,
        (key.code == KeyCode::Char(' ') || key.code == KeyCode::Enter) ==> final(app).log_filter
            == crate::app::toggled_filter(old(app).log_filter, old(app).filter_popup.selected as int),
        filter_popup_done(*old(app), key, *final(app)),
{
    match key.code {
        KeyCode::Esc => {
            app.filter_popup.close();
        },
        KeyCode::Char('r') | KeyCode::Char('R') => {
            app.reset_filters();
        },
        KeyCode::Up | KeyCode::Char('k') => {
            app.filter_popup.scroll_up();
        },
        KeyCode::Down | KeyCode::Char('j') => {
            app.filter_popup.scroll_down();
        },
        KeyCode::Home | KeyCode::Char('g') => {
            app.filter_popup.selected = 0;
        },
        KeyCode::End | KeyCode::Char('G') => {
            app.filter_popup.selected = FilterPopup::row_count() - 1;
        },
        KeyCode::Char(' ') | KeyCode::Enter => {
            app.toggle_selected_filter();
        },
        KeyCode::Char('q') => {
            return KeyOutcome { quit: true, effect: Effect::Nothing };
        },
        _ => {},
    }
    KeyOutcome { quit: false, effect: Effect::Nothing }
}

fn handle_command_input_keys(app: &mut App, key: Key) -> (r: KeyOutcome)
    requires
        old(app).wf(),
        fields_have_room(*old(app)),
    ensures
        final(app).wf(),
        !r.quit,
        key.code == KeyCode::Enter ==> (old(app).command_input.field.value@.len() > 0
            <==> r.effect is SendCommand),
        r.effect matches Effect::SendCommand(c) ==> c@ == old(app).command_input.field.value@,
        key.code != KeyCode::Enter ==> r.effect is Nothing,
        key.code == KeyCode::Esc ==> !final(app).command_input.open,
{
    match key.code {
        KeyCode::Esc => {
            app.command_input.close();
        },
        KeyCode::Enter => {
            let command = app.command_input.field.value.clone();
            proof {
                assert(fits(command@));
            }
            if app.begin_minecraft_command(command.clone()) {
                return KeyOutcome { quit: false, effect: Effect::SendCommand(command) };
            }
        },
        KeyCode::Up => {
            app.command_input.cycle_history(true);
        },
        KeyCode::Down => {
            app.command_input.cycle_history(false);
        },
        _ => {
            edit_line(&mut app.command_input.field, key.code);
        },
    }
    KeyOutcome { quit: false, effect: Effect::Nothing }
}

fn handle_evaluate_input_keys(app: &mut App, key: Key) -> (r: KeyOutcome)
    requires
        old(app).wf(),
        fields_have_room(*old(app)),
    ensures
        final(app).wf(),
        !r.quit,
        key.code != KeyCode::Enter ==> r.effect is Nothing,
        key.code == KeyCode::Enter ==> (r.effect is Evaluate <==> (
        old(app).evaluate_input.field.value@.len() > 0 && !old(app).evaluate_input.busy
            && old(app).stopped)),
        key.code == KeyCode::Esc ==> !final(app).evaluate_input.open,
{
    match key.code {
        KeyCode::Esc => {
            app.evaluate_input.close();
        },
        KeyCode::Enter => {
            match app.begin_evaluate() {
                Some(expression) => {
                    return KeyOutcome { quit: false, effect: Effect::Evaluate(expression) };
                },
                None => {},
            }
        },
        _ => {
            edit_line(&mut app.evaluate_input.field, key.code);
        },
    }
    KeyOutcome { quit: false, effect: Effect::Nothing }
}

/// The keys that edit the focused form field.
pub open spec fn is_edit_key(c: KeyCode) -> bool {
    c is Char || c == KeyCode::Backspace || c == KeyCode::Delete || c == KeyCode::Left || c
        == KeyCode::Right || c == KeyCode::Home || c == KeyCode::End
}

fn is_edit_key_exec(c: KeyCode) -> (r: bool)
    ensures
        r == is_edit_key(c),
{
    match c {
        KeyCode::Char(_) | KeyCode::Backspace | KeyCode::Delete | KeyCode::Left | KeyCode::Right
        | KeyCode::Home | KeyCode::End => true,
        _ => false,
    }
}

fn edit_focused_field(app: &mut App, key: Key)
    requires
        old(app).wf(),
        fields_have_room(*old(app)),
        field_of(old(app).sidebar, old(app).focus) is Some,
        is_edit_key(key.code),
    ensures
        final(app).wf(),
        field_edit_done(*old(app), key, *final(app)),
{
    match key.code {
        KeyCode::Char(c) => app.insert_char(c),
        KeyCode::Backspace => app.backspace(),
        KeyCode::Delete => app.delete_char(),
        KeyCode::Left => app.move_cursor(-1),
        KeyCode::Right => app.move_cursor(1),
        KeyCode::Home => app.move_cursor_home(),
        KeyCode::End => app.move_cursor_end(),
        _ => {},
    }
}

fn handle_field_editing(app: &mut App, key: Key) -> (r: KeyOutcome)
    requires
        old(app).wf(),
        fields_have_room(*old(app)),
        old(app).focus == Focus::SidebarHost || old(app).focus == Focus::SidebarPort
            || old(app).focus == Focus::SidebarTargetUuid || old(app).focus == Focus::SidebarPasscode,
    ensures
        final(app).wf(),
        !r.quit,
        r.effect is Nothing,
        key.code == KeyCode::Enter && old(app).focus_targets_spec().contains(
            Focus::SidebarPrimary,
        ) ==> final(app).focus == Focus::SidebarPrimary,
        is_edit_key(key.code) ==> field_edit_done(*old(app), key, *final(app)),
{
    if is_edit_key_exec(key.code) {
        edit_focused_field(app, key);
        return KeyOutcome { quit: false, effect: Effect::Nothing };
    }
    match key.code {
        KeyCode::Enter => {
            let targets = app.visible_focus_targets();
            let mut i: usize = 0;
            let mut found = false;
            while i < targets.len()
                invariant_except_break
                    !found,
                invariant
                    0 <= i <= targets@.len(),
                    forall|j: int| 0 <= j < i ==> targets@[j] != Focus::SidebarPrimary,
                ensures
                    found ==> i < targets@.len() && targets@[i as int] == Focus::SidebarPrimary,
                    !found ==> forall|j: int| 0 <= j < targets@.len() ==> targets@[j] != Focus::SidebarPrimary,
                decreases targets@.len() - i,
            {
                if targets[i] == Focus::SidebarPrimary {
                    found = true;
                    break;
                }
                i += 1;
            }
            if found {
                app.focus = Focus::SidebarPrimary;
            }
        },
        KeyCode::Tab => app.cycle_focus(true),
        KeyCode::BackTab => app.cycle_focus(false),
        KeyCode::Esc => {
            if app.show_sidebar && !app.sidebar_visible_by_layout(app.last_known_width()) {
                app.close_sidebar();
            } else {
                app.focus = Focus::Main;
            }
        },
        _ => {},
    }
    KeyOutcome { quit: false, effect: Effect::Nothing }
}

/// Drop the session now: clear its transients, go idle and log it.
fn disconnect_now(app: &mut App)
    requires
        old(app).wf(),
    ensures
        final(app).wf(),
        final(app).state == ConnectionState::Idle,
        final(app).event_log@.last().message@ == "Disconnected."@,
{
    app.clear_session_transients();
    app.state = ConnectionState::Idle;
    app.add_log("Disconnected.".to_owned());
}

fn handle_global_keys(app: &mut App, key: Key, auto_retry: &mut AutoRetryState) -> (r: Option<
    KeyOutcome,
>)
    requires
        old(app).wf(),
    ensures
        final(app).wf(),
        r is None ==> *final(app) == *old(app) && *final(auto_retry) == *old(auto_retry),
        r matches Some(o) ==> (o.quit == (key.code == KeyCode::Char('q'))),
        r is Some <==> is_global_key(key.code),
        key.code == KeyCode::Char('q') ==> r is Some && *final(auto_retry) == (AutoRetryState {
            listen_mode: false,
            retry_at: None,
        }),
        (key.code == KeyCode::Char('x') || key.code == KeyCode::Char('X')) ==> (r matches Some(o)
            && match old(app).state {
            ConnectionState::Pending => o.effect is CancelPending,
            ConnectionState::Connected { .. } => o.effect is Disconnect && final(app).state
                == ConnectionState::Idle,
            _ => o.effect is Nothing && *final(app) == *old(app),
        }),
        key.code == KeyCode::Char('1') ==> r is Some && final(app).tab == Tab::Log,
        key.code == KeyCode::Char('2') ==> r is Some && final(app).tab == Tab::Stats,
{
    match key.code {
        KeyCode::Char('q') => {
            auto_retry.cancel();
            Some(KeyOutcome { quit: true, effect: Effect::Nothing })
        },
        KeyCode::Char('x') | KeyCode::Char('X') => {
            auto_retry.cancel();
            match app.state {
                ConnectionState::Pending => Some(
                    KeyOutcome { quit: false, effect: Effect::CancelPending },
                ),
                ConnectionState::Connected { .. } => {
                    disconnect_now(app);
                    Some(KeyOutcome { quit: false, effect: Effect::Disconnect })
                },
                _ => Some(KeyOutcome { quit: false, effect: Effect::Nothing }),
            }
        },
        KeyCode::Char('h') => {
            app.toggle_help();
            Some(KeyOutcome { quit: false, effect: Effect::Nothing })
        },
        KeyCode::Char('1') => {
            app.set_tab(Tab::Log);
            Some(KeyOutcome { quit: false, effect: Effect::Nothing })
        },
        KeyCode::Char('2') => {
            app.set_tab(Tab::Stats);
            Some(KeyOutcome { quit: false, effect: Effect::Nothing })
        },
        KeyCode::Char('s') | KeyCode::Char('S') => {
            app.toggle_sidebar();
            Some(KeyOutcome { quit: false, effect: Effect::Nothing })
        },
        KeyCode::Tab => {
            app.cycle_focus(true);
            Some(KeyOutcome { quit: false, effect: Effect::Nothing })
        },
        KeyCode::BackTab => {
            app.cycle_focus(false);
            Some(KeyOutcome { quit: false, effect: Effect::Nothing })
        },
        _ => None,
    }
}

/// Start listening or connecting from the sidebar, recording the intent.
fn start_from_sidebar(app: &mut App, mode: Mode, auto_retry: &mut AutoRetryState) -> (r:
    KeyOutcome)
    requires
        old(app).wf(),
    ensures
        final(app).wf(),
        !r.quit,
        started_from_form(old(app).sidebar, mode, r.effect, *final(app)),
        final(app).sidebar == old(app).sidebar,
        mode == Mode::Listen ==> *final(auto_retry) == (AutoRetryState {
            listen_mode: true,
            retry_at: None,
        }),
        mode == Mode::Connect ==> *final(auto_retry) == (AutoRetryState {
            listen_mode: false,
            retry_at: None,
        }),
{
    let request = if mode == Mode::Listen {
        auto_retry.on_listen_started();
        app.start_listen_from_sidebar()
    } else {
        auto_retry.on_connect_started();
        app.start_connect_from_sidebar()
    };
    match request {
        Some(req) => KeyOutcome { quit: false, effect: Effect::Start(req) },
        None => KeyOutcome { quit: false, effect: Effect::Nothing },
    }
}

/// The tab-specific keys of the main panel: navigation, and on the log tab
/// search, filters and reset, on the statistics tab clearing.
fn handle_tab_keys(app: &mut App, key: Key, page: usize)
    requires
        old(app).wf(),
        page == page_of(*old(app)),
    ensures
        final(app).wf(),
        nav_key_done(*old(app), key, *final(app)),
        key.code == KeyCode::Char('/') && old(app).tab == Tab::Log ==> final(app).search_input.open,
        key.code == KeyCode::Char('f') && old(app).tab == Tab::Log ==> final(app).filter_popup.open,
        key.code == KeyCode::Char('r') && old(app).tab == Tab::Log ==> final(app).log_filter.search@
            == Seq::<char>::empty() && final(app).log_filter.kinds == LogKindFilter::all_enabled_spec()
            && final(app).log_filter.levels == LogLevelFilter::all_enabled_spec(),
        key.code == KeyCode::Char('r') && old(app).tab == Tab::Stats
            ==> final(app).stats.series().len() == 0 && final(app).stats_selected_category is None,
{
    match app.tab {
        Tab::Stats => handle_stats_tab_keys(app, key, page),
        Tab::Log => handle_log_tab_keys(app, key, page),
    }
}

fn handle_stats_tab_keys(app: &mut App, key: Key, page: usize)
    requires
        old(app).wf(),
        old(app).tab == Tab::Stats,
        page == page_of(*old(app)),
    ensures
        final(app).wf(),
        stats_nav_done(*old(app), key, *final(app)),
        key.code == KeyCode::Char('r') ==> final(app).stats.series().len() == 0
            && final(app).stats_selected_category is None,
{
    let on_scripting = match &app.stats_selected_category {
        Some(k) => crate::text::str_eq(k.as_str(), "scripting"),
        None => false,
    };
    match key.code {
        KeyCode::Left => app.select_prev_category(),
        KeyCode::Right => app.select_next_category(),
        KeyCode::Char('[') => {
            if on_scripting {
                app.select_prev_addon();
            } else {
                app.select_prev_client();
            }
        },
        KeyCode::Char(']') => {
            if on_scripting {
                app.select_next_addon();
            } else {
                app.select_next_client();
            }
        },
        KeyCode::Up | KeyCode::Char('k') => app.scroll_stats_up(1),
        KeyCode::Down | KeyCode::Char('j') => app.scroll_stats_down(1),
        KeyCode::PageUp => app.scroll_stats_page_up(page),
        KeyCode::PageDown => app.scroll_stats_page_down(page),
        KeyCode::Char('g') => app.scroll_stats_top(),
        KeyCode::Char('G') => app.scroll_stats_bottom(),
        KeyCode::Char('r') => app.clear_stats(),
        _ => {},
    }
}

fn handle_log_tab_keys(app: &mut App, key: Key, page: usize)
    requires
        old(app).wf(),
        old(app).tab == Tab::Log,
        page == page_of(*old(app)),
    ensures
        final(app).wf(),
        log_nav_done(*old(app), key, *final(app)),
        key.code == KeyCode::Char('/') ==> final(app).search_input.open,
        key.code == KeyCode::Char('f') ==> final(app).filter_popup.open,
        key.code == KeyCode::Char('r') ==> final(app).log_filter.search@ == Seq::<char>::empty()
            && final(app).log_filter.kinds == LogKindFilter::all_enabled_spec()
            && final(app).log_filter.levels == LogLevelFilter::all_enabled_spec(),
{
    match key.code {
        KeyCode::Up | KeyCode::Char('k') => app.scroll_log_up(1),
        KeyCode::Down | KeyCode::Char('j') => app.scroll_log_down(1),
        KeyCode::PageUp => app.scroll_log_page_up(page),
        KeyCode::PageDown => app.scroll_log_page_down(page),
        KeyCode::Char('g') => app.scroll_log_top(),
        KeyCode::Char('G') => app.scroll_log_bottom(),
        KeyCode::Char('/') => app.open_search(),
        KeyCode::Char('f') => app.open_filter_popup(),
        KeyCode::Char('r') => app.reset_filters(),
        _ => {},
    }
}

#[verifier::rlimit(40)]
fn handle_main_keys(app: &mut App, key: Key, auto_retry: &mut AutoRetryState) -> (r: KeyOutcome)
    requires
        old(app).wf(),
    ensures
        final(app).wf(),
        !r.quit,
        key.code == KeyCode::Char(' ') ==> if old(app).can_continue_spec() {
            r.effect == Effect::Resume(ResumeKind::Continue, old(app).stopped_thread_id->Some_0)
        } else if old(app).state is Connected && !old(app).stopped && !old(app).busy
            && !old(app).evaluate_input.busy {
            r.effect == Effect::Pause(0)
        } else {
            r.effect is Nothing
        },
        key.code == KeyCode::F(5) ==> if old(app).can_continue_spec() {
            r.effect == Effect::Resume(ResumeKind::Continue, old(app).stopped_thread_id->Some_0)
        } else {
            r.effect is Nothing
        },
        key.code == KeyCode::F(10) ==> if old(app).can_continue_spec() {
            r.effect == Effect::Resume(ResumeKind::StepNext, old(app).stopped_thread_id->Some_0)
        } else {
            r.effect is Nothing
        },
        key.code == KeyCode::F(11) ==> if old(app).can_continue_spec() {
            r.effect == Effect::Resume(
                if key.shift {
                    ResumeKind::StepOut
                } else {
                    ResumeKind::StepIn
                },
                old(app).stopped_thread_id->Some_0,
            )
        } else {
            r.effect is Nothing
        },
        key.code == KeyCode::Char(':') ==> r.effect is Nothing && final(app).command_input.open
            == (old(app).state is Connected || old(app).command_input.open),
        key.code == KeyCode::Char('e') ==> r.effect is Nothing && final(app).evaluate_input.open
            == ((old(app).state is Connected && old(app).stopped) || old(app).evaluate_input.open),
        key.code == KeyCode::Char('l') && key.no_modifiers ==> ((old(app).state
            == ConnectionState::Idle || old(app).state == ConnectionState::Disconnected) ==> (
        final(app).sidebar.mode == Mode::Listen && final(auto_retry).listen_mode)),
        is_debug_key(key.code) ==> r.effect == debug_key_effect(*old(app), key),
        is_debug_key(key.code) ==> debug_key_state(*old(app), key, *final(app))
            && *final(auto_retry) == *old(auto_retry),
        main_key_done(*old(app), key, r, *final(app), *final(auto_retry)),
        is_nav_key(key.code) ==> nav_key_done(*old(app), key, *final(app)),
{
    let page: usize = if app.last_known_height() >= 9 {
        (app.last_known_height() - 6) as usize
    } else {
        3
    };
    match key.code {
        KeyCode::Char(' ') => {
            if app.can_continue() {
                let t = app.begin_resume().unwrap();
                return KeyOutcome { quit: false, effect: Effect::Resume(ResumeKind::Continue, t) };
            } else if app.can_pause() {
                app.begin_pause(0);
                return KeyOutcome { quit: false, effect: Effect::Pause(0) };
            }
            return KeyOutcome { quit: false, effect: Effect::Nothing };
        },
        KeyCode::F(5) => {
            if app.can_continue() {
                let t = app.begin_resume().unwrap();
                return KeyOutcome { quit: false, effect: Effect::Resume(ResumeKind::Continue, t) };
            }
            return KeyOutcome { quit: false, effect: Effect::Nothing };
        },
        KeyCode::F(6) => {
            if app.can_pause() {
                app.begin_pause(0);
                return KeyOutcome { quit: false, effect: Effect::Pause(0) };
            }
            return KeyOutcome { quit: false, effect: Effect::Nothing };
        },
        KeyCode::F(10) => {
            if app.can_step() {
                let t = app.begin_resume().unwrap();
                return KeyOutcome { quit: false, effect: Effect::Resume(ResumeKind::StepNext, t) };
            }
            return KeyOutcome { quit: false, effect: Effect::Nothing };
        },
        KeyCode::F(11) => {
            if app.can_step() {
                let t = app.begin_resume().unwrap();
                let kind = if key.shift {
                    ResumeKind::StepOut
                } else {
                    ResumeKind::StepIn
                };
                return KeyOutcome { quit: false, effect: Effect::Resume(kind, t) };
            }
            return KeyOutcome { quit: false, effect: Effect::Nothing };
        },
        KeyCode::Char(':') => {
            if matches!(app.state, ConnectionState::Connected { .. }) {
                app.command_input.open();
            }
            return KeyOutcome { quit: false, effect: Effect::Nothing };
        },
        KeyCode::Char('e') => {
            if matches!(app.state, ConnectionState::Connected { .. }) && app.stopped {
                app.evaluate_input.open();
            }
            return KeyOutcome { quit: false, effect: Effect::Nothing };
        },
        _ => {},
    }
    if key.code == KeyCode::Char('l') && key.no_modifiers {
        if app.state == ConnectionState::Idle || app.state == ConnectionState::Disconnected {
            app.set_mode(Mode::Listen);
            return start_from_sidebar(app, Mode::Listen, auto_retry);
        }
        return KeyOutcome { quit: false, effect: Effect::Nothing };
    }
    if key.code == KeyCode::Char('c') && key.no_modifiers {
        if app.state == ConnectionState::Idle || app.state == ConnectionState::Disconnected {
            app.set_mode(Mode::Connect);
            return start_from_sidebar(app, Mode::Connect, auto_retry);
        } else if matches!(app.state, ConnectionState::Connected { .. }) && app.tab == Tab::Log {
            app.clear_log();
        }
        return KeyOutcome { quit: false, effect: Effect::Nothing };
    }
    handle_tab_keys(app, key, page);
    KeyOutcome { quit: false, effect: Effect::Nothing }
}

fn handle_sidebar_mode_keys(
    app: &mut App,
    key: Key,
    mode: Mode,
    auto_retry: &mut AutoRetryState,
) -> (r: KeyOutcome)
    requires
        old(app).wf(),
    ensures
        final(app).wf(),
        !r.quit,
        r.effect is Nothing,
        (key.code == KeyCode::Enter || key.code == KeyCode::Char(' ')) ==> final(app).sidebar.mode
            == mode,
        (key.code == KeyCode::Enter || key.code == KeyCode::Char(' ')) && mode == Mode::Connect
            ==> *final(auto_retry) == (AutoRetryState { listen_mode: false, retry_at: None }),
{
    if key.code == KeyCode::Enter || key.code == KeyCode::Char(' ') {
        if mode == Mode::Connect {
            auto_retry.cancel();
        }
        app.set_mode(mode);
    }
    KeyOutcome { quit: false, effect: Effect::Nothing }
}

fn handle_primary_action_key(app: &mut App, auto_retry: &mut AutoRetryState) -> (r: KeyOutcome)
    requires
        old(app).wf(),
    ensures
        final(app).wf(),
        !r.quit,
        primary_done(*old(app), *old(auto_retry), r, *final(app), *final(auto_retry)),
{
    match app.state {
        ConnectionState::Idle => {
            let mode = app.sidebar.mode;
            start_from_sidebar(app, mode, auto_retry)
        },
        ConnectionState::Pending => {
            app.plugin_selection = None;
            auto_retry.cancel();
            KeyOutcome { quit: false, effect: Effect::CancelPending }
        },
        ConnectionState::Connected { .. } => {
            disconnect_now(app);
            if auto_retry.listen_mode {
                auto_retry.cancel();
            }
            KeyOutcome { quit: false, effect: Effect::Disconnect }
        },
        ConnectionState::Disconnected => {
            if auto_retry.retry_at.is_some() {
                auto_retry.cancel();
                app.state = ConnectionState::Idle;
                app.add_log("Cancelled retry.".to_owned());
                KeyOutcome { quit: false, effect: Effect::Nothing }
            } else {
                auto_retry.cancel();
                app.state = ConnectionState::Idle;
                let mode = app.sidebar.mode;
                start_from_sidebar(app, mode, auto_retry)
            }
        },
    }
}

impl App {
    /// Record whether activating the chosen target plugin worked: on success
    /// the popup closes, the form and the attempt take its UUID, and it is
    /// logged; on failure the user is told.
    pub fn target_selected(&mut self, uuid: String, name: String, ok: bool)
        requires
            old(self).wf(),
            fits(uuid@),
        ensures
            final(self).wf(),
            ok ==> {
                &&& final(self).plugin_selection is None
                &&& final(self).sidebar.target_uuid.value@ == uuid@
                &&& final(self).pending_target_uuid == Some(uuid)
                &&& final(self).event_log@.last().message@ == "Selected target plugin: "@ + name@
            },
            !ok ==> {
                &&& final(self).plugin_selection == old(self).plugin_selection
                &&& final(self).event_log@.last().message@ == "Target selection failed."@
                &&& final(self).error_popup matches Some(e) && e.title@
                    == "Target selection failed"@ && e.message@
                    == "The selected plugin could not be activated."@
            },
    {
        if ok {
            self.plugin_selection = None;
            self.sidebar.target_uuid = FieldState::new(uuid.clone());
            self.pending_target_uuid = Some(uuid);
            let mut out: Vec<char> = Vec::new();
            push_str_chars(&mut out, "Selected target plugin: ");
            push_str_chars(&mut out, name.as_str());
            assert(out@ =~= "Selected target plugin: "@ + name@);
            self.add_log(string_from(out.as_slice()));
        } else {
            self.add_log("Target selection failed.".to_owned());
            self.show_error(
                "Target selection failed".to_owned(),
                "The selected plugin could not be activated.".to_owned(),
            );
        }
    }
}


// ── Relistening ───────────────────────────────────────────────────────

/// The retry state after a listen-mode session or attempt was lost at
/// `now`: a retry is due `AUTO_RELISTEN_DELAY_MS` later.
pub open spec fn retry_scheduled(now: u64) -> AutoRetryState {
    AutoRetryState { listen_mode: true, retry_at: Some((now + AUTO_RELISTEN_DELAY_MS) as u64) }
}

/// Handle a session event at time `now`, and schedule a relisten when a
/// live session in listen mode drops.
pub fn after_session_event(app: &mut App, retry: &mut AutoRetryState, event: SessionEvent, now: u64)
    requires
        old(app).wf(),
        event matches SessionEvent::Debuggee(e) ==> countable(e),
        now + AUTO_RELISTEN_DELAY_MS <= u64::MAX,
    ensures
        final(app).wf(),
        session_event_applied(*old(app), event, *final(app)),
        if old(app).state is Connected && old(retry).listen_mode && final(app).state
            == ConnectionState::Disconnected {
            *final(retry) == retry_scheduled(now)
        } else {
            *final(retry) == *old(retry)
        },
{
    let was_connected = matches!(app.state, ConnectionState::Connected { .. });
    app.handle_session_event(event);
    if was_connected && retry.listen_mode && app.state == ConnectionState::Disconnected {
        retry.on_disconnected(now);
    }
}

/// Record the end of a connect/listen attempt at time `now`, and schedule a
/// relisten when an attempt in listen mode failed.
pub fn after_connection_result(
    app: &mut App,
    retry: &mut AutoRetryState,
    result: Result<HandshakeInfo, SessionError>,
    now: u64,
)
    requires
        old(app).wf(),
        now + AUTO_RELISTEN_DELAY_MS <= u64::MAX,
    ensures
        final(app).wf(),
        connection_result_applied(*old(app), result, *final(app)),
        if result is Err && old(retry).listen_mode {
            *final(retry) == retry_scheduled(now)
        } else {
            *final(retry) == *old(retry)
        },
{
    let failed = result.is_err();
    app.handle_connection_result(result);
    if failed && retry.listen_mode && app.state == ConnectionState::Idle {
        retry.on_disconnected(now);
    }
}

/// Record that the attempt's task ended without a result at time `now`,
/// and schedule a relisten in listen mode.
pub fn after_connection_lost(app: &mut App, retry: &mut AutoRetryState, now: u64)
    requires
        old(app).wf(),
        now + AUTO_RELISTEN_DELAY_MS <= u64::MAX,
    ensures
        final(app).wf(),
        final(app).state == ConnectionState::Idle,
        final(app).event_log@.last().message@ == "Connection task ended unexpectedly."@,
        if old(retry).listen_mode {
            *final(retry) == retry_scheduled(now)
        } else {
            *final(retry) == *old(retry)
        },
{
    app.connection_task_lost();
    if retry.listen_mode {
        retry.on_disconnected(now);
    }
}

/// Whether a scheduled relisten is due at `now`: there is no session and
/// the retry time has come.
pub open spec fn relisten_is_due(app: App, retry: AutoRetryState, now: u64) -> bool {
    &&& (app.state == ConnectionState::Idle || app.state == ConnectionState::Disconnected)
    &&& retry.retry_at matches Some(t) && now >= t
}

/// Start the relisten that is due at `now`, if one is: the retry is
/// consumed, the form switches to listen mode and listening starts from
/// it (the request is `None` when the form's port is not valid, which is
/// then reported). When none is due nothing changes.
pub fn relisten_due(app: &mut App, retry: &mut AutoRetryState, now: u64) -> (r: Option<ConnectRequest>)
    requires
        old(app).wf(),
    ensures
        final(app).wf(),
        !relisten_is_due(*old(app), *old(retry), now) ==> r is None && *final(app) == *old(app)
            && *final(retry) == *old(retry),
        relisten_is_due(*old(app), *old(retry), now) ==> {
            &&& *final(retry) == (AutoRetryState { listen_mode: true, retry_at: None })
            &&& final(app).sidebar.mode == Mode::Listen
            &&& (r is Some <==> parse_unsigned_spec(trim_spec(old(app).sidebar.port.value@), 65535)
                is Some)
            &&& r matches Some(req) ==> req is Listen && final(app).state == ConnectionState::Pending
        },
{
    if !(app.state == ConnectionState::Idle || app.state == ConnectionState::Disconnected) {
        return None;
    }
    if !retry.try_fire(now) {
        return None;
    }
    retry.on_listen_started();
    app.set_mode(Mode::Listen);
    app.start_listen_from_sidebar()
}

} // verus!
