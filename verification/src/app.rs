//! UI state of the debugger client: connection status, log filtering and
//! scrolling, input popups and their histories.
use std::collections::VecDeque;
use vstd::prelude::*;
use crate::fields::{FieldState, cursor_at};
use crate::stats::string_views;
use crate::text::{
    byte_len, chars_of, contains_chars, contains_spec, decimal_chars, decimal_spec,
    lowercase_chars, lowercase_of, parse_unsigned, parse_unsigned_spec, string_from, trim_chars,
    trim_spec,
};

verus! {

// ── Constants ─────────────────────────────────────────────────────────

/// Maximum number of log entries kept in the ring buffer.
pub const MAX_LOG_ENTRIES: usize = 500;

/// Interval between forced re-renders (even when no new events arrive).
pub const RENDER_TICK_MS: u64 = 50;

/// Sidebar width in wide layouts.
pub const SIDEBAR_WIDTH: u16 = 30;

/// Threshold for wide layout.
pub const WIDE_WIDTH: u16 = 120;

/// Threshold for compact footer/control labels.
pub const COMPACT_WIDTH: u16 = 70;

/// Minimum height before header/footer abbreviate.
pub const COMPACT_HEIGHT: u16 = 20;

/// Maximum number of Minecraft commands kept in history.
pub const MAX_COMMAND_HISTORY: usize = 8;

/// Maximum number of evaluate results kept in history.
pub const MAX_EVAL_HISTORY: usize = 10;

/// The string's UTF-8 encoding fits in memory addressed by `usize`.
pub open spec fn fits(s: Seq<char>) -> bool {
    byte_len(s) <= usize::MAX
}

// ── Connection state ──────────────────────────────────────────────────

/// High-level connection state for the UI.
#[derive(Debug, Clone, PartialEq, Eq, Structural)]
pub enum ConnectionState {
    /// No connection or pending operation.
    Idle,
    /// A connect/listen is in progress (TCP + possible target selection).
    Pending,
    /// Fully connected with known handshake information.
    Connected { version: u8, plugin_count: usize },
    /// Connection was lost or torn down.
    Disconnected,
}

#[derive(Debug, Clone, Copy, PartialEq, Eq, Structural, Default)]
pub enum Tab {
    #[default]
    Log,
    Stats,
}

#[derive(Debug, Clone, Copy, PartialEq, Eq, Structural, Default)]
pub enum Focus {
    /// Main pane is active (tabs + log/stats content).
    #[default]
    Main,
    /// Mode selector Listen button.
    SidebarModeListen,
    /// Mode selector Connect button.
    SidebarModeConnect,
    /// Host input (connect mode only).
    SidebarHost,
    /// Port input.
    SidebarPort,
    /// Advanced options toggle.
    SidebarAdvanced,
    /// Target UUID input.
    SidebarTargetUuid,
    /// Passcode input.
    SidebarPasscode,
    /// Primary connect/listen/cancel/disconnect button.
    SidebarPrimary,
}

impl Focus {
    /// Whether this focus target lives inside the sidebar.
    pub fn is_sidebar(self) -> (r: bool)
        ensures
            r == (self != Focus::Main),
    {
        !matches!(self, Focus::Main)
    }
}

#[derive(Debug, Clone, Copy, PartialEq, Eq, Structural, Default)]
pub enum Mode {
    #[default]
    Listen,
    Connect,
}

#[derive(Debug, Clone, Copy, PartialEq, Eq, Structural, Default)]
pub enum HelpPopup {
    #[default]
    Hidden,
    Visible,
}

/// Severity carried by print and notification events.
#[derive(Debug, Clone, Copy, PartialEq, Eq, Structural)]
pub enum LogLevel {
    Verbose,
    Log,
    Warn,
    Error,
    Stop,
}

/// A plugin (script module) advertised by the debuggee.
#[derive(Debug, Clone, PartialEq, Eq)]
pub struct PluginDetails {
    pub name: String,
    pub module_uuid: String,
}

// ── Sidebar form ──────────────────────────────────────────────────────

#[derive(Debug, Clone, PartialEq, Eq)]
pub struct SidebarForm {
    pub mode: Mode,
    pub host: FieldState,
    pub port: FieldState,
    pub target_uuid: FieldState,
    pub passcode: FieldState,
    pub advanced_open: bool,
}

/// The characters of an optional string, or none.
pub open spec fn opt_chars(s: Option<&str>) -> Seq<char> {
    match s {
        Some(x) => x@,
        None => Seq::<char>::empty(),
    }
}

impl SidebarForm {
    pub open spec fn wf(&self) -> bool {
        &&& self.host.wf()
        &&& self.port.wf()
        &&& self.target_uuid.wf()
        &&& self.passcode.wf()
    }

    pub fn new(
        default_host: &str,
        default_port: u16,
        default_target_uuid: Option<&str>,
        default_passcode: Option<&str>,
    ) -> (r: Self)
        requires
            fits(default_host@),
            fits(opt_chars(default_target_uuid)),
            fits(opt_chars(default_passcode)),
        ensures
            r.wf(),
            r.mode == Mode::Listen,
            r.host.value@ == default_host@,
            r.port.value@ == decimal_spec(default_port as nat),
            r.target_uuid.value@ == opt_chars(default_target_uuid),
            r.passcode.value@ == opt_chars(default_passcode),
            !r.advanced_open,
            r.host.cursor == byte_len(r.host.value@),
            r.port.cursor == byte_len(r.port.value@),
            r.target_uuid.cursor == byte_len(r.target_uuid.value@),
            r.passcode.cursor == byte_len(r.passcode.value@),
    {
        let port_chars = decimal_chars(default_port as u64);
        proof {
            crate::text::lemma_decimal_fits(default_port as nat);
        }
        let uuid = match default_target_uuid {
            Some(u) => string_from(chars_of(u).as_slice()),
            None => String::new(),
        };
        let pass = match default_passcode {
            Some(p) => string_from(chars_of(p).as_slice()),
            None => String::new(),
        };
        SidebarForm {
            mode: Mode::Listen,
            host: FieldState::new(string_from(chars_of(default_host).as_slice())),
            port: FieldState::new(string_from(port_chars.as_slice())),
            target_uuid: FieldState::new(uuid),
            passcode: FieldState::new(pass),
            advanced_open: false,
        }
    }

    /// The port field as a number, if it holds one (surrounding white space
    /// is ignored).
    pub fn port_u16(&self) -> (r: Option<u16>)
        ensures
            match parse_unsigned_spec(trim_spec(self.port.value@), 65535) {
                Some(v) => r == Some(v as u16),
                None => r is None,
            },
    {
        let cs = chars_of(self.port.value.as_str());
        let t = trim_chars(cs.as_slice());
        match parse_unsigned(t.as_slice(), 65535) {
            Some(v) => Some(v as u16),
            None => None,
        }
    }
}

// ── Log entry kinds ──────────────────────────────────────────────────

/// Classification for a log row so the UI can render symbols/colors.
#[derive(Debug, Clone, Copy, PartialEq, Eq, Structural)]
pub enum LogKind {
    System,
    Protocol,
    Stopped,
    Thread,
    Print,
    Notification,
    Stat,
    ProfilerCapture,
    Schema,
    Terminated,
    Unknown,
}

/// Number of log kinds, in filter-popup order.
pub const LOG_KIND_COUNT: usize = 11;

/// The label a kind is shown and searched under.
pub open spec fn kind_label(kind: LogKind) -> Seq<char> {
    match kind {
        LogKind::System => "INFO"@,
        LogKind::Protocol => "PROTOCOL"@,
        LogKind::Stopped => "STOPPED"@,
        LogKind::Thread => "THREAD"@,
        LogKind::Print => "PRINT"@,
        LogKind::Notification => "NOTIFY"@,
        LogKind::Stat => "STAT"@,
        LogKind::ProfilerCapture => "PROFILER"@,
        LogKind::Schema => "SCHEMA"@,
        LogKind::Terminated => "TERMINATED"@,
        LogKind::Unknown => "UNKNOWN"@,
    }
}

/// The kind shown at row `i` of the filter popup.
pub open spec fn kind_at(i: int) -> LogKind {
    if i == 0 {
        LogKind::System
    } else if i == 1 {
        LogKind::Protocol
    } else if i == 2 {
        LogKind::Stopped
    } else if i == 3 {
        LogKind::Thread
    } else if i == 4 {
        LogKind::Print
    } else if i == 5 {
        LogKind::Notification
    } else if i == 6 {
        LogKind::Stat
    } else if i == 7 {
        LogKind::ProfilerCapture
    } else if i == 8 {
        LogKind::Schema
    } else if i == 9 {
        LogKind::Terminated
    } else {
        LogKind::Unknown
    }
}

impl LogKind {
    pub fn symbol(self) -> (r: char)
        ensures
            r == match self {
                LogKind::System => '◆',
                LogKind::Protocol => '◇',
                LogKind::Stopped => '▣',
                LogKind::Thread => '↻',
                LogKind::Print => '▸',
                LogKind::Notification => '◆',
                LogKind::Stat => '▬',
                LogKind::ProfilerCapture => '◐',
                LogKind::Schema => '▤',
                LogKind::Terminated => '✕',
                LogKind::Unknown => '?',
            },
    {
        match self {
            LogKind::System => '◆',
            LogKind::Protocol => '◇',
            LogKind::Stopped => '▣',
            LogKind::Thread => '↻',
            LogKind::Print => '▸',
            LogKind::Notification => '◆',
            LogKind::Stat => '▬',
            LogKind::ProfilerCapture => '◐',
            LogKind::Schema => '▤',
            LogKind::Terminated => '✕',
            LogKind::Unknown => '?',
        }
    }

    pub fn label(self) -> (r: &'static str)
        ensures
            r@ == kind_label(self),
    {
        match self {
            LogKind::System => "INFO",
            LogKind::Protocol => "PROTOCOL",
            LogKind::Stopped => "STOPPED",
            LogKind::Thread => "THREAD",
            LogKind::Print => "PRINT",
            LogKind::Notification => "NOTIFY",
            LogKind::Stat => "STAT",
            LogKind::ProfilerCapture => "PROFILER",
            LogKind::Schema => "SCHEMA",
            LogKind::Terminated => "TERMINATED",
            LogKind::Unknown => "UNKNOWN",
        }
    }

    /// All kinds in the order they appear in the filter popup.
    pub fn all() -> (r: Vec<LogKind>)
        ensures
            r@.len() == LOG_KIND_COUNT,
            forall|i: int| 0 <= i < LOG_KIND_COUNT ==> #[trigger] r@[i] == kind_at(i),
    {
        let mut r = Vec::new();
        let mut i: usize = 0;
        while i < LOG_KIND_COUNT
            invariant
                0 <= i <= LOG_KIND_COUNT,
                r@.len() == i,
                forall|j: int| 0 <= j < i ==> #[trigger] r@[j] == kind_at(j),
            decreases LOG_KIND_COUNT - i,
        {
            r.push(LogKind::at(i));
            i += 1;
        }
        r
    }

    /// The kind at row `i` of the filter popup.
    pub fn at(i: usize) -> (r: LogKind)
        requires
            i < LOG_KIND_COUNT,
        ensures
            r == kind_at(i as int),
    {
        if i == 0 {
            LogKind::System
        } else if i == 1 {
            LogKind::Protocol
        } else if i == 2 {
            LogKind::Stopped
        } else if i == 3 {
            LogKind::Thread
        } else if i == 4 {
            LogKind::Print
        } else if i == 5 {
            LogKind::Notification
        } else if i == 6 {
            LogKind::Stat
        } else if i == 7 {
            LogKind::ProfilerCapture
        } else if i == 8 {
            LogKind::Schema
        } else if i == 9 {
            LogKind::Terminated
        } else {
            LogKind::Unknown
        }
    }
}

// ── Filter state ──────────────────────────────────────────────────────

/// Per-kind toggles. All kinds default to enabled so nothing is hidden
/// until the user explicitly filters.
#[derive(Debug, Clone, PartialEq, Eq, Structural)]
pub struct LogKindFilter {
    pub system: bool,
    pub protocol: bool,
    pub stopped: bool,
    pub thread: bool,
    pub print: bool,
    pub notification: bool,
    pub stat: bool,
    pub profiler_capture: bool,
    pub schema: bool,
    pub terminated: bool,
    pub unknown: bool,
}

impl Default for LogKindFilter {
    fn default() -> (r: Self)
        ensures
            r == LogKindFilter::all_enabled_spec(),
    {
        Self::all_enabled()
    }
}

impl LogKindFilter {
    pub open spec fn all_enabled_spec() -> LogKindFilter {
        LogKindFilter {
            system: true,
            protocol: true,
            stopped: true,
            thread: true,
            print: true,
            notification: true,
            stat: true,
            profiler_capture: true,
            schema: true,
            terminated: true,
            unknown: true,
        }
    }

    /// Whether `kind` is shown.
    pub open spec fn get_spec(&self, kind: LogKind) -> bool {
        match kind {
            LogKind::System => self.system,
            LogKind::Protocol => self.protocol,
            LogKind::Stopped => self.stopped,
            LogKind::Thread => self.thread,
            LogKind::Print => self.print,
            LogKind::Notification => self.notification,
            LogKind::Stat => self.stat,
            LogKind::ProfilerCapture => self.profiler_capture,
            LogKind::Schema => self.schema,
            LogKind::Terminated => self.terminated,
            LogKind::Unknown => self.unknown,
        }
    }

    pub fn all_enabled() -> (r: Self)
        ensures
            r == LogKindFilter::all_enabled_spec(),
    {
        Self {
            system: true,
            protocol: true,
            stopped: true,
            thread: true,
            print: true,
            notification: true,
            stat: true,
            profiler_capture: true,
            schema: true,
            terminated: true,
            unknown: true,
        }
    }

    pub fn get(&self, kind: LogKind) -> (r: bool)
        ensures
            r == self.get_spec(kind),
    {
        match kind {
            LogKind::System => self.system,
            LogKind::Protocol => self.protocol,
            LogKind::Stopped => self.stopped,
            LogKind::Thread => self.thread,
            LogKind::Print => self.print,
            LogKind::Notification => self.notification,
            LogKind::Stat => self.stat,
            LogKind::ProfilerCapture => self.profiler_capture,
            LogKind::Schema => self.schema,
            LogKind::Terminated => self.terminated,
            LogKind::Unknown => self.unknown,
        }
    }

    pub fn set(&mut self, kind: LogKind, value: bool)
        ensures
            *final(self) == old(self).with(kind, value),
            final(self).get_spec(kind) == value,
    {
        let next = LogKindFilter {
            system: if kind == LogKind::System { value } else { self.system },
            protocol: if kind == LogKind::Protocol { value } else { self.protocol },
            stopped: if kind == LogKind::Stopped { value } else { self.stopped },
            thread: if kind == LogKind::Thread { value } else { self.thread },
            print: if kind == LogKind::Print { value } else { self.print },
            notification: if kind == LogKind::Notification { value } else { self.notification },
            stat: if kind == LogKind::Stat { value } else { self.stat },
            profiler_capture: if kind == LogKind::ProfilerCapture { value } else { self.profiler_capture },
            schema: if kind == LogKind::Schema { value } else { self.schema },
            terminated: if kind == LogKind::Terminated { value } else { self.terminated },
            unknown: if kind == LogKind::Unknown { value } else { self.unknown },
        };
        *self = next;
        proof {
            lemma_kind_with_get(old(self).with(kind, value), *old(self), kind, value);
        }
    }
}

/// Per-level toggles for protocol events that carry a `LogLevel`.
#[derive(Debug, Clone, PartialEq, Eq, Structural)]
pub struct LogLevelFilter {
    pub log: bool,
    pub warn: bool,
    pub error: bool,
}

impl Default for LogLevelFilter {
    fn default() -> (r: Self)
        ensures
            r == LogLevelFilter::all_enabled_spec(),
    {
        Self::all_enabled()
    }
}

impl LogLevelFilter {
    pub open spec fn all_enabled_spec() -> LogLevelFilter {
        LogLevelFilter { log: true, warn: true, error: true }
    }

    /// Whether events of `level` are shown (verbose counts as log, stop as error).
    pub open spec fn get_spec(&self, level: LogLevel) -> bool {
        match level {
            LogLevel::Verbose | LogLevel::Log => self.log,
            LogLevel::Warn => self.warn,
            LogLevel::Error | LogLevel::Stop => self.error,
        }
    }

    pub fn all_enabled() -> (r: Self)
        ensures
            r == LogLevelFilter::all_enabled_spec(),
    {
        Self { log: true, warn: true, error: true }
    }

    pub fn get(&self, level: LogLevel) -> (r: bool)
        ensures
            r == self.get_spec(level),
    {
        match level {
            LogLevel::Verbose | LogLevel::Log => self.log,
            LogLevel::Warn => self.warn,
            LogLevel::Error | LogLevel::Stop => self.error,
        }
    }

    pub fn set(&mut self, level: LogLevel, value: bool)
        ensures
            final(self).get_spec(level) == value,
            *final(self) == old(self).with(level, value),
            match level {
                LogLevel::Verbose | LogLevel::Log => final(self).warn == old(self).warn
                    && final(self).error == old(self).error,
                LogLevel::Warn => final(self).log == old(self).log
                    && final(self).error == old(self).error,
                LogLevel::Error | LogLevel::Stop => final(self).log == old(self).log
                    && final(self).warn == old(self).warn,
            },
    {
        match level {
            LogLevel::Verbose | LogLevel::Log => self.log = value,
            LogLevel::Warn => self.warn = value,
            LogLevel::Error | LogLevel::Stop => self.error = value,
        }
    }
}

/// A single entry in the on-screen event log.
#[derive(Debug, Clone)]
pub struct LogEntry {
    pub kind: LogKind,
    pub message: String,
    pub timestamp: String,
    /// Protocol log level, if the source event carried one.
    pub log_level: Option<LogLevel>,
}

#[verifier::external_type_specification]
#[verifier::external_body]
pub struct ExSystemTime(std::time::SystemTime);

#[verifier::external_type_specification]
#[verifier::external_body]
pub struct ExSystemTimeError(std::time::SystemTimeError);

/// std's `SystemTime::now`. The time comes from the machine's clock, so
/// nothing is promised of it.
#[verifier::external_body]
fn system_now() -> std::time::SystemTime {
    std::time::SystemTime::now()
}

/// std's `SystemTime::duration_since`, from the Unix epoch: an error for
/// a time before the epoch. Nothing is stated of the duration, which
/// depends on the clock reading.
#[verifier::external_body]
fn since_unix_epoch(t: &std::time::SystemTime) -> Result<core::time::Duration, std::time::SystemTimeError> {
    t.duration_since(std::time::UNIX_EPOCH)
}

/// std's `Duration::as_secs`: the whole seconds of a duration; nothing is
/// stated of the number, as the duration is opaque here.
#[verifier::external_body]
fn whole_seconds(d: &core::time::Duration) -> u64 {
    d.as_secs()
}

/// Seconds since the Unix epoch on the system clock (0 before the epoch).
fn now_unix_secs() -> u64 {
    let now = system_now();
    match since_unix_epoch(&now) {
        Ok(d) => whole_seconds(&d),
        Err(_) => 0,
    }
}

/// `n` as two decimal digits (`n` below 100).
pub open spec fn two_digits(n: nat) -> Seq<char> {
    seq![crate::text::digit_char(n / 10), crate::text::digit_char(n % 10)]
}

/// The UTC wall-clock time `hh:mm:ss` of `secs` seconds after the epoch.
pub open spec fn clock_spec(secs: nat) -> Seq<char> {
    two_digits((secs / 3600) % 24) + seq![':'] + two_digits((secs / 60) % 60) + seq![':']
        + two_digits(secs % 60)
}

fn push_two_digits(out: &mut Vec<char>, n: u64)
    requires
        n < 100,
    ensures
        final(out)@ == old(out)@ + two_digits(n as nat),
{
    let d = crate::text::decimal_chars(n / 10);
    let e = crate::text::decimal_chars(n % 10);
    proof {
        assert(d@ == seq![crate::text::digit_char((n / 10) as nat)]);
        assert(e@ == seq![crate::text::digit_char((n % 10) as nat)]);
    }
    out.push(d[0]);
    out.push(e[0]);
    assert(out@ =~= old(out)@ + two_digits(n as nat));
}

/// The wall-clock time of `secs` as `hh:mm:ss`.
pub fn clock_text(secs: u64) -> (r: String)
    ensures
        r@ == clock_spec(secs as nat),
{
    let mut out: Vec<char> = Vec::new();
    push_two_digits(&mut out, (secs / 3600) % 24);
    out.push(':');
    push_two_digits(&mut out, (secs / 60) % 60);
    out.push(':');
    push_two_digits(&mut out, secs % 60);
    assert(out@ =~= clock_spec(secs as nat));
    string_from(out.as_slice())
}

fn format_timestamp() -> (r: String)
    ensures
        exists|t: u64| r@ == clock_spec(t as nat),
{
    let t = now_unix_secs();
    clock_text(t)
}

impl LogEntry {
    /// An informational entry of the client itself, stamped with the time.
    pub fn system(message: String) -> (r: Self)
        ensures
            r.kind == LogKind::System,
            r.message == message,
            r.log_level is None,
            exists|t: u64| r.timestamp@ == clock_spec(t as nat),
    {
        LogEntry { kind: LogKind::System, message, timestamp: format_timestamp(), log_level: None }
    }

    /// An entry for a debuggee event, stamped with the time.
    pub fn event(kind: LogKind, message: String) -> (r: Self)
        ensures
            r.kind == kind,
            r.message == message,
            r.log_level is None,
            exists|t: u64| r.timestamp@ == clock_spec(t as nat),
    {
        LogEntry { kind, message, timestamp: format_timestamp(), log_level: None }
    }

    /// An entry for a debuggee event that may carry a level, stamped with the time.
    pub fn event_with_level(kind: LogKind, message: String, log_level: Option<LogLevel>) -> (r:
        Self)
        ensures
            r.kind == kind,
            r.message == message,
            r.log_level == log_level,
            exists|t: u64| r.timestamp@ == clock_spec(t as nat),
    {
        LogEntry { kind, message, timestamp: format_timestamp(), log_level }
    }
}

/// Serializable filter configuration: search text plus kind and level toggles.
#[derive(Debug, Clone, PartialEq, Eq)]
pub struct LogFilterState {
    pub search: String,
    pub kinds: LogKindFilter,
    pub levels: LogLevelFilter,
}

impl Default for LogFilterState {
    fn default() -> (r: Self)
        ensures
            r.search@ == Seq::<char>::empty(),
            r.kinds == LogKindFilter::all_enabled_spec(),
            r.levels == LogLevelFilter::all_enabled_spec(),
    {
        Self::show_all()
    }
}

/// Whether the filter lets `entry` through.
pub open spec fn allows_spec(f: LogFilterState, entry: LogEntry) -> bool {
    &&& f.kinds.get_spec(entry.kind)
    &&& (entry.log_level matches Some(level) ==> f.levels.get_spec(level))
    &&& (f.search@.len() == 0 || contains_spec(lowercase_of(entry.message@), lowercase_of(f.search@))
        || contains_spec(lowercase_of(kind_label(entry.kind)), lowercase_of(f.search@))
        || contains_spec(entry.timestamp@, f.search@))
}

/// `pat` appears as a contiguous run somewhere in `s`.
pub open spec fn has_run(s: Seq<char>, pat: Seq<char>) -> bool {
    exists|i: int| 0 <= i && i + pat.len() <= s.len() && #[trigger] s.subrange(i, i + pat.len()) == pat
}

/// What the log filter lets through: an entry whose kind is switched on,
/// whose level (if it has one) is switched on, and which, unless the
/// search text is empty, holds the search text in its message or kind
/// label (ignoring case) or in its timestamp as typed.
pub proof fn lemma_filter_allows_exactly(f: LogFilterState, entry: LogEntry)
    ensures
        allows_spec(f, entry) <==> {
            &&& f.kinds.get_spec(entry.kind)
            &&& (entry.log_level matches Some(level) ==> f.levels.get_spec(level))
            &&& (f.search@.len() == 0 || has_run(lowercase_of(entry.message@), lowercase_of(f.search@))
                || has_run(lowercase_of(kind_label(entry.kind)), lowercase_of(f.search@)) || has_run(
                entry.timestamp@,
                f.search@,
            ))
        },
{
    assert forall|s: Seq<char>, p: Seq<char>| contains_spec(s, p) <==> #[trigger] has_run(s, p) by {
        if contains_spec(s, p) {
            let i = choose|i: int| crate::text::occurs_at(s, p, i);
            assert(s.subrange(i, i + p.len()) == p);
        }
        if has_run(s, p) {
            let i = choose|i: int| 0 <= i && i + p.len() <= s.len() && #[trigger] s.subrange(i, i + p.len()) == p;
            assert(crate::text::occurs_at(s, p, i));
        }
    }
}

impl LogFilterState {
    /// A clean filter that shows every entry.
    pub fn show_all() -> (r: Self)
        ensures
            r.search@ == Seq::<char>::empty(),
            r.kinds == LogKindFilter::all_enabled_spec(),
            r.levels == LogLevelFilter::all_enabled_spec(),
    {
        LogFilterState {
            search: String::new(),
            kinds: LogKindFilter::all_enabled(),
            levels: LogLevelFilter::all_enabled(),
        }
    }

    /// True when the filter would let the entry through.
    pub fn allows(&self, entry: &LogEntry) -> (r: bool)
        ensures
            r == allows_spec(*self, *entry),
    {
        if !self.kinds.get(entry.kind) {
            return false;
        }
        match entry.log_level {
            Some(level) => {
                if !self.levels.get(level) {
                    return false;
                }
            },
            None => {},
        }
        if self.search.as_str().is_empty() {
            return true;
        }
        let q = lowercase_chars(self.search.as_str());
        let msg = lowercase_chars(entry.message.as_str());
        if contains_chars(msg.as_slice(), q.as_slice()) {
            return true;
        }
        let label = lowercase_chars(entry.kind.label());
        if contains_chars(label.as_slice(), q.as_slice()) {
            return true;
        }
        let ts = chars_of(entry.timestamp.as_str());
        let raw = chars_of(self.search.as_str());
        contains_chars(ts.as_slice(), raw.as_slice())
    }

    /// True when no filtering is active.
    pub fn is_identity(&self) -> (r: bool)
        ensures
            r == (self.search@.len() == 0 && self.kinds == LogKindFilter::all_enabled_spec()
                && self.levels == LogLevelFilter::all_enabled_spec()),
    {
        self.search.as_str().is_empty() && self.kinds == LogKindFilter::all_enabled()
            && self.levels == LogLevelFilter::all_enabled()
    }
}


// ── Log view state ────────────────────────────────────────────────────

/// Selection and scroll position of the event log view.
#[derive(Debug, Clone)]
pub struct LogState {
    /// Index of the selected row in the log.
    pub selected: Option<usize>,
    /// First visible row index.
    pub offset: usize,
    /// Whether the log should auto-scroll to the bottom.
    pub follow: bool,
}

impl Default for LogState {
    fn default() -> (r: Self)
        ensures
            r.selected is None,
            r.offset == 0,
            r.follow,
    {
        LogState { selected: None, offset: 0, follow: true }
    }
}

/// `i` pulled into the range `0 ..= hi`.
pub open spec fn clamp_to(i: int, hi: int) -> int {
    if i < 0 {
        0
    } else if i > hi {
        hi
    } else {
        i
    }
}

/// Offset of the first visible row such that the last row is shown at the
/// bottom of a window of `height` rows.
pub open spec fn max_offset(height: int, len: int) -> int {
    if len > height {
        len - height
    } else {
        0
    }
}

/// Where the window starts after `update_offset`.
pub open spec fn offset_after_update(s: LogState, height: int, len: int) -> int {
    if len == 0 {
        0
    } else if s.follow {
        max_offset(height, len)
    } else {
        let moved = match s.selected {
            Some(sel) => if sel < s.offset {
                sel as int
            } else if sel >= s.offset + height {
                if sel - height + 1 > usize::MAX {
                    usize::MAX as int
                } else if sel > height {
                    sel - height + 1
                } else {
                    1
                }
            } else {
                s.offset as int
            },
            None => s.offset as int,
        };
        if moved < max_offset(height, len) {
            moved
        } else {
            max_offset(height, len)
        }
    }
}

impl LogState {
    /// Move the selection by `delta` rows; without a selection the move
    /// starts from the last row. Follow mode is on exactly when the last row
    /// ends up selected.
    pub fn scroll(&mut self, delta: isize, len: usize)
        requires
            len <= isize::MAX,
            len > 0 ==> (old(self).selected matches Some(s) ==> s <= isize::MAX && isize::MIN <= s
                + delta <= isize::MAX),
            len > 0 ==> (old(self).selected is None ==> isize::MIN <= len - 1 + delta
                <= isize::MAX),
        ensures
            len == 0 ==> final(self).selected is None && final(self).offset == 0
                && !final(self).follow,
            len > 0 ==> {
                let base = match old(self).selected {
                    Some(s) => s as int,
                    None => len - 1,
                };
                &&& final(self).selected == Some(clamp_to(base + delta, len - 1) as usize)
                &&& final(self).offset == old(self).offset
                &&& final(self).follow == (clamp_to(base + delta, len - 1) == len - 1)
            },
    {
        if len == 0 {
            self.selected = None;
            self.offset = 0;
            self.follow = false;
            return ;
        }
        let hi: isize = (len - 1) as isize;
        let moved: isize = match self.selected {
            Some(s) => s as isize + delta,
            None => hi + delta,
        };
        let sel: usize = if moved < 0 {
            0
        } else if moved > hi {
            len - 1
        } else {
            moved as usize
        };
        self.selected = Some(sel);
        self.follow = sel == len - 1;
    }

    /// Move the selection up by a page.
    pub fn page_up(&mut self, page: usize, len: usize)
        requires
            len <= isize::MAX,
            page <= isize::MAX,
            len > 0 ==> (old(self).selected matches Some(s) ==> s <= isize::MAX),
        ensures
            len == 0 ==> final(self).selected is None && final(self).offset == 0
                && !final(self).follow,
            len > 0 ==> {
                let base = match old(self).selected {
                    Some(s) => s as int,
                    None => len - 1,
                };
                &&& final(self).selected == Some(clamp_to(base - page, len - 1) as usize)
                &&& final(self).offset == old(self).offset
                &&& final(self).follow == (clamp_to(base - page, len - 1) == len - 1)
            },
    {
        self.scroll(-(page as isize), len);
    }

    /// Move the selection down by a page.
    pub fn page_down(&mut self, page: usize, len: usize)
        requires
            len <= isize::MAX,
            page <= isize::MAX,
            len > 0 ==> (old(self).selected matches Some(s) ==> s + page <= isize::MAX),
            len > 0 ==> (old(self).selected is None ==> len - 1 + page <= isize::MAX),
        ensures
            len == 0 ==> final(self).selected is None && final(self).offset == 0
                && !final(self).follow,
            len > 0 ==> {
                let base = match old(self).selected {
                    Some(s) => s as int,
                    None => len - 1,
                };
                &&& final(self).selected == Some(clamp_to(base + page, len - 1) as usize)
                &&& final(self).offset == old(self).offset
                &&& final(self).follow == (clamp_to(base + page, len - 1) == len - 1)
            },
    {
        self.scroll(page as isize, len);
    }

    /// Jump to the first row and stop following.
    pub fn top(&mut self)
        ensures
            final(self).selected == Some(0usize),
            final(self).offset == 0,
            !final(self).follow,
    {
        self.selected = Some(0);
        self.offset = 0;
        self.follow = false;
    }

    /// Jump to the last row and follow new entries.
    pub fn bottom(&mut self, len: usize)
        ensures
            final(self).selected == (if len == 0 {
                None
            } else {
                Some((len - 1) as usize)
            }),
            final(self).offset == 0,
            final(self).follow,
    {
        if len == 0 {
            self.selected = None;
        } else {
            self.selected = Some(len - 1);
        }
        self.offset = 0;
        self.follow = true;
    }

    /// Keep the visible window in step with the selection and follow mode.
    pub fn update_offset(&mut self, visible_height: usize, len: usize)
        ensures
            final(self).offset == offset_after_update(*old(self), visible_height as int, len as int),
            final(self).selected == old(self).selected,
            final(self).follow == old(self).follow,
    {
        if len == 0 {
            self.offset = 0;
            return ;
        }
        let max_offset: usize = if len > visible_height {
            len - visible_height
        } else {
            0
        };
        if self.follow {
            self.offset = max_offset;
            return ;
        }
        match self.selected {
            Some(selected) => {
                if selected < self.offset {
                    self.offset = selected;
                } else if selected - self.offset >= visible_height {
                    let below: usize = if selected > visible_height {
                        selected - visible_height
                    } else {
                        0
                    };
                    self.offset = if below < usize::MAX {
                        below + 1
                    } else {
                        below
                    };
                }
            },
            None => {},
        }
        if self.offset > max_offset {
            self.offset = max_offset;
        }
    }
}

/// After `update_offset`, a selected row of the log lies inside the visible
/// window, and in follow mode the last row does.
pub proof fn lemma_update_offset_keeps_selection_visible(s: LogState, height: nat, len: nat)
    requires
        height > 0,
        len > 0,
        s.follow || (s.selected matches Some(sel) && sel < len),
    ensures
        ({
            let off = offset_after_update(s, height as int, len as int);
            let row = if s.follow {
                len - 1
            } else {
                s.selected->Some_0 as int
            };
            off <= row < off + height
        }),
{
}


// ── Command input popup state ─────────────────────────────────────────

/// Keeps the entries that differ from `cmd`.
pub open spec fn differs_from(cmd: Seq<char>) -> spec_fn(Seq<char>) -> bool {
    |c: Seq<char>| c != cmd
}

/// The history after recording `cmd`: newest first, earlier copies of `cmd`
/// dropped, cut to `MAX_COMMAND_HISTORY`; an empty command changes nothing.
pub open spec fn pushed_history(h: Seq<Seq<char>>, cmd: Seq<char>) -> Seq<Seq<char>> {
    if cmd.len() == 0 {
        h
    } else {
        let r = seq![cmd] + h.filter(differs_from(cmd));
        if r.len() > MAX_COMMAND_HISTORY {
            r.take(MAX_COMMAND_HISTORY as int)
        } else {
            r
        }
    }
}

/// A well-kept command history: bounded, free of repeats and of empty
/// entries.
pub open spec fn history_ok(h: Seq<Seq<char>>) -> bool {
    &&& h.len() <= MAX_COMMAND_HISTORY
    &&& h.no_duplicates()
    &&& forall|i: int| 0 <= i < h.len() ==> #[trigger] h[i].len() > 0 && fits(h[i])
}

/// The command history left by recording each of `cmds`, in turn, on an
/// empty one.
pub open spec fn history_after(cmds: Seq<Seq<char>>) -> Seq<Seq<char>>
    decreases cmds.len(),
{
    if cmds.len() == 0 {
        Seq::empty()
    } else {
        pushed_history(history_after(cmds.drop_last()), cmds.last())
    }
}

proof fn lemma_filter_of_distinct(h: Seq<Seq<char>>, p: spec_fn(Seq<char>) -> bool)
    requires
        h.no_duplicates(),
    ensures
        h.filter(p).no_duplicates(),
        forall|i: int| 0 <= i < h.filter(p).len() ==> h.contains(#[trigger] h.filter(p)[i]),
    decreases h.len(),
{
    broadcast use vstd::seq_lib::group_filter_ensures;

    let f = h.filter(p);
    assert forall|i: int| 0 <= i < f.len() implies h.contains(#[trigger] f[i]) by {
        assert(f.contains(f[i]));
        h.lemma_filter_contains_rev(p, f[i]);
    }
    if h.len() > 0 {
        let d = h.drop_last();
        let x = h.last();
        assert(d.push(x) =~= h);
        d.lemma_filter_push(x, p);
        assert(d.no_duplicates()) by {
            assert forall|i: int, j: int| 0 <= i < d.len() && 0 <= j < d.len() && i != j implies d[i] != d[j] by {
                assert(d[i] == h[i] && d[j] == h[j]);
            }
        }
        lemma_filter_of_distinct(d, p);
        let fd = d.filter(p);
        if p(x) {
            assert(!fd.contains(x)) by {
                if fd.contains(x) {
                    d.lemma_filter_contains_rev(p, x);
                    let k = choose|k: int| 0 <= k < d.len() && d[k] == x;
                    assert(h[k] == h[h.len() - 1]);
                }
            }
            assert forall|i: int, j: int| 0 <= i < f.len() && 0 <= j < f.len() && i != j implies f[i] != f[j] by {
                if i < fd.len() && j < fd.len() {
                    assert(f[i] == fd[i] && f[j] == fd[j]);
                } else if i < fd.len() {
                    assert(f[i] == fd[i]);
                    assert(fd.contains(fd[i]));
                } else {
                    assert(f[j] == fd[j]);
                    assert(fd.contains(fd[j]));
                }
            }
        }
    }
}

/// Recording a non-empty command puts it first and leaves no other copy of
/// it, whatever the history held before.
pub proof fn lemma_pushed_command_first_and_once(h: Seq<Seq<char>>, cmd: Seq<char>)
    requires
        cmd.len() > 0,
    ensures
        pushed_history(h, cmd).len() > 0,
        pushed_history(h, cmd)[0] == cmd,
        forall|i: int| 0 < i < pushed_history(h, cmd).len() ==> #[trigger] pushed_history(h, cmd)[i] != cmd,
{
    broadcast use vstd::seq_lib::group_filter_ensures;

    let f = h.filter(differs_from(cmd));
    let r = seq![cmd] + f;
    assert forall|i: int| 0 < i < r.len() implies #[trigger] r[i] != cmd by {
        assert(r[i] == f[i - 1]);
        assert(differs_from(cmd)(f[i - 1]));
    }
}

/// Recording a command keeps a well-kept history well kept.
pub proof fn lemma_push_keeps_history_ok(h: Seq<Seq<char>>, cmd: Seq<char>)
    requires
        history_ok(h),
        fits(cmd),
    ensures
        history_ok(pushed_history(h, cmd)),
{
    if cmd.len() > 0 {
        let p = differs_from(cmd);
        let f = h.filter(p);
        lemma_filter_of_distinct(h, p);
        lemma_pushed_command_first_and_once(h, cmd);
        let r = seq![cmd] + f;
        assert forall|i: int| 0 <= i < r.len() implies #[trigger] r[i].len() > 0 && fits(r[i]) by {
            if i > 0 {
                assert(r[i] == f[i - 1]);
                assert(h.contains(f[i - 1]));
            }
        }
        assert(r.no_duplicates()) by {
            assert forall|i: int, j: int| 0 <= i < r.len() && 0 <= j < r.len() && i != j implies r[i] != r[j] by {
                if i > 0 && j > 0 {
                    assert(r[i] == f[i - 1] && r[j] == f[j - 1]);
                } else if i == 0 {
                    assert(pushed_history(h, cmd) == r || pushed_history(h, cmd) == r.take(MAX_COMMAND_HISTORY as int));
                    assert(r[j] == f[j - 1]);
                    assert(differs_from(cmd)(f[j - 1])) by {
                        broadcast use vstd::seq_lib::group_filter_ensures;
                    }
                } else {
                    assert(r[i] == f[i - 1]);
                    assert(differs_from(cmd)(f[i - 1])) by {
                        broadcast use vstd::seq_lib::group_filter_ensures;
                    }
                }
            }
        }
        let t = pushed_history(h, cmd);
        assert forall|i: int| 0 <= i < t.len() implies #[trigger] t[i] == r[i] by {}
        assert forall|i: int, j: int| 0 <= i < t.len() && 0 <= j < t.len() && i != j implies t[i] != t[j] by {
            assert(t[i] == r[i] && t[j] == r[j]);
        }
        assert forall|i: int| 0 <= i < t.len() implies #[trigger] t[i].len() > 0 && fits(t[i]) by {
            assert(t[i] == r[i]);
        }
    }
}

/// A command history built only by recording commands, from an empty one,
/// holds no repeats and no empty entries, never more than
/// `MAX_COMMAND_HISTORY` of them, and the newest non-empty command first.
pub proof fn lemma_history_without_repeats(cmds: Seq<Seq<char>>)
    requires
        forall|i: int| 0 <= i < cmds.len() ==> fits(#[trigger] cmds[i]),
    ensures
        history_ok(history_after(cmds)),
        cmds.len() > 0 && cmds.last().len() > 0 ==> history_after(cmds)[0] == cmds.last(),
    decreases cmds.len(),
{
    if cmds.len() > 0 {
        let d = cmds.drop_last();
        assert forall|i: int| 0 <= i < d.len() implies fits(#[trigger] d[i]) by {
            assert(d[i] == cmds[i]);
        }
        lemma_history_without_repeats(d);
        assert(fits(cmds[cmds.len() - 1]));
        lemma_push_keeps_history_ok(history_after(d), cmds.last());
        if cmds.last().len() > 0 {
            lemma_pushed_command_first_and_once(history_after(d), cmds.last());
        }
    }
}

/// Single-line editor for a Minecraft command plus bounded history.
#[derive(Debug, Clone)]
pub struct CommandInput {
    pub open: bool,
    pub field: FieldState,
    pub history: VecDeque<String>,
    pub history_index: Option<usize>,
    pub error: Option<String>,
}

impl Default for CommandInput {
    fn default() -> (r: Self)
        ensures
            !r.open,
            r.field.value@ == Seq::<char>::empty(),
            r.field.cursor == 0,
            r.history@.len() == 0,
            r.history_index is None,
            r.error is None,
            r.wf(),
    {
        CommandInput {
            open: false,
            field: FieldState::empty(),
            history: VecDeque::new(),
            history_index: None,
            error: None,
        }
    }
}

impl CommandInput {
    /// The command history as character sequences, newest first.
    pub open spec fn history_view(&self) -> Seq<Seq<char>> {
        string_views(self.history@)
    }

    pub open spec fn wf(&self) -> bool {
        &&& self.field.wf()
        &&& forall|i: int| 0 <= i < self.history@.len() ==> fits(#[trigger] self.history@[i]@)
    }

    pub fn new() -> (r: Self)
        ensures
            !r.open,
            r.field.value@ == Seq::<char>::empty(),
            r.history@.len() == 0,
            r.history_index is None,
            r.error is None,
            r.wf(),
    {
        Self::default()
    }

    /// Open the popup on an empty line.
    pub fn open(&mut self)
        requires
            old(self).wf(),
        ensures
            final(self).wf(),
            final(self).open,
            final(self).error is None,
            final(self).history_index is None,
            final(self).field.value@ == Seq::<char>::empty(),
            final(self).field.cursor == 0,
            final(self).history@ == old(self).history@,
    {
        self.open = true;
        self.error = None;
        self.history_index = None;
        self.field = FieldState::empty();
    }

    /// Close the popup, keeping the line being edited.
    pub fn close(&mut self)
        ensures
            !final(self).open,
            final(self).error is None,
            final(self).history_index is None,
            final(self).field == old(self).field,
            final(self).history@ == old(self).history@,
    {
        self.open = false;
        self.error = None;
        self.history_index = None;
    }

    /// Clear session-scoped editor state while preserving command history.
    pub fn reset_transient(&mut self)
        requires
            old(self).wf(),
        ensures
            final(self).wf(),
            !final(self).open,
            final(self).error is None,
            final(self).history_index is None,
            final(self).field.value@ == Seq::<char>::empty(),
            final(self).field.cursor == 0,
            final(self).history@ == old(self).history@,
    {
        self.close();
        self.field = FieldState::empty();
    }

    /// Record a submitted command, newest-first, deduplicated.
    pub fn push_history(&mut self, command: String)
        requires
            old(self).wf(),
            fits(command@),
        ensures
            final(self).wf(),
            final(self).history_view() == pushed_history(old(self).history_view(), command@),
            history_ok(old(self).history_view()) ==> history_ok(final(self).history_view()),
            final(self).open == old(self).open,
            final(self).field == old(self).field,
            final(self).history_index == old(self).history_index,
            final(self).error == old(self).error,
    {
        if command.as_str().is_empty() {
            return ;
        }
        let ghost hv = self.history_view();
        let ghost cmd = command@;
        let ghost p = differs_from(cmd);
        let mut kept: VecDeque<String> = VecDeque::new();
        kept.push_back(command.clone());
        proof {
            assert(hv.take(0) =~= Seq::<Seq<char>>::empty());
            assert(hv.take(0).filter(p) =~= Seq::<Seq<char>>::empty()) by {
                reveal(Seq::filter);
            }
            assert(string_views(kept@) =~= seq![cmd] + hv.take(0).filter(p));
        }
        let mut i: usize = 0;
        while i < self.history.len()
            invariant
                hv == self.history_view(),
                cmd == command@,
                cmd.len() > 0,
                p == differs_from(cmd),
                0 <= i <= self.history@.len(),
                string_views(kept@) =~= seq![cmd] + hv.take(i as int).filter(p),
                forall|k: int| 0 <= k < kept@.len() ==> fits(#[trigger] kept@[k]@),
                fits(cmd),
                forall|k: int| 0 <= k < self.history@.len() ==> fits(#[trigger] self.history@[k]@),
                history_ok(hv) ==> string_views(kept@).no_duplicates(),
                history_ok(hv) ==> forall|k: int|
                    0 < k < kept@.len() ==> exists|j: int|
                        0 <= j < i && #[trigger] kept@[k]@ == hv[j],
            decreases self.history@.len() - i,
        {
            let ghost before = string_views(kept@);
            let c = &self.history[i];
            proof {
                assert(hv[i as int] == c@);
                assert(hv.take(i + 1) =~= hv.take(i as int).push(c@));
                hv.take(i as int).lemma_filter_push(c@, p);
            }
            if !crate::text::str_eq(c.as_str(), command.as_str()) {
                kept.push_back(c.clone());
                proof {
                    assert(string_views(kept@) =~= before.push(c@));
                    if history_ok(hv) {
                        assert forall|a: int, b: int|
                            0 <= a < string_views(kept@).len() && 0 <= b < string_views(
                                kept@,
                            ).len() && a != b implies string_views(kept@)[a] != string_views(
                            kept@,
                        )[b] by {
                            if a == kept@.len() - 1 && b > 0 && b < kept@.len() - 1 {
                                assert(kept@[b]@ == before[b]);
                                let j = choose|j: int| 0 <= j < i && kept@[b]@ == hv[j];
                                assert(hv[j] != hv[i as int]);
                            } else if b == kept@.len() - 1 && a > 0 && a < kept@.len() - 1 {
                                assert(kept@[a]@ == before[a]);
                                let j = choose|j: int| 0 <= j < i && kept@[a]@ == hv[j];
                                assert(hv[j] != hv[i as int]);
                            } else if a < kept@.len() - 1 && b < kept@.len() - 1 {
                                assert(before[a] != before[b]);
                            }
                        }
                        assert forall|k: int| 0 < k < kept@.len() implies exists|j: int|
                            0 <= j < i + 1 && #[trigger] kept@[k]@ == hv[j] by {
                            if k == kept@.len() - 1 {
                                assert(kept@[k]@ == hv[i as int]);
                            } else {
                                assert(kept@[k]@ == before[k]);
                                let j = choose|j: int| 0 <= j < i && kept@[k]@ == hv[j];
                                assert(kept@[k]@ == hv[j]);
                            }
                        }
                    }
                }
            } else {
                proof {
                    if history_ok(hv) {
                        assert forall|k: int| 0 < k < kept@.len() implies exists|j: int|
                            0 <= j < i + 1 && #[trigger] kept@[k]@ == hv[j] by {
                            let j = choose|j: int| 0 <= j < i && kept@[k]@ == hv[j];
                            assert(kept@[k]@ == hv[j]);
                        }
                    }
                }
            }
            i += 1;
        }
        proof {
            assert(hv.take(i as int) =~= hv);
        }
        let ghost full = string_views(kept@);
        kept.truncate(MAX_COMMAND_HISTORY);
        proof {
            if full.len() > MAX_COMMAND_HISTORY {
                assert(string_views(kept@) =~= full.take(MAX_COMMAND_HISTORY as int));
            } else {
                assert(string_views(kept@) =~= full);
            }
            if history_ok(hv) {
                let r = string_views(kept@);
                assert forall|a: int, b: int|
                    0 <= a < r.len() && 0 <= b < r.len() && a != b implies r[a] != r[b] by {
                    assert(r[a] == full[a]);
                    assert(r[b] == full[b]);
                }
                assert forall|k: int| 0 <= k < r.len() implies #[trigger] r[k].len() > 0 && fits(
                    r[k],
                ) by {
                    assert(r[k] == full[k]);
                    if k > 0 {
                        let j = choose|j: int| 0 <= j < i && kept@[k]@ == hv[j];
                        assert(kept@[k]@ == full[k]);
                    }
                }
            }
        }
        self.history = kept;
    }

    /// Cycle through history. `older` moves to older entries; `false` moves newer.
    /// Returns to a blank edit line when moving newer past the newest entry.
    pub fn cycle_history(&mut self, older: bool)
        requires
            old(self).wf(),
        ensures
            final(self).wf(),
            final(self).history@ == old(self).history@,
            final(self).open == old(self).open,
            final(self).error == old(self).error,
            old(self).history@.len() == 0 ==> *final(self) == *old(self),
            old(self).history@.len() > 0 && older ==> {
                let last = old(self).history@.len() - 1;
                let next = match old(self).history_index {
                    Some(i) => if i + 1 < last {
                        i + 1
                    } else {
                        last
                    },
                    None => 0,
                };
                &&& final(self).history_index == Some(next as usize)
                &&& final(self).field.value@ == old(self).history@[next]@
                &&& final(self).field.cursor == byte_len(old(self).history@[next]@)
            },
            old(self).history@.len() > 0 && !older ==> match old(self).history_index {
                Some(i) => if i == 0 {
                    &&& final(self).history_index is None
                    &&& final(self).field.value@ == Seq::<char>::empty()
                    &&& final(self).field.cursor == 0
                } else {
                    &&& final(self).history_index == Some((i - 1) as usize)
                    &&& i - 1 < old(self).history@.len() ==> final(self).field.value@ == old(
                        self,
                    ).history@[i - 1]@ && final(self).field.cursor == byte_len(
                        old(self).history@[i - 1]@,
                    )
                    &&& i - 1 >= old(self).history@.len() ==> final(self).field == old(
                        self,
                    ).field
                },
                None => {
                    &&& final(self).history_index is None
                    &&& final(self).field.value@ == Seq::<char>::empty()
                    &&& final(self).field.cursor == 0
                },
            },
    {
        let len = self.history.len();
        if len == 0 {
            return ;
        }
        if older {
            let next: usize = match self.history_index {
                Some(i) => if i < len - 1 {
                    i + 1
                } else {
                    len - 1
                },
                None => 0,
            };
            self.history_index = Some(next);
            let cmd = self.history[next].clone();
            self.field = FieldState::new(cmd);
        } else {
            match self.history_index {
                Some(i) => {
                    if i == 0 {
                        self.history_index = None;
                        self.field = FieldState::empty();
                    } else {
                        let next = i - 1;
                        self.history_index = Some(next);
                        if next < len {
                            let cmd = self.history[next].clone();
                            self.field = FieldState::new(cmd);
                        }
                    }
                },
                None => {
                    self.history_index = None;
                    self.field = FieldState::empty();
                },
            }
        }
    }
}


// ── Search input popup state ───────────────────────────────────────────

/// Single-line search editor that filters the event log.
#[derive(Debug, Clone, PartialEq, Eq)]
pub struct SearchInput {
    pub open: bool,
    pub field: FieldState,
}

impl Default for SearchInput {
    fn default() -> (r: Self)
        ensures
            !r.open,
            r.field.value@ == Seq::<char>::empty(),
            r.field.cursor == 0,
            r.field.wf(),
    {
        SearchInput { open: false, field: FieldState::empty() }
    }
}

impl SearchInput {
    pub fn new() -> (r: Self)
        ensures
            !r.open,
            r.field.value@ == Seq::<char>::empty(),
            r.field.cursor == 0,
            r.field.wf(),
    {
        Self::default()
    }

    /// Open the popup on an empty line.
    pub fn open(&mut self)
        ensures
            final(self).open,
            final(self).field.value@ == Seq::<char>::empty(),
            final(self).field.cursor == 0,
            final(self).field.wf(),
    {
        self.open = true;
        self.field = FieldState::empty();
    }

    pub fn close(&mut self)
        ensures
            !final(self).open,
            final(self).field == old(self).field,
    {
        self.open = false;
    }

    /// Close the popup and clear its line.
    pub fn reset_transient(&mut self)
        ensures
            !final(self).open,
            final(self).field.value@ == Seq::<char>::empty(),
            final(self).field.cursor == 0,
            final(self).field.wf(),
    {
        self.close();
        self.field = FieldState::empty();
    }
}

// ── Error popup ───────────────────────────────────────────────────────

/// A modal error message.
#[derive(Debug, Clone, PartialEq, Eq)]
pub struct ErrorPopup {
    pub title: String,
    pub message: String,
}

impl ErrorPopup {
    pub fn new(title: String, message: String) -> (r: Self)
        ensures
            r.title == title,
            r.message == message,
    {
        ErrorPopup { title, message }
    }
}

// ── Filter popup state ─────────────────────────────────────────────────

/// Number of level rows (log, warn, error) below the kind rows.
pub const LOG_LEVEL_ROWS: usize = 3;

/// The level shown at level row `i` of the filter popup.
pub open spec fn level_at(i: int) -> LogLevel {
    if i == 0 {
        LogLevel::Log
    } else if i == 1 {
        LogLevel::Warn
    } else {
        LogLevel::Error
    }
}

/// Description of a filter toggle for tests and callers.
#[derive(Debug, Clone, Copy, PartialEq, Eq, Structural)]
pub enum FilterToggle {
    Kind(LogKind, bool),
    Level(LogLevel, bool),
}

impl LogKindFilter {
    /// The filter with `kind` set to `value`.
    pub open spec fn with(self, kind: LogKind, value: bool) -> LogKindFilter {
        match kind {
            LogKind::System => LogKindFilter { system: value, ..self },
            LogKind::Protocol => LogKindFilter { protocol: value, ..self },
            LogKind::Stopped => LogKindFilter { stopped: value, ..self },
            LogKind::Thread => LogKindFilter { thread: value, ..self },
            LogKind::Print => LogKindFilter { print: value, ..self },
            LogKind::Notification => LogKindFilter { notification: value, ..self },
            LogKind::Stat => LogKindFilter { stat: value, ..self },
            LogKind::ProfilerCapture => LogKindFilter { profiler_capture: value, ..self },
            LogKind::Schema => LogKindFilter { schema: value, ..self },
            LogKind::Terminated => LogKindFilter { terminated: value, ..self },
            LogKind::Unknown => LogKindFilter { unknown: value, ..self },
        }
    }
}

impl LogLevelFilter {
    /// The filter with the toggle of `level` set to `value`.
    pub open spec fn with(self, level: LogLevel, value: bool) -> LogLevelFilter {
        match level {
            LogLevel::Verbose | LogLevel::Log => LogLevelFilter { log: value, ..self },
            LogLevel::Warn => LogLevelFilter { warn: value, ..self },
            LogLevel::Error | LogLevel::Stop => LogLevelFilter { error: value, ..self },
        }
    }
}

/// The filter after flipping the toggle at popup row `row` (rows past the
/// last level row change nothing).
pub open spec fn toggled_filter(f: LogFilterState, row: int) -> LogFilterState {
    if 0 <= row < LOG_KIND_COUNT {
        let kind = kind_at(row);
        LogFilterState { kinds: f.kinds.with(kind, !f.kinds.get_spec(kind)), ..f }
    } else if LOG_KIND_COUNT <= row < LOG_KIND_COUNT + LOG_LEVEL_ROWS {
        let level = level_at(row - LOG_KIND_COUNT);
        LogFilterState { levels: f.levels.with(level, !f.levels.get_spec(level)), ..f }
    } else {
        f
    }
}

/// What flipping popup row `row` reports.
pub open spec fn toggle_report(f: LogFilterState, row: int) -> Option<FilterToggle> {
    if 0 <= row < LOG_KIND_COUNT {
        Some(FilterToggle::Kind(kind_at(row), !f.kinds.get_spec(kind_at(row))))
    } else if LOG_KIND_COUNT <= row < LOG_KIND_COUNT + LOG_LEVEL_ROWS {
        let level = level_at(row - LOG_KIND_COUNT);
        Some(FilterToggle::Level(level, !f.levels.get_spec(level)))
    } else {
        None
    }
}

proof fn lemma_kind_with_get(k1: LogKindFilter, k: LogKindFilter, kind: LogKind, value: bool)
    requires
        k1 == k.with(kind, value),
    ensures
        k1.get_spec(kind) == value,
{
}

proof fn lemma_kind_flip_twice(k: LogKindFilter, kind: LogKind)
    ensures
        ({
            let once = k.with(kind, !k.get_spec(kind));
            once.with(kind, !once.get_spec(kind)) == k
        }),
{
}

proof fn lemma_level_flip_twice(l: LogLevelFilter, level: LogLevel)
    ensures
        ({
            let once = l.with(level, !l.get_spec(level));
            once.with(level, !once.get_spec(level)) == l
        }),
{
}

/// Flipping the same popup row twice gives back the filter one started with.
pub proof fn lemma_toggle_twice_restores(f: LogFilterState, row: int)
    ensures
        toggled_filter(toggled_filter(f, row), row) == f,
{
    if 0 <= row < LOG_KIND_COUNT {
        lemma_kind_flip_twice(f.kinds, kind_at(row));
    } else if LOG_KIND_COUNT <= row < LOG_KIND_COUNT + LOG_LEVEL_ROWS {
        lemma_level_flip_twice(f.levels, level_at(row - LOG_KIND_COUNT));
    }
}

/// Compact popup for toggling event-kind and log-level filters.
#[derive(Debug, Clone, PartialEq, Eq, Structural)]
pub struct FilterPopup {
    pub open: bool,
    /// Cursor position over the flattened list of toggles.
    pub selected: usize,
}

impl Default for FilterPopup {
    fn default() -> (r: Self)
        ensures
            !r.open,
            r.selected == 0,
    {
        FilterPopup { open: false, selected: 0 }
    }
}

impl FilterPopup {
    pub fn new() -> (r: Self)
        ensures
            !r.open,
            r.selected == 0,
    {
        Self::default()
    }

    /// Open the popup with the cursor on the first row.
    pub fn open(&mut self)
        ensures
            final(self).open,
            final(self).selected == 0,
    {
        self.open = true;
        self.selected = 0;
    }

    pub fn close(&mut self)
        ensures
            !final(self).open,
            final(self).selected == old(self).selected,
    {
        self.open = false;
    }

    /// Number of selectable toggle rows in the popup: the kinds, then
    /// log, warn and error.
    pub fn row_count() -> (r: usize)
        ensures
            r == LOG_KIND_COUNT + LOG_LEVEL_ROWS,
    {
        LOG_KIND_COUNT + LOG_LEVEL_ROWS
    }

    pub fn scroll_up(&mut self)
        ensures
            final(self).open == old(self).open,
            final(self).selected == (if old(self).selected > 0 {
                old(self).selected - 1
            } else {
                0
            }),
    {
        if self.selected > 0 {
            self.selected -= 1;
        }
    }

    pub fn scroll_down(&mut self)
        ensures
            final(self).open == old(self).open,
            final(self).selected == (if old(self).selected < LOG_KIND_COUNT + LOG_LEVEL_ROWS - 1 {
                old(self).selected + 1
            } else {
                old(self).selected as int
            }),
    {
        let max = Self::row_count() - 1;
        if self.selected < max {
            self.selected += 1;
        }
    }

    /// Toggle the item under the cursor, returning what changed.
    pub fn toggle_selected(&mut self, filter: &mut LogFilterState) -> (r: Option<FilterToggle>)
        ensures
            *final(self) == *old(self),
            *final(filter) == toggled_filter(*old(filter), old(self).selected as int),
            r == toggle_report(*old(filter), old(self).selected as int),
    {
        let idx = self.selected;
        if idx < LOG_KIND_COUNT {
            let kind = LogKind::at(idx);
            let current = filter.kinds.get(kind);
            filter.kinds.set(kind, !current);
            Some(FilterToggle::Kind(kind, !current))
        } else {
            let level_idx = idx - LOG_KIND_COUNT;
            let level = if level_idx == 0 {
                LogLevel::Log
            } else if level_idx == 1 {
                LogLevel::Warn
            } else if level_idx == 2 {
                LogLevel::Error
            } else {
                return None;
            };
            let current = filter.levels.get(level);
            filter.levels.set(level, !current);
            Some(FilterToggle::Level(level, !current))
        }
    }
}


// ── Plugin selector popup state ───────────────────────────────────────

/// Active plugin-selection popup.
pub struct PluginSelection {
    pub plugins: Vec<PluginDetails>,
    pub selected: usize,
    pub scroll_offset: usize,
}

impl PluginSelection {
    pub fn new(plugins: Vec<PluginDetails>) -> (r: Self)
        ensures
            r.plugins@ == plugins@,
            r.selected == 0,
            r.scroll_offset == 0,
    {
        PluginSelection { plugins, selected: 0, scroll_offset: 0 }
    }

    pub fn scroll_up(&mut self)
        ensures
            final(self).plugins@ == old(self).plugins@,
            final(self).scroll_offset == old(self).scroll_offset,
            final(self).selected == (if old(self).selected > 0 {
                old(self).selected - 1
            } else {
                0
            }),
    {
        if self.selected > 0 {
            self.selected -= 1;
        }
    }

    pub fn scroll_down(&mut self)
        ensures
            final(self).plugins@ == old(self).plugins@,
            final(self).scroll_offset == old(self).scroll_offset,
            final(self).selected == (if old(self).selected + 1 < old(self).plugins@.len() {
                old(self).selected + 1
            } else {
                old(self).selected as int
            }),
    {
        if self.selected < self.plugins.len() && self.selected + 1 < self.plugins.len() {
            self.selected += 1;
        }
    }

    /// UUID of the highlighted plugin.
    pub fn selected_uuid(&self) -> (r: Option<String>)
        ensures
            r == (if self.selected < self.plugins@.len() {
                Some(self.plugins@[self.selected as int].module_uuid)
            } else {
                None
            }),
    {
        if self.selected < self.plugins.len() {
            Some(self.plugins[self.selected].module_uuid.clone())
        } else {
            None
        }
    }

    /// Name of the highlighted plugin.
    pub fn selected_name(&self) -> (r: Option<String>)
        ensures
            r == (if self.selected < self.plugins@.len() {
                Some(self.plugins@[self.selected as int].name)
            } else {
                None
            }),
    {
        if self.selected < self.plugins.len() {
            Some(self.plugins[self.selected].name.clone())
        } else {
            None
        }
    }
}

// ── Evaluate ──────────────────────────────────────────────────────────

/// Why a request to the debugger session failed.
#[derive(Debug, Clone, PartialEq, Eq)]
pub struct SessionError {
    /// The user cancelled the operation.
    pub cancelled: bool,
    /// Human-readable description of the failure.
    pub message: String,
}

/// The debuggee's answer to an evaluate request.
#[derive(Debug, Clone, PartialEq, Eq)]
pub struct EvaluateResult {
    pub success: bool,
    /// Result arguments rendered as pretty-printed JSON, when present.
    pub args: Option<String>,
    pub message: Option<String>,
}

/// One evaluated expression and what came back.
#[derive(Debug, Clone, PartialEq, Eq)]
pub struct EvaluateEntry {
    pub expression: String,
    pub success: bool,
    pub detail: String,
}

impl EvaluateEntry {
    /// A field-by-field copy.
    pub fn duplicate(&self) -> (r: Self)
        ensures
            r == *self,
    {
        EvaluateEntry {
            expression: self.expression.clone(),
            success: self.success,
            detail: self.detail.clone(),
        }
    }
}

/// The history entry recorded for `expression` and its outcome.
pub open spec fn evaluate_entry_for(
    expression: String,
    result: Result<EvaluateResult, SessionError>,
) -> (Seq<char>, bool, Seq<char>) {
    match result {
        Ok(r) => (
            expression@,
            r.success,
            match r.args {
                Some(a) => a@,
                None => match r.message {
                    Some(m) => m@,
                    None => Seq::<char>::empty(),
                },
            },
        ),
        Err(e) => (expression@, false, e.message@),
    }
}

/// The view of an entry: expression, success flag, detail.
pub open spec fn entry_view(e: EvaluateEntry) -> (Seq<char>, bool, Seq<char>) {
    (e.expression@, e.success, e.detail@)
}

/// Newest-first history after recording `entry`, bounded by `MAX_EVAL_HISTORY`.
pub open spec fn pushed_bounded<T>(h: Seq<T>, entry: T, cap: nat) -> Seq<T> {
    let r = seq![entry] + h;
    if r.len() > cap {
        r.take(cap as int)
    } else {
        r
    }
}

/// Single-line expression editor and bounded result history.
#[derive(Debug)]
pub struct EvaluateInput {
    pub open: bool,
    pub field: FieldState,
    pub busy: bool,
    pub error: Option<String>,
    pub history: VecDeque<EvaluateEntry>,
    pub pending_expression: String,
}

impl Default for EvaluateInput {
    fn default() -> (r: Self)
        ensures
            !r.open,
            !r.busy,
            r.field.value@ == Seq::<char>::empty(),
            r.field.wf(),
            r.error is None,
            r.history@.len() == 0,
            r.pending_expression@ == Seq::<char>::empty(),
    {
        EvaluateInput {
            open: false,
            field: FieldState::empty(),
            busy: false,
            error: None,
            history: VecDeque::new(),
            pending_expression: String::new(),
        }
    }
}

impl EvaluateInput {
    pub fn new() -> (r: Self)
        ensures
            !r.open,
            !r.busy,
            r.field.value@ == Seq::<char>::empty(),
            r.field.wf(),
            r.error is None,
            r.history@.len() == 0,
            r.pending_expression@ == Seq::<char>::empty(),
    {
        Self::default()
    }

    /// Open the popup on an empty line; an open popup is left as it is.
    pub fn open(&mut self)
        ensures
            final(self).open,
            old(self).open ==> final(self).field == old(self).field,
            !old(self).open ==> final(self).field.value@ == Seq::<char>::empty()
                && final(self).field.cursor == 0 && final(self).field.wf(),
            final(self).busy == old(self).busy,
            final(self).error == old(self).error,
            final(self).history@ == old(self).history@,
            final(self).pending_expression == old(self).pending_expression,
    {
        if self.open {
            return ;
        }
        self.open = true;
        self.field = FieldState::empty();
    }

    pub fn close(&mut self)
        ensures
            !final(self).open,
            final(self).field == old(self).field,
            final(self).busy == old(self).busy,
            final(self).error == old(self).error,
            final(self).history@ == old(self).history@,
            final(self).pending_expression == old(self).pending_expression,
    {
        self.open = false;
    }

    /// Cancel session-scoped evaluation state while preserving result history.
    pub fn reset_transient(&mut self)
        ensures
            !final(self).open,
            !final(self).busy,
            final(self).error is None,
            final(self).field.value@ == Seq::<char>::empty(),
            final(self).field.wf(),
            final(self).pending_expression@ == Seq::<char>::empty(),
            final(self).history@ == old(self).history@,
    {
        self.open = false;
        self.field = FieldState::empty();
        self.busy = false;
        self.error = None;
        self.pending_expression = String::new();
    }

    /// Start an evaluation if there is no in-flight request; says whether it
    /// started.
    pub fn start(&mut self, expression: String) -> (started: bool)
        ensures
            started == (!old(self).busy && expression@.len() > 0),
            started ==> final(self).busy && final(self).pending_expression == expression
                && final(self).field.value@ == Seq::<char>::empty() && final(self).field.wf(),
            !started ==> *final(self) == *old(self),
            final(self).open == old(self).open,
            final(self).error == old(self).error,
            final(self).history@ == old(self).history@,
    {
        if self.busy || expression.as_str().is_empty() {
            return false;
        }
        self.busy = true;
        self.pending_expression = expression;
        self.field = FieldState::empty();
        true
    }

    /// Finish an in-flight evaluation and record the result.
    pub fn finish(&mut self, result: Result<EvaluateResult, SessionError>) -> (r: Option<
        EvaluateEntry,
    >)
        ensures
            r matches Some(e) && entry_view(e) == evaluate_entry_for(
                old(self).pending_expression,
                result,
            ) && final(self).history@ == pushed_bounded(
                old(self).history@,
                e,
                MAX_EVAL_HISTORY as nat,
            ),
            !final(self).busy,
            final(self).pending_expression@ == Seq::<char>::empty(),
            final(self).open == old(self).open,
            final(self).field == old(self).field,
            final(self).error == old(self).error,
    {
        let mut expression = String::new();
        std::mem::swap(&mut expression, &mut self.pending_expression);
        self.busy = false;
        let entry = match result {
            Ok(r) => {
                let detail = match r.args {
                    Some(a) => a,
                    None => match r.message {
                        Some(m) => m,
                        None => String::new(),
                    },
                };
                EvaluateEntry { expression, success: r.success, detail }
            },
            Err(e) => EvaluateEntry { expression, success: false, detail: e.message },
        };
        let kept = entry.duplicate();
        self.history.push_front(kept);
        self.history.truncate(MAX_EVAL_HISTORY);
        Some(entry)
    }
}

} // verus!
