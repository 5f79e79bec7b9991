//! Events reported by the debuggee and the one-line log text for each.
use vstd::prelude::*;
use crate::app::{LogKind, LogLevel, PluginDetails};
use crate::stats::StatNode;
use crate::text::{decimal_chars, decimal_spec, extend_chars, push_str_chars, string_from};

verus! {

/// An event sent by the debuggee during a session.
#[derive(Debug)]
pub enum DebuggeeEvent {
    Protocol { version: u8, plugins: Vec<PluginDetails>, require_passcode: bool },
    Stopped { reason: String, thread: u32 },
    Thread { reason: String, thread: u32 },
    Print { message: String, log_level: LogLevel },
    Notification { message: String, log_level: LogLevel },
    Stat2 { tick: u64, stats: Vec<StatNode> },
    ProfilerCapture { capture_base_path: String, capture_data: String },
    /// `args` is the response's argument payload as JSON text.
    DebuggeeResponse {
        request_seq: u64,
        args: Option<String>,
        success: Option<bool>,
        response_message: Option<String>,
    },
    /// `body` is the response body as JSON text.
    Response {
        request_seq: u64,
        command: Option<String>,
        success: Option<bool>,
        body: Option<String>,
        error: Option<String>,
    },
    /// A diagnostics schema; only the number of tab descriptors is kept.
    Schema { descriptor_count: usize },
    Terminated { reason: Option<String> },
    Unknown { event_type: String },
}

// ── Counting stat values ──────────────────────────────────────────────

/// Number of raw values carried by `nodes` and all their descendants.
pub open spec fn total_values(nodes: Seq<StatNode>) -> nat
    decreases nodes, 0int,
{
    if nodes.len() == 0 {
        0
    } else {
        total_values(nodes.drop_last()) + node_values(nodes.last())
    }
}

/// Number of raw values carried by `node` and its descendants.
pub open spec fn node_values(node: StatNode) -> nat
    decreases node, 1int,
{
    node.value_count as nat + total_values(node.children@)
}

proof fn lemma_total_prefix(nodes: Seq<StatNode>, i: int)
    requires
        0 <= i <= nodes.len(),
    ensures
        total_values(nodes.take(i)) <= total_values(nodes),
    decreases nodes.len() - i,
{
    if i < nodes.len() {
        lemma_total_prefix(nodes, i + 1);
        assert(nodes.take(i + 1).drop_last() == nodes.take(i));
    } else {
        assert(nodes.take(i) == nodes);
    }
}

/// Count leaf stat values recursively.
pub fn count_stats(stats: &Vec<StatNode>) -> (r: usize)
    requires
        total_values(stats@) <= usize::MAX,
    ensures
        r == total_values(stats@),
    decreases stats@, 0int,
{
    let mut count: usize = 0;
    let mut i: usize = 0;
    proof {
        assert(stats@.take(0) =~= Seq::<StatNode>::empty());
    }
    while i < stats.len()
        invariant
            0 <= i <= stats@.len(),
            total_values(stats@) <= usize::MAX,
            count == total_values(stats@.take(i as int)),
        decreases stats@.len() - i,
    {
        proof {
            assert(stats@.take(i + 1).drop_last() == stats@.take(i as int));
            assert(stats@.take(i + 1).last() == stats@[i as int]);
            lemma_total_prefix(stats@, i + 1);
        }
        let n = count_node(&stats[i]);
        count = count + n;
        i += 1;
    }
    proof {
        assert(stats@.take(stats@.len() as int) == stats@);
    }
    count
}

fn count_node(node: &StatNode) -> (r: usize)
    requires
        node_values(*node) <= usize::MAX,
    ensures
        r == node_values(*node),
    decreases *node, 1int,
{
    let below = count_stats(&node.children);
    node.value_count + below
}

// ── Log classification ────────────────────────────────────────────────

/// The log kind an event is recorded under.
pub open spec fn kind_of(event: DebuggeeEvent) -> LogKind {
    match event {
        DebuggeeEvent::Protocol { .. } => LogKind::Protocol,
        DebuggeeEvent::Stopped { .. } => LogKind::Stopped,
        DebuggeeEvent::Thread { .. } => LogKind::Thread,
        DebuggeeEvent::Print { .. } => LogKind::Print,
        DebuggeeEvent::Notification { .. } => LogKind::Notification,
        DebuggeeEvent::Stat2 { .. } => LogKind::Stat,
        DebuggeeEvent::ProfilerCapture { .. } => LogKind::ProfilerCapture,
        DebuggeeEvent::Schema { .. } => LogKind::Schema,
        DebuggeeEvent::Terminated { .. } => LogKind::Terminated,
        _ => LogKind::Unknown,
    }
}

/// The protocol log level an event carries, if any.
pub open spec fn level_of(event: DebuggeeEvent) -> Option<LogLevel> {
    match event {
        DebuggeeEvent::Print { log_level, .. } => Some(log_level),
        DebuggeeEvent::Notification { log_level, .. } => Some(log_level),
        _ => None,
    }
}

/// Each debuggee event is logged under the kind named after it: protocol,
/// stopped, thread, print, notification, stat, profiler-capture, schema and
/// terminated events each under their own kind, responses and unknown
/// events under the unknown kind. Only print and notification events carry
/// a log level, their own, so the level filter applies to them alone.
pub proof fn lemma_event_kind_and_level(event: DebuggeeEvent)
    ensures
        event is Protocol <==> kind_of(event) == LogKind::Protocol,
        event is Stopped <==> kind_of(event) == LogKind::Stopped,
        event is Thread <==> kind_of(event) == LogKind::Thread,
        event is Print <==> kind_of(event) == LogKind::Print,
        event is Notification <==> kind_of(event) == LogKind::Notification,
        event is Stat2 <==> kind_of(event) == LogKind::Stat,
        event is ProfilerCapture <==> kind_of(event) == LogKind::ProfilerCapture,
        event is Schema <==> kind_of(event) == LogKind::Schema,
        event is Terminated <==> kind_of(event) == LogKind::Terminated,
        (event is DebuggeeResponse || event is Response || event is Unknown) <==> kind_of(event)
            == LogKind::Unknown,
        kind_of(event) != LogKind::System,
        event matches DebuggeeEvent::Print { log_level, .. } ==> level_of(event) == Some(log_level),
        event matches DebuggeeEvent::Notification { log_level, .. } ==> level_of(event) == Some(
            log_level,
        ),
        !(event is Print || event is Notification) ==> level_of(event) is None,
{
}

/// The log kind for `event`.
pub fn log_kind_for(event: &DebuggeeEvent) -> (r: LogKind)
    ensures
        r == kind_of(*event),
{
    match event {
        DebuggeeEvent::Protocol { .. } => LogKind::Protocol,
        DebuggeeEvent::Stopped { .. } => LogKind::Stopped,
        DebuggeeEvent::Thread { .. } => LogKind::Thread,
        DebuggeeEvent::Print { .. } => LogKind::Print,
        DebuggeeEvent::Notification { .. } => LogKind::Notification,
        DebuggeeEvent::Stat2 { .. } => LogKind::Stat,
        DebuggeeEvent::ProfilerCapture { .. } => LogKind::ProfilerCapture,
        DebuggeeEvent::Schema { .. } => LogKind::Schema,
        DebuggeeEvent::Terminated { .. } => LogKind::Terminated,
        _ => LogKind::Unknown,
    }
}

/// The protocol log level of `event`, if it carries one.
pub fn debuggee_event_log_level(event: &DebuggeeEvent) -> (r: Option<LogLevel>)
    ensures
        r == level_of(*event),
{
    match event {
        DebuggeeEvent::Print { log_level, .. } => Some(*log_level),
        DebuggeeEvent::Notification { log_level, .. } => Some(*log_level),
        _ => None,
    }
}

// ── Formatting ────────────────────────────────────────────────────────

/// The upper-case name a level is printed under.
pub open spec fn level_name(level: LogLevel) -> Seq<char> {
    match level {
        LogLevel::Verbose => "VERBOSE"@,
        LogLevel::Log => "LOG"@,
        LogLevel::Warn => "WARN"@,
        LogLevel::Error => "ERROR"@,
        LogLevel::Stop => "STOP"@,
    }
}

pub open spec fn bool_text(b: bool) -> Seq<char> {
    if b {
        "true"@
    } else {
        "false"@
    }
}

/// The outcome part of a `Response` line.
pub open spec fn response_status(success: Option<bool>, error: Option<Seq<char>>) -> Seq<char> {
    match error {
        Some(e) => "error: "@ + e,
        None => match success {
            Some(false) => "fail"@,
            _ => "ok"@,
        },
    }
}

pub open spec fn opt_chars_of(o: Option<String>) -> Option<Seq<char>> {
    match o {
        Some(s) => Some(s@),
        None => None,
    }
}

/// The one-line log text for `event`.
pub open spec fn event_text(event: DebuggeeEvent) -> Seq<char> {
    match event {
        DebuggeeEvent::Protocol { version, plugins, require_passcode } => "Protocol v"@
            + decimal_spec(version as nat) + ", "@ + decimal_spec(plugins@.len()) + " plugin(s)"@
            + if require_passcode {
            " (passcode required)"@
        } else {
            ""@
        },
        DebuggeeEvent::Stopped { reason, thread } => "Stopped: "@ + reason@ + " (thread "@
            + decimal_spec(thread as nat) + ")"@,
        DebuggeeEvent::Thread { reason, thread } => "Thread: "@ + reason@ + " (thread "@
            + decimal_spec(thread as nat) + ")"@,
        DebuggeeEvent::Print { message, log_level } => "["@ + level_name(log_level) + "] "@
            + message@,
        DebuggeeEvent::Notification { message, log_level } => "["@ + level_name(log_level)
            + "] "@ + message@,
        DebuggeeEvent::Stat2 { tick, stats } => "Stats tick="@ + decimal_spec(tick as nat)
            + " ("@ + decimal_spec(total_values(stats@)) + " value(s))"@,
        DebuggeeEvent::ProfilerCapture { capture_base_path, .. } => "Profiler capture: "@
            + capture_base_path@,
        DebuggeeEvent::DebuggeeResponse { request_seq, success, .. } => "DebuggeeResponse seq="@
            + decimal_spec(request_seq as nat) + " success="@ + bool_text(
            match success {
                Some(b) => b,
                None => true,
            },
        ),
        DebuggeeEvent::Response { request_seq, command, success, error, .. } => "Response seq="@
            + decimal_spec(request_seq as nat) + " ["@ + match command {
            Some(c) => c@,
            None => "?"@,
        } + "] "@ + response_status(success, opt_chars_of(error)),
        DebuggeeEvent::Schema { descriptor_count } => "Schema: "@ + decimal_spec(
            descriptor_count as nat,
        ) + " descriptor(s)"@,
        DebuggeeEvent::Terminated { reason } => match reason {
            Some(r) => "Terminated: "@ + r@,
            None => "Terminated"@,
        },
        DebuggeeEvent::Unknown { event_type } => "Unknown event: "@ + event_type@,
    }
}

/// Whether `event` can be formatted: the stat values of a `Stat2` event can
/// be counted in a `usize`.
pub open spec fn countable(event: DebuggeeEvent) -> bool {
    match event {
        DebuggeeEvent::Stat2 { stats, .. } => total_values(stats@) <= usize::MAX,
        _ => true,
    }
}

fn push_decimal(out: &mut Vec<char>, n: u64)
    ensures
        final(out)@ == old(out)@ + decimal_spec(n as nat),
{
    let d = decimal_chars(n);
    extend_chars(out, d.as_slice());
}

fn push_level(out: &mut Vec<char>, level: LogLevel)
    ensures
        final(out)@ == old(out)@ + level_name(level),
{
    match level {
        LogLevel::Verbose => push_str_chars(out, "VERBOSE"),
        LogLevel::Log => push_str_chars(out, "LOG"),
        LogLevel::Warn => push_str_chars(out, "WARN"),
        LogLevel::Error => push_str_chars(out, "ERROR"),
        LogLevel::Stop => push_str_chars(out, "STOP"),
    }
}

/// Format a `DebuggeeEvent` into a grounded one-line log string.
pub fn format_debuggee_event(event: &DebuggeeEvent) -> (r: String)
    requires
        countable(*event),
    ensures
        r@ == event_text(*event),
{
    let mut out: Vec<char> = Vec::new();
    match event {
        DebuggeeEvent::Protocol { version, plugins, require_passcode } => {
            push_str_chars(&mut out, "Protocol v");
            push_decimal(&mut out, *version as u64);
            push_str_chars(&mut out, ", ");
            push_decimal(&mut out, plugins.len() as u64);
            push_str_chars(&mut out, " plugin(s)");
            if *require_passcode {
                push_str_chars(&mut out, " (passcode required)");
            } else {
                push_str_chars(&mut out, "");
            }
        },
        DebuggeeEvent::Stopped { reason, thread } => {
            push_str_chars(&mut out, "Stopped: ");
            push_str_chars(&mut out, reason.as_str());
            push_str_chars(&mut out, " (thread ");
            push_decimal(&mut out, *thread as u64);
            push_str_chars(&mut out, ")");
        },
        DebuggeeEvent::Thread { reason, thread } => {
            push_str_chars(&mut out, "Thread: ");
            push_str_chars(&mut out, reason.as_str());
            push_str_chars(&mut out, " (thread ");
            push_decimal(&mut out, *thread as u64);
            push_str_chars(&mut out, ")");
        },
        DebuggeeEvent::Print { message, log_level } => {
            push_str_chars(&mut out, "[");
            push_level(&mut out, *log_level);
            push_str_chars(&mut out, "] ");
            push_str_chars(&mut out, message.as_str());
        },
        DebuggeeEvent::Notification { message, log_level } => {
            push_str_chars(&mut out, "[");
            push_level(&mut out, *log_level);
            push_str_chars(&mut out, "] ");
            push_str_chars(&mut out, message.as_str());
        },
        DebuggeeEvent::Stat2 { tick, stats } => {
            let count = count_stats(stats);
            push_str_chars(&mut out, "Stats tick=");
            push_decimal(&mut out, *tick);
            push_str_chars(&mut out, " (");
            push_decimal(&mut out, count as u64);
            push_str_chars(&mut out, " value(s))");
        },
        DebuggeeEvent::ProfilerCapture { capture_base_path, .. } => {
            push_str_chars(&mut out, "Profiler capture: ");
            push_str_chars(&mut out, capture_base_path.as_str());
        },
        DebuggeeEvent::DebuggeeResponse { request_seq, success, .. } => {
            push_str_chars(&mut out, "DebuggeeResponse seq=");
            push_decimal(&mut out, *request_seq);
            push_str_chars(&mut out, " success=");
            let ok = match success {
                Some(b) => *b,
                None => true,
            };
            if ok {
                push_str_chars(&mut out, "true");
            } else {
                push_str_chars(&mut out, "false");
            }
        },
        DebuggeeEvent::Response { request_seq, command, success, error, .. } => {
            push_str_chars(&mut out, "Response seq=");
            push_decimal(&mut out, *request_seq);
            push_str_chars(&mut out, " [");
            match command {
                Some(c) => push_str_chars(&mut out, c.as_str()),
                None => push_str_chars(&mut out, "?"),
            }
            push_str_chars(&mut out, "] ");
            match error {
                Some(e) => {
                    push_str_chars(&mut out, "error: ");
                    push_str_chars(&mut out, e.as_str());
                },
                None => match success {
                    Some(false) => push_str_chars(&mut out, "fail"),
                    _ => push_str_chars(&mut out, "ok"),
                },
            }
        },
        DebuggeeEvent::Schema { descriptor_count } => {
            push_str_chars(&mut out, "Schema: ");
            push_decimal(&mut out, *descriptor_count as u64);
            push_str_chars(&mut out, " descriptor(s)");
        },
        DebuggeeEvent::Terminated { reason } => {
            match reason {
                Some(r) => {
                    push_str_chars(&mut out, "Terminated: ");
                    push_str_chars(&mut out, r.as_str());
                },
                None => push_str_chars(&mut out, "Terminated"),
            }
        },
        DebuggeeEvent::Unknown { event_type } => {
            push_str_chars(&mut out, "Unknown event: ");
            push_str_chars(&mut out, event_type.as_str());
        },
    }
    proof {
        assert(Seq::<char>::empty() + event_text(*event) =~= event_text(*event));
    }
    let r = string_from(out.as_slice());
    r
}


// ── Session ───────────────────────────────────────────────────────────

/// What the debuggee reported when a connection was established.
#[derive(Debug, Clone)]
pub struct HandshakeInfo {
    pub version: u8,
    pub plugins: Vec<PluginDetails>,
    pub require_passcode: bool,
}

/// Something the session reports outside of request/response traffic.
#[derive(Debug)]
pub enum SessionEvent {
    Debuggee(DebuggeeEvent),
    TargetSelectionRequired { plugins: Vec<PluginDetails> },
    Disconnected,
    Terminated { reason: Option<String> },
}

} // verus!
