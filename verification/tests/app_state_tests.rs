use mc_tui::app::{
    CommandInput, ConnectionState, EvaluateResult, FilterPopup, FilterToggle, Focus, HelpPopup,
    LogEntry, LogFilterState, LogKind, LogKindFilter, LogLevel, LogLevelFilter, LogState, Mode,
    PluginDetails, SearchInput, SessionError, Tab, MAX_COMMAND_HISTORY, MAX_EVAL_HISTORY,
    MAX_LOG_ENTRIES,
};
use mc_tui::app_state::{App, PendingPoll};
use mc_tui::config::AppConfig;
use mc_tui::events::{format_debuggee_event, DebuggeeEvent, HandshakeInfo, SessionEvent};
use mc_tui::fields::FieldState;
use mc_tui::stats::{StatNode, StatSeries};

fn make_app() -> App {
    App::new("127.0.0.1".into(), 19144, None, None)
}

/// A stat node carrying the given numeric values (the last one is kept).
fn make_stat_model(name: &str, values: Vec<f64>, children: Vec<StatNode>) -> StatNode {
    StatNode {
        name: name.into(),
        value: values.last().map(|v| v.to_bits()),
        value_count: values.len(),
        children,
    }
}

fn series<'a>(app: &'a App, path: &str) -> &'a StatSeries {
    app.stats.collection().iter().find(|s| s.path == path).unwrap()
}

fn values_of(s: &StatSeries) -> Vec<f64> {
    s.values.iter().map(|b| f64::from_bits(*b)).collect()
}

fn no_handshake() -> HandshakeInfo {
    HandshakeInfo { version: 9, plugins: vec![], require_passcode: false }
}

#[test]
fn add_log_respects_max_entries() {
    let mut app = make_app();

    for i in 0..MAX_LOG_ENTRIES + 10 {
        app.add_log(format!("entry {i}"));
    }

    assert_eq!(app.event_log.len(), MAX_LOG_ENTRIES);
    assert!(app
        .event_log
        .back()
        .unwrap()
        .message
        .contains(&format!("entry {}", MAX_LOG_ENTRIES + 9)));
}

#[test]
fn initial_state_is_idle() {
    let app = make_app();
    assert_eq!(app.state, ConnectionState::Idle);
    assert!(app.plugin_selection.is_none());
    assert_eq!(app.tab, Tab::Log);
    assert_eq!(app.focus, Focus::Main);
    assert!(!app.show_sidebar);
}

#[test]
fn default_form_values_hydrated_from_cli() {
    let app = App::new("10.0.0.1".into(), 19132, Some("my-uuid".into()), Some("secret".into()));
    assert_eq!(app.sidebar.host.value, "10.0.0.1");
    assert_eq!(app.sidebar.port.value, "19132");
    assert_eq!(app.sidebar.target_uuid.value, "my-uuid");
    assert_eq!(app.sidebar.passcode.value, "secret");
}

#[test]
fn focus_cycles_through_visible_targets() {
    let mut app = make_app();
    app.set_last_known_size(80, 24);
    app.show_sidebar = true;

    let targets = app.visible_focus_targets();
    assert!(targets.contains(&Focus::Main));
    assert!(targets.contains(&Focus::SidebarModeListen));
    assert!(targets.contains(&Focus::SidebarPort));

    app.focus = Focus::Main;
    app.cycle_focus(true);
    assert_eq!(app.focus, Focus::SidebarModeListen);
    app.cycle_focus(false);
    assert_eq!(app.focus, Focus::Main);
}

#[test]
fn host_field_hidden_in_listen_mode() {
    let mut app = make_app();
    app.set_last_known_size(120, 30);
    app.show_sidebar = false; // wide mode makes it visible anyway
    app.set_mode(Mode::Listen);

    let targets = app.visible_focus_targets();
    assert!(!targets.contains(&Focus::SidebarHost));

    app.set_mode(Mode::Connect);
    let targets = app.visible_focus_targets();
    assert!(targets.contains(&Focus::SidebarHost));
}

#[test]
fn advanced_fields_hidden_when_closed() {
    let mut app = make_app();
    app.set_last_known_size(120, 30);
    app.sidebar.advanced_open = false;

    let targets = app.visible_focus_targets();
    assert!(!targets.contains(&Focus::SidebarTargetUuid));
    assert!(!targets.contains(&Focus::SidebarPasscode));

    app.toggle_advanced();
    let targets = app.visible_focus_targets();
    assert!(targets.contains(&Focus::SidebarTargetUuid));
    assert!(targets.contains(&Focus::SidebarPasscode));
}

#[test]
fn toggle_sidebar_opens_and_focuses() {
    let mut app = make_app();
    assert!(!app.show_sidebar);
    assert_eq!(app.focus, Focus::Main);

    app.toggle_sidebar();
    assert!(app.show_sidebar);
    assert_eq!(app.focus, Focus::SidebarModeListen);

    app.close_sidebar();
    assert!(!app.show_sidebar);
    assert_eq!(app.focus, Focus::Main);
}

#[test]
fn insert_and_backspace() {
    let mut app = make_app();
    app.focus = Focus::SidebarHost;
    app.sidebar.host = FieldState::new("".into());

    app.insert_char('a');
    app.insert_char('b');
    app.insert_char('c');
    assert_eq!(app.sidebar.host.value, "abc");
    assert_eq!(app.sidebar.host.cursor, 3);

    app.backspace();
    assert_eq!(app.sidebar.host.value, "ab");
    assert_eq!(app.sidebar.host.cursor, 2);
}

#[test]
fn cursor_left_right_home_end() {
    let mut app = make_app();
    app.focus = Focus::SidebarHost;
    app.sidebar.host = FieldState::new("abc".into());

    app.move_cursor_home();
    app.insert_char('X');
    assert_eq!(app.sidebar.host.value, "Xabc");

    app.move_cursor_end();
    app.insert_char('Y');
    assert_eq!(app.sidebar.host.value, "XabcY");

    app.move_cursor(-2);
    app.insert_char('Z');
    assert_eq!(app.sidebar.host.value, "XabZcY");
}

#[test]
fn port_field_accepts_only_digits() {
    let mut app = make_app();
    app.focus = Focus::SidebarPort;
    app.sidebar.port = FieldState::new("".into());

    app.insert_char('1');
    app.insert_char('a');
    app.insert_char('2');
    assert_eq!(app.sidebar.port.value, "12");
}

#[test]
fn field_editing_is_unicode_safe() {
    let mut app = make_app();
    app.focus = Focus::SidebarPasscode;
    app.sidebar.passcode = FieldState::new("".into());

    // Emoji are multi-byte; cursor must advance by whole characters.
    app.insert_char('🔑');
    app.insert_char('é');
    app.insert_char('X');
    assert_eq!(app.sidebar.passcode.value, "🔑éX");
    assert_eq!(app.sidebar.passcode.cursor, 7);

    // Left moves one whole character (back over X).
    app.move_cursor(-1);
    assert_eq!(app.sidebar.passcode.cursor, 6);

    // Backspace removes the preceding whole character (é), not a byte.
    app.backspace();
    assert_eq!(app.sidebar.passcode.value, "🔑X");
    assert_eq!(app.sidebar.passcode.cursor, 4);

    // Delete removes the character under the cursor (X).
    app.delete_char();
    assert_eq!(app.sidebar.passcode.value, "🔑");
    assert_eq!(app.sidebar.passcode.cursor, 4);
}

#[test]
fn invalid_port_logs_error_and_stays_idle() {
    let mut app = make_app();
    app.sidebar.port.value = "not-a-port".into();

    assert_eq!(app.sidebar.port_u16(), None);

    app.start_connect_from_sidebar();
    assert_eq!(app.state, ConnectionState::Idle);
    assert!(
        app.event_log.iter().any(|e| e.message.contains("Invalid port")),
        "should log invalid port error"
    );

    app.start_listen_from_sidebar();
    assert_eq!(app.state, ConnectionState::Idle);
}

#[test]
fn format_protocol_event() {
    let event = DebuggeeEvent::Protocol {
        version: 9,
        plugins: vec![PluginDetails { name: "Test".into(), module_uuid: "uuid".into() }],
        require_passcode: true,
    };
    let s = format_debuggee_event(&event);
    assert_eq!(s, "Protocol v9, 1 plugin(s) (passcode required)");
}

#[test]
fn format_stopped_event() {
    let event = DebuggeeEvent::Stopped { reason: "breakpoint".into(), thread: 0 };
    let s = format_debuggee_event(&event);
    assert_eq!(s, "Stopped: breakpoint (thread 0)");
}

#[test]
fn format_print_event() {
    let event = DebuggeeEvent::Print { message: "hello".into(), log_level: LogLevel::Warn };
    let s = format_debuggee_event(&event);
    assert_eq!(s, "[WARN] hello");
}

#[test]
fn format_notification_event() {
    let event = DebuggeeEvent::Notification { message: "notify!".into(), log_level: LogLevel::Error };
    let s = format_debuggee_event(&event);
    assert_eq!(s, "[ERROR] notify!");
}

#[test]
fn format_stat2_event() {
    let event = DebuggeeEvent::Stat2 { tick: 42, stats: vec![make_stat_model("cpu", vec![1.0], vec![])] };
    let s = format_debuggee_event(&event);
    assert_eq!(s, "Stats tick=42 (1 value(s))");
}

#[test]
fn format_terminated_event() {
    let event = DebuggeeEvent::Terminated { reason: Some("game over".into()) };
    let s = format_debuggee_event(&event);
    assert_eq!(s, "Terminated: game over");
}

#[test]
fn format_terminated_no_reason() {
    let event = DebuggeeEvent::Terminated { reason: None };
    let s = format_debuggee_event(&event);
    assert_eq!(s, "Terminated");
}

#[test]
fn format_debuggee_response() {
    let event = DebuggeeEvent::DebuggeeResponse {
        request_seq: 5,
        args: None,
        success: Some(true),
        response_message: None,
    };
    let s = format_debuggee_event(&event);
    assert_eq!(s, "DebuggeeResponse seq=5 success=true");
}

#[test]
fn format_response() {
    let event = DebuggeeEvent::Response {
        request_seq: 3,
        command: Some("next".into()),
        success: Some(true),
        body: None,
        error: None,
    };
    let s = format_debuggee_event(&event);
    assert_eq!(s, "Response seq=3 [next] ok");
}

#[test]
fn format_response_with_error() {
    let event = DebuggeeEvent::Response {
        request_seq: 4,
        command: None,
        success: Some(false),
        body: None,
        error: Some("not found".into()),
    };
    let s = format_debuggee_event(&event);
    assert_eq!(s, "Response seq=4 [?] error: not found");
}

#[test]
fn format_schema_event() {
    // One diagnostics tab descriptor ("Timing").
    let event = DebuggeeEvent::Schema { descriptor_count: 1 };
    let s = format_debuggee_event(&event);
    assert_eq!(s, "Schema: 1 descriptor(s)");
}

#[test]
fn format_profiler_capture() {
    let event = DebuggeeEvent::ProfilerCapture {
        capture_base_path: "/tmp/cap".into(),
        capture_data: "binary".into(),
    };
    let s = format_debuggee_event(&event);
    assert_eq!(s, "Profiler capture: /tmp/cap");
}

#[test]
fn format_unknown() {
    let event = DebuggeeEvent::Unknown { event_type: "FooBar".into() };
    let s = format_debuggee_event(&event);
    assert_eq!(s, "Unknown event: FooBar");
}

#[test]
fn log_follow_auto_scrolls_on_new_events() {
    let mut app = make_app();

    for i in 0..5 {
        app.add_log(format!("entry {i}"));
    }

    assert_eq!(app.log_state.selected, Some(4));
    assert!(app.log_state.follow);

    app.log_state.scroll(-2, app.event_log.len());
    assert_eq!(app.log_state.selected, Some(2));
    assert!(!app.log_state.follow);

    // While not following, new events do not steal the viewport.
    app.add_log("new entry".into());
    assert_eq!(app.log_state.selected, Some(2));
    assert!(!app.log_state.follow);

    // Re-enabling follow jumps to the newest entry.
    app.log_state.bottom(app.event_log.len());
    assert_eq!(app.log_state.selected, Some(5));
    assert!(app.log_state.follow);
}

#[test]
fn log_top_bottom_keys() {
    let mut app = make_app();

    for i in 0..10 {
        app.add_log(format!("entry {i}"));
    }

    app.log_state.top();
    assert_eq!(app.log_state.selected, Some(0));
    assert!(!app.log_state.follow);

    app.log_state.bottom(app.event_log.len());
    assert_eq!(app.log_state.selected, Some(9));
    assert!(app.log_state.follow);
}

#[test]
fn log_offset_keeps_selection_visible() {
    let mut state = LogState::default();
    state.bottom(100);
    state.update_offset(10, 100);
    assert_eq!(state.offset, 90);

    state.scroll(-40, 100);
    state.update_offset(10, 100);
    assert_eq!(state.selected, Some(59));
    assert_eq!(state.offset, 59);
}

#[test]
fn target_selection_opens_popup() {
    let mut app = make_app();

    app.handle_session_event(SessionEvent::TargetSelectionRequired {
        plugins: vec![
            PluginDetails { name: "A".into(), module_uuid: "a".into() },
            PluginDetails { name: "B".into(), module_uuid: "b".into() },
        ],
    });

    assert!(app.plugin_selection.is_some());
    assert_eq!(app.plugin_selection.as_ref().unwrap().plugins.len(), 2);
    assert_eq!(app.plugin_selection.as_ref().unwrap().selected, 0);
}

#[test]
fn disconnected_event_updates_state() {
    let mut app = make_app();

    app.handle_session_event(SessionEvent::Disconnected);
    assert_eq!(app.state, ConnectionState::Disconnected);
}

#[test]
fn terminated_event_updates_state() {
    let mut app = make_app();

    app.handle_session_event(SessionEvent::Terminated { reason: Some("done".into()) });
    assert_eq!(app.state, ConnectionState::Disconnected);
}

#[test]
fn debuggee_event_adds_log_entry() {
    let mut app = make_app();

    app.handle_session_event(SessionEvent::Debuggee(DebuggeeEvent::Print {
        message: "test".into(),
        log_level: LogLevel::Log,
    }));

    assert_eq!(app.event_log.len(), 1);
    assert!(app.event_log[0].message.contains("test"));
    assert_eq!(app.event_log[0].kind, LogKind::Print);
}

#[test]
fn stopped_event_sets_stopped_state() {
    let mut app = make_app();

    app.handle_session_event(SessionEvent::Debuggee(DebuggeeEvent::Stopped {
        reason: "breakpoint".into(),
        thread: 0,
    }));

    assert!(app.stopped);
    assert_eq!(app.stop_reason, "breakpoint");
    assert_eq!(app.stopped_thread_id, Some(0));
}

#[test]
fn thread_exited_matching_thread_clears_stopped() {
    let mut app = make_app();

    app.handle_session_event(SessionEvent::Debuggee(DebuggeeEvent::Stopped {
        reason: "breakpoint".into(),
        thread: 7,
    }));
    assert!(app.stopped);

    app.handle_session_event(SessionEvent::Debuggee(DebuggeeEvent::Thread {
        reason: "exited".into(),
        thread: 7,
    }));

    assert!(!app.stopped);
    assert!(app.stopped_thread_id.is_none());
}

#[test]
fn thread_exited_other_thread_keeps_stopped() {
    let mut app = make_app();

    app.handle_session_event(SessionEvent::Debuggee(DebuggeeEvent::Stopped {
        reason: "breakpoint".into(),
        thread: 7,
    }));

    app.handle_session_event(SessionEvent::Debuggee(DebuggeeEvent::Thread {
        reason: "exited".into(),
        thread: 3,
    }));

    assert!(app.stopped);
    assert_eq!(app.stopped_thread_id, Some(7));
}

#[test]
fn new_connection_clears_stopped() {
    let mut app = make_app();
    app.handle_session_event(SessionEvent::Debuggee(DebuggeeEvent::Stopped {
        reason: "breakpoint".into(),
        thread: 0,
    }));
    app.start_connect("127.0.0.1".into(), 19144, None, None);
    assert!(!app.stopped);
    assert!(app.stopped_thread_id.is_none());
}

#[test]
fn control_enablement_reflects_connection_and_stopped_state() {
    let mut app = make_app();

    assert!(!app.can_pause());
    assert!(!app.can_continue());
    assert!(!app.can_step());

    app.state = ConnectionState::Connected { version: 9, plugin_count: 1 };
    assert!(app.can_pause());
    assert!(!app.can_continue());
    assert!(!app.can_step());

    app.handle_session_event(SessionEvent::Debuggee(DebuggeeEvent::Stopped {
        reason: "breakpoint".into(),
        thread: 0,
    }));
    assert!(!app.can_pause());
    assert!(app.can_continue());
    assert!(app.can_step());

    app.busy = true;
    assert!(!app.can_continue());
    assert!(!app.can_step());

    app.busy = false;
    app.evaluate_input.busy = true;
    assert!(app.is_debug_busy());
    assert!(!app.can_pause());
    assert!(!app.can_continue());
    assert!(!app.can_step());
}

#[test]
fn command_history_dedup_and_bounds() {
    let mut input = CommandInput::new();
    input.push_history("say hi".into());
    input.push_history("kill @e".into());
    input.push_history("say hi".into());
    input.push_history("time set day".into());

    assert_eq!(input.history.len(), 3);
    assert_eq!(input.history[0], "time set day");
    assert_eq!(input.history[1], "say hi");
    assert_eq!(input.history[2], "kill @e");

    for i in 0..12 {
        input.push_history(format!("cmd{i}"));
    }
    assert_eq!(input.history.len(), MAX_COMMAND_HISTORY);
}

#[test]
fn command_history_navigation() {
    let mut input = CommandInput::new();
    input.push_history("oldest".into());
    input.push_history("newest".into());

    input.cycle_history(true);
    assert_eq!(input.field.value, "newest");
    input.cycle_history(true);
    assert_eq!(input.field.value, "oldest");
    input.cycle_history(false);
    assert_eq!(input.field.value, "newest");
    input.cycle_history(false);
    assert!(input.field.value.is_empty());
}

#[test]
fn evaluate_history_bounds() {
    let mut app = make_app();

    for i in 0..15 {
        app.evaluate_input.pending_expression = format!("expr{i}");
        let result = Ok(EvaluateResult { success: true, args: Some(format!("{i}")), message: None });
        app.evaluate_input.finish(result);
    }

    assert_eq!(app.evaluate_input.history.len(), MAX_EVAL_HISTORY);
    // Most recent submissions are at the front.
    assert_eq!(app.evaluate_input.history[0].expression, "expr14");
}

#[test]
fn session_reset_drops_pending_evaluate_and_preserves_history() {
    let mut app = make_app();
    app.evaluate_input.pending_expression = "completed".into();
    app.evaluate_input.finish(Ok(EvaluateResult {
        success: true,
        args: None,
        message: Some("ok".into()),
    }));
    let history_len = app.evaluate_input.history.len();

    app.evaluate_input.start("stale".into());
    app.handshake = Some(no_handshake());
    app.stopped = true;
    app.stopped_thread_id = Some(7);

    app.clear_session_transients();

    assert!(app.handshake.is_none());
    assert!(!app.stopped);
    assert!(app.stopped_thread_id.is_none());
    assert!(!app.evaluate_input.busy);
    assert!(app.evaluate_input.pending_expression.is_empty());
    assert_eq!(app.evaluate_input.history.len(), history_len);
}

#[test]
fn closed_evaluate_receiver_records_and_logs_failure() {
    let mut app = make_app();
    app.evaluate_input.start("1 + 1".into());

    // The evaluation's task ended without an answer.
    app.receive_evaluate(Err(SessionError {
        cancelled: false,
        message: "connection task dropped".into(),
    }));

    assert!(!app.evaluate_input.busy);
    assert_eq!(app.evaluate_input.history.len(), 1);
    assert!(!app.evaluate_input.history[0].success);
    assert!(app
        .event_log
        .iter()
        .any(|entry| entry.message.contains("Evaluate failed: 1 + 1")));
}

#[test]
fn manual_disconnect_from_connected_goes_to_idle() {
    // Manual disconnect ('x') transitions Connected → Idle so the user
    // can immediately reconnect with l/c.
    let mut app = make_app();
    app.state = ConnectionState::Connected { version: 9, plugin_count: 2 };

    // Simulate the synchronous portion of handle_key for 'x'
    app.state = ConnectionState::Idle;
    app.add_log("Disconnected.".into());

    assert_eq!(app.state, ConnectionState::Idle);
    app.start_connect("10.0.0.1".into(), 19144, None, None);
    assert_eq!(app.state, ConnectionState::Pending);
}

#[test]
fn session_event_disconnect_stays_disconnected() {
    let mut app = make_app();
    app.state = ConnectionState::Connected { version: 9, plugin_count: 2 };
    app.handshake = Some(no_handshake());

    app.handle_session_event(SessionEvent::Disconnected);
    assert_eq!(app.state, ConnectionState::Disconnected);
    assert!(app.handshake.is_none());

    // Terminated also transitions to Disconnected
    app.state = ConnectionState::Connected { version: 9, plugin_count: 2 };
    app.handshake = Some(no_handshake());
    app.handle_session_event(SessionEvent::Terminated { reason: None });
    assert_eq!(app.state, ConnectionState::Disconnected);
    assert!(app.handshake.is_none());
}

#[test]
fn manual_disconnect_allows_reconnect() {
    let mut app = make_app();
    app.state = ConnectionState::Connected { version: 9, plugin_count: 2 };

    // Manual disconnect → Idle
    app.state = ConnectionState::Idle;
    assert_eq!(app.state, ConnectionState::Idle);

    // Can start connect
    app.start_connect("127.0.0.1".into(), 19144, None, None);
    assert_eq!(app.state, ConnectionState::Pending);

    // Can also start listen (separate app for clean state)
    let mut app2 = make_app();
    app2.state = ConnectionState::Connected { version: 9, plugin_count: 1 };
    app2.state = ConnectionState::Idle; // manual disconnect
    app2.start_listen(19144, None, None);
    assert_eq!(app2.state, ConnectionState::Pending);
}

#[test]
fn tab_switching_changes_active_tab() {
    let mut app = make_app();

    app.set_tab(Tab::Stats);
    assert_eq!(app.tab, Tab::Stats);

    app.set_tab(Tab::Log);
    assert_eq!(app.tab, Tab::Log);
}

#[test]
fn help_popup_toggles() {
    let mut app = make_app();

    assert_eq!(app.help_popup, HelpPopup::Hidden);
    app.toggle_help();
    assert_eq!(app.help_popup, HelpPopup::Visible);
    app.toggle_help();
    assert_eq!(app.help_popup, HelpPopup::Hidden);
}

#[test]
fn compact_mode_detected_by_size() {
    let mut app = make_app();

    app.set_last_known_size(120, 30);
    assert!(!app.compact());

    app.set_last_known_size(60, 24);
    assert!(app.compact());

    app.set_last_known_size(80, 18);
    assert!(app.compact());
}

#[test]
fn sidebar_visible_in_wide_or_overlay() {
    let mut app = make_app();

    app.set_last_known_size(80, 24);
    assert!(!app.is_sidebar_visible());

    app.toggle_sidebar();
    assert!(app.is_sidebar_visible());
    app.close_sidebar();
    assert!(!app.is_sidebar_visible());

    app.set_last_known_size(120, 30);
    assert!(app.is_sidebar_visible());
}

#[test]
fn scroll_log_methods_update_state() {
    let mut app = make_app();
    for i in 0..20 {
        app.add_log(format!("entry {i}"));
    }

    app.scroll_log_top();
    assert_eq!(app.log_state.selected, Some(0));
    assert!(!app.log_state.follow);

    app.scroll_log_bottom();
    assert_eq!(app.log_state.selected, Some(19));
    assert!(app.log_state.follow);

    app.scroll_log_up(5);
    assert_eq!(app.log_state.selected, Some(14));

    app.scroll_log_down(3);
    assert_eq!(app.log_state.selected, Some(17));

    app.scroll_log_page_up(10);
    assert_eq!(app.log_state.selected, Some(7));

    app.scroll_log_page_down(10);
    assert_eq!(app.log_state.selected, Some(17));
}

#[test]
fn advanced_toggle_shows_hidden_fields() {
    let mut app = make_app();
    app.set_last_known_size(120, 30);

    assert!(!app.sidebar.advanced_open);
    let targets_before = app.visible_focus_targets();
    assert!(!targets_before.contains(&Focus::SidebarTargetUuid));

    app.toggle_advanced();
    assert!(app.sidebar.advanced_open);
    let targets_after = app.visible_focus_targets();
    assert!(targets_after.contains(&Focus::SidebarTargetUuid));
    assert!(targets_after.contains(&Focus::SidebarPasscode));
}

#[test]
fn cancel_pending_reconciles_buffered_ok() {
    let mut app = make_app();
    app.state = ConnectionState::Pending;

    // The attempt had already succeeded when it was cancelled.
    app.cancel_pending_with_result(PendingPoll::Ready(Ok(no_handshake())));

    assert_eq!(app.state, ConnectionState::Idle);
    assert!(
        app.event_log.iter().any(|e| e.message.contains("Connected")),
        "should log connection from buffered result"
    );
    assert!(
        app.event_log.iter().any(|e| e.message.contains("Disconnected")),
        "should log disconnection after cancel with buffered ok"
    );
}

#[test]
fn cancel_pending_empty_receiver() {
    let mut app = App::new(
        "127.0.0.1".into(),
        19144,
        Some("old-target".into()),
        Some("old-pass".into()),
    );
    app.pending_target_uuid = Some("attempt-target".into());
    app.pending_passcode = Some("attempt-pass".into());
    app.state = ConnectionState::Pending;

    // The attempt was still running.
    app.cancel_pending_with_result(PendingPoll::Empty);

    assert_eq!(app.state, ConnectionState::Idle);
    assert!(app.pending_target_uuid.is_none());
    assert!(app.pending_passcode.is_none());
    assert_eq!(app.persisted_target_uuid.as_deref(), Some("old-target"));
    assert_eq!(app.persisted_passcode.as_deref(), Some("old-pass"));
    assert!(
        app.event_log.iter().any(|e| e.message.contains("cancelled")),
        "should log cancellation"
    );
}

#[test]
fn cancel_pending_closed_receiver() {
    let mut app = make_app();
    app.pending_target_uuid = Some("attempt-target".into());
    app.pending_passcode = Some("attempt-pass".into());
    app.state = ConnectionState::Pending;

    // The attempt's task ended without sending a result.
    app.cancel_pending_with_result(PendingPoll::Closed);

    assert_eq!(app.state, ConnectionState::Idle);
    assert!(app.pending_target_uuid.is_none());
    assert!(app.pending_passcode.is_none());
    assert!(
        app.event_log.iter().any(|e| e.message.contains("unexpected")),
        "should log unexpected-task error"
    );
}

#[test]
fn cancel_pending_without_receiver_clears_snapshots() {
    let mut app = App::new(
        "127.0.0.1".into(),
        19144,
        Some("old-target".into()),
        Some("old-pass".into()),
    );
    app.pending_target_uuid = Some("attempt-target".into());
    app.pending_passcode = Some("attempt-pass".into());
    app.state = ConnectionState::Pending;

    app.cancel_pending_with_result(PendingPoll::NoReceiver);

    assert!(app.pending_target_uuid.is_none());
    assert!(app.pending_passcode.is_none());
    assert_eq!(app.persisted_target_uuid.as_deref(), Some("old-target"));
    assert_eq!(app.persisted_passcode.as_deref(), Some("old-pass"));
}

#[test]
fn log_filter_allows_by_kind() {
    let mut filter = LogFilterState::show_all();
    let entry = LogEntry::event(LogKind::Print, "hello".into());
    assert!(filter.allows(&entry));

    filter.kinds.print = false;
    assert!(!filter.allows(&entry));
}

#[test]
fn log_filter_allows_by_level() {
    let mut filter = LogFilterState::show_all();
    let entry = LogEntry::event_with_level(LogKind::Print, "hello".into(), Some(LogLevel::Warn));
    assert!(filter.allows(&entry));

    filter.levels.warn = false;
    assert!(!filter.allows(&entry));
}

#[test]
fn log_filter_allows_by_search() {
    let mut filter = LogFilterState::show_all();
    let entry = LogEntry::event(LogKind::Stopped, "breakpoint hit".into());
    assert!(filter.allows(&entry));

    filter.search = "breakpoint".into();
    assert!(filter.allows(&entry));

    filter.search = "missing".into();
    assert!(!filter.allows(&entry));
}

#[test]
fn log_filter_search_matches_kind_label() {
    let mut filter = LogFilterState::show_all();
    filter.search = "stopped".into();
    let entry = LogEntry::event(LogKind::Stopped, " unrelated ".into());
    assert!(filter.allows(&entry));
}

#[test]
fn filter_identity_when_all_enabled_and_empty_search() {
    let filter = LogFilterState::show_all();
    assert!(filter.is_identity());

    let mut filter = LogFilterState::show_all();
    filter.search = "x".into();
    assert!(!filter.is_identity());
}

#[test]
fn filtered_indices_follow_kind_filter() {
    let mut app = make_app();
    app.add_log("system one".into());
    app.handle_session_event(SessionEvent::Debuggee(DebuggeeEvent::Print {
        message: "print one".into(),
        log_level: LogLevel::Log,
    }));
    app.add_log("system two".into());

    assert_eq!(app.filtered_log_indices.len(), 3);

    app.log_filter.kinds.print = false;
    app.rebuild_filtered_log_indices();

    assert_eq!(app.filtered_log_indices.len(), 2);
    assert_eq!(app.event_log[app.filtered_log_indices[0]].message, "system one");
    assert_eq!(app.event_log[app.filtered_log_indices[1]].message, "system two");
    // Raw log is untouched.
    assert_eq!(app.event_log.len(), 3);
}

#[test]
fn filtered_indices_follow_level_filter() {
    let mut app = make_app();
    app.handle_session_event(SessionEvent::Debuggee(DebuggeeEvent::Print {
        message: "log".into(),
        log_level: LogLevel::Log,
    }));
    app.handle_session_event(SessionEvent::Debuggee(DebuggeeEvent::Print {
        message: "warn".into(),
        log_level: LogLevel::Warn,
    }));
    app.handle_session_event(SessionEvent::Debuggee(DebuggeeEvent::Print {
        message: "error".into(),
        log_level: LogLevel::Error,
    }));

    app.log_filter.levels.log = false;
    app.log_filter.levels.warn = false;
    app.rebuild_filtered_log_indices();

    assert_eq!(app.filtered_log_indices.len(), 1);
    assert!(app.event_log[app.filtered_log_indices[0]].message.contains("error"));
    assert_eq!(app.event_log.len(), 3);
}

#[test]
fn filtered_indices_follow_search() {
    let mut app = make_app();
    app.add_log("alpha".into());
    app.add_log("beta".into());
    app.add_log("gamma".into());

    app.log_filter.search = "beta".into();
    app.rebuild_filtered_log_indices();

    assert_eq!(app.filtered_log_indices.len(), 1);
    assert_eq!(app.event_log[app.filtered_log_indices[0]].message, "beta");
}

#[test]
fn reset_filters_restores_full_view() {
    let mut app = make_app();
    app.add_log("alpha".into());
    app.add_log("beta".into());

    app.log_filter.search = "beta".into();
    app.log_filter.kinds.system = false;
    app.rebuild_filtered_log_indices();
    assert_eq!(app.filtered_log_indices.len(), 0);

    app.reset_filters();
    assert!(app.log_filter.is_identity());
    assert_eq!(app.filtered_log_indices.len(), 2);
    assert_eq!(app.event_log.len(), 2);
}

#[test]
fn follow_jumps_to_new_filtered_event() {
    let mut app = make_app();
    app.add_log("first".into());
    app.add_log("second".into());
    app.log_state.scroll(-1, app.filtered_log_indices.len());
    assert!(!app.log_state.follow);
    assert_eq!(app.log_state.selected, Some(0));

    app.add_log("third".into());
    assert!(!app.log_state.follow);
    assert_eq!(app.log_state.selected, Some(0));

    app.log_state.bottom(app.filtered_log_indices.len());
    app.add_log("fourth".into());
    assert!(app.log_state.follow);
    assert_eq!(app.log_state.selected, Some(3));
}

#[test]
fn ring_buffer_pop_keeps_filtered_indices_consistent() {
    let mut app = make_app();
    for i in 0..MAX_LOG_ENTRIES {
        app.add_log(format!("entry {i}"));
    }
    let first_filtered = app.filtered_log_indices[0];
    assert_eq!(app.event_log[first_filtered].message, "entry 0");

    app.add_log("newest".into());
    // The front entry was dropped, so the filtered index that used to
    // point to entry 0 now points to entry 1.
    let first_filtered = app.filtered_log_indices[0];
    assert_eq!(app.event_log[first_filtered].message, "entry 1");
}

#[test]
fn filter_popup_toggle_changes_state() {
    let mut popup = FilterPopup::new();
    let mut filter = LogFilterState::show_all();
    popup.open();
    assert_eq!(popup.selected, 0);

    popup.scroll_down();
    assert_eq!(popup.selected, 1);

    let toggled = popup.toggle_selected(&mut filter);
    assert_eq!(toggled, Some(FilterToggle::Kind(LogKind::Protocol, false)));
    assert!(!filter.kinds.protocol);
}

#[test]
fn filter_popup_can_toggle_levels() {
    let mut popup = FilterPopup::new();
    let mut filter = LogFilterState::show_all();
    popup.open();
    popup.selected = LogKind::all().len() + 1; // Warn

    popup.toggle_selected(&mut filter);
    assert!(!filter.levels.warn);
}

#[test]
fn search_input_open_close() {
    let mut input = SearchInput::new();
    assert!(!input.open);
    input.open();
    assert!(input.open);
    input.field.insert('x');
    input.close();
    assert!(!input.open);
    input.reset_transient();
    assert!(input.field.value.is_empty());
}

#[test]
fn apply_config_sets_filter_state() {
    let mut app = make_app();

    let cfg = AppConfig {
        known_plugins: vec![],
        last_target_uuid: None,
        passcode: None,
        search: "test-filter".into(),
        kinds: LogKindFilter { print: false, ..LogKindFilter::all_enabled() },
        levels: LogLevelFilter { warn: false, ..LogLevelFilter::all_enabled() },
    };

    app.apply_config(&cfg);

    assert_eq!(app.log_filter.search, "test-filter");
    assert!(!app.log_filter.kinds.print);
    assert!(app.log_filter.kinds.system);
    assert!(!app.log_filter.levels.warn);
    assert!(app.log_filter.levels.log);
}

#[test]
fn apply_config_updates_sidebar_target_and_passcode() {
    let mut app = make_app();

    // Should be empty initially (no CLI overrides)
    assert!(app.sidebar.target_uuid.value.is_empty());
    assert!(app.sidebar.passcode.value.is_empty());

    let cfg = AppConfig {
        known_plugins: vec![],
        last_target_uuid: Some("uuid-from-config".into()),
        passcode: Some("pass-from-config".into()),
        search: String::new(),
        kinds: LogKindFilter::all_enabled(),
        levels: LogLevelFilter::all_enabled(),
    };

    app.apply_config(&cfg);

    assert_eq!(app.sidebar.target_uuid.value, "uuid-from-config");
    assert_eq!(app.sidebar.passcode.value, "pass-from-config");
}

#[test]
fn apply_config_does_not_override_cli_values() {
    // CLI provides target_uuid and passcode
    let mut app = App::new(
        "127.0.0.1".into(),
        19144,
        Some("cli-uuid".into()),
        Some("cli-pass".into()),
    );

    assert_eq!(app.sidebar.target_uuid.value, "cli-uuid");
    assert_eq!(app.sidebar.passcode.value, "cli-pass");

    let cfg = AppConfig {
        known_plugins: vec![],
        last_target_uuid: Some("uuid-from-config".into()),
        passcode: Some("pass-from-config".into()),
        search: String::new(),
        kinds: LogKindFilter::all_enabled(),
        levels: LogLevelFilter::all_enabled(),
    };

    app.apply_config(&cfg);

    assert_eq!(
        app.sidebar.target_uuid.value, "cli-uuid",
        "CLI target uuid should not be overridden by config"
    );
    assert_eq!(
        app.sidebar.passcode.value, "cli-pass",
        "CLI passcode should not be overridden by config"
    );
}

#[test]
fn current_filter_state_matches_log_filter() {
    let mut app = make_app();

    app.log_filter.search = "capture".into();
    app.log_filter.kinds.protocol = false;
    app.log_filter.levels.error = false;

    let (search, kinds, levels) = app.current_filter_state();
    assert_eq!(search, "capture");
    assert!(!kinds.protocol);
    assert!(kinds.system);
    assert!(!levels.error);
    assert!(levels.log);
}

#[test]
fn apply_config_rebuilds_filtered_indices() {
    let mut app = make_app();
    app.add_log("alpha".into());
    app.add_log("beta".into());

    assert_eq!(app.filtered_log_indices.len(), 2);

    let cfg = AppConfig {
        known_plugins: vec![],
        last_target_uuid: None,
        passcode: None,
        search: "beta".into(),
        kinds: LogKindFilter::all_enabled(),
        levels: LogLevelFilter::all_enabled(),
    };

    app.apply_config(&cfg);

    assert_eq!(app.filtered_log_indices.len(), 1);
    assert_eq!(app.event_log[app.filtered_log_indices[0]].message, "beta");
}

#[test]
fn stat2_both_logs_and_accumulates() {
    let mut app = make_app();

    let stats_data = vec![make_stat_model("cpu", vec![42.0], vec![])];

    app.handle_session_event(SessionEvent::Debuggee(DebuggeeEvent::Stat2 { tick: 1, stats: stats_data }));

    // Log entry is created
    assert_eq!(app.event_log.len(), 1);
    assert_eq!(app.event_log[0].kind, LogKind::Stat);
    assert!(app.event_log[0].message.contains("Stats tick=1"));

    // Stats are accumulated
    assert!(!app.stats.is_empty());
    assert_eq!(app.stats.series_count(), 1);
    assert_eq!(values_of(series(&app, "cpu"))[0], 42.0);
}

#[test]
fn stat2_accumulates_unconditionally_even_when_stat_log_filtered() {
    let mut app = make_app();

    // Filter out Stat log entries
    app.log_filter.kinds.stat = false;
    app.rebuild_filtered_log_indices();

    let stats_data = vec![make_stat_model("mem", vec![100.0], vec![])];

    app.handle_session_event(SessionEvent::Debuggee(DebuggeeEvent::Stat2 { tick: 1, stats: stats_data }));

    // Log entry exists in raw log but is hidden from filtered view
    assert_eq!(app.event_log.len(), 1);
    assert_eq!(app.filtered_log_indices.len(), 0);

    // Stats are accumulated regardless of log filtering
    assert!(!app.stats.is_empty());
    assert_eq!(app.stats.series_count(), 1);
    assert_eq!(values_of(series(&app, "mem"))[0], 100.0);
}

#[test]
fn clear_stats_clears_only_stats() {
    let mut app = make_app();

    // Add a log entry manually
    app.add_log("before".into());

    // Send a Stat2 event to populate stats
    let stats_data = vec![make_stat_model("cpu", vec![50.0], vec![])];
    app.handle_session_event(SessionEvent::Debuggee(DebuggeeEvent::Stat2 { tick: 1, stats: stats_data }));

    assert!(!app.stats.is_empty());
    assert_eq!(app.event_log.len(), 2);

    // Clear only stats
    app.clear_stats();

    assert!(app.stats.is_empty());
    // Event log is untouched
    assert_eq!(app.event_log.len(), 2);
    assert_eq!(app.event_log[0].message, "before");
    // Filter state, session transients, etc. are untouched
    assert!(app.log_filter.is_identity());
}

#[test]
fn stat2_repeated_ticks_accumulate_multiple_points() {
    let mut app = make_app();

    let stats_data = || -> Vec<StatNode> { vec![make_stat_model("cpu", vec![42.0], vec![])] };

    for tick in 1..=5 {
        app.handle_session_event(SessionEvent::Debuggee(DebuggeeEvent::Stat2 { tick, stats: stats_data() }));
    }

    assert_eq!(app.stats.series_count(), 1);
    let series = series(&app, "cpu");
    assert_eq!(series.ticks.len(), 5);
    assert_eq!(series.ticks, vec![1, 2, 3, 4, 5]);
    assert_eq!(values_of(series), vec![42.0, 42.0, 42.0, 42.0, 42.0]);
}

#[test]
fn reset_filters_does_not_clear_stats() {
    let mut app = make_app();

    let stats_data = vec![make_stat_model("cpu", vec![42.0], vec![])];
    app.handle_session_event(SessionEvent::Debuggee(DebuggeeEvent::Stat2 { tick: 1, stats: stats_data }));

    assert!(!app.stats.is_empty());

    // reset_filters must not touch stats
    app.reset_filters();
    assert!(!app.stats.is_empty());
    assert_eq!(app.stats.series_count(), 1);

    // clear_session_transients must not touch stats
    app.clear_session_transients();
    assert!(!app.stats.is_empty());
    assert_eq!(app.stats.series_count(), 1);
}

#[test]
fn stats_selection_reconciles_to_first_category() {
    let mut app = make_app();
    assert!(app.stats_selected_category.is_none());

    let stats = vec![make_stat_model(
        "server_tick_timings",
        vec![],
        vec![make_stat_model("tick", vec![16.0], vec![])],
    )];
    app.stats.accumulate(&stats, 1);

    app.reconcile_stats_selection();
    assert_eq!(app.stats_selected_category.as_deref(), Some("server-performance"));
}

#[test]
fn stats_category_navigation_wraps() {
    let mut app = make_app();

    let stats = vec![
        make_stat_model("server_tick_timings", vec![], vec![make_stat_model("tick", vec![16.0], vec![])]),
        make_stat_model("app_memory", vec![], vec![make_stat_model("used", vec![1_048_576.0], vec![])]),
    ];
    app.stats.accumulate(&stats, 1);
    app.reconcile_stats_selection();
    assert_eq!(app.stats_selected_category.as_deref(), Some("server-performance"));

    app.select_next_category();
    assert_eq!(app.stats_selected_category.as_deref(), Some("memory"));

    app.select_next_category();
    // Only server-performance and memory have groups, so it wraps around.
    assert_eq!(app.stats_selected_category.as_deref(), Some("server-performance"));

    app.select_prev_category();
    assert_eq!(app.stats_selected_category.as_deref(), Some("memory"));
}

#[test]
fn stats_client_navigation_wraps_and_filters() {
    let mut app = make_app();

    let stats = vec![make_stat_model(
        "client_stats",
        vec![],
        vec![
            make_stat_model("client-b", vec![], vec![make_stat_model("cpu", vec![20.0], vec![])]),
            make_stat_model("client-a", vec![], vec![make_stat_model("cpu", vec![10.0], vec![])]),
        ],
    )];
    app.stats.accumulate(&stats, 1);
    app.stats_selected_category = Some("client".into());
    app.reconcile_stats_selection();

    assert_eq!(app.stats_selected_category.as_deref(), Some("client"));
    // First sorted client is selected.
    assert_eq!(app.stats_selected_client.as_deref(), Some("client-a"));

    app.select_next_client();
    assert_eq!(app.stats_selected_client.as_deref(), Some("client-b"));

    app.select_next_client();
    assert_eq!(app.stats_selected_client.as_deref(), Some("client-a"));

    app.select_prev_client();
    assert_eq!(app.stats_selected_client.as_deref(), Some("client-b"));
}

#[test]
fn stats_client_selector_hidden_with_one_client() {
    let mut app = make_app();

    let stats = vec![make_stat_model(
        "client_stats",
        vec![],
        vec![make_stat_model("only", vec![], vec![make_stat_model("cpu", vec![10.0], vec![])])],
    )];
    app.stats.accumulate(&stats, 1);
    app.stats_selected_category = Some("client".into());
    app.stats_selected_client = Some("stale".into());
    app.reconcile_stats_selection();

    assert_eq!(app.stats_selected_category.as_deref(), Some("client"));
    assert!(app.stats_selected_client.is_none());
}

#[test]
fn stats_clear_resets_selection_and_scroll() {
    let mut app = make_app();

    let stats = vec![make_stat_model(
        "server_tick_timings",
        vec![],
        vec![make_stat_model("tick", vec![16.0], vec![])],
    )];
    app.stats.accumulate(&stats, 1);
    app.reconcile_stats_selection();
    app.scroll_stats_down(10);
    app.select_next_client(); // no-op, but sets no state

    app.clear_stats();
    assert!(app.stats.is_empty());
    assert!(app.stats_selected_category.is_none());
    assert!(app.stats_selected_client.is_none());
    assert_eq!(app.stats_scroll_offset, 0);
}

#[test]
fn stats_scroll_clamps_to_zero_and_max() {
    let mut app = make_app();

    app.scroll_stats_down(100);
    // No data yet; render will clamp to 0.
    assert_eq!(app.stats_scroll_offset, 100);

    app.scroll_stats_top();
    assert_eq!(app.stats_scroll_offset, 0);

    app.scroll_stats_bottom();
    assert_eq!(app.stats_scroll_offset, usize::MAX);
}
