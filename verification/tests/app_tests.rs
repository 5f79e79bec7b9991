use mc_tui::app::{
    clock_text, CommandInput, ConnectionState, EvaluateInput, EvaluateResult,
    FilterPopup, FilterToggle, Focus, LogEntry, LogFilterState, LogKind, LogLevel, LogState, Mode,
    SearchInput, SessionError, SidebarForm, Tab, MAX_COMMAND_HISTORY, MAX_EVAL_HISTORY,
    MAX_LOG_ENTRIES,
};
use mc_tui::app_state::{App, ConnectRequest, PendingPoll, ResumeKind, SessionAction};
use mc_tui::events::{DebuggeeEvent, HandshakeInfo, SessionEvent};
use mc_tui::app::PluginDetails;
use mc_tui::fields::FieldState;

fn make_app() -> App {
    App::new("127.0.0.1".into(), 19144, None, None)
}

#[test]
fn empty_command_is_not_recorded() {
    let mut input = CommandInput::new();
    input.push_history(String::new());
    assert!(input.history.is_empty());
    input.cycle_history(true);
    assert!(input.field.value.is_empty());
}

#[test]
fn field_state_edits_whole_characters() {
    let mut f = FieldState::new("héllo".to_string());
    assert_eq!(f.cursor, 6);
    f.move_cursor(-3);
    f.backspace();
    assert_eq!(f.value, "hllo");
    f.insert('é');
    assert_eq!(f.value, "héllo");
    f.home();
    f.delete();
    assert_eq!(f.value, "éllo");
    f.end();
    assert_eq!(f.cursor, "éllo".len());
    assert!(!f.is_empty());
}

#[test]
fn sidebar_port_parses_only_valid_ports() {
    let mut form = SidebarForm::new("h", 19132, None, None);
    assert_eq!(form.port_u16(), Some(19132));
    form.port = FieldState::new(" 65535 ".into());
    assert_eq!(form.port_u16(), Some(65535));
    form.port = FieldState::new("65536".into());
    assert_eq!(form.port_u16(), None);
    form.port = FieldState::new("".into());
    assert_eq!(form.port_u16(), None);
}

#[test]
fn toggling_a_filter_row_twice_restores_the_filter() {
    let mut popup = FilterPopup::new();
    let mut filter = LogFilterState::show_all();
    popup.selected = 12;
    assert_eq!(popup.toggle_selected(&mut filter), Some(FilterToggle::Level(LogLevel::Warn, false)));
    assert!(!filter.levels.warn);
    assert_eq!(popup.toggle_selected(&mut filter), Some(FilterToggle::Level(LogLevel::Warn, true)));
    assert!(filter.is_identity());
    popup.selected = 1;
    assert_eq!(popup.toggle_selected(&mut filter), Some(FilterToggle::Kind(LogKind::Protocol, false)));
    popup.selected = 14;
    assert_eq!(popup.toggle_selected(&mut filter), None);
    assert_eq!(FilterPopup::row_count(), 14);
}

#[test]
fn search_is_case_insensitive_on_messages() {
    let mut filter = LogFilterState::show_all();
    filter.search = "HELLO".into();
    let entry = LogEntry::event(LogKind::Print, "say hello world".into());
    assert!(filter.allows(&entry));
    filter.search = "absent".into();
    assert!(!filter.allows(&entry));
    filter.search = "print".into();
    assert!(filter.allows(&entry));
}

#[test]
fn clock_text_is_hh_mm_ss() {
    assert_eq!(clock_text(3661), "01:01:01");
    assert_eq!(clock_text(86399), "23:59:59");
    assert_eq!(clock_text(86400), "00:00:00");
    let e = LogEntry::system("x".into());
    assert_eq!(e.timestamp.len(), 8);
}

#[test]
fn evaluate_input_keeps_newest_entries() {
    let mut input = EvaluateInput::new();
    for i in 0..15 {
        input.pending_expression = format!("expr{i}");
        let result = Ok(EvaluateResult { success: true, args: Some(format!("{i}")), message: None });
        input.finish(result);
    }
    assert_eq!(input.history.len(), MAX_EVAL_HISTORY);
    assert_eq!(input.history[0].expression, "expr14");
    assert_eq!(input.history[0].detail, "14");
    let entry = input
        .finish(Err(SessionError { cancelled: false, message: "gone".into() }))
        .unwrap();
    assert!(!entry.success);
    assert_eq!(entry.detail, "gone");
    assert!(input.pending_expression.is_empty());
}

#[test]
fn focus_cycles_backwards_past_main() {
    let mut app = make_app();
    app.set_last_known_size(80, 24);
    app.show_sidebar = true;
    let targets = app.visible_focus_targets();
    assert!(targets.contains(&Focus::SidebarModeListen));
    assert!(!targets.contains(&Focus::SidebarHost));
    app.cycle_focus(true);
    assert_eq!(app.focus, Focus::SidebarModeListen);
    app.cycle_focus(false);
    assert_eq!(app.focus, Focus::Main);
    app.cycle_focus(false);
    assert_eq!(app.focus, Focus::SidebarPrimary);
    app.set_mode(Mode::Connect);
    assert!(app.visible_focus_targets().contains(&Focus::SidebarHost));
}

#[test]
fn filtered_view_follows_kind_filter() {
    let mut app = make_app();
    app.add_log("one".into());
    app.handle_session_event(SessionEvent::Debuggee(DebuggeeEvent::Print {
        message: "two".into(),
        log_level: LogLevel::Log,
    }));
    app.add_log("three".into());
    assert_eq!(app.filtered_log_len(), 3);
    app.open_filter_popup();
    app.filter_popup.selected = 0;
    assert_eq!(app.toggle_selected_filter(), Some(FilterToggle::Kind(LogKind::System, false)));
    assert_eq!(app.filtered_log_indices, vec![1]);
    assert_eq!(app.filtered_to_absolute(0), Some(1));
    assert_eq!(app.filtered_to_absolute(1), None);
    assert!(app.config_dirty);
    app.reset_filters();
    assert_eq!(app.filtered_log_len(), 3);
}

#[test]
fn stopped_and_thread_exit_events() {
    let mut app = make_app();
    app.handle_session_event(SessionEvent::Debuggee(DebuggeeEvent::Stopped {
        reason: "breakpoint".into(),
        thread: 7,
    }));
    assert!(app.stopped);
    assert_eq!(app.stopped_thread_id, Some(7));
    app.handle_session_event(SessionEvent::Debuggee(DebuggeeEvent::Thread {
        reason: "started".into(),
        thread: 7,
    }));
    assert!(app.stopped);
    app.handle_session_event(SessionEvent::Debuggee(DebuggeeEvent::Thread {
        reason: "EXITED".into(),
        thread: 8,
    }));
    assert!(app.stopped);
    app.handle_session_event(SessionEvent::Debuggee(DebuggeeEvent::Thread {
        reason: "Exited".into(),
        thread: 7,
    }));
    assert!(!app.stopped);
    assert_eq!(app.event_log.back().unwrap().message, "Thread: Exited (thread 7)");
}

#[test]
fn connection_lifecycle() {
    let mut app = make_app();
    let req = app.start_listen_from_sidebar();
    assert!(matches!(req, Some(ConnectRequest::Listen { port: 19144, target_uuid: None, passcode: None })));
    assert_eq!(app.state, ConnectionState::Pending);
    assert_eq!(app.event_log.back().unwrap().message, "Listening on port 19144...");
    app.handle_connection_result(Ok(HandshakeInfo {
        version: 7,
        plugins: vec![PluginDetails { name: "Main".into(), module_uuid: "u1".into() }],
        require_passcode: false,
    }));
    assert_eq!(app.state, ConnectionState::Connected { version: 7, plugin_count: 1 });
    assert_eq!(app.persisted_target_uuid, Some("u1".into()));
    assert_eq!(app.known_plugins.len(), 1);
    assert!(app.config_dirty);
    assert_eq!(
        app.event_log.back().unwrap().message,
        "Connected — protocol v7, 1 plugin(s) registered."
    );
    app.handle_session_event(SessionEvent::Disconnected);
    assert_eq!(app.state, ConnectionState::Disconnected);
    assert_eq!(app.persisted_target_uuid, Some("u1".into()));
}

#[test]
fn repeated_handshakes_refresh_plugin_names() {
    let mut app = make_app();
    let hs = |name: &str| HandshakeInfo {
        version: 7,
        plugins: vec![
            PluginDetails { name: name.into(), module_uuid: "u1".into() },
            PluginDetails { name: "Other".into(), module_uuid: "u2".into() },
        ],
        require_passcode: false,
    };
    app.handle_connection_result(Ok(hs("Old")));
    app.handle_connection_result(Ok(hs("New")));
    assert_eq!(app.known_plugins.len(), 2);
    assert_eq!(app.known_plugins[0].name, "New");
    assert_eq!(app.persisted_target_uuid, None);
}

#[test]
fn failed_and_cancelled_connections() {
    let mut app = make_app();
    app.start_connect("h".into(), 1, Some("t".into()), None);
    assert_eq!(app.event_log.back().unwrap().message, "Connecting to h:1...");
    app.handle_connection_result(Err(SessionError { cancelled: false, message: "x".into() }));
    assert_eq!(app.state, ConnectionState::Idle);
    assert_eq!(app.error_popup.as_ref().unwrap().title, "Connection failed");
    assert!(app.pending_target_uuid.is_none());
    app.dismiss_error();
    let before = app.event_log.len();
    app.start_connect("h".into(), 1, None, None);
    assert_eq!(app.cancel_pending_with_result(PendingPoll::Empty), SessionAction::CancelPending);
    assert_eq!(app.event_log.back().unwrap().message, "Pending operation cancelled.");
    app.handle_connection_result(Err(SessionError { cancelled: true, message: "x".into() }));
    assert_eq!(app.event_log.len(), before + 2);
    assert!(app.error_popup.is_none());
}

#[test]
fn out_of_range_port_is_refused() {
    let mut app = make_app();
    app.sidebar.port = FieldState::new("99999".into());
    assert!(app.start_connect_from_sidebar().is_none());
    assert_eq!(app.state, ConnectionState::Idle);
    assert_eq!(app.event_log.back().unwrap().message, "Invalid port number.");
    assert_eq!(app.error_popup.as_ref().unwrap().title, "Invalid port");
}

#[test]
fn resume_requests_clear_stopped_state_on_success() {
    let mut app = make_app();
    app.handle_connection_result(Ok(HandshakeInfo { version: 7, plugins: vec![], require_passcode: false }));
    assert!(app.begin_resume().is_none());
    app.handle_session_event(SessionEvent::Debuggee(DebuggeeEvent::Stopped { reason: "bp".into(), thread: 3 }));
    assert!(app.can_continue());
    assert!(!app.can_pause());
    assert_eq!(app.begin_resume(), Some(3));
    assert!(app.is_debug_busy());
    app.finish_resume(ResumeKind::StepIn, 3, Err(SessionError { cancelled: false, message: "nope".into() }));
    assert!(app.stopped);
    assert_eq!(app.event_log.back().unwrap().message, "Step in failed: nope");
    assert_eq!(app.begin_resume(), Some(3));
    app.finish_resume(ResumeKind::Continue, 3, Ok(()));
    assert!(!app.stopped);
    assert!(!app.busy);
    assert_eq!(app.event_log.back().unwrap().message, "Continue requested (thread 3).");
}

#[test]
fn evaluate_flow_logs_first_line() {
    let mut app = make_app();
    app.evaluate_input.field = FieldState::new("1+1".into());
    assert_eq!(app.begin_evaluate(), None);
    assert_eq!(app.event_log.back().unwrap().message, "Evaluate is only available while stopped.");
    app.handle_session_event(SessionEvent::Debuggee(DebuggeeEvent::Stopped { reason: "bp".into(), thread: 1 }));
    let expr = app.begin_evaluate().unwrap();
    app.evaluate_sent(expr, Ok(()));
    assert!(app.evaluate_input.busy);
    app.receive_evaluate(Ok(EvaluateResult { success: true, args: Some("2\n3".into()), message: None }));
    assert_eq!(app.event_log.back().unwrap().message, "Evaluate ok: 1+1 = 2");
    assert!(!app.evaluate_input.busy);
}

#[test]
fn minecraft_command_flow() {
    let mut app = make_app();
    assert!(!app.begin_minecraft_command(String::new()));
    assert!(app.begin_minecraft_command("say hi".into()));
    assert!(app.busy);
    app.finish_minecraft_command("say hi".into(), Err(SessionError { cancelled: false, message: "down".into() }));
    assert_eq!(app.command_input.error.as_deref(), Some("Send failed: down"));
    app.finish_minecraft_command("say hi".into(), Ok(()));
    assert_eq!(app.event_log.back().unwrap().message, "Command: /say hi");
    assert_eq!(app.command_input.history[0], "say hi");
}

#[test]
fn log_scrolling_on_filtered_view() {
    let mut app = make_app();
    for i in 0..10 {
        app.add_log(format!("entry {i}"));
    }
    assert_eq!(app.log_state.selected, Some(9));
    app.scroll_log_up(3);
    assert_eq!(app.log_state.selected, Some(6));
    assert!(!app.log_state.follow);
    app.add_log("new".into());
    assert_eq!(app.log_state.selected, Some(6));
    app.scroll_log_bottom();
    assert_eq!(app.log_state.selected, Some(10));
    assert!(app.log_state.follow);
    app.scroll_log_top();
    assert_eq!(app.log_state.selected, Some(0));
    app.clear_log();
    assert!(app.event_log.is_empty());
}

#[test]
fn field_editing_goes_to_focused_field() {
    let mut app = make_app();
    app.focus = Focus::SidebarPort;
    app.insert_char('x');
    assert_eq!(app.sidebar.port.value, "19144");
    app.insert_char('5');
    assert_eq!(app.sidebar.port.value, "191445");
    app.backspace();
    app.move_cursor_home();
    app.delete_char();
    assert_eq!(app.sidebar.port.value, "9144");
    assert!(app.is_field_focused());
    app.focus = Focus::Main;
    app.insert_char('z');
    assert_eq!(app.sidebar.port.value, "9144");
}

#[test]
fn config_save_error_shown_once() {
    let mut app = make_app();
    app.config_saved(Err("disk".into()));
    assert!(app.error_popup.is_some());
    app.dismiss_error();
    app.config_saved(Err("disk".into()));
    assert!(app.error_popup.is_none());
    app.mark_config_dirty();
    app.config_saved(Ok(()));
    assert!(!app.config_dirty);
}

#[test]
fn failed_connection_never_echoes_passcode() {
    let sentinel = "never-render-this-passcode";
    let mut app = make_app();
    app.sidebar.passcode.value = sentinel.into();
    app.handle_connection_result(Err(SessionError { cancelled: false, message: "connection task dropped".into() }));

    let popup = app.error_popup.as_ref().unwrap();
    assert_eq!(popup.title, "Connection failed");
    assert!(!popup.message.contains(sentinel));
    assert!(!app.event_log.iter().any(|entry| entry.message.contains(sentinel)));
}
