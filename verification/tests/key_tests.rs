use std::path::PathBuf;

use mc_tui::app::{
    ConnectionState, Focus, HelpPopup, Mode, PluginDetails, PluginSelection, SessionError, Tab,
};
use mc_tui::app_state::{App, PendingPoll};
use mc_tui::control::{handle_key, AutoRetryState, Effect, Key, KeyCode};
use mc_tui::events::{HandshakeInfo, SessionEvent};
use mc_tui::fields::FieldState;
use mc_tui::stats::StatNode;

fn make_app() -> App {
    App::new("127.0.0.1".into(), 19144, None, None)
}

fn make_auto_retry() -> AutoRetryState {
    AutoRetryState::new()
}

fn key(code: KeyCode) -> Key {
    Key { code, no_modifiers: true, shift: false, release: false }
}

fn shifted(code: KeyCode) -> Key {
    Key { code, no_modifiers: false, shift: true, release: false }
}

/// A moment on the retry clock (milliseconds).
const NOW: u64 = 5_000;

/// What a session that was never connected answers.
fn not_connected() -> SessionError {
    SessionError { cancelled: false, message: "not connected".into() }
}

/// Hand `k` to the key handler and carry out the session work it asks for
/// the way a session that is not connected answers it; `pending` is what
/// the pending attempt's result channel holds. Returns whether to quit.
fn press_with(app: &mut App, k: Key, auto_retry: &mut AutoRetryState, pending: PendingPoll) -> bool {
    let out = handle_key(app, k, auto_retry);
    match out.effect {
        Effect::Pause(thread) => app.finish_pause(thread, Err(not_connected())),
        Effect::Resume(kind, thread) => app.finish_resume(kind, thread, Err(not_connected())),
        Effect::SendCommand(command) => app.finish_minecraft_command(command, Err(not_connected())),
        Effect::Evaluate(expression) => app.evaluate_sent(expression, Err(not_connected())),
        Effect::SelectTarget { uuid, name } => app.target_selected(uuid, name, false),
        Effect::CancelPending => {
            app.cancel_pending_with_result(pending);
        }
        Effect::Start(_) | Effect::Disconnect | Effect::Nothing => {}
    }
    out.quit
}

fn press(app: &mut App, k: Key, auto_retry: &mut AutoRetryState) -> bool {
    press_with(app, k, auto_retry, PendingPoll::NoReceiver)
}

#[test]
fn plugin_popup_q_quits_cleanly() {
    let mut app = make_app();
    let mut auto_retry = make_auto_retry();
    app.state = ConnectionState::Pending;
    app.plugin_selection = Some(PluginSelection::new(vec![PluginDetails {
        name: "P".into(),
        module_uuid: "u".into(),
    }]));

    assert!(press(&mut app, key(KeyCode::Char('q')), &mut auto_retry));
}

#[test]
fn help_popup_q_quits_cleanly() {
    let mut app = make_app();
    let mut auto_retry = make_auto_retry();
    app.help_popup = HelpPopup::Visible;

    assert!(press(&mut app, key(KeyCode::Char('q')), &mut auto_retry));
}

#[test]
fn help_popup_esc_closes() {
    let mut app = make_app();
    let mut auto_retry = make_auto_retry();
    app.help_popup = HelpPopup::Visible;

    assert!(!press(&mut app, key(KeyCode::Esc), &mut auto_retry));
    assert_eq!(app.help_popup, HelpPopup::Hidden);
}

#[test]
fn global_error_popup_enter_and_escape_dismiss() {
    let mut app = make_app();
    let mut auto_retry = make_auto_retry();
    app.show_error("Connection failed".into(), "Try again.".into());

    assert!(!press(&mut app, key(KeyCode::Enter), &mut auto_retry));
    assert!(app.error_popup.is_none());

    app.show_error("Connection failed".into(), "Try again.".into());
    assert!(!press(&mut app, key(KeyCode::Esc), &mut auto_retry));
    assert!(app.error_popup.is_none());
}

#[test]
fn global_error_popup_q_still_quits() {
    let mut app = make_app();
    let mut auto_retry = make_auto_retry();
    app.show_error("Connection failed".into(), "Try again.".into());
    assert!(press(&mut app, key(KeyCode::Char('q')), &mut auto_retry));
}

#[test]
fn sidebar_primary_only_activates_on_enter_or_space() {
    let mut app = make_app();
    let mut auto_retry = make_auto_retry();
    app.focus = Focus::SidebarPrimary;

    assert!(!press(&mut app, key(KeyCode::Char('a')), &mut auto_retry));
    assert_eq!(app.state, ConnectionState::Idle);

    assert!(!press(&mut app, key(KeyCode::Enter), &mut auto_retry));
    assert_eq!(app.state, ConnectionState::Pending);
}

#[test]
fn main_l_starts_listen() {
    let mut app = make_app();
    let mut auto_retry = make_auto_retry();
    app.focus = Focus::Main;

    assert!(!press(&mut app, key(KeyCode::Char('l')), &mut auto_retry));
    assert_eq!(app.sidebar.mode, Mode::Listen);
    assert_eq!(app.state, ConnectionState::Pending);
}

#[test]
fn main_c_starts_connect_when_idle() {
    let mut app = make_app();
    let mut auto_retry = make_auto_retry();
    app.focus = Focus::Main;

    assert!(!press(&mut app, key(KeyCode::Char('c')), &mut auto_retry));
    assert_eq!(app.sidebar.mode, Mode::Connect);
    assert_eq!(app.state, ConnectionState::Pending);
}

#[test]
fn main_c_clears_log_when_connected() {
    let mut app = make_app();
    let mut auto_retry = make_auto_retry();
    app.focus = Focus::Main;
    app.state = ConnectionState::Connected { version: 9, plugin_count: 1 };
    app.add_log("first".into());
    app.add_log("second".into());

    assert!(!press(&mut app, key(KeyCode::Char('c')), &mut auto_retry));
    assert!(app.event_log.is_empty());
}

#[test]
fn debug_keys_are_no_op_when_not_connected() {
    let mut app = make_app();
    let mut auto_retry = make_auto_retry();
    app.focus = Focus::Main;
    let before = app.event_log.len();

    assert!(!press(&mut app, key(KeyCode::Char(' ')), &mut auto_retry));
    assert!(!press(&mut app, key(KeyCode::F(5)), &mut auto_retry));
    assert!(!press(&mut app, key(KeyCode::F(6)), &mut auto_retry));
    assert!(!press(&mut app, key(KeyCode::F(10)), &mut auto_retry));
    assert!(!press(&mut app, key(KeyCode::F(11)), &mut auto_retry));
    assert!(!press(&mut app, shifted(KeyCode::F(11)), &mut auto_retry));

    assert_eq!(app.event_log.len(), before);
}

#[test]
fn space_attempts_continue_when_stopped_and_pause_when_running() {
    let mut app = make_app();
    let mut auto_retry = make_auto_retry();
    app.focus = Focus::Main;
    app.state = ConnectionState::Connected { version: 9, plugin_count: 1 };
    app.stopped = true;
    app.stopped_thread_id = Some(0);

    // Not actually connected to a debuggee, so the send fails and stopped stays set.
    assert!(!press(&mut app, key(KeyCode::Char(' ')), &mut auto_retry));
    assert!(app.event_log.iter().any(|e| e.message.contains("Continue failed")));
    assert!(app.stopped);

    // Clear the log and mark running; Space should attempt pause.
    app.clear_log();
    app.stopped = false;
    app.stopped_thread_id = None;
    assert!(!press(&mut app, key(KeyCode::Char(' ')), &mut auto_retry));
    assert!(app.event_log.iter().any(|e| e.message.contains("Pause failed")));
}

#[test]
fn step_keys_attempt_step_when_stopped() {
    let mut app = make_app();
    let mut auto_retry = make_auto_retry();
    app.focus = Focus::Main;
    app.state = ConnectionState::Connected { version: 9, plugin_count: 1 };
    app.stopped = true;
    app.stopped_thread_id = Some(0);

    assert!(!press(&mut app, key(KeyCode::F(10)), &mut auto_retry));
    assert!(app.event_log.iter().any(|e| e.message.contains("Step next failed")));

    app.stopped = true;
    assert!(!press(&mut app, key(KeyCode::F(11)), &mut auto_retry));
    assert!(app.event_log.iter().any(|e| e.message.contains("Step in failed")));

    app.stopped = true;
    assert!(!press(&mut app, shifted(KeyCode::F(11)), &mut auto_retry));
    assert!(app.event_log.iter().any(|e| e.message.contains("Step out failed")));
}

#[test]
fn colon_opens_command_input_and_q_types() {
    let mut app = make_app();
    let mut auto_retry = make_auto_retry();
    app.focus = Focus::Main;
    app.state = ConnectionState::Connected { version: 9, plugin_count: 1 };

    assert!(!press(&mut app, key(KeyCode::Char(':')), &mut auto_retry));
    assert!(app.command_input.open);

    // q must type, not quit.
    assert!(!press(&mut app, key(KeyCode::Char('q')), &mut auto_retry));
    assert!(!press(&mut app, key(KeyCode::Char('s')), &mut auto_retry));
    assert_eq!(app.command_input.field.value, "qs");

    // Global shortcuts must be swallowed while the input is active.
    assert!(!press(&mut app, key(KeyCode::Char('x')), &mut auto_retry));
    assert!(matches!(app.state, ConnectionState::Connected { .. }));

    // Esc closes the input.
    assert!(!press(&mut app, key(KeyCode::Esc), &mut auto_retry));
    assert!(!app.command_input.open);
}

#[test]
fn command_input_submit_surfaces_send_error() {
    let mut app = make_app();
    let mut auto_retry = make_auto_retry();
    app.focus = Focus::Main;
    app.state = ConnectionState::Connected { version: 9, plugin_count: 1 };
    app.command_input.open();
    app.command_input.field.value = "say hi".into();

    assert!(!press(&mut app, key(KeyCode::Enter), &mut auto_retry));
    assert!(app
        .command_input
        .error
        .as_ref()
        .expect("error should be set")
        .contains("not connected"));
}

#[test]
fn e_opens_evaluate_input_while_stopped() {
    let mut app = make_app();
    let mut auto_retry = make_auto_retry();
    app.focus = Focus::Main;
    app.state = ConnectionState::Connected { version: 9, plugin_count: 1 };

    // Not stopped -> ignored.
    assert!(!press(&mut app, key(KeyCode::Char('e')), &mut auto_retry));
    assert!(!app.evaluate_input.open);

    app.stopped = true;
    app.stopped_thread_id = Some(0);
    assert!(!press(&mut app, key(KeyCode::Char('e')), &mut auto_retry));
    assert!(app.evaluate_input.open);

    assert!(!press(&mut app, key(KeyCode::Char('q')), &mut auto_retry));
    assert_eq!(app.evaluate_input.field.value, "q");

    assert!(!press(&mut app, key(KeyCode::Esc), &mut auto_retry));
    assert!(!app.evaluate_input.open);
}

#[test]
fn evaluate_input_submit_surfaces_send_error() {
    let mut app = make_app();
    let mut auto_retry = make_auto_retry();
    app.focus = Focus::Main;
    app.state = ConnectionState::Connected { version: 9, plugin_count: 1 };
    app.stopped = true;
    app.stopped_thread_id = Some(0);
    app.evaluate_input.open();
    app.evaluate_input.field.value = "1+1".into();

    assert!(!press(&mut app, key(KeyCode::Enter), &mut auto_retry));
    assert!(app
        .evaluate_input
        .error
        .as_ref()
        .expect("error should be set")
        .contains("not connected"));
}

#[test]
fn x_cancels_pending_to_idle() {
    let mut app = make_app();
    let mut auto_retry = make_auto_retry();
    app.state = ConnectionState::Pending;
    app.focus = Focus::Main;

    // The attempt is still running when it is cancelled.
    assert!(!press_with(&mut app, key(KeyCode::Char('x')), &mut auto_retry, PendingPoll::Empty));
    assert_eq!(app.state, ConnectionState::Idle);
}

#[test]
fn x_disconnects_connected_to_idle() {
    let mut app = make_app();
    let mut auto_retry = make_auto_retry();
    app.state = ConnectionState::Connected { version: 9, plugin_count: 1 };
    app.handshake = Some(HandshakeInfo { version: 9, plugins: vec![], require_passcode: false });
    app.evaluate_input.start("stale".into());
    app.focus = Focus::Main;

    assert!(!press(&mut app, key(KeyCode::Char('x')), &mut auto_retry));
    assert_eq!(app.state, ConnectionState::Idle);
    assert!(app.handshake.is_none());
    assert!(!app.evaluate_input.busy);
    assert!(app.event_log.iter().any(|e| e.message.contains("Disconnected")));
}

#[test]
fn x_noop_when_idle_or_disconnected() {
    let mut app = make_app();
    let mut auto_retry = make_auto_retry();
    app.focus = Focus::Main;

    assert!(!press(&mut app, key(KeyCode::Char('x')), &mut auto_retry));
    assert_eq!(app.state, ConnectionState::Idle);

    app.state = ConnectionState::Disconnected;
    assert!(!press(&mut app, key(KeyCode::Char('x')), &mut auto_retry));
    assert_eq!(app.state, ConnectionState::Disconnected);
}

#[test]
fn plugin_enter_selection_failure_keeps_popup() {
    let mut app = make_app();
    let mut auto_retry = make_auto_retry();
    app.state = ConnectionState::Pending;
    app.plugin_selection = Some(PluginSelection::new(vec![PluginDetails {
        name: "TestPlugin".into(),
        module_uuid: "test-uuid".into(),
    }]));

    // Enter with no session to take the selection → selecting fails
    assert!(!press(&mut app, key(KeyCode::Enter), &mut auto_retry));

    assert!(app.plugin_selection.is_some(), "popup should stay open on selection failure");
    assert!(
        app.event_log.iter().any(|e| e.message.contains("failed")),
        "should log selection failure"
    );
}

#[test]
fn auto_retry_starts_idle() {
    let ar = AutoRetryState::new();
    assert!(!ar.listen_mode);
    assert!(ar.retry_at.is_none());
}

#[test]
fn auto_retry_listen_started_sets_flag() {
    let mut ar = AutoRetryState::new();
    ar.on_listen_started();
    assert!(ar.listen_mode);
    assert!(ar.retry_at.is_none());
}

#[test]
fn auto_retry_connect_started_clears_flag() {
    let mut ar = AutoRetryState::new();
    ar.on_listen_started();
    ar.on_connect_started();
    assert!(!ar.listen_mode);
    assert!(ar.retry_at.is_none());
}

#[test]
fn auto_retry_disconnected_schedules_retry() {
    let mut ar = AutoRetryState::new();
    ar.on_listen_started();
    ar.on_disconnected(NOW);
    assert!(ar.retry_at.is_some());
}

#[test]
fn auto_retry_cancel_clears_everything() {
    let mut ar = AutoRetryState::new();
    ar.on_listen_started();
    ar.on_disconnected(NOW);
    ar.cancel();
    assert!(!ar.listen_mode);
    assert!(ar.retry_at.is_none());
}

#[test]
fn auto_retry_disconnected_no_listen_does_nothing() {
    let mut ar = AutoRetryState::new();
    // Not in listen mode
    ar.on_disconnected(NOW);
    assert!(ar.retry_at.is_none());
}

#[test]
fn auto_retry_try_fire_returns_true_when_ready() {
    let mut ar = AutoRetryState::new();
    ar.on_listen_started();
    ar.retry_at = Some(NOW); // immediately ready
    assert!(ar.try_fire(NOW));
    assert!(ar.retry_at.is_none());
}

#[test]
fn auto_retry_try_fire_returns_false_when_not_ready() {
    let mut ar = AutoRetryState::new();
    ar.on_listen_started();
    ar.retry_at = Some(NOW + 60_000);
    // Not yet ready
    assert!(!ar.try_fire(NOW));
    assert!(ar.retry_at.is_some());
}

#[test]
fn auto_retry_try_fire_none_returns_false() {
    let mut ar = AutoRetryState::new();
    assert!(!ar.try_fire(NOW));
}

#[test]
fn slash_opens_search_input() {
    let mut app = make_app();
    let mut auto_retry = make_auto_retry();
    app.focus = Focus::Main;

    assert!(!press(&mut app, key(KeyCode::Char('/')), &mut auto_retry));
    assert!(app.search_input.open);
}

#[test]
fn search_input_types_and_commits() {
    let mut app = make_app();
    let mut auto_retry = make_auto_retry();
    app.open_search();

    for c in ['t', 'e', 's', 't'] {
        assert!(!press(&mut app, key(KeyCode::Char(c)), &mut auto_retry));
    }
    assert_eq!(app.search_input.field.value, "test");
    assert!(!app.is_filtered());

    assert!(!press(&mut app, key(KeyCode::Enter), &mut auto_retry));
    assert!(!app.search_input.open);
    assert_eq!(app.log_filter.search, "test");
    assert!(app.is_filtered());
}

#[test]
fn search_input_esc_closes_without_commit() {
    let mut app = make_app();
    let mut auto_retry = make_auto_retry();
    app.open_search();
    app.search_input.field.value = "aborted".into();

    assert!(!press(&mut app, key(KeyCode::Esc), &mut auto_retry));
    assert!(!app.search_input.open);
    assert!(app.log_filter.search.is_empty());
}

#[test]
fn f_opens_filter_popup() {
    let mut app = make_app();
    let mut auto_retry = make_auto_retry();
    app.focus = Focus::Main;

    assert!(!press(&mut app, key(KeyCode::Char('f')), &mut auto_retry));
    assert!(app.filter_popup.open);
}

#[test]
fn filter_popup_toggles_and_esc_closes() {
    let mut app = make_app();
    let mut auto_retry = make_auto_retry();
    app.open_filter_popup();

    assert!(!press(&mut app, key(KeyCode::Down), &mut auto_retry));
    assert_eq!(app.filter_popup.selected, 1);

    assert!(!press(&mut app, key(KeyCode::Char(' ')), &mut auto_retry));
    assert!(!app.log_filter.kinds.protocol);
    assert!(app.is_filtered());

    assert!(!press(&mut app, key(KeyCode::Esc), &mut auto_retry));
    assert!(!app.filter_popup.open);
}

#[test]
fn r_resets_search_and_filters() {
    let mut app = make_app();
    let mut auto_retry = make_auto_retry();
    app.focus = Focus::Main;
    app.log_filter.search = "term".into();
    app.log_filter.kinds.print = false;
    app.rebuild_filtered_log_indices();
    assert!(app.is_filtered());

    assert!(!press(&mut app, key(KeyCode::Char('r')), &mut auto_retry));
    assert!(!app.is_filtered());
    assert!(app.log_filter.search.is_empty());
    assert!(app.log_filter.kinds.print);
}

#[test]
fn c_still_clears_log_when_connected() {
    let mut app = make_app();
    let mut auto_retry = make_auto_retry();
    app.focus = Focus::Main;
    app.state = ConnectionState::Connected { version: 9, plugin_count: 1 };
    app.add_log("keep me".into());

    assert!(!press(&mut app, key(KeyCode::Char('c')), &mut auto_retry));
    assert!(app.event_log.is_empty());
    assert!(app.filtered_log_indices.is_empty());
}

#[test]
fn x_cancels_auto_retry() {
    let mut app = make_app();
    let mut auto_retry = make_auto_retry();
    auto_retry.listen_mode = true;
    auto_retry.retry_at = Some(NOW);

    assert!(!press(&mut app, key(KeyCode::Char('x')), &mut auto_retry));
    assert!(!auto_retry.listen_mode);
    assert!(auto_retry.retry_at.is_none());
}

#[test]
fn q_quits_and_cancels_auto_retry() {
    let mut app = make_app();
    let mut auto_retry = make_auto_retry();
    auto_retry.listen_mode = true;
    auto_retry.retry_at = Some(NOW);

    assert!(press(&mut app, key(KeyCode::Char('q')), &mut auto_retry));
    assert!(!auto_retry.listen_mode);
    assert!(auto_retry.retry_at.is_none());
}

#[test]
fn c_connects_and_cancels_auto_retry() {
    let mut app = make_app();
    let mut auto_retry = make_auto_retry();
    app.focus = Focus::Main;
    auto_retry.listen_mode = true;
    auto_retry.retry_at = Some(NOW);

    assert!(!press(&mut app, key(KeyCode::Char('c')), &mut auto_retry));
    // connect starts pending
    assert!(!auto_retry.listen_mode);
    assert!(auto_retry.retry_at.is_none());
}

#[test]
fn l_starts_listen_and_resets_auto_retry() {
    let mut app = make_app();
    let mut auto_retry = make_auto_retry();
    app.focus = Focus::Main;
    auto_retry.on_connect_started(); // was in connect mode

    assert!(!press(&mut app, key(KeyCode::Char('l')), &mut auto_retry));
    assert!(auto_retry.listen_mode);
    assert!(auto_retry.retry_at.is_none());
}

#[test]
fn sidebar_primary_cancels_auto_retry_on_pending() {
    let mut app = make_app();
    let mut auto_retry = make_auto_retry();
    app.focus = Focus::SidebarPrimary;
    app.state = ConnectionState::Pending;
    auto_retry.listen_mode = true;
    auto_retry.retry_at = Some(NOW);

    assert!(!press(&mut app, key(KeyCode::Enter), &mut auto_retry));
    assert!(!auto_retry.listen_mode);
    assert!(auto_retry.retry_at.is_none());
}

#[test]
fn sidebar_primary_connected_disconnect_cancels_auto_retry() {
    let mut app = make_app();
    let mut auto_retry = make_auto_retry();
    app.focus = Focus::SidebarPrimary;
    app.state = ConnectionState::Connected { version: 9, plugin_count: 1 };
    auto_retry.listen_mode = true;
    auto_retry.retry_at = Some(NOW);

    assert!(!press(&mut app, key(KeyCode::Enter), &mut auto_retry));
    // After disconnect, state is Idle and auto_retry was cancelled
    assert!(!auto_retry.listen_mode);
    assert!(auto_retry.retry_at.is_none());
}

#[test]
fn auto_retry_fires_from_disconnected() {
    let mut app = make_app();
    let mut auto_retry = make_auto_retry();
    app.state = ConnectionState::Disconnected;
    auto_retry.listen_mode = true;
    auto_retry.retry_at = Some(NOW);

    // try_fire should succeed from Disconnected too
    assert!(auto_retry.try_fire(NOW));
}

#[test]
fn auto_retry_disconnect_while_listen_mode_reschedules() {
    // Simulate: Connected → Disconnected event in listen mode schedules retry
    let mut app = make_app();
    let mut auto_retry = make_auto_retry();
    app.state = ConnectionState::Connected { version: 9, plugin_count: 1 };
    auto_retry.listen_mode = true;

    // Simulate the event loop's disconnected check
    let was_connected = matches!(app.state, ConnectionState::Connected { .. });
    app.handle_session_event(SessionEvent::Disconnected);
    if was_connected && auto_retry.listen_mode && matches!(app.state, ConnectionState::Disconnected) {
        auto_retry.on_disconnected(NOW);
    }

    assert!(auto_retry.retry_at.is_some(), "listen mode disconnected should schedule retry");
}

#[test]
fn sidebar_primary_disconnected_cancels_retry() {
    let mut app = make_app();
    let mut auto_retry = make_auto_retry();
    app.focus = Focus::SidebarPrimary;
    app.state = ConnectionState::Disconnected;
    app.sidebar.mode = Mode::Listen;
    auto_retry.listen_mode = true;
    auto_retry.retry_at = Some(NOW);

    assert!(!press(&mut app, key(KeyCode::Enter), &mut auto_retry));
    // Should cancel retry and go to Idle, NOT start a new connection
    assert!(!auto_retry.listen_mode);
    assert!(auto_retry.retry_at.is_none());
    assert_eq!(app.state, ConnectionState::Idle);
    assert!(app.event_log.iter().any(|e| e.message.contains("Cancelled")), "should log cancellation");
}

#[test]
fn switching_to_connect_cancels_retry() {
    let mut app = make_app();
    let mut auto_retry = make_auto_retry();
    app.focus = Focus::SidebarModeConnect;
    app.sidebar.mode = Mode::Listen;
    auto_retry.listen_mode = true;
    auto_retry.retry_at = Some(NOW);

    assert!(!press(&mut app, key(KeyCode::Enter), &mut auto_retry));
    // Mode switches, retry cancelled
    assert_eq!(app.sidebar.mode, Mode::Connect);
    assert!(!auto_retry.listen_mode);
    assert!(auto_retry.retry_at.is_none());
}

#[test]
fn auto_retry_disconnect_failed_connection_reschedules() {
    // Simulate: a failed listen task in listen_mode schedules retry
    let mut app = make_app();
    let mut auto_retry = make_auto_retry();
    app.state = ConnectionState::Pending;
    auto_retry.listen_mode = true;

    // Simulate failed result
    let result: Result<HandshakeInfo, SessionError> =
        Err(SessionError { cancelled: true, message: "cancelled".into() });
    let is_ok = result.is_ok();
    app.handle_connection_result(result);

    // The simulation of the event loop retry scheduling:
    if !is_ok && auto_retry.listen_mode && app.state == ConnectionState::Idle {
        auto_retry.on_disconnected(NOW);
    }

    assert!(auto_retry.retry_at.is_some(), "failed listen should reschedule retry");
}

#[test]
fn startup_uses_sidebar_values_for_action() {
    let mut app = App::new("10.0.0.1".into(), 19132, None, None);
    app.sidebar.target_uuid = FieldState::new("uuid-from-config".into());
    app.sidebar.passcode = FieldState::new("pass-from-config".into());

    app.start_listen_from_sidebar();
    assert_eq!(app.state, ConnectionState::Pending);

    // Clean up for next test
    let mut app2 = App::new("10.0.0.2".into(), 19133, None, None);
    app2.sidebar.target_uuid = FieldState::new("uuid-connect".into());
    app2.sidebar.passcode = FieldState::new("pass-connect".into());

    app2.start_connect_from_sidebar();
    assert_eq!(app2.state, ConnectionState::Pending);
}

#[test]
fn known_plugins_cache_survives_disconnect() {
    let mut app = make_app();
    app.known_plugins = vec![PluginDetails { name: "Alpha".into(), module_uuid: "uuid-alpha".into() }];
    app.handshake = Some(HandshakeInfo {
        version: 9,
        plugins: vec![PluginDetails { name: "Beta".into(), module_uuid: "uuid-beta".into() }],
        require_passcode: false,
    });
    app.state = ConnectionState::Connected { version: 9, plugin_count: 2 };

    // Disconnect clears handshake but known_plugins survives
    app.clear_session_transients();
    assert!(app.handshake.is_none());
    assert_eq!(app.known_plugins.len(), 1);
    assert_eq!(app.known_plugins[0].name, "Alpha");
}

#[test]
fn known_plugins_update_name_by_uuid() {
    let mut app = make_app();
    app.known_plugins = vec![PluginDetails { name: "OldName".into(), module_uuid: "uuid-alpha".into() }];

    // Simulate a handshake with updated name
    let hs = HandshakeInfo {
        version: 9,
        plugins: vec![PluginDetails { name: "NewName".into(), module_uuid: "uuid-alpha".into() }],
        require_passcode: false,
    };
    app.handle_connection_result(Ok(hs));

    assert_eq!(app.known_plugins.len(), 1);
    assert_eq!(app.known_plugins[0].name, "NewName");
    assert_eq!(app.known_plugins[0].module_uuid, "uuid-alpha");
}

#[test]
fn filter_toggle_marks_config_dirty() {
    let mut app = make_app();
    assert!(!app.config_dirty);

    app.open_filter_popup();
    app.toggle_selected_filter();
    assert!(app.config_dirty);
}

#[test]
fn search_commit_marks_config_dirty() {
    let mut app = make_app();
    assert!(!app.config_dirty);

    app.open_search();
    app.search_input.field.value = "test".into();
    app.commit_search();
    assert!(app.config_dirty);
}

#[test]
fn reset_filters_marks_config_dirty() {
    let mut app = make_app();
    app.log_filter.search = "old".into();
    app.rebuild_filtered_log_indices();
    app.config_dirty = false;

    app.reset_filters();
    assert!(app.config_dirty);
}

#[test]
fn successful_handshake_marks_config_dirty() {
    let mut app = make_app();
    assert!(!app.config_dirty);

    let hs = HandshakeInfo { version: 9, plugins: vec![], require_passcode: false };
    app.handle_connection_result(Ok(hs));
    assert!(app.config_dirty);
}

#[test]
fn config_path_respects_cli_arg() {
    // Passing a --config path should override default
    let cli_path = "C:\\Users\\test\\custom.json";
    let resolved: PathBuf = cli_path.into();
    assert_eq!(resolved.to_string_lossy(), "C:\\Users\\test\\custom.json");
}

#[test]
fn credentials_survive_failed_connection_and_disconnect() {
    let mut app = App::new(
        "127.0.0.1".into(),
        19144,
        Some("loaded-uuid".into()),
        Some("loaded-pass".into()),
    );
    // Simulate loaded config: persisted fields are initialized from CLI/defaults
    assert_eq!(app.persisted_target_uuid.as_deref(), Some("loaded-uuid"));
    assert_eq!(app.persisted_passcode.as_deref(), Some("loaded-pass"));

    // Simulate a failed connection that clears handshake
    app.state = ConnectionState::Disconnected;
    app.clear_session_transients();
    assert!(app.handshake.is_none());
    // Persisted credentials survive
    assert_eq!(app.persisted_target_uuid.as_deref(), Some("loaded-uuid"));
    assert_eq!(app.persisted_passcode.as_deref(), Some("loaded-pass"));
}

#[test]
fn filter_save_snapshot_does_not_erase_credentials() {
    let mut app = App::new("127.0.0.1".into(), 19144, Some("uuid".into()), Some("pass".into()));
    // Toggle a filter (marks dirty)
    app.log_filter.kinds.print = false;
    app.rebuild_filtered_log_indices();
    app.mark_config_dirty();

    // Verify fake save would include the credentials
    assert_eq!(app.persisted_target_uuid.as_deref(), Some("uuid"));
    assert_eq!(app.persisted_passcode.as_deref(), Some("pass"));
    assert!(app.config_dirty);
}

#[test]
fn selected_target_captures_persisted_uuid() {
    let mut app = make_app();
    assert!(app.persisted_target_uuid.is_none());

    // Simulate successful target selection (what plugin Enter does)
    let uuid = "selected-uuid".to_string();
    app.plugin_selection = None;
    app.sidebar.target_uuid = FieldState::new(uuid.clone());
    app.persisted_target_uuid = Some(uuid);
    app.mark_config_dirty();

    assert_eq!(app.persisted_target_uuid.as_deref(), Some("selected-uuid"));
    assert_eq!(app.sidebar.target_uuid.value, "selected-uuid");
    assert!(app.config_dirty);
}

#[test]
fn successful_handshake_captures_persisted_credentials() {
    let mut app = make_app();
    assert!(app.persisted_target_uuid.is_none());
    assert!(app.persisted_passcode.is_none());

    // Set sidebar values (simulating user input or config)
    app.sidebar.target_uuid = FieldState::new("hs-uuid".into());
    app.sidebar.passcode = FieldState::new("hs-pass".into());
    app.pending_target_uuid = Some("hs-uuid".into());
    app.pending_passcode = Some("hs-pass".into());

    // Simulate successful handshake
    let hs = HandshakeInfo { version: 9, plugins: vec![], require_passcode: false };
    app.handle_connection_result(Ok(hs));

    assert_eq!(app.persisted_target_uuid.as_deref(), Some("hs-uuid"));
    assert_eq!(app.persisted_passcode.as_deref(), Some("hs-pass"));
    assert!(app.config_dirty);
}

#[test]
fn pending_attempt_owns_credentials_and_no_passcode_clears_old() {
    let mut app = App::new("127.0.0.1".into(), 19144, None, Some("old".into()));
    app.start_listen(19144, Some("sent-target".into()), Some("sent-pass".into()));
    app.sidebar.target_uuid = FieldState::new("edited-target".into());
    app.sidebar.passcode = FieldState::new("".into());
    app.handle_connection_result(Ok(HandshakeInfo { version: 9, plugins: vec![], require_passcode: false }));
    assert_eq!(app.persisted_target_uuid.as_deref(), Some("sent-target"));
    assert_eq!(app.persisted_passcode, Some("sent-pass".into()));

    app.persisted_passcode = Some("old-again".into());
    app.start_listen(19144, None, None);
    app.handle_connection_result(Ok(HandshakeInfo { version: 9, plugins: vec![], require_passcode: false }));
    assert!(app.persisted_passcode.is_none());
}

#[test]
fn lifecycle_disconnect_before_buffered_result_keeps_attempt_credentials() {
    let mut app = App::new(
        "127.0.0.1".into(),
        19144,
        Some("old-target".into()),
        Some("old-pass".into()),
    );
    app.start_listen(19144, Some("attempt-target".into()), Some("attempt-pass".into()));
    app.handle_session_event(SessionEvent::Disconnected);
    app.handle_connection_result(Ok(HandshakeInfo { version: 9, plugins: vec![], require_passcode: false }));

    assert_eq!(app.persisted_target_uuid.as_deref(), Some("attempt-target"));
    assert_eq!(app.persisted_passcode.as_deref(), Some("attempt-pass"));
}

#[test]
fn lifecycle_terminated_before_buffered_result_keeps_attempt_credentials() {
    let mut app = make_app();
    app.start_listen(19144, Some("attempt-target".into()), Some("attempt-pass".into()));
    app.handle_session_event(SessionEvent::Terminated { reason: None });
    app.handle_connection_result(Ok(HandshakeInfo { version: 9, plugins: vec![], require_passcode: false }));

    assert_eq!(app.persisted_target_uuid.as_deref(), Some("attempt-target"));
    assert_eq!(app.persisted_passcode.as_deref(), Some("attempt-pass"));
}

#[test]
fn failed_attempt_preserves_confirmed_credentials() {
    let mut app = App::new(
        "127.0.0.1".into(),
        19144,
        Some("confirmed-target".into()),
        Some("confirmed-pass".into()),
    );
    app.start_connect("host".into(), 19144, Some("new-target".into()), Some("new-pass".into()));
    app.handle_connection_result(Err(SessionError { cancelled: true, message: "cancelled".into() }));
    assert_eq!(app.persisted_target_uuid.as_deref(), Some("confirmed-target"));
    assert_eq!(app.persisted_passcode.as_deref(), Some("confirmed-pass"));
    assert!(app.pending_target_uuid.is_none());
    assert!(app.pending_passcode.is_none());
}

#[test]
fn sole_plugin_is_persisted_when_attempt_had_no_target() {
    let mut app = make_app();
    app.start_listen(19144, None, None);
    app.handle_connection_result(Ok(HandshakeInfo {
        version: 9,
        plugins: vec![PluginDetails { name: "only".into(), module_uuid: "sole-uuid".into() }],
        require_passcode: false,
    }));
    assert_eq!(app.persisted_target_uuid.as_deref(), Some("sole-uuid"));
}

#[test]
fn successful_zero_plugin_attempt_clears_old_target() {
    let mut app = App::new(
        "127.0.0.1".into(),
        19144,
        Some("old-target".into()),
        Some("old-pass".into()),
    );
    app.start_listen(19144, None, None);
    app.handle_connection_result(Ok(HandshakeInfo { version: 9, plugins: vec![], require_passcode: false }));

    assert!(app.persisted_target_uuid.is_none());
    assert!(app.persisted_passcode.is_none());
}

#[test]
fn unsent_sidebar_edits_not_persisted() {
    let mut app = make_app();
    // User types in sidebar but never connects
    app.sidebar.target_uuid = FieldState::new("typed-uuid".into());
    app.sidebar.passcode = FieldState::new("typed-pass".into());

    // Persisted fields should NOT be updated until handshake/selection
    assert!(app.persisted_target_uuid.is_none());
    assert!(app.persisted_passcode.is_none());
}

#[test]
fn disconnected_enter_with_pending_retry_cancels_only() {
    let mut app = make_app();
    let mut auto_retry = make_auto_retry();
    app.focus = Focus::SidebarPrimary;
    app.state = ConnectionState::Disconnected;
    app.sidebar.mode = Mode::Listen;
    auto_retry.listen_mode = true;
    auto_retry.retry_at = Some(NOW);

    // Enter cancels retry, sets Idle, does NOT reconnect
    assert!(!press(&mut app, key(KeyCode::Enter), &mut auto_retry));
    assert_eq!(app.state, ConnectionState::Idle);
    assert!(auto_retry.retry_at.is_none());
    assert!(!auto_retry.listen_mode);
    assert!(app.event_log.iter().any(|e| e.message.contains("Cancelled")));
}

#[test]
fn disconnected_enter_without_pending_retry_reconnects() {
    let mut app = make_app();
    let mut auto_retry = make_auto_retry();
    app.focus = Focus::SidebarPrimary;
    app.state = ConnectionState::Disconnected;
    app.sidebar.mode = Mode::Listen;
    // No pending retry
    assert!(auto_retry.retry_at.is_none());

    assert!(!press(&mut app, key(KeyCode::Enter), &mut auto_retry));
    // Without pending retry, fresh listen starts
    assert_eq!(app.state, ConnectionState::Pending);
    assert!(auto_retry.listen_mode);
}

#[test]
fn auto_retry_due_fires_exactly_once() {
    let mut ar = AutoRetryState::new();
    ar.on_listen_started();
    ar.retry_at = Some(NOW);

    // First fire succeeds
    assert!(ar.try_fire(NOW));
    assert!(ar.retry_at.is_none());

    // Second fire returns false (already consumed)
    assert!(!ar.try_fire(NOW));
}

fn make_stat(name: &str, values: Vec<f64>, children: Vec<StatNode>) -> StatNode {
    StatNode {
        name: name.into(),
        value: values.last().map(|v| v.to_bits()),
        value_count: values.len(),
        children,
    }
}

fn populate_stats(app: &mut App) {
    let stats = vec![
        make_stat(
            "server_tick_timings",
            vec![],
            vec![make_stat("tick", vec![16.67], vec![]), make_stat("entity", vec![1500.0], vec![])],
        ),
        make_stat(
            "app_memory",
            vec![],
            vec![make_stat("used", vec![1_048_576.0], vec![]), make_stat("total", vec![4_194_304.0], vec![])],
        ),
        make_stat(
            "client_stats",
            vec![],
            vec![
                make_stat("client-b", vec![], vec![make_stat("cpu", vec![20.0], vec![])]),
                make_stat("client-a", vec![], vec![make_stat("cpu", vec![10.0], vec![])]),
            ],
        ),
    ];
    app.stats.accumulate(&stats, 1);
}

#[test]
fn stats_tab_r_clears_only_stats() {
    let mut app = make_app();
    let mut auto_retry = make_auto_retry();
    populate_stats(&mut app);
    app.focus = Focus::Main;
    app.set_tab(Tab::Stats);
    app.reconcile_stats_selection();
    assert!(!app.stats.is_empty());

    assert!(!press(&mut app, key(KeyCode::Char('r')), &mut auto_retry));
    assert!(app.stats.is_empty());
    assert!(app.stats_selected_category.is_none());

    // Log and filters are untouched.
    app.add_log("keep me".into());
    app.log_filter.search = "term".into();
    assert_eq!(app.event_log.len(), 1);
    assert!(!app.log_filter.search.is_empty());
}

#[test]
fn stats_tab_left_right_changes_category() {
    let mut app = make_app();
    let mut auto_retry = make_auto_retry();
    populate_stats(&mut app);
    app.focus = Focus::Main;
    app.set_tab(Tab::Stats);
    app.reconcile_stats_selection();
    assert_eq!(app.stats_selected_category.as_deref(), Some("server-performance"));

    assert!(!press(&mut app, key(KeyCode::Right), &mut auto_retry));
    assert_eq!(app.stats_selected_category.as_deref(), Some("memory"));

    assert!(!press(&mut app, key(KeyCode::Left), &mut auto_retry));
    assert_eq!(app.stats_selected_category.as_deref(), Some("server-performance"));
}

#[test]
fn stats_tab_brackets_change_client() {
    let mut app = make_app();
    let mut auto_retry = make_auto_retry();
    populate_stats(&mut app);
    app.focus = Focus::Main;
    app.set_tab(Tab::Stats);
    app.stats_selected_category = Some("client".into());
    app.reconcile_stats_selection();
    assert_eq!(app.stats_selected_category.as_deref(), Some("client"));
    assert_eq!(app.stats_selected_client.as_deref(), Some("client-a"));

    assert!(!press(&mut app, key(KeyCode::Char(']')), &mut auto_retry));
    assert_eq!(app.stats_selected_client.as_deref(), Some("client-b"));

    assert!(!press(&mut app, key(KeyCode::Char('[')), &mut auto_retry));
    assert_eq!(app.stats_selected_client.as_deref(), Some("client-a"));
}

#[test]
fn stats_tab_arrows_scroll_cards() {
    let mut app = make_app();
    let mut auto_retry = make_auto_retry();
    // Create many uncategorized groups so the viewport overflows.
    let stats: Vec<StatNode> = (0..16)
        .map(|i| make_stat(&format!("group_{i:02}"), vec![f64::from(i)], vec![]))
        .collect();
    app.stats.accumulate(&stats, 1);
    app.focus = Focus::Main;
    app.set_tab(Tab::Stats);
    app.stats_selected_category = Some("uncategorized".into());
    app.reconcile_stats_selection();
    assert_eq!(app.stats_scroll_offset, 0);

    assert!(!press(&mut app, key(KeyCode::Down), &mut auto_retry));
    assert_eq!(app.stats_scroll_offset, 1);

    assert!(!press(&mut app, key(KeyCode::Up), &mut auto_retry));
    assert_eq!(app.stats_scroll_offset, 0);
}

#[test]
fn stats_tab_global_keys_still_work() {
    let mut app = make_app();
    let mut auto_retry = make_auto_retry();
    populate_stats(&mut app);
    app.focus = Focus::Main;
    app.set_tab(Tab::Stats);

    assert!(!press(&mut app, key(KeyCode::Char('1')), &mut auto_retry));
    assert_eq!(app.tab, Tab::Log);

    app.set_tab(Tab::Stats);
    assert!(!press(&mut app, key(KeyCode::Char('h')), &mut auto_retry));
    assert_eq!(app.help_popup, HelpPopup::Visible);
}
