use mc_tui::app::{ConnectionState, Focus, HelpPopup, LogKindFilter, LogLevelFilter, Mode, PluginDetails, Tab};
use mc_tui::app_state::App;
use mc_tui::config::{
    AppConfig, AppConfigFile, CachedPlugin, ConfigVersion, SerializableKindFilter,
    SerializableLevelFilter,
};
use mc_tui::control::{handle_key, parse_mode, AutoRetryState, Effect, Key, KeyCode};
use mc_tui::events::{DebuggeeEvent, HandshakeInfo, SessionEvent};

fn key(code: KeyCode) -> Key {
    Key { code, no_modifiers: true, shift: false, release: false }
}

fn make_app() -> App {
    App::new("127.0.0.1".into(), 19144, None, None)
}

#[test]
fn modes_parse_from_the_command_line() {
    assert_eq!(parse_mode("listen"), Some(Mode::Listen));
    assert_eq!(parse_mode("connect"), Some(Mode::Connect));
    assert_eq!(parse_mode("Listen"), None);
}

#[test]
fn auto_retry_starts_idle_and_fires_exactly_once() {
    let mut ar = AutoRetryState::new();
    assert!(!ar.listen_mode && ar.retry_at.is_none());
    ar.on_disconnected(100);
    assert!(ar.retry_at.is_none());
    ar.on_listen_started();
    ar.on_disconnected(100);
    assert_eq!(ar.retry_at, Some(900));
    assert!(!ar.try_fire(899));
    assert!(ar.try_fire(900));
    assert!(ar.retry_at.is_none());
    assert!(!ar.try_fire(10_000));
    ar.on_connect_started();
    assert!(!ar.listen_mode);
    ar.cancel();
    assert_eq!(ar, AutoRetryState::new());
}

#[test]
fn release_events_are_ignored() {
    let mut app = make_app();
    let mut ar = AutoRetryState::new();
    let out = handle_key(&mut app, Key { release: true, ..key(KeyCode::Char('q')) }, &mut ar);
    assert!(!out.quit);
}

#[test]
fn q_quits_except_while_typing() {
    let mut app = make_app();
    let mut ar = AutoRetryState::new();
    ar.on_listen_started();
    assert!(handle_key(&mut app, key(KeyCode::Char('q')), &mut ar).quit);
    assert!(!ar.listen_mode);
    app.open_search();
    assert!(!handle_key(&mut app, key(KeyCode::Char('q')), &mut ar).quit);
    assert_eq!(app.search_input.field.value, "q");
    handle_key(&mut app, key(KeyCode::Enter), &mut ar);
    assert_eq!(app.log_filter.search, "q");
    assert!(!app.search_input.open);
}

#[test]
fn global_keys_switch_tabs_help_and_sidebar() {
    let mut app = make_app();
    let mut ar = AutoRetryState::new();
    handle_key(&mut app, key(KeyCode::Char('2')), &mut ar);
    assert_eq!(app.tab, Tab::Stats);
    handle_key(&mut app, key(KeyCode::Char('h')), &mut ar);
    assert_eq!(app.help_popup, HelpPopup::Visible);
    handle_key(&mut app, key(KeyCode::Esc), &mut ar);
    assert_eq!(app.help_popup, HelpPopup::Hidden);
    handle_key(&mut app, key(KeyCode::Char('s')), &mut ar);
    assert!(app.show_sidebar);
    assert_eq!(app.focus, Focus::SidebarModeListen);
}

#[test]
fn listen_key_starts_listening() {
    let mut app = make_app();
    let mut ar = AutoRetryState::new();
    let out = handle_key(&mut app, key(KeyCode::Char('l')), &mut ar);
    assert!(matches!(out.effect, Effect::Start(_)));
    assert_eq!(app.state, ConnectionState::Pending);
    assert!(ar.listen_mode);
    let out = handle_key(&mut app, key(KeyCode::Char('x')), &mut ar);
    assert!(matches!(out.effect, Effect::CancelPending));
    assert!(!ar.listen_mode);
}

#[test]
fn space_continues_when_stopped_and_pauses_when_running() {
    let mut app = make_app();
    let mut ar = AutoRetryState::new();
    app.handle_connection_result(Ok(HandshakeInfo { version: 7, plugins: vec![], require_passcode: false }));
    let out = handle_key(&mut app, key(KeyCode::Char(' ')), &mut ar);
    assert!(matches!(out.effect, Effect::Pause(0)));
    assert!(app.busy);
    app.finish_pause(0, Ok(()));
    assert_eq!(app.event_log.back().unwrap().message, "Pause requested (thread 0).");
    app.handle_session_event(SessionEvent::Debuggee(DebuggeeEvent::Stopped { reason: "bp".into(), thread: 4 }));
    let out = handle_key(&mut app, key(KeyCode::F(11)), &mut ar);
    assert!(matches!(out.effect, Effect::Resume(mc_tui::app_state::ResumeKind::StepIn, 4)));
}

#[test]
fn command_line_enter_sends_command() {
    let mut app = make_app();
    let mut ar = AutoRetryState::new();
    app.handle_connection_result(Ok(HandshakeInfo { version: 7, plugins: vec![], require_passcode: false }));
    handle_key(&mut app, key(KeyCode::Char(':')), &mut ar);
    assert!(app.command_input.open);
    for c in "say hi".chars() {
        handle_key(&mut app, key(KeyCode::Char(c)), &mut ar);
    }
    let out = handle_key(&mut app, key(KeyCode::Enter), &mut ar);
    match out.effect {
        Effect::SendCommand(c) => assert_eq!(c, "say hi"),
        _ => panic!("expected a command to send"),
    }
}

#[test]
fn plugin_popup_enter_selects_target() {
    let mut app = make_app();
    let mut ar = AutoRetryState::new();
    app.handle_session_event(SessionEvent::TargetSelectionRequired {
        plugins: vec![
            PluginDetails { name: "A".into(), module_uuid: "ua".into() },
            PluginDetails { name: "B".into(), module_uuid: "ub".into() },
        ],
    });
    handle_key(&mut app, key(KeyCode::Down), &mut ar);
    let out = handle_key(&mut app, key(KeyCode::Enter), &mut ar);
    match out.effect {
        Effect::SelectTarget { uuid, name } => {
            assert_eq!(uuid, "ub");
            assert_eq!(name, "B");
            app.target_selected(uuid, name, true);
        }
        _ => panic!("expected a target selection"),
    }
    assert!(app.plugin_selection.is_none());
    assert_eq!(app.sidebar.target_uuid.value, "ub");
    assert_eq!(app.pending_target_uuid, Some("ub".into()));
}

#[test]
fn primary_action_cancels_pending_retry() {
    let mut app = make_app();
    let mut ar = AutoRetryState::new();
    app.state = ConnectionState::Disconnected;
    ar.on_listen_started();
    ar.on_disconnected(0);
    app.focus = Focus::SidebarPrimary;
    app.show_sidebar = true;
    handle_key(&mut app, key(KeyCode::Enter), &mut ar);
    assert_eq!(app.state, ConnectionState::Idle);
    assert_eq!(app.event_log.back().unwrap().message, "Cancelled retry.");
    assert!(ar.retry_at.is_none());
}

fn sample_file() -> AppConfigFile {
    let mut file = AppConfigFile::default();
    file.known_plugins.push(CachedPlugin { name: "A".into(), module_uuid: "ua".into() });
    file.last_target_uuid = Some("file-target".into());
    file.passcode = Some("file-pass".into());
    file.filters.search = "needle".into();
    file.filters.kinds.stat = false;
    file.filters.levels.warn = false;
    file
}

#[test]
fn cli_values_override_stored_ones() {
    let file = sample_file();
    let cfg = AppConfig::from_file_with_cli(&file, Some("cli-target".into()), None);
    assert_eq!(cfg.last_target_uuid, Some("cli-target".into()));
    assert_eq!(cfg.passcode, Some("file-pass".into()));
    assert_eq!(cfg.search, "needle");
    assert!(!cfg.kinds.stat);
    assert!(!cfg.levels.warn);
    assert_eq!(cfg.known_plugins[0].module_uuid, "ua");
}

#[test]
fn merge_keeps_new_plugins_in_order() {
    let cfg = AppConfig::from_file_with_cli(&sample_file(), None, None);
    let file = cfg.into_file(vec![
        PluginDetails { name: "B".into(), module_uuid: "ub".into() },
        PluginDetails { name: "A again".into(), module_uuid: "ua".into() },
        PluginDetails { name: "C".into(), module_uuid: "uc".into() },
    ]);
    let uuids: Vec<&str> = file.known_plugins.iter().map(|p| p.module_uuid.as_str()).collect();
    assert_eq!(uuids, vec!["ub", "uc", "ua"]);
    assert_eq!(file.known_plugins[2].name, "A");
    assert_eq!(file.version, ConfigVersion::V1);
    assert_eq!(file.filters.search, "needle");
}

#[test]
fn filter_conversions_round_trip() {
    let mut kinds = LogKindFilter::all_enabled();
    kinds.schema = false;
    let stored = SerializableKindFilter::from(&kinds);
    assert!(!stored.schema);
    assert_eq!(LogKindFilter::from(stored), kinds);
    let levels = LogLevelFilter { log: true, warn: false, error: true };
    assert_eq!(LogLevelFilter::from(SerializableLevelFilter::from(&levels)), levels);
    assert_eq!(SerializableKindFilter::default(), SerializableKindFilter::all_enabled());
    let p = PluginDetails { name: "n".into(), module_uuid: "u".into() };
    assert_eq!(PluginDetails::from(CachedPlugin::from(&p)), p);
}

#[test]
fn apply_config_sets_filter_state_and_fills_empty_fields() {
    let mut app = App::new("127.0.0.1".into(), 19144, None, Some("cli-pass".into()));
    let cfg = AppConfig::from_file_with_cli(&sample_file(), None, None);
    app.apply_config(&cfg);
    assert_eq!(app.log_filter.search, "needle");
    assert!(!app.log_filter.kinds.stat);
    assert_eq!(app.sidebar.target_uuid.value, "file-target");
    assert_eq!(app.sidebar.passcode.value, "cli-pass");
    assert_eq!(app.persisted_passcode, Some("cli-pass".into()));
    assert_eq!(app.persisted_target_uuid, Some("file-target".into()));
    let snap = app.config_snapshot();
    assert_eq!(snap.search, "needle");
    assert_eq!(snap.known_plugins.len(), 1);
}

#[test]
fn merge_new_plugins_dedups() {
    let existing = vec![PluginDetails { name: "Alpha".into(), module_uuid: "uuid-alpha".into() }];
    let config = AppConfig {
        known_plugins: existing,
        last_target_uuid: None,
        passcode: None,
        search: String::new(),
        kinds: LogKindFilter::all_enabled(),
        levels: LogLevelFilter::all_enabled(),
    };
    let new_plugins = vec![
        PluginDetails { name: "Beta".into(), module_uuid: "uuid-beta".into() },
        PluginDetails {
            name: "Alpha".into(), // duplicate — same uuid
            module_uuid: "uuid-alpha".into(),
        },
    ];
    let file = config.into_file(new_plugins);
    // Beta should be first (new), Alpha already existed
    assert_eq!(file.known_plugins.len(), 2);
    assert_eq!(file.known_plugins[0].module_uuid, "uuid-beta");
    assert_eq!(file.known_plugins[1].module_uuid, "uuid-alpha");
}

#[test]
fn cli_target_uuid_overrides_config() {
    let file = AppConfigFile {
        last_target_uuid: Some("from-config".into()),
        passcode: Some("pass-from-config".into()),
        ..Default::default()
    };
    let config = AppConfig::from_file_with_cli(
        &file,
        Some("from-cli".into()), // CLI override
        None,                    // no CLI passcode → keep file value
    );
    assert_eq!(config.last_target_uuid.as_deref(), Some("from-cli"));
    assert_eq!(config.passcode.as_deref(), Some("pass-from-config"));
}

#[test]
fn cli_none_uses_config_value() {
    let file = AppConfigFile {
        last_target_uuid: Some("from-config".into()),
        passcode: None,
        ..Default::default()
    };
    let config = AppConfig::from_file_with_cli(&file, None, None);
    assert_eq!(config.last_target_uuid.as_deref(), Some("from-config"));
    assert!(config.passcode.is_none());
}

#[test]
fn save_then_load_restores_the_settings() {
    let cfg = AppConfig {
        known_plugins: vec![PluginDetails { name: "Alpha".into(), module_uuid: "ua".into() }],
        last_target_uuid: Some("ua".into()),
        passcode: Some("pw".into()),
        search: "boom".into(),
        kinds: LogKindFilter { stat: false, ..LogKindFilter::all_enabled() },
        levels: LogLevelFilter { log: false, warn: true, error: true },
    };
    let file = cfg.clone().into_file(vec![PluginDetails { name: "Beta".into(), module_uuid: "ub".into() }]);
    let back = AppConfig::from_file_with_cli(&file, None, None);
    assert_eq!(back.last_target_uuid, cfg.last_target_uuid);
    assert_eq!(back.passcode, cfg.passcode);
    assert_eq!(back.search, cfg.search);
    assert_eq!(back.kinds, cfg.kinds);
    assert_eq!(back.levels, cfg.levels);
    let uuids: Vec<&str> = back.known_plugins.iter().map(|p| p.module_uuid.as_str()).collect();
    assert_eq!(uuids, vec!["ub", "ua"]);
}
