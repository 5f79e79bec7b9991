use mc_tui::adapter::{module_map_status, pack_map_choice, portable_relative_path, selected_module_uuid, workspace_has_module, HandshakeInfo as FrontHandshake, MapSearch, McEvent, PackChoice, PackModule};
use mc_tui::app::PluginDetails;
use mc_tui::events::HandshakeInfo;
use mc_tui::frames::{
    enrich_frames, lookup_position, looks_like_inline_error, OriginalPosition, normalize_script_path, parse_generated_location,
    parse_script_frames, parse_stack_frame_body, ScriptFrame,
};

#[test]
fn parses_inline_error_and_following_anonymous_frame_in_order() {
    let message = "Error: shield registration failed at registerShieldSystem (main.js:2394)\n    at <anonymous> (main.js:2456)";
    let frames = parse_script_frames(message);

    assert_eq!(frames.len(), 2);
    assert_eq!(
        frames[0],
        ScriptFrame {
            function_name: Some("registerShieldSystem".into()),
            generated_path: "/scripts/main.js".into(),
            generated_line: 2394,
            generated_column: None,
            source_path: None,
            source_line: None,
            source_column: None,
            mapped: false,
        }
    );
    assert_eq!(frames[1].function_name.as_deref(), Some("<anonymous>"));
    assert_eq!(frames[1].generated_line, 2456);
}

#[test]
fn parses_supported_direct_parenthesized_and_column_forms() {
    let frames = parse_script_frames(
        "at main.js:2394\n at run (BP/scripts/main.js:2395)\n at other (/scripts/main.js:2396:17)\n at scripts\\main.js:2397",
    );

    assert_eq!(frames.len(), 4);
    assert_eq!(frames[0].function_name, None);
    assert_eq!(
        (frames[0].generated_line, frames[0].generated_column),
        (2394, None)
    );
    assert_eq!(frames[1].function_name.as_deref(), Some("run"));
    assert_eq!(
        (frames[1].generated_line, frames[1].generated_column),
        (2395, None)
    );
    assert_eq!(frames[2].function_name.as_deref(), Some("other"));
    assert_eq!(
        (frames[2].generated_line, frames[2].generated_column),
        (2396, Some(17))
    );
    assert!(frames
        .iter()
        .all(|frame| frame.generated_path == "/scripts/main.js"));
}

#[test]
fn ignores_non_stack_prose_containing_a_script_location() {
    let message = "See main.js:2394 for details\nWe looked at main.js:2394 yesterday.";
    assert!(parse_script_frames(message).is_empty());
}

#[test]
fn location_with_zero_or_garbage_number_is_rejected() {
    assert_eq!(parse_generated_location("main.js:0"), None);
    assert_eq!(parse_generated_location("main.js:abc"), None);
    assert_eq!(parse_generated_location("main.js"), None);
    assert_eq!(parse_generated_location("other.js:12"), None);
}

#[test]
fn location_line_and_column_forms() {
    assert_eq!(
        parse_generated_location("main.js:12"),
        Some(("/scripts/main.js".to_string(), 12, None))
    );
    assert_eq!(
        parse_generated_location("main.js:12:4"),
        Some(("/scripts/main.js".to_string(), 12, Some(4)))
    );
    // a zero line number makes the middle piece part of the path
    assert_eq!(parse_generated_location("main.js:0:4"), None);
    // an explicit plus sign is accepted as u32 parsing accepts it
    assert_eq!(
        parse_generated_location("main.js:+7"),
        Some(("/scripts/main.js".to_string(), 7, None))
    );
}

#[test]
fn script_paths_are_normalized() {
    assert_eq!(normalize_script_path("  //BP/scripts/main.js "), Some("/scripts/main.js".to_string()));
    assert_eq!(normalize_script_path("scripts\\main.js"), Some("/scripts/main.js".to_string()));
    assert_eq!(normalize_script_path("main.js"), Some("/scripts/main.js".to_string()));
    assert_eq!(normalize_script_path("BP/main.js"), Some("/scripts/main.js".to_string()));
    assert_eq!(normalize_script_path("lib/main.js"), None);
    assert_eq!(normalize_script_path(""), None);
}

#[test]
fn frame_body_rejects_names_with_at_and_empty_names() {
    assert!(parse_stack_frame_body("a at b (main.js:3)").is_none());
    assert!(parse_stack_frame_body(" (main.js:3)").is_none());
    let f = parse_stack_frame_body("  fn (main.js:3:9)  ").unwrap();
    assert_eq!(f.function_name.as_deref(), Some("fn"));
    assert_eq!(f.generated_line, 3);
    assert_eq!(f.generated_column, Some(9));
}

#[test]
fn inline_error_detection() {
    assert!(looks_like_inline_error("TypeError: x is undefined"));
    assert!(looks_like_inline_error("  CustomException : boom"));
    assert!(!looks_like_inline_error("Warning: nothing"));
    assert!(!looks_like_inline_error("Error without colon"));
}

#[test]
fn crlf_lines_and_repeated_separators() {
    let frames = parse_script_frames("at main.js:1\r\nat main.js:2\r\n");
    assert_eq!(frames.len(), 2);
    assert_eq!(frames[1].generated_line, 2);
    // in an error line every " at " starts a candidate body; a body that runs
    // into the next " at " is no frame, so only the last one is found here
    let frames = parse_script_frames("Error: x at main.js:5 at main.js:6");
    assert_eq!(frames.len(), 1);
    assert_eq!(frames[0].generated_line, 6);
}

#[test]
fn relative_path_components() {
    assert_eq!(
        portable_relative_path("./scripts\\\\main.js"),
        vec!["scripts".to_string(), "main.js".to_string()]
    );
    assert!(portable_relative_path("/./").is_empty());
}

#[test]
fn module_choice_prefers_request_then_selection_then_single_plugin() {
    let hs = HandshakeInfo {
        version: 7,
        plugins: vec![PluginDetails { name: "P".into(), module_uuid: "only".into() }],
        require_passcode: false,
    };
    assert_eq!(selected_module_uuid(Some("req".into()), &Some("sel".into()), &hs), Some("req".into()));
    assert_eq!(selected_module_uuid(None, &Some("sel".into()), &hs), Some("sel".into()));
    assert_eq!(selected_module_uuid(None, &None, &hs), Some("only".into()));
    let two = HandshakeInfo { plugins: vec![hs.plugins[0].clone(), hs.plugins[0].clone()], ..hs.clone() };
    assert_eq!(selected_module_uuid(None, &None, &two), None);
}

#[test]
fn workspace_module_match_ignores_ascii_case() {
    let uuids = vec!["ABC-def".to_string()];
    assert!(workspace_has_module(&uuids, "abc-DEF"));
    assert!(!workspace_has_module(&uuids, "abc-de"));
}

#[test]
fn front_end_handshake_starts_without_source_maps() {
    let hs = HandshakeInfo {
        version: 9,
        plugins: vec![PluginDetails { name: "Test".into(), module_uuid: "uuid".into() }],
        require_passcode: true,
    };
    let info = FrontHandshake::from_session(&hs);
    assert_eq!(info.version, 9);
    assert!(info.require_passcode);
    assert_eq!(info.plugins.len(), 1);
    assert_eq!(info.plugins[0].module_uuid, "uuid");
    assert!(!info.source_map_status.enabled);
    assert!(info.source_map_status.map_path.is_none());
}

#[test]
fn enrichment_records_one_based_source_positions_and_keeps_misses_unmapped() {
    let mut frames = parse_script_frames("at main.js:1\nat main.js:2:3");
    assert_eq!(lookup_position(&frames[0]), ("/scripts/main.js".to_string(), 0, 0));
    assert_eq!(lookup_position(&frames[1]), ("/scripts/main.js".to_string(), 1, 2));
    enrich_frames(
        &mut frames,
        vec![Some(OriginalPosition { source: "../../src/main.ts".into(), line: 0, column: 0 }), None],
    );
    assert_eq!(frames[0].source_path.as_deref(), Some("../../src/main.ts"));
    assert_eq!((frames[0].source_line, frames[0].source_column), (Some(1), Some(1)));
    assert!(frames[0].mapped);
    assert_eq!(frames[1].generated_line, 2);
    assert_eq!(frames[1].source_line, None);
    assert!(!frames[1].mapped);

    let mut far = parse_script_frames("at main.js:1");
    enrich_frames(&mut far, vec![Some(OriginalPosition { source: "x".into(), line: u32::MAX, column: 4 })]);
    assert_eq!((far[0].source_line, far[0].source_column), (Some(u32::MAX), Some(5)));
}

#[test]
fn mc_event_from_debuggee_protocol() {
    let event = mc_tui::events::DebuggeeEvent::Protocol {
        version: 8,
        plugins: vec![PluginDetails { name: "test".into(), module_uuid: "xyz".into() }],
        require_passcode: false,
    };
    match McEvent::from_debuggee(event) {
        McEvent::Protocol { version, plugins, require_passcode } => {
            assert_eq!(version, 8);
            assert!(!require_passcode);
            assert_eq!(plugins.len(), 1);
            assert_eq!(plugins[0].module_uuid, "xyz");
        }
        _ => panic!("expected a protocol event"),
    }
}

#[test]
fn mc_event_from_debuggee_stopped() {
    let event = mc_tui::events::DebuggeeEvent::Stopped { reason: "breakpoint".into(), thread: 1 };
    match McEvent::from_debuggee(event) {
        McEvent::Stopped { reason, thread } => {
            assert_eq!(reason, "breakpoint");
            assert_eq!(thread, 1);
        }
        _ => panic!("expected a stopped event"),
    }
}

#[test]
fn mc_event_from_debuggee_terminated() {
    let event = mc_tui::events::DebuggeeEvent::Terminated { reason: Some("done".into()) };
    match McEvent::from_debuggee(event) {
        McEvent::Terminated { reason } => assert_eq!(reason.as_deref(), Some("done")),
        _ => panic!("expected a terminated event"),
    }
}

#[test]
fn print_events_carry_their_frames_and_level_number() {
    let event = mc_tui::events::DebuggeeEvent::Print {
        message: "Error: failed at bootstrap (main.js:1)".into(),
        log_level: mc_tui::app::LogLevel::Error,
    };
    let mut mc = McEvent::from_debuggee(event);
    assert_eq!(mc.frame_count(), 1);
    mc.enrich(vec![Some(OriginalPosition { source: "../../src/main.ts".into(), line: 0, column: 0 })]);
    match mc {
        McEvent::Print { message, log_level, frames } => {
            assert_eq!(message, "Error: failed at bootstrap (main.js:1)");
            assert_eq!(log_level, 3);
            assert_eq!((frames[0].generated_line, frames[0].generated_column), (1, None));
            assert_eq!(frames[0].source_path.as_deref(), Some("../../src/main.ts"));
            assert_eq!((frames[0].source_line, frames[0].source_column), (Some(1), Some(1)));
            assert!(frames[0].mapped);
        }
        _ => panic!("expected a print event"),
    }
    let resp = mc_tui::events::DebuggeeEvent::Response {
        request_seq: 1,
        command: None,
        success: None,
        body: None,
        error: None,
    };
    match McEvent::from_debuggee(resp) {
        McEvent::Unknown { event_type } => assert_eq!(event_type, "response"),
        _ => panic!("expected an unknown event"),
    }
}

#[test]
fn source_map_status_follows_module_workspace_and_searches() {
    let none = module_map_status(None, None, &vec![]);
    assert!(!none.enabled);
    assert_eq!(none.error.as_deref(), Some("no connected script module is selected"));

    let ws = vec!["ABC".to_string()];
    let other = module_map_status(Some("zzz"), Some(&ws), &vec![]);
    assert_eq!(other.error.as_deref(), Some("open workspace does not contain connected script module zzz"));

    let no_dirs = module_map_status(Some("abc"), Some(&ws), &vec![]);
    assert_eq!(
        no_dirs.error.as_deref(),
        Some("MOJANG_DIR is not set and no standard com.mojang directory was found")
    );

    let searches = vec![
        MapSearch::NotFound("first".into()),
        MapSearch::Found { map_path: "/m/scripts/main.js.map".into(), load_error: None },
        MapSearch::NotFound("never looked at".into()),
    ];
    let found = module_map_status(Some("abc"), None, &searches);
    assert!(found.enabled);
    assert_eq!(found.map_path.as_deref(), Some("/m/scripts/main.js.map"));
    assert!(found.error.is_none());

    let bad = module_map_status(
        Some("abc"),
        None,
        &vec![MapSearch::Found { map_path: "/m/x.map".into(), load_error: Some("bad map".into()) }],
    );
    assert!(!bad.enabled);
    assert_eq!(bad.map_path.as_deref(), Some("/m/x.map"));
    assert_eq!(bad.error.as_deref(), Some("bad map"));

    let missing = module_map_status(
        Some("abc"),
        None,
        &vec![MapSearch::NotFound("a".into()), MapSearch::NotFound("b".into())],
    );
    assert!(!missing.enabled && missing.map_path.is_none());
    assert_eq!(missing.error.as_deref(), Some("a; b"));
}

fn module(ty: &str, uuid: &str, maps: &[&str]) -> PackModule {
    PackModule {
        module_type: ty.into(),
        uuid: uuid.into(),
        existing_maps: maps.iter().map(|m| m.to_string()).collect(),
    }
}

#[test]
fn pack_folder_offers_the_single_map_of_the_chosen_script_module() {
    let modules = vec![
        module("data", "d-1", &["/p/BP/data.map"]),
        module("script", "S-1", &["/p/BP/scripts/app.js.map"]),
        module("script", "s-2", &[]),
    ];
    match pack_map_choice(&modules, Some("s-1")) {
        PackChoice::Single(m) => assert_eq!(m, "/p/BP/scripts/app.js.map"),
        _ => panic!("expected the map of the matching module"),
    }
    assert!(matches!(pack_map_choice(&modules, Some("s-2")), PackChoice::NoMap));
    assert!(matches!(pack_map_choice(&modules, Some("d-1")), PackChoice::NoMatchingModule));
    assert!(matches!(pack_map_choice(&modules, None), PackChoice::Single(_)));
    let two = vec![
        module("script", "a", &["/p/a.js.map"]),
        module("script", "b", &["/p/b.map.js"]),
    ];
    assert!(matches!(pack_map_choice(&two, None), PackChoice::Several));
}
