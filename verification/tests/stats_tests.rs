use mc_tui::events::{count_stats, format_debuggee_event, log_kind_for, DebuggeeEvent};
use mc_tui::app::{LogKind, LogLevel, PluginDetails};
use mc_tui::stats::{
    accumulate_stats, build_categorized_groups, build_chart_groups, build_client_ids,
    build_subscriber_addon_ids, get_client_id, get_subscriber_parts, is_memory_group, short_name,
    StatGroup, StatNode, StatSeries, StatsState, MAX_STAT_POINTS,
};
use mc_tui::view::filter_addon_group;

#[test]
fn short_name_strips_first_component() {
    assert_eq!(short_name("a.b.c"), "b.c");
    assert_eq!(short_name("single"), "single");
    assert_eq!(short_name("client_stats.abc.mem"), "abc.mem");
}

#[test]
fn client_id_extracted_correctly() {
    assert_eq!(
        get_client_id("client_stats.uuid-123.memory"),
        Some("uuid-123".into())
    );
    assert_eq!(get_client_id("server_tick_timings.tick"), None);
    assert_eq!(get_client_id("client_stats"), None);
    assert_eq!(get_client_id(""), None);
}

#[test]
fn subscriber_paths_are_strict_and_events_keep_remaining_components() {
    assert_eq!(
        get_subscriber_parts("fine_grained_subscribers.alpha.block.place"),
        Some(("alpha".into(), "block.place".into()))
    );
    assert!(get_subscriber_parts("fine_grained_subscribers.alpha").is_none());
    assert!(get_subscriber_parts("fine_grained_subscribers..place").is_none());
    assert!(get_subscriber_parts("other.alpha.place").is_none());
}

#[test]
fn memory_group_detection() {
    assert!(is_memory_group("app_memory"));
    assert!(is_memory_group("memory"));
    assert!(is_memory_group("MEMORY"));
    assert!(!is_memory_group("server_tick_timings"));
}

fn stat(name: &str, value: Option<f64>, children: Vec<StatNode>) -> StatNode {
    StatNode {
        name: name.into(),
        value: value.map(|v| v.to_bits()),
        value_count: usize::from(value.is_some()),
        children,
    }
}

#[test]
fn nested_stats_accumulate_under_dotted_paths() {
    let mut s = StatsState::new();
    let batch = vec![stat("client_stats", None, vec![stat("abc", None, vec![stat("memory", Some(5.0), vec![])])])];
    s.accumulate(&batch, 1);
    s.accumulate(&batch, 2);
    assert_eq!(s.series_count(), 1);
    let series = &s.collection()[0];
    assert_eq!(series.path, "client_stats.abc.memory");
    assert_eq!(series.ticks, vec![1, 2]);
    assert_eq!(s.client_ids(), vec!["abc".to_string()]);
    s.clear();
    assert!(s.is_empty());
}

#[test]
fn stat_values_are_counted_recursively() {
    let batch = vec![
        stat("a", Some(1.0), vec![stat("b", Some(2.0), vec![])]),
        StatNode { name: "c".into(), value: None, value_count: 3, children: vec![] },
    ];
    assert_eq!(count_stats(&batch), 5);
}

#[test]
fn debuggee_events_format_to_one_line() {
    let e = DebuggeeEvent::Protocol {
        version: 9,
        plugins: vec![PluginDetails { name: "Test".into(), module_uuid: "uuid".into() }],
        require_passcode: true,
    };
    assert_eq!(format_debuggee_event(&e), "Protocol v9, 1 plugin(s) (passcode required)");
    assert_eq!(log_kind_for(&e), LogKind::Protocol);
    let e = DebuggeeEvent::Stopped { reason: "breakpoint".into(), thread: 0 };
    assert_eq!(format_debuggee_event(&e), "Stopped: breakpoint (thread 0)");
    let e = DebuggeeEvent::Print { message: "hello".into(), log_level: LogLevel::Warn };
    assert_eq!(format_debuggee_event(&e), "[WARN] hello");
    let e = DebuggeeEvent::Notification { message: "notify!".into(), log_level: LogLevel::Error };
    assert_eq!(format_debuggee_event(&e), "[ERROR] notify!");
    let e = DebuggeeEvent::Stat2 { tick: 42, stats: vec![stat("cpu", Some(1.0), vec![])] };
    assert_eq!(format_debuggee_event(&e), "Stats tick=42 (1 value(s))");
    let e = DebuggeeEvent::Terminated { reason: Some("game over".into()) };
    assert_eq!(format_debuggee_event(&e), "Terminated: game over");
    let e = DebuggeeEvent::Terminated { reason: None };
    assert_eq!(format_debuggee_event(&e), "Terminated");
    let e = DebuggeeEvent::DebuggeeResponse { request_seq: 5, args: None, success: Some(true), response_message: None };
    assert_eq!(format_debuggee_event(&e), "DebuggeeResponse seq=5 success=true");
    let e = DebuggeeEvent::Response { request_seq: 3, command: Some("next".into()), success: Some(true), body: None, error: None };
    assert_eq!(format_debuggee_event(&e), "Response seq=3 [next] ok");
    let e = DebuggeeEvent::Response { request_seq: 4, command: None, success: Some(false), body: None, error: Some("not found".into()) };
    assert_eq!(format_debuggee_event(&e), "Response seq=4 [?] error: not found");
    let e = DebuggeeEvent::Response { request_seq: 4, command: None, success: Some(false), body: None, error: None };
    assert_eq!(format_debuggee_event(&e), "Response seq=4 [?] fail");
    let e = DebuggeeEvent::Schema { descriptor_count: 1 };
    assert_eq!(format_debuggee_event(&e), "Schema: 1 descriptor(s)");
    let e = DebuggeeEvent::ProfilerCapture { capture_base_path: "/tmp/cap".into(), capture_data: "binary".into() };
    assert_eq!(format_debuggee_event(&e), "Profiler capture: /tmp/cap");
    let e = DebuggeeEvent::Unknown { event_type: "FooBar".into() };
    assert_eq!(format_debuggee_event(&e), "Unknown event: FooBar");
    assert_eq!(log_kind_for(&e), LogKind::Unknown);
}

// ── Accumulation, grouping and categories ──────────────────────────────

fn make_stat(name: &str, values: Vec<f64>, children: Vec<StatNode>) -> StatNode {
    StatNode {
        name: name.into(),
        value: values.last().map(|v| v.to_bits()),
        value_count: values.len(),
        children,
    }
}

/// A stat that carries one value that is not a number.
fn non_numeric_stat(name: &str) -> StatNode {
    StatNode { name: name.into(), value: None, value_count: 1, children: vec![] }
}

fn at<'a>(col: &'a [StatSeries], path: &str) -> &'a StatSeries {
    col.iter().find(|s| s.path == path).unwrap()
}

fn floats(s: &StatSeries) -> Vec<f64> {
    s.values.iter().map(|b| f64::from_bits(*b)).collect()
}

fn series_of(path: &str, ticks: Vec<u64>, values: Vec<f64>) -> StatSeries {
    StatSeries {
        name: path.into(),
        path: path.into(),
        ticks,
        values: values.into_iter().map(f64::to_bits).collect(),
    }
}

#[test]
fn accumulate_flat_stats() {
    let mut col = Vec::new();
    let stats = vec![make_stat("cpu", vec![50.0], vec![])];
    accumulate_stats(&mut col, &stats, 1, "");
    assert_eq!(col.len(), 1);
    let s = at(&col, "cpu");
    assert_eq!(s.ticks, vec![1]);
    assert_eq!(floats(s), vec![50.0]);
}

#[test]
fn accumulate_recursive_stats() {
    let mut col = Vec::new();
    let stats = vec![make_stat(
        "server_tick_timings",
        vec![],
        vec![make_stat("tick", vec![10.0], vec![]), make_stat("entity", vec![20.0], vec![])],
    )];
    accumulate_stats(&mut col, &stats, 5, "");
    assert_eq!(col.len(), 2);
    assert_eq!(at(&col, "server_tick_timings.tick").ticks, vec![5]);
    assert_eq!(floats(at(&col, "server_tick_timings.tick")), vec![10.0]);
    assert_eq!(floats(at(&col, "server_tick_timings.entity")), vec![20.0]);
}

#[test]
fn repeated_ticks_append_to_same_path() {
    let mut col = Vec::new();
    let stats = vec![make_stat("cpu", vec![10.0], vec![])];
    accumulate_stats(&mut col, &stats, 1, "");
    accumulate_stats(&mut col, &stats, 2, "");
    accumulate_stats(&mut col, &stats, 3, "");
    let s = at(&col, "cpu");
    assert_eq!(s.ticks, vec![1, 2, 3]);
    assert_eq!(floats(s), vec![10.0, 10.0, 10.0]);
}

#[test]
fn bounds_drops_oldest_when_exceeding_max() {
    let mut col = Vec::new();
    let stats = vec![make_stat("x", vec![1.0], vec![])];
    for tick in 1..=MAX_STAT_POINTS + 10 {
        accumulate_stats(&mut col, &stats, tick as u64, "");
    }
    let s = at(&col, "x");
    assert_eq!(s.ticks.len(), MAX_STAT_POINTS);
    // The oldest remaining tick should be tick 11 (1..310, remove 1..10)
    assert_eq!(s.ticks[0], 11);
    assert_eq!(s.ticks[MAX_STAT_POINTS - 1], (MAX_STAT_POINTS + 10) as u64);
}

#[test]
fn bounds_retains_exact_max() {
    let mut col = Vec::new();
    let stats = vec![make_stat("y", vec![1.0], vec![])];
    for tick in 1..=MAX_STAT_POINTS {
        accumulate_stats(&mut col, &stats, tick as u64, "");
    }
    assert_eq!(at(&col, "y").ticks.len(), MAX_STAT_POINTS);
    assert_eq!(at(&col, "y").ticks[0], 1);
    assert_eq!(at(&col, "y").ticks[MAX_STAT_POINTS - 1], MAX_STAT_POINTS as u64);
}

#[test]
fn non_numeric_skipped() {
    let mut col = Vec::new();
    let stats = vec![non_numeric_stat("a"), make_stat("b", vec![42.0], vec![])];
    accumulate_stats(&mut col, &stats, 1, "");
    assert!(!col.iter().any(|s| s.path == "a"));
    assert!(col.iter().any(|s| s.path == "b"));
}

#[test]
fn empty_values_skipped() {
    let mut col = Vec::new();
    let stats = vec![make_stat("empty", vec![], vec![])];
    accumulate_stats(&mut col, &stats, 1, "");
    assert!(col.is_empty());
}

#[test]
fn null_value_skipped() {
    let mut col = Vec::new();
    // A single JSON null is no number.
    let stats = vec![non_numeric_stat("null_val")];
    accumulate_stats(&mut col, &stats, 1, "");
    assert!(col.is_empty());
}

#[test]
fn deterministic_ordering() {
    let mut col = Vec::new();
    let stats = vec![
        make_stat("z_last", vec![3.0], vec![]),
        make_stat("a_first", vec![1.0], vec![]),
        make_stat("m_mid", vec![2.0], vec![]),
    ];
    accumulate_stats(&mut col, &stats, 1, "");
    let keys: Vec<&str> = col.iter().map(|s| s.path.as_str()).collect();
    assert_eq!(keys, vec!["a_first", "m_mid", "z_last"]);
}

#[test]
fn chart_groups_by_top_level() {
    let col = vec![
        series_of("app_memory.used", vec![1], vec![30.0]),
        series_of("server_tick_timings.entity", vec![1], vec![20.0]),
        series_of("server_tick_timings.tick", vec![1], vec![10.0]),
    ];
    let groups = build_chart_groups(&col);
    assert_eq!(groups.len(), 2);
    // Paths are kept in order — "app_memory" < "server_tick_timings"
    assert_eq!(groups[0].name, "app_memory");
    assert_eq!(groups[0].series.len(), 1);
    assert_eq!(groups[1].name, "server_tick_timings");
    assert_eq!(groups[1].series.len(), 2);
}

#[test]
fn categorized_groups_assigns_correctly() {
    let groups = vec![
        StatGroup { name: "server_tick_timings".into(), series: vec![] },
        StatGroup { name: "app_memory".into(), series: vec![] },
        StatGroup { name: "handle_counts".into(), series: vec![] },
    ];
    let cats = build_categorized_groups(&groups);
    assert_eq!(cats.len(), 3);
    assert_eq!(cats[0].key, "server-performance");
    assert_eq!(cats[0].groups[0].name, "server_tick_timings");
    assert_eq!(cats[1].key, "memory");
    assert_eq!(cats[1].groups[0].name, "app_memory");
    assert_eq!(cats[2].key, "scripting");
    assert_eq!(cats[2].groups[0].name, "handle_counts");
}

#[test]
fn categorized_groups_assigns_dynamic_property_to_memory() {
    let groups = vec![StatGroup { name: "dynamic_property_values".into(), series: vec![] }];
    let cats = build_categorized_groups(&groups);
    assert_eq!(cats.len(), 1);
    assert_eq!(cats[0].key, "memory");
}

#[test]
fn categorized_groups_assigns_client_stats() {
    let groups = vec![StatGroup { name: "client_stats".into(), series: vec![] }];
    let cats = build_categorized_groups(&groups);
    assert_eq!(cats.len(), 1);
    assert_eq!(cats[0].key, "client");
}

#[test]
fn categorized_groups_ignores_empty_categories() {
    let cats = build_categorized_groups(&vec![]);
    assert_eq!(cats.len(), 0);
}

#[test]
fn client_ids_collected_and_sorted() {
    let col = vec![
        series_of("client_stats.a.cpu", vec![1], vec![2.0]),
        series_of("client_stats.b.mem", vec![1], vec![1.0]),
        series_of("server_tick_timings.tick", vec![1], vec![3.0]),
    ];
    let ids = build_client_ids(&col);
    assert_eq!(ids, vec!["a", "b"]);
}

#[test]
fn subscriber_addon_ids_are_sorted_and_ignore_other_groups() {
    let col = vec![
        series_of("fine_grained_subscribers.alpha.event", vec![], vec![]),
        series_of("fine_grained_subscribers.zeta.event", vec![], vec![]),
        series_of("fine_grained_subscribers.zeta.other", vec![], vec![]),
        series_of("handle_counts.alpha.event", vec![], vec![]),
    ];
    assert_eq!(build_subscriber_addon_ids(&col), vec!["alpha", "zeta"]);
}

#[test]
fn stats_state_new_is_empty() {
    let state = StatsState::new();
    assert!(state.is_empty());
    assert_eq!(state.series_count(), 0);
}

#[test]
fn stats_state_accumulate() {
    let mut state = StatsState::new();
    let stats = vec![make_stat("cpu", vec![50.0], vec![])];
    state.accumulate(&stats, 1);
    assert!(!state.is_empty());
    assert_eq!(state.series_count(), 1);
}

#[test]
fn stats_state_clear_resets() {
    let mut state = StatsState::new();
    let stats = vec![make_stat("cpu", vec![50.0], vec![])];
    state.accumulate(&stats, 1);
    assert!(!state.is_empty());
    state.clear();
    assert!(state.is_empty());
    assert_eq!(state.series_count(), 0);
}

#[test]
fn stats_state_groups_and_categories() {
    let mut state = StatsState::new();
    let stats = vec![make_stat(
        "server_tick_timings",
        vec![],
        vec![make_stat("tick", vec![10.0], vec![])],
    )];
    state.accumulate(&stats, 1);
    assert_eq!(state.groups().len(), 1);
    assert_eq!(state.categories().len(), 1);
    assert_eq!(state.categories()[0].key, "server-performance");
}

#[test]
fn stats_state_client_ids() {
    let mut state = StatsState::new();
    let stats = vec![make_stat(
        "client_stats",
        vec![],
        vec![make_stat("uuid-abc", vec![], vec![make_stat("mem", vec![100.0], vec![])])],
    )];
    state.accumulate(&stats, 1);
    let ids = state.client_ids();
    assert_eq!(ids, vec!["uuid-abc"]);
}

#[test]
fn subscriber_labels_hide_addon_and_preserve_full_event() {
    let group = StatGroup {
        name: "fine_grained_subscribers".into(),
        series: vec![series_of("fine_grained_subscribers.demo.world.after.load", vec![1], vec![1.0])],
    };

    let filtered = filter_addon_group(&group, Some("demo"));
    assert_eq!(filtered.series.len(), 1);
    assert_eq!(short_name(&filtered.series[0].path), "world.after.load");

    let all = filter_addon_group(&group, None);
    assert_eq!(short_name(&all.series[0].path), "world.after.load");
}
