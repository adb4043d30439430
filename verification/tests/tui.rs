use opc_da_client::error::OpcErrorOf;
use opc_da_client::tui::app::{command_for, App, Command, Effect, Key, TaskOutcome, TestAppBuilder};
use opc_da_client::tui::state::{AppAction, AutoRefresher, CurrentScreen, DialogState, SearchEngine};
use opc_da_client::types::parse_value;
use opc_da_client::types::{OpcQuality, OpcValueOf, TagValue, TagValues, WriteResult, QUALITY_BAD, QUALITY_GOOD};

fn test_app() -> App {
    TestAppBuilder::new().build()
}

fn strings(v: &[&str]) -> Vec<String> {
    v.iter().map(|s| s.to_string()).collect()
}

fn last_message(app: &App) -> String {
    app.view.messages.back().cloned().unwrap()
}

fn float_bits(s: &str) -> Option<u64> {
    s.trim().parse::<f64>().ok().map(f64::to_bits)
}

#[test]
fn test_poll_fetch_result_success() {
    let mut app = test_app();
    app.nav.current_screen = CurrentScreen::Loading;
    app.pending.fetch = true;

    app.on_fetch_result(TaskOutcome::Ready(Ok(strings(&["Server1", "Server2"]))));

    assert_eq!(app.nav.current_screen, CurrentScreen::ServerList);
    assert_eq!(app.view.servers.len(), 2);
    assert_eq!(app.view.selected_index, Some(0));
    assert!(!app.pending.fetch);
    assert!(last_message(&app).contains("Found 2 servers"));
    assert_eq!(last_message(&app), "Found 2 servers on localhost");
}

#[test]
fn test_poll_fetch_result_error() {
    let mut app = test_app();
    app.nav.current_screen = CurrentScreen::Loading;
    app.pending.fetch = true;

    app.on_fetch_result(TaskOutcome::Ready(Err(OpcErrorOf::Internal("Connection failed".to_string()))));

    assert_eq!(app.nav.current_screen, CurrentScreen::Home);
    assert!(!app.pending.fetch);
    assert!(last_message(&app).contains("Error"));
    assert_eq!(last_message(&app), "Error fetching servers: Internal error: Connection failed");
}

#[test]
fn test_poll_fetch_result_empty_servers() {
    let mut app = test_app();
    app.nav.current_screen = CurrentScreen::Loading;
    app.on_fetch_result(TaskOutcome::Ready(Ok(vec![])));

    assert_eq!(app.nav.current_screen, CurrentScreen::ServerList);
    assert!(app.view.servers.is_empty());
    assert_eq!(app.view.selected_index, None);
    assert!(last_message(&app).contains("Found 0 servers"));
}

#[test]
fn test_poll_fetch_result_closed() {
    let mut app = test_app();
    app.nav.current_screen = CurrentScreen::Loading;
    app.on_fetch_result(TaskOutcome::Closed);

    assert_eq!(app.nav.current_screen, CurrentScreen::Home);
    assert!(last_message(&app).contains("terminated unexpectedly"));
}

#[test]
fn test_start_fetch_servers_sets_loading() {
    let mut app = test_app();
    app.start_fetch_servers();

    assert_eq!(app.nav.current_screen, CurrentScreen::Loading);
    assert!(app.pending.fetch);
    let effects = app.take_effects();
    assert!(matches!(&effects[..], [Effect::FetchServers { host }] if host == "localhost"));
    assert_eq!(last_message(&app), "Connecting to localhost...");
}

#[test]
fn test_server_navigation() {
    let mut app = TestAppBuilder::new()
        .with_screen(CurrentScreen::ServerList)
        .with_servers(strings(&["S1", "S2"]))
        .build();

    app.select_next();
    assert_eq!(app.view.selected_index, Some(1));

    app.select_next();
    assert_eq!(app.view.selected_index, Some(1));

    app.select_prev();
    assert_eq!(app.view.selected_index, Some(0));

    app.select_prev();
    assert_eq!(app.view.selected_index, Some(0));
}

#[test]
fn test_tag_navigation_logic() {
    let mut app = TestAppBuilder::new()
        .with_screen(CurrentScreen::TagList)
        .with_servers(strings(&["S1"]))
        .with_tags(strings(&["T1", "T2"]))
        .build();

    app.select_next();
    assert_eq!(app.view.selected_index, Some(1));
    assert_eq!(app.view.list_selected, Some(1));

    app.select_next();
    assert_eq!(app.view.selected_index, Some(1));
}

#[test]
fn test_enter_selected_server_navigation() {
    let mut app = TestAppBuilder::new()
        .with_screen(CurrentScreen::ServerList)
        .with_servers(strings(&["S1"]))
        .build();

    app.start_browse_tags();
    let effects = app.take_effects();
    assert!(matches!(&effects[..], [Effect::BrowseTags { server, max_tags: 10000 }] if server == "S1"));
    app.on_browse_result(TaskOutcome::Ready(Ok(strings(&["T1"]))));

    assert!(matches!(app.nav.current_screen, CurrentScreen::TagList));
    assert_eq!(app.view.tags.len(), 1);
    assert_eq!(app.view.selected_index, Some(0));
}

#[test]
fn test_go_back_navigation() {
    let mut app = TestAppBuilder::new()
        .with_screen(CurrentScreen::TagList)
        .with_servers(strings(&["S1"]))
        .with_tags(strings(&["T1"]))
        .build();

    app.go_back();
    assert!(matches!(app.nav.current_screen, CurrentScreen::ServerList));
    assert!(app.view.tags.is_empty());
    assert_eq!(app.view.selected_index, Some(0));

    app.go_back();
    assert!(matches!(app.nav.current_screen, CurrentScreen::Home));
    assert!(app.view.servers.is_empty());
    assert_eq!(app.view.selected_index, None);
}

#[test]
fn test_loading_screen_esc_cancels_and_restores_previous_screen() {
    let mut app = test_app();
    app.nav.current_screen = CurrentScreen::ServerList;
    app.log_transition(CurrentScreen::Loading);
    assert_eq!(app.nav.previous_screen, CurrentScreen::ServerList);
    assert_eq!(app.nav.current_screen, CurrentScreen::Loading);
    app.pending.browse = true;

    app.go_back();

    assert_eq!(app.nav.current_screen, CurrentScreen::ServerList);
    assert!(!app.pending.browse);
    assert!(last_message(&app).contains("Operation cancelled"));
    assert!(matches!(app.take_effects().last(), Some(Effect::CancelAll)));
}

#[test]
fn test_poll_browse_result_error_shows_message() {
    let mut app = test_app();
    app.nav.current_screen = CurrentScreen::Loading;
    app.on_browse_result(TaskOutcome::Ready(Err(OpcErrorOf::Internal("Browse failed".into()))));
    assert_eq!(app.nav.current_screen, CurrentScreen::ServerList);
    assert!(last_message(&app).contains("Browse failed"));
}

#[test]
fn test_poll_browse_result_closed_shows_message() {
    let mut app = test_app();
    app.nav.current_screen = CurrentScreen::Loading;
    app.on_browse_result(TaskOutcome::Closed);
    assert_eq!(app.nav.current_screen, CurrentScreen::ServerList);
    assert!(last_message(&app).contains("terminated unexpectedly"));
}

#[test]
fn test_poll_browse_result_empty_tags() {
    let mut app = test_app();
    app.nav.current_screen = CurrentScreen::Loading;
    app.on_browse_result(TaskOutcome::Ready(Ok(vec![])));
    assert_eq!(app.nav.current_screen, CurrentScreen::TagList);
    assert!(app.view.tags.is_empty());
    assert_eq!(app.view.selected_index, None);
    assert_eq!(last_message(&app), "Found 0 tags");
}

#[test]
fn test_start_browse_no_selection() {
    let mut app = TestAppBuilder::new()
        .with_screen(CurrentScreen::ServerList)
        .with_servers(strings(&["S1"]))
        .build();
    app.view.selected_index = None;

    app.start_browse_tags();

    assert_eq!(app.nav.current_screen, CurrentScreen::ServerList);
    assert!(!app.pending.browse);
}

#[test]
fn test_start_browse_wrong_screen() {
    let mut app = TestAppBuilder::new()
        .with_screen(CurrentScreen::Home)
        .with_servers(strings(&["S1"]))
        .build();

    app.start_browse_tags();

    assert_eq!(app.nav.current_screen, CurrentScreen::Home);
    assert!(!app.pending.browse);
}

#[test]
fn test_poll_fetch_result_timeout() {
    let mut app = test_app();
    app.nav.current_screen = CurrentScreen::Loading;
    app.on_fetch_result(TaskOutcome::Ready(Err(OpcErrorOf::Internal("Connection timed out (30s)".to_string()))));

    assert_eq!(app.nav.current_screen, CurrentScreen::Home);
    assert!(last_message(&app).contains("timed out"));
}

#[test]
fn test_add_message_ring_buffer() {
    let mut app = test_app();

    for i in 0..15 {
        app.add_message(format!("msg-{}", i));
    }

    assert_eq!(app.view.messages.len(), 10);
    assert_eq!(app.view.messages.front().unwrap(), "msg-5");
    assert_eq!(app.view.messages.back().unwrap(), "msg-14");
}

#[test]
fn test_select_on_empty_list() {
    let mut app = TestAppBuilder::new().with_screen(CurrentScreen::ServerList).build();

    app.select_next();
    assert_eq!(app.view.selected_index, None);

    app.select_prev();
    assert_eq!(app.view.selected_index, None);
}

#[test]
fn test_toggle_tag_selection_hashset() {
    let mut app = TestAppBuilder::new()
        .with_screen(CurrentScreen::TagList)
        .with_tags(strings(&["Tag1", "Tag2"]))
        .build();
    app.view.selected_index = Some(1);

    assert!(!app.view.is_selected("Tag2"));
    app.toggle_tag_selection();
    assert!(app.view.is_selected("Tag2"));

    app.toggle_tag_selection();
    assert!(!app.view.is_selected("Tag2"));
}

#[test]
fn test_start_read_values_no_selection() {
    let mut app = TestAppBuilder::new()
        .with_screen(CurrentScreen::TagList)
        .with_tags(strings(&["Tag1"]))
        .build();

    app.start_read_values();

    assert_eq!(app.nav.current_screen, CurrentScreen::TagList);
    assert!(last_message(&app).contains("No tags selected"));
    assert!(!app.pending.read);
}

#[test]
fn test_start_read_values_wrong_screen() {
    let mut app = TestAppBuilder::new().with_screen(CurrentScreen::ServerList).build();
    app.start_read_values();
    assert_eq!(app.nav.current_screen, CurrentScreen::ServerList);
    assert!(!app.pending.read);
}

#[test]
fn test_start_read_values_success() {
    let mut app = TestAppBuilder::new()
        .with_screen(CurrentScreen::TagList)
        .with_tags(strings(&["Tag1"]))
        .build();

    app.view.toggle_selection("Tag1");
    app.nav.browsed_server = Some("TestServer".into());

    app.start_read_values();

    assert_eq!(app.nav.current_screen, CurrentScreen::Loading);
    assert!(app.pending.read);
    assert_eq!(app.refresher.server, Some("TestServer".into()));
    let effects = app.take_effects();
    assert!(matches!(&effects[..], [Effect::ReadValues { server, tag_ids }] if server == "TestServer" && tag_ids == &strings(&["Tag1"])));
}

#[test]
fn test_start_read_values_no_browsed_server() {
    let mut app = TestAppBuilder::new()
        .with_screen(CurrentScreen::TagList)
        .with_tags(strings(&["Tag1"]))
        .build();

    app.view.toggle_selection("Tag1");
    app.nav.browsed_server = None;

    app.start_read_values();

    assert_eq!(app.nav.current_screen, CurrentScreen::TagList);
    assert!(!app.pending.read);
    assert!(last_message(&app).contains("No server context"));
}

#[test]
fn test_poll_read_result_success() {
    let mut app = test_app();
    app.nav.current_screen = CurrentScreen::Loading;
    app.pending.read = true;

    let values = TagValues::new(vec![TagValue::new("Tag1", Some(OpcValueOf::Int(123)), OpcQuality(QUALITY_GOOD), Some(0))]);
    app.on_read_result(TaskOutcome::Ready(Ok(values)), 5_000);

    assert_eq!(app.nav.current_screen, CurrentScreen::TagValues);
    assert_eq!(app.view.tag_values.len(), 1);
    assert_eq!(app.view.tag_values.values[0].value(), Some(&OpcValueOf::Int(123)));
    assert!(!app.pending.read);
    assert_eq!(app.refresher.last_read_time, Some(5_000));
    assert_eq!(last_message(&app), "Read 1 tag values");
}

#[test]
fn read_result_summary_counts_errors_and_bad_quality() {
    let mut app = test_app();
    app.nav.current_screen = CurrentScreen::Loading;
    let values = TagValues::new(vec![
        TagValue::new("A", Some(OpcValueOf::Int(1)), OpcQuality(QUALITY_GOOD), Some(0)),
        TagValue::new("B", None, OpcQuality(QUALITY_BAD), None),
        TagValue::new("C", Some(OpcValueOf::Int(3)), OpcQuality(QUALITY_BAD), None),
    ]);
    app.on_read_result(TaskOutcome::Ready(Ok(values)), 0);
    assert_eq!(last_message(&app), "Read 3 tag values (⚠ 1 errors, 1 bad quality)");
}

#[test]
fn test_poll_read_result_error() {
    let mut app = test_app();
    app.nav.current_screen = CurrentScreen::Loading;
    app.pending.read = true;

    app.on_read_result(TaskOutcome::Ready(Err(OpcErrorOf::Internal("Read failed".to_string()))), 0);

    assert_eq!(app.nav.current_screen, CurrentScreen::TagList);
    assert!(!app.pending.read);
    assert!(last_message(&app).contains("Error reading values"));
}

#[test]
fn test_go_back_from_tag_values() {
    let mut app = TestAppBuilder::new()
        .with_screen(CurrentScreen::TagValues)
        .with_tags(strings(&["Tag1"]))
        .build();
    app.view.tag_values = TagValues::new(vec![TagValue::new("Tag1", Some(OpcValueOf::Int(100)), OpcQuality(QUALITY_GOOD), None)]);

    app.go_back();

    assert_eq!(app.nav.current_screen, CurrentScreen::TagList);
    assert!(app.view.tag_values.is_empty());
    assert_eq!(app.view.tags.len(), 1);
}

#[test]
fn test_select_next_on_tag_values() {
    let mut app = TestAppBuilder::new().with_screen(CurrentScreen::TagValues).build();
    app.view.tag_values = TagValues::new(vec![
        TagValue::new("T1", Some(OpcValueOf::String("V1".into())), OpcQuality(QUALITY_GOOD), Some(0)),
        TagValue::new("T2", Some(OpcValueOf::String("V2".into())), OpcQuality(QUALITY_GOOD), Some(0)),
    ]);
    app.view.selected_index = Some(0);

    app.select_next();
    assert_eq!(app.view.selected_index, Some(1));
    assert_eq!(app.view.table_selected, Some(1));

    app.select_next();
    assert_eq!(app.view.selected_index, Some(1));
}

#[test]
fn test_page_down_basic() {
    let tags: Vec<String> = (0..50).map(|i| format!("T{i}")).collect();
    let mut app = TestAppBuilder::new().with_screen(CurrentScreen::TagList).with_tags(tags).build();

    app.page_down();
    assert_eq!(app.view.selected_index, Some(20));

    app.page_down();
    assert_eq!(app.view.selected_index, Some(40));

    app.page_down();
    assert_eq!(app.view.selected_index, Some(49));
}

#[test]
fn test_page_up_basic() {
    let tags: Vec<String> = (0..50).map(|i| format!("T{i}")).collect();
    let mut app = TestAppBuilder::new().with_screen(CurrentScreen::TagList).with_tags(tags).build();
    app.view.selected_index = Some(49);

    app.page_up();
    assert_eq!(app.view.selected_index, Some(29));

    app.page_up();
    assert_eq!(app.view.selected_index, Some(9));

    app.page_up();
    assert_eq!(app.view.selected_index, Some(0));
}

#[test]
fn test_search_engine_zero_alloc_matching() {
    let tags = strings(&["System.Cpu", "System.Mem", "User.Data", "User.Settings"]);
    let mut app = TestAppBuilder::new().with_screen(CurrentScreen::TagList).with_tags(tags).build();

    app.enter_search_mode();
    assert!(app.search.search_mode);

    app.update_search_query('s');
    app.update_search_query('y');
    app.update_search_query('s');

    assert_eq!(app.search.search_matches.len(), 2);
    assert_eq!(app.search.search_matches[0], 0);
    assert_eq!(app.search.search_matches[1], 1);
    assert!(app.search.is_match(0));
    assert!(app.search.is_match(1));
    assert!(!app.search.is_match(2));
    assert_eq!(app.view.selected_index, Some(0));

    app.next_search_match();
    assert_eq!(app.view.selected_index, Some(1));

    app.next_search_match();
    assert_eq!(app.view.selected_index, Some(0));

    app.search_backspace();
    assert_eq!(app.search.search_matches.len(), 2);

    app.exit_search_mode();
    assert!(!app.search.search_mode);
}

#[test]
fn search_prev_wraps_to_last_match() {
    let mut search = SearchEngine::default();
    search.update_tags(&strings(&["alpha", "ALPHABET", "beta"]));
    search.enter();
    search.push_char('A');
    search.push_char('l');
    assert_eq!(search.search_matches, vec![0, 1]);
    assert_eq!(search.prev_match(), Some(1));
    assert_eq!(search.next_match(), Some(0));
    assert_eq!(search.first_match(), Some(0));
    search.backspace();
    search.backspace();
    assert!(search.search_matches.is_empty());
    assert_eq!(search.next_match(), None);
}

#[test]
fn test_poll_write_result_failure() {
    let mut app = test_app();
    app.pending.write = true;

    let failed_res = WriteResult::failure("Channel1.Device1.Tag1", OpcErrorOf::Connection("Lost connection".into()));
    app.on_write_result(TaskOutcome::Ready(Ok(failed_res)));
    assert!(!app.pending.write);
    assert!(app.view.messages.iter().any(|m| m.contains("failed: Connection failed: Lost connection")));
}

#[test]
fn test_poll_write_result_success() {
    let mut app = test_app();
    app.pending.write = true;

    app.on_write_result(TaskOutcome::Ready(Ok(WriteResult::success("Channel1.Device1.Tag1"))));
    assert!(!app.pending.write);
    assert!(app.view.messages.iter().any(|m| m.contains("succeeded")));
    assert_eq!(app.nav.current_screen, CurrentScreen::TagValues);
}

#[test]
fn test_write_value_parsing_and_boolean_coercion() {
    let mut app = test_app();
    app.view.tag_values = TagValues::new(vec![
        TagValue::new("Device.PumpRunning", Some(OpcValueOf::Bool(false)), OpcQuality(QUALITY_GOOD), None),
        TagValue::new("Device.SpeedRpm", Some(OpcValueOf::Int(1000)), OpcQuality(QUALITY_GOOD), None),
    ]);

    assert_eq!(parse_value("true", float_bits("true")), OpcValueOf::Bool(true));
    assert_eq!(parse_value("TRUE", float_bits("TRUE")), OpcValueOf::Bool(true));
    assert_eq!(parse_value("false", float_bits("false")), OpcValueOf::Bool(false));
    assert_eq!(parse_value("FALSE", float_bits("FALSE")), OpcValueOf::Bool(false));
    assert_eq!(parse_value("42", float_bits("42")), OpcValueOf::Int(42));
    assert_eq!(parse_value("2.5", float_bits("2.5")), OpcValueOf::Float(2.5f64.to_bits()));
    assert_eq!(parse_value("Running", float_bits("Running")), OpcValueOf::String("Running".to_string()));

    assert_eq!(app.resolve_write_value("Device.PumpRunning", "1", float_bits("1")), OpcValueOf::Bool(true));
    assert_eq!(app.resolve_write_value("Device.PumpRunning", "0", float_bits("0")), OpcValueOf::Bool(false));
    assert_eq!(app.resolve_write_value("Device.SpeedRpm", "1", float_bits("1")), OpcValueOf::Int(1));
    assert_eq!(app.resolve_write_value("Device.SpeedRpm", "0", float_bits("0")), OpcValueOf::Int(0));
    assert_eq!(app.resolve_write_value("UnknownTag", "1", float_bits("1")), OpcValueOf::Int(1));
}

#[test]
fn test_select_all_and_clear_selection() {
    let mut app = TestAppBuilder::new()
        .with_screen(CurrentScreen::TagList)
        .with_tags(strings(&["Tag1", "Tag2"]))
        .build();

    app.view.select_all();
    assert!(app.view.is_selected("Tag1"));
    assert!(app.view.is_selected("Tag2"));

    app.view.clear_selection();
    assert!(!app.view.is_selected("Tag1"));
    assert!(!app.view.is_selected("Tag2"));
}

#[test]
fn test_app_handle_key_action() {
    let mut app = test_app();
    assert_eq!(app.nav.current_screen, CurrentScreen::Home);

    let action = app.handle_key(Key::Char('x'), true, None);
    assert_eq!(action, AppAction::Continue);
    assert!(app.nav.host_input.ends_with('x'));

    let action = app.handle_key(Key::Esc, true, None);
    assert_eq!(action, AppAction::Quit);
    assert_eq!(app.nav.current_screen, CurrentScreen::Exiting);

    assert_eq!(app.handle_key(Key::Char('y'), false, None), AppAction::Continue);
}

#[test]
fn test_handle_key_event_press_release() {
    let mut app = test_app();
    app.handle_key(Key::Char('a'), true, None);
    assert_eq!(app.nav.host_input, "localhosta");
    app.handle_key(Key::Char('b'), false, None);
    assert_eq!(app.nav.host_input, "localhosta");
}

#[test]
fn test_quit_logic_on_all_screens() {
    let mut app = test_app();

    app.nav.current_screen = CurrentScreen::Home;
    app.handle_key(Key::Char('q'), true, None);
    assert_eq!(app.nav.current_screen, CurrentScreen::Home);
    assert!(app.nav.host_input.ends_with('q'));

    app.handle_key(Key::Esc, true, None);
    assert_eq!(app.nav.current_screen, CurrentScreen::Exiting);

    app.nav.current_screen = CurrentScreen::ServerList;
    app.handle_key(Key::Char('q'), true, None);
    assert_eq!(app.nav.current_screen, CurrentScreen::Exiting);

    app.nav.current_screen = CurrentScreen::TagList;
    app.handle_key(Key::Char('q'), true, None);
    assert_eq!(app.nav.current_screen, CurrentScreen::Exiting);
}

#[test]
fn write_dialog_flow_requests_a_write() {
    let mut app = TestAppBuilder::new().with_screen(CurrentScreen::TagValues).build();
    app.view.tag_values = TagValues::new(vec![TagValue::new("Pump", Some(OpcValueOf::Bool(false)), OpcQuality(QUALITY_GOOD), None)]);
    app.refresher.server = Some("Srv".into());

    app.handle_key(Key::Char('w'), true, None);
    assert_eq!(app.nav.current_screen, CurrentScreen::WriteInput);
    app.handle_key(Key::Char(' '), true, None);
    app.handle_key(Key::Char('1'), true, None);
    let input = app.dialog.write_value_input.clone();
    app.handle_key(Key::Enter, true, float_bits(&input));
    assert_eq!(app.nav.current_screen, CurrentScreen::Loading);
    let effects = app.take_effects();
    assert!(matches!(&effects[..], [Effect::WriteValue { server, tag_id, value: OpcValueOf::Bool(true) }] if server == "Srv" && tag_id == "Pump"));
    assert_eq!(last_message(&app), "Writing '1' to Pump...");
}

#[test]
fn empty_write_value_is_refused() {
    let mut app = test_app();
    app.dialog.write_tag_id = Some("Tag".into());
    app.dialog.write_value_input = "   ".into();
    app.start_write_value(None);
    assert_eq!(last_message(&app), "Value cannot be empty.");
    assert!(app.take_effects().is_empty());
}

#[test]
fn auto_refresh_waits_for_the_interval() {
    let mut app = TestAppBuilder::new().with_screen(CurrentScreen::TagValues).build();
    app.refresher.server = Some("Srv".into());
    app.refresher.tag_ids = strings(&["A"]);
    app.refresher.last_read_time = Some(1_000);
    app.maybe_auto_refresh(1_500);
    assert!(app.take_effects().is_empty());
    app.maybe_auto_refresh(2_000);
    assert!(app.pending.read);
    assert_eq!(app.take_effects().len(), 1);
    app.maybe_auto_refresh(5_000);
    assert!(app.take_effects().is_empty(), "no second read while one is outstanding");
}

#[test]
fn dialog_and_refresher_clear() {
    let mut dialog = DialogState::default();
    dialog.write_tag_id = Some("T".into());
    dialog.write_value_input = "42".into();
    dialog.clear();
    assert!(dialog.write_tag_id.is_none());
    assert!(dialog.write_value_input.is_empty());

    let mut refresher = AutoRefresher::default();
    refresher.server = Some("S".into());
    refresher.tag_ids = strings(&["A"]);
    refresher.last_read_time = Some(3);
    refresher.clear();
    assert!(refresher.server.is_none());
    assert!(refresher.tag_ids.is_empty());
    assert!(refresher.last_read_time.is_none());
}

#[test]
fn screen_names() {
    assert_eq!(CurrentScreen::TagValues.name(), "TagValues");
    assert_eq!(CurrentScreen::Home.name(), "Home");
}

#[test]
fn test_app_does_not_deref_to_view_state() {
    let app = App::new();

    // View fields must be accessed via app.view explicitly
    assert!(app.view.servers.is_empty());
    assert!(app.view.tags.is_empty());
    assert!(app.view.selected_tags.is_empty());
    assert_eq!(app.view.selected_index, None);
    assert!(app.view.messages.is_empty());
}

#[test]
fn key_commands_per_screen() {
    assert_eq!(command_for(CurrentScreen::Home, false, Key::Char('x')), Command::TypeHost('x'));
    assert_eq!(command_for(CurrentScreen::Home, false, Key::Esc), Command::Quit);
    assert_eq!(command_for(CurrentScreen::ServerList, false, Key::Char('Q')), Command::Quit);
    assert_eq!(command_for(CurrentScreen::ServerList, false, Key::Char('x')), Command::Nothing);
    assert_eq!(command_for(CurrentScreen::TagList, true, Key::Char(' ')), Command::ToggleSelection);
    assert_eq!(command_for(CurrentScreen::TagList, true, Key::Char('q')), Command::SearchType('q'));
    assert_eq!(command_for(CurrentScreen::TagList, true, Key::Enter), Command::ExitSearchAndRead);
    assert_eq!(command_for(CurrentScreen::TagList, false, Key::Char('s')), Command::EnterSearch);
    assert_eq!(command_for(CurrentScreen::TagValues, false, Key::Char('W')), Command::EnterWrite);
    assert_eq!(command_for(CurrentScreen::TagValues, false, Key::PageDown), Command::PageDown);
    assert_eq!(command_for(CurrentScreen::WriteInput, false, Key::Char('q')), Command::TypeWrite('q'));
    assert_eq!(command_for(CurrentScreen::Loading, false, Key::Enter), Command::Nothing);
    assert_eq!(command_for(CurrentScreen::Loading, false, Key::Esc), Command::GoBack);
    assert_eq!(command_for(CurrentScreen::Exiting, false, Key::Esc), Command::Nothing);
}

#[test]
fn typing_in_the_home_screen_edits_the_host() {
    let mut app = test_app();
    app.handle_key(Key::Backspace, true, None);
    assert_eq!(app.nav.host_input, "localhos");
    app.handle_key(Key::Char('t'), true, None);
    app.handle_key(Key::Char('!'), false, None);
    assert_eq!(app.nav.host_input, "localhost");
}

#[test]
fn parse_value_reads_signed_integers_only_in_decimal() {
    assert_eq!(parse_value("+12", None), OpcValueOf::Int(12));
    assert_eq!(parse_value("-9223372036854775808", None), OpcValueOf::Int(i64::MIN));
    assert_eq!(
        parse_value("9223372036854775808", float_bits("9223372036854775808")),
        OpcValueOf::Float(9223372036854775808f64.to_bits())
    );
    assert_eq!(parse_value("1_000", None), OpcValueOf::String("1_000".to_string()));
    assert_eq!(parse_value("-", None), OpcValueOf::String("-".to_string()));
}
