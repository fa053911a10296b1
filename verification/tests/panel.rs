use flutter::actions::{flutter_run, flutter_stop, hot_reload, hot_restart, open_flutter_logs, FlutterRun};
use flutter::clock::time_of_day;
use flutter::commands::{run_command, starting_message, uses_fvm, FvmMarkers};
use flutter::dock::{Axis, DockGeometry, DockPosition};
use flutter::log_entry::{
    entry_for_event, entry_for_process, level_group, level_name, output_line, shows_when_connected, start_failure,
    LevelGroup, LogEvent, ProcessEvent,
};
use flutter::log_view::FlutterLogPanel;
use flutter::panel_model::{InlayId, InlayPlace, LevelRanges, PanelAction};
use flutter::vm_service::{InstanceRef, LogRecord};

type Panel = FlutterLogPanel<u32>;

fn panel() -> Panel {
    FlutterLogPanel::new(300)
}

fn text_of(actions: &[PanelAction]) -> String {
    let mut text = String::new();
    for action in actions {
        if let PanelAction::AppendLine { text: line, .. } = action {
            text.push_str(line);
        }
    }
    text
}

fn last_ranges(actions: &[PanelAction]) -> &LevelRanges {
    actions
        .iter()
        .rev()
        .find_map(|a| match a {
            PanelAction::Highlight { ranges } => Some(ranges),
            _ => None,
        })
        .unwrap()
}

/// What each action is, in a word.
fn kinds(actions: &[PanelAction]) -> Vec<&'static str> {
    actions
        .iter()
        .map(|a| match a {
            PanelAction::AppendLine { .. } => "append",
            PanelAction::Highlight { .. } => "highlight",
            PanelAction::SpliceInlays { .. } => "inlays",
            PanelAction::ClearText => "clear",
            PanelAction::ScrollToEnd => "end",
            PanelAction::RequestAutoscroll => "autoscroll",
            PanelAction::StartConnecting => "connect",
            PanelAction::StartSession => "session",
            PanelAction::CancelConnection => "cancel connection",
            PanelAction::SpawnRun { .. } => "spawn",
            PanelAction::KillProcess => "kill",
            PanelAction::CancelRun => "cancel run",
            PanelAction::ToggleFocus => "focus",
            PanelAction::Notify => "notify",
        })
        .collect()
}

fn record(message: Option<&str>, level: Option<i32>, name: Option<&str>) -> LogRecord {
    let instance = |s: &str| InstanceRef { value_as_string: Some(s.to_string()) };
    LogRecord {
        message: message.map(instance),
        time: None,
        level,
        logger_name: name.map(instance),
        error: None,
        stack_trace: None,
    }
}

#[test]
fn time_of_day_reads_like_a_clock() {
    let t = time_of_day();
    let parts: Vec<&str> = t.split(':').collect();
    assert_eq!(parts.len(), 3);
    for (part, limit) in parts.iter().zip([23u32, 59, 60]) {
        assert_eq!(part.len(), 2);
        assert!(part.parse::<u32>().unwrap() <= limit);
    }
}

#[test]
fn entry_is_appended_line_by_line() {
    let mut p = panel();
    let actions = p.add_log_at("12:34:56", "one\n\ntwo\n\n", "INFO", None);
    assert_eq!(
        kinds(&actions),
        vec!["append", "highlight", "append", "highlight", "append", "highlight", "end", "notify"]
    );
    assert_eq!(text_of(&actions), "one\n\ntwo\n");
    let ranges = last_ranges(&actions);
    assert_eq!(ranges.info, vec![0, 1, 2]);
    assert!(ranges.fine.is_empty() && ranges.warning.is_empty() && ranges.severe.is_empty());
    match (&actions[0], &actions[2]) {
        (PanelAction::AppendLine { line: a, .. }, PanelAction::AppendLine { line: b, .. }) => {
            assert_eq!((*a, *b), (0, 1));
        }
        other => panic!("{:?}", other),
    }
}

#[test]
fn empty_message_is_one_empty_line() {
    let mut p = panel();
    assert_eq!(text_of(&p.add_log_at("t", "", "INFO", None)), "\n");
    assert_eq!(text_of(&p.add_log_at("t", "\n\n", "INFO", None)), "\n");
}

#[test]
fn levels_are_highlighted_in_their_groups() {
    let mut p = panel();
    for level in ["FINE", "INFO", "WARNING", "SEVERE", "SHOUT", "ERROR", "OTHER"] {
        p.add_log_at("t", "x", level, None);
    }
    let actions = p.add_log_at("t", "a\nb", "WARNING", None);
    let ranges = last_ranges(&actions);
    assert_eq!(ranges.fine, vec![0]);
    assert_eq!(ranges.info, vec![1]);
    assert_eq!(ranges.warning, vec![2, 7, 8]);
    assert_eq!(ranges.severe, vec![3, 4, 5]);
}

#[test]
fn highlights_grow_with_each_line() {
    let mut p = panel();
    let actions = p.add_log_at("t", "a\nb", "FINE", None);
    let seen: Vec<Vec<usize>> = actions
        .iter()
        .filter_map(|a| match a {
            PanelAction::Highlight { ranges } => Some(ranges.fine.clone()),
            _ => None,
        })
        .collect();
    assert_eq!(seen, vec![vec![0], vec![0, 1]]);
}

#[test]
fn logger_is_named_before_the_first_line() {
    let mut p = panel();
    p.add_log_at("t", "x", "INFO", None);
    let actions = p.add_log_at("t", "a\nb", "INFO", Some("net".to_string()));
    assert_eq!(
        kinds(&actions),
        vec!["append", "highlight", "inlays", "append", "highlight", "end", "notify"]
    );
    match &actions[2] {
        PanelAction::SpliceInlays { remove, insert } => {
            assert!(remove.is_empty());
            assert_eq!(insert.len(), 1);
            assert_eq!(insert[0].id, InlayId::LogName(0));
            assert_eq!(insert[0].place, InlayPlace::LineStart(1));
            assert_eq!(insert[0].text, "net ");
        }
        other => panic!("{:?}", other),
    }
    let again = p.add_log_at("t", "c", "INFO", Some("net".to_string()));
    match &again[2] {
        PanelAction::SpliceInlays { insert, .. } => assert_eq!(insert[0].id, InlayId::LogName(1)),
        other => panic!("{:?}", other),
    }
}

#[test]
fn add_log_stamps_with_the_time() {
    let mut p = panel();
    let actions = p.add_log("hello".to_string(), "INFO", None);
    assert_eq!(text_of(&actions), "hello\n");
    let shown = p.update_timestamp_inlay(Some(0));
    match &shown[0] {
        PanelAction::SpliceInlays { insert, .. } => {
            assert_eq!(insert[0].text.len(), 8);
            assert_eq!(&insert[0].text[2..3], ":");
        }
        other => panic!("{:?}", other),
    }
}

#[test]
fn cursor_shows_the_timestamp_of_its_line() {
    let mut p = panel();
    p.add_log_at("11:11:11", "a\nb", "INFO", None);
    p.add_log_at("22:22:22", "c", "INFO", None);
    let first = p.update_timestamp_inlay(Some(0));
    match &first[0] {
        PanelAction::SpliceInlays { remove, insert } => {
            assert!(remove.is_empty());
            assert_eq!(insert[0].id, InlayId::LogTimestamp(0));
            assert_eq!(insert[0].place, InlayPlace::RowEnd(0));
            assert_eq!(insert[0].text, "11:11:11");
        }
        other => panic!("{:?}", other),
    }
    let third = p.update_timestamp_inlay(Some(2));
    match &third[0] {
        PanelAction::SpliceInlays { remove, insert } => {
            assert_eq!(*remove, vec![InlayId::LogTimestamp(0)]);
            assert_eq!(insert[0].id, InlayId::LogTimestamp(1));
            assert_eq!(insert[0].text, "22:22:22");
        }
        other => panic!("{:?}", other),
    }
    let second = p.update_timestamp_inlay(Some(1));
    match &second[0] {
        PanelAction::SpliceInlays { remove, insert } => {
            assert_eq!(*remove, vec![InlayId::LogTimestamp(1)]);
            assert!(insert.is_empty());
        }
        other => panic!("{:?}", other),
    }
    assert!(p.update_timestamp_inlay(Some(1)).is_empty());
    assert!(p.update_timestamp_inlay(Some(3)).is_empty());
    assert!(p.update_timestamp_inlay(None).is_empty());
}

#[test]
fn clearing_starts_the_log_anew() {
    let mut p = panel();
    p.add_log_at("t", "a", "INFO", Some("x".to_string()));
    p.update_timestamp_inlay(Some(0));
    let actions = p.clear_logs();
    assert_eq!(kinds(&actions), vec!["clear", "inlays", "notify"]);
    match &actions[1] {
        PanelAction::SpliceInlays { remove, insert } => assert!(remove.is_empty() && insert.is_empty()),
        other => panic!("{:?}", other),
    }
    assert!(p.update_timestamp_inlay(Some(0)).is_empty());
    let next = p.add_log_at("t", "b", "INFO", Some("x".to_string()));
    assert_eq!(last_ranges(&next).info, vec![0]);
    match &next[2] {
        PanelAction::SpliceInlays { insert, .. } => assert_eq!(insert[0].id, InlayId::LogName(0)),
        other => panic!("{:?}", other),
    }
}

#[test]
fn refresh_clears_and_connects() {
    let mut p = panel();
    p.add_log_at("t", "a", "INFO", None);
    assert_eq!(
        kinds(&p.refresh()),
        vec!["clear", "inlays", "notify", "cancel connection", "connect", "notify"]
    );
}

#[test]
fn auto_scroll_follows_the_end() {
    let mut p = panel();
    assert!(p.render().auto_scroll);
    assert_eq!(kinds(&p.toggle_auto_scroll(false)), vec!["notify"]);
    assert!(!p.render().auto_scroll);
    assert_eq!(kinds(&p.add_log_at("t", "a", "INFO", None)), vec!["append", "highlight", "notify"]);
    assert_eq!(kinds(&p.toggle_auto_scroll(true)), vec!["autoscroll", "notify"]);
}

#[test]
fn search_path_comes_before_the_workspace() {
    let mut p = panel();
    assert_eq!(p.search_paths(vec!["/w".to_string()]), vec!["/w"]);
    assert_eq!(kinds(&p.set_search_path("/app".to_string())), vec!["connect"]);
    assert_eq!(p.search_paths(vec!["/w".to_string()]), vec!["/app", "/w"]);
    assert_eq!(p.search_paths(vec![]), vec!["/app"]);
    assert_eq!(kinds(&p.handle_connection("ws://x/ws".to_string())), vec!["session"]);
    assert!(p.set_search_path("/other".to_string()).is_empty());
    assert_eq!(p.search_paths(vec![]), vec!["/other"]);
}

#[test]
fn status_tells_of_the_connection() {
    let mut p = panel();
    assert_eq!(p.render().title, "Flutter Logs");
    assert_eq!(p.render().status, "Disconnected");
    p.handle_connection("ws://x/ws".to_string());
    assert_eq!(p.render().status, "Connected");
    p.stop_run();
    assert_eq!(p.render().status, "Disconnected");
}

#[test]
fn run_is_started_logged_and_stopped() {
    let mut p = panel();
    assert!(p.has_inlay_id());
    assert!(!p.is_running());
    assert!(p.render().hot_reload_disabled && p.render().hot_restart_disabled);
    let actions = p.start_run_at(
        "t",
        "macos".to_string(),
        "lib/main.dart".to_string(),
        Some("/app".to_string()),
        true,
    );
    assert_eq!(
        kinds(&actions),
        vec![
            "cancel run",
            "cancel connection",
            "notify",
            "connect",
            "append",
            "highlight",
            "inlays",
            "end",
            "notify",
            "spawn",
            "connect",
            "notify"
        ]
    );
    assert_eq!(text_of(&actions), "Starting fvm flutter run -d macos -t lib/main.dart\n");
    match &actions[9] {
        PanelAction::SpawnRun { device_id, target, cwd } => {
            assert_eq!((device_id.as_str(), target.as_str()), ("macos", "lib/main.dart"));
            assert_eq!(cwd.as_deref(), Some("/app"));
        }
        other => panic!("{:?}", other),
    }
    assert!(p.is_running());
    assert!(!p.render().hot_reload_disabled && !p.render().hot_restart_disabled);
    assert_eq!(p.search_paths(vec![]), vec!["/app"]);
    let again = p.start_run("d".to_string(), "t".to_string(), None, false);
    assert_eq!(kinds(&again)[0], "kill");
    assert_eq!(kinds(&again).iter().filter(|k| **k == "spawn").count(), 1);
    assert_eq!(kinds(&again).iter().filter(|k| **k == "connect").count(), 1);
    assert_eq!(p.search_paths(vec![]), vec!["/app"]);
    assert_eq!(kinds(&p.stop_run()), vec!["kill", "cancel run", "cancel connection", "notify"]);
    assert!(!p.is_running());
    assert_eq!(kinds(&p.stop_run()), vec!["cancel run", "cancel connection", "notify"]);
}

#[test]
fn output_is_shown_until_the_vm_is_connected() {
    let mut p = panel();
    p.start_run_at("t", "d".to_string(), "t".to_string(), None, false);
    let (actions, ended) = p.process_event_at("t", ProcessEvent::Stdout("Launching".to_string()));
    assert_eq!(text_of(&actions), "Launching\n");
    assert_eq!(last_ranges(&actions).fine, vec![1]);
    assert!(!ended);
    p.handle_connection("ws://x/ws".to_string());
    let (hidden, _) = p.process_event(ProcessEvent::Stdout("flutter: hello".to_string()));
    assert!(hidden.is_empty());
    let (shown, _) = p.process_event(ProcessEvent::Stdout("Reloaded 1 of 2 libraries".to_string()));
    assert_eq!(text_of(&shown), "Reloaded 1 of 2 libraries\n");
    assert_eq!(last_ranges(&shown).info, vec![0, 2]);
    let (errors, _) = p.process_event(ProcessEvent::Stderr("oops".to_string()));
    assert_eq!(last_ranges(&errors).warning, vec![3]);
    assert!(p.is_running());
}

#[test]
fn exit_and_error_end_the_run() {
    let mut p = panel();
    p.start_run_at("t", "d".to_string(), "t".to_string(), None, false);
    let (actions, ended) = p.process_event(ProcessEvent::Exited);
    assert_eq!(text_of(&actions), "Flutter process exited\n");
    assert!(ended);
    assert!(!p.is_running());
    p.start_run_at("t", "d".to_string(), "t".to_string(), None, false);
    let (failed, over) = p.process_event(start_failure("not found"));
    assert_eq!(text_of(&failed), "Failed to start flutter run: not found\n");
    assert!(!over);
    assert!(!p.is_running());
}

#[test]
fn connection_events_are_logged() {
    let mut p = panel();
    let a = p.log_event_at("t", LogEvent::Connected);
    assert_eq!(text_of(&a), "Connected to Dart VM Service\n");
    let b = p.log_event(LogEvent::Log(record(Some("m"), Some(900), Some("net"))));
    assert_eq!(text_of(&b), "m\n");
    assert_eq!(last_ranges(&b).warning, vec![1]);
    assert_eq!(kinds(&b), vec!["append", "highlight", "inlays", "end", "notify"]);
}

#[test]
fn input_is_sent_only_to_a_run() {
    let mut p = panel();
    assert_eq!(p.send_input("q"), None);
    assert_eq!(hot_reload(&p), None);
    assert_eq!(hot_restart(&mut p).0, None);
    p.start_run_at("t", "d".to_string(), "t".to_string(), None, false);
    assert_eq!(p.send_input("\u{e9}"), Some("\u{e9}".as_bytes().to_vec()));
    assert_eq!(hot_reload(&p), Some(b"r".to_vec()));
    let (input, actions) = hot_restart(&mut p);
    assert_eq!(input, Some(b"R".to_vec()));
    assert_eq!(kinds(&actions), vec!["clear", "inlays", "notify"]);
}

#[test]
fn run_action_has_defaults() {
    let mut p = panel();
    let actions = flutter_run(&mut p, FlutterRun { device_id: None, target: None, cwd: None }, false);
    assert_eq!(text_of(&actions), "Starting flutter run -d macos -t lib/main.dart\n");
    assert_eq!(*kinds(&actions).last().unwrap(), "focus");
    let asked = FlutterRun {
        device_id: Some("chrome".to_string()),
        target: Some("lib/main_b.dart".to_string()),
        cwd: Some("/b".to_string()),
    };
    let other = flutter_run(&mut p, asked, false);
    assert_eq!(text_of(&other), "Starting flutter run -d chrome -t lib/main_b.dart\n");
    assert_eq!(p.search_paths(vec![]), vec!["/b"]);
    assert_eq!(kinds(&flutter_stop(&mut p)), vec!["kill", "cancel run", "cancel connection", "notify"]);
    assert_eq!(kinds(&open_flutter_logs(&mut p)), vec!["connect", "focus"]);
}

#[test]
fn panel_sizes_are_kept_by_direction() {
    let mut p = panel();
    assert_eq!(p.position(), DockPosition::Bottom);
    assert_eq!(p.size(), 300);
    assert_eq!(kinds(&p.set_size(Some(200))), vec!["notify"]);
    assert_eq!(p.size(), 200);
    assert_eq!(kinds(&p.set_position(DockPosition::Left)), vec!["notify"]);
    assert_eq!(p.size(), 300);
    p.set_size(Some(120));
    assert_eq!(p.size(), 120);
    p.set_position(DockPosition::Right);
    assert_eq!(p.size(), 120);
    p.set_position(DockPosition::Bottom);
    assert_eq!(p.size(), 200);
    p.set_size(None);
    assert_eq!(p.size(), 120);
}

#[test]
fn dock_positions_are_valid() {
    let dock = DockGeometry::new(1u8);
    let p = panel();
    for position in [DockPosition::Left, DockPosition::Bottom, DockPosition::Right] {
        assert!(dock.position_is_valid(position));
        assert!(p.position_is_valid(position));
    }
    assert_eq!(DockPosition::Left.axis(), Axis::Horizontal);
    assert_eq!(DockPosition::Right.axis(), Axis::Horizontal);
    assert_eq!(DockPosition::Bottom.axis(), Axis::Vertical);
}

#[test]
fn level_names_by_number() {
    for (level, name) in [
        (0, "FINE"),
        (500, "FINE"),
        (501, "INFO"),
        (800, "INFO"),
        (801, "WARNING"),
        (900, "WARNING"),
        (901, "SEVERE"),
        (1000, "SEVERE"),
        (1001, "SHOUT"),
        (i32::MAX, "SHOUT"),
        (-1, "SHOUT"),
    ] {
        assert_eq!(level_name(level), name, "{}", level);
    }
}

#[test]
fn level_groups_by_name() {
    assert_eq!(level_group("FINE"), Some(LevelGroup::Fine));
    assert_eq!(level_group("INFO"), Some(LevelGroup::Info));
    assert_eq!(level_group("WARNING"), Some(LevelGroup::Warning));
    for level in ["SEVERE", "SHOUT", "ERROR"] {
        assert_eq!(level_group(level), Some(LevelGroup::Severe));
    }
    assert_eq!(level_group("fine"), None);
    assert_eq!(level_group(""), None);
}

#[test]
fn records_become_entries() {
    let full = entry_for_event(LogEvent::Log(record(Some("m"), Some(1200), Some("n"))));
    assert_eq!((full.message.as_str(), full.level.as_str()), ("m", "SHOUT"));
    assert_eq!(full.logger_name.as_deref(), Some("n"));
    let empty = entry_for_event(LogEvent::Log(record(None, None, None)));
    assert_eq!((empty.message.as_str(), empty.level.as_str()), ("<no message>", "FINE"));
    assert_eq!(empty.logger_name, None);
    let mut unknown = record(None, Some(700), None);
    unknown.message = Some(InstanceRef { value_as_string: None });
    let entry = entry_for_event(LogEvent::Log(unknown));
    assert_eq!((entry.message.as_str(), entry.level.as_str()), ("<no message>", "INFO"));
}

#[test]
fn connection_events_become_entries() {
    for (event, message, level) in [
        (LogEvent::Connected, "Connected to Dart VM Service", "INFO"),
        (LogEvent::Subscribed, "Subscribed to Logging stream", "INFO"),
        (LogEvent::Disconnected, "Disconnected from VM Service", "INFO"),
        (LogEvent::Error("bad".to_string()), "bad", "ERROR"),
    ] {
        let entry = entry_for_event(event);
        assert_eq!((entry.message.as_str(), entry.level.as_str()), (message, level));
        assert_eq!(entry.logger_name, None);
    }
}

#[test]
fn notable_lines_are_known() {
    for line in [
        "Performing hot reload...",
        "Performing hot restart...",
        "Reloaded 3 libraries",
        "Restarted application in 2s",
        "Try again after fixing the above error(s).",
        "lib/a.dart:1:1: Error: x",
        "Unhandled Exception: y",
    ] {
        assert!(shows_when_connected(line), "{}", line);
    }
    for line in ["", "flutter: hi", "error: x", "Exception"] {
        assert!(!shows_when_connected(line), "{}", line);
    }
}

#[test]
fn process_events_become_entries() {
    let out = |connected: bool, event: ProcessEvent| {
        entry_for_process(connected, &event)
            .map(|e| (e.message.clone(), e.level.clone(), e.logger_name.clone().unwrap()))
    };
    let expect = |m: &str, l: &str, n: &str| Some((m.to_string(), l.to_string(), n.to_string()));
    assert_eq!(out(false, ProcessEvent::Stdout("a".to_string())), expect("a", "FINE", "Flutter"));
    assert_eq!(out(true, ProcessEvent::Stdout("a".to_string())), None);
    assert_eq!(out(true, ProcessEvent::Stdout("Error: a".to_string())), expect("Error: a", "INFO", "Flutter"));
    assert_eq!(out(true, ProcessEvent::Stderr("a".to_string())), expect("a", "WARNING", "stderr"));
    assert_eq!(out(true, ProcessEvent::Error("a".to_string())), expect("a", "ERROR", "flutter"));
    assert_eq!(out(false, ProcessEvent::Exited), expect("Flutter process exited", "INFO", "flutter"));
}

#[test]
fn output_lines_lose_their_ends() {
    assert_eq!(output_line("  a b \r\n"), "  a b");
    assert_eq!(output_line("\n"), "");
}

#[test]
fn run_commands_by_tool() {
    let plain = run_command(false, "dev", "lib/main.dart");
    assert_eq!(plain.program, "flutter");
    assert_eq!(
        plain.args,
        vec!["run", "-d", "dev", "-t", "lib/main.dart", "--vmservice-out-file=.dart_tool/flutter_url"]
    );
    let fvm = run_command(true, "dev", "t");
    assert_eq!(fvm.program, "fvm");
    assert_eq!(
        fvm.args,
        vec!["flutter", "run", "-d", "dev", "-t", "t", "--vmservice-out-file=.dart_tool/flutter_url"]
    );
    assert_eq!(starting_message(false, "d", "t"), "Starting flutter run -d d -t t");
    assert_eq!(starting_message(true, "d", "t"), "Starting fvm flutter run -d d -t t");
}

#[test]
fn fvm_is_used_where_a_marker_is() {
    let none = FvmMarkers { config: false, version: false };
    let older = FvmMarkers { config: true, version: false };
    let newer = FvmMarkers { config: false, version: true };
    assert!(!uses_fvm(None, &vec![]));
    assert!(!uses_fvm(Some(none), &vec![none, none]));
    assert!(uses_fvm(Some(older), &vec![]));
    assert!(uses_fvm(Some(newer), &vec![none]));
    assert!(uses_fvm(None, &vec![none, older]));
    assert!(uses_fvm(Some(none), &vec![newer]));
}

#[test]
fn connection_is_known_while_there_is_one() {
    let mut p = panel();
    assert!(!p.is_connected());
    p.handle_connection("ws://x/ws".to_string());
    assert!(p.is_connected());
    p.clear_logs();
    p.process_event(ProcessEvent::Exited);
    assert!(p.is_connected());
    assert_eq!(p.render().status, "Connected");
    p.start_run_at("t", "d".to_string(), "t".to_string(), None, false);
    assert!(!p.is_connected());
    assert_eq!(p.render().status, "Disconnected");
}

#[test]
fn panel_shows_its_log() {
    let mut p = panel();
    let mut text = String::new();
    text.push_str(&text_of(&p.add_log_at("1", "gone", "INFO", None)));
    p.clear_logs();
    text.clear();
    text.push_str(&text_of(&p.add_log_at("2", "a\nb\n", "INFO", None)));
    p.update_timestamp_inlay(Some(0));
    text.push_str(&text_of(&p.start_run_at("3", "d".to_string(), "t".to_string(), None, false)));
    text.push_str(&text_of(&p.process_event_at("4", ProcessEvent::Stderr("e\n\nf".to_string())).0));
    assert_eq!(text, "a\nb\nStarting flutter run -d d -t t\ne\n\nf\n");
    let stamps: Vec<Option<String>> = (0..8).map(|row| p.timestamp_in(Some(row))).collect();
    let stamp = |s: &str| Some(s.to_string());
    assert_eq!(stamps, vec![stamp("2"), None, stamp("3"), stamp("4"), None, None, None, None]);
}
