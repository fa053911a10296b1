use flutter::connection::{
    session_opened, session_received, session_subscribed, ConnectAction, ConnectOutcome, ConnectStep, Connector,
    SessionAction,
};
use flutter::log_entry::{LogEntry, LogEvent};
use flutter::paths::PathStyle;
use flutter::vm_service::LogRecord;

fn connector() -> Connector {
    let (c, first) = Connector::new(PathStyle::Posix);
    assert!(matches!(first, ConnectAction::ListPaths));
    c
}

fn messages(entries: &[LogEntry]) -> Vec<(&str, &str)> {
    for e in entries {
        assert_eq!(e.logger_name, None);
    }
    entries.iter().map(|e| (e.level.as_str(), e.message.as_str())).collect()
}

fn file_of(step: &ConnectStep) -> &str {
    match &step.action {
        ConnectAction::ReadFile { path } => path,
        other => panic!("{:?}", other),
    }
}

fn paths(v: &[&str]) -> Option<Vec<String>> {
    Some(v.iter().map(|s| s.to_string()).collect())
}

#[test]
fn directories_are_looked_in_one_after_the_other() {
    let mut c = connector();
    let step = c.paths_listed(paths(&["/a", "/b/"]));
    assert_eq!(file_of(&step), "/a/.dart_tool/flutter_url");
    assert!(step.entries.is_empty());
    let step = c.file_read(None);
    assert_eq!(file_of(&step), "/b/.dart_tool/flutter_url");
    let step = c.file_read(Some(" \n".to_string()));
    assert!(matches!(step.action, ConnectAction::Wait { millis: 500 }));
    assert_eq!(messages(&step.entries), vec![("INFO", "Waiting for Flutter app to start...")]);
    assert!(matches!(c.woken(), ConnectAction::ListPaths));
    let step = c.paths_listed(paths(&["/a"]));
    assert_eq!(file_of(&step), "/a/.dart_tool/flutter_url");
}

#[test]
fn announced_address_is_connected_to() {
    let mut c = connector();
    c.paths_listed(paths(&["/a"]));
    let step = c.file_read(Some("http://127.0.0.1:7/k=/\n".to_string()));
    let uri = match step.action {
        ConnectAction::Connect { uri } => uri,
        other => panic!("{:?}", other),
    };
    assert_eq!(uri, "ws://127.0.0.1:7/k=/ws");
    let step = c.connect_ended(uri, ConnectOutcome::Connected);
    assert_eq!(messages(&step.entries), vec![("INFO", "VM service connected at ws://127.0.0.1:7/k=/ws")]);
    match step.action {
        ConnectAction::Done { uri } => assert_eq!(uri, "ws://127.0.0.1:7/k=/ws"),
        other => panic!("{:?}", other),
    }
}

#[test]
fn failed_attempts_go_on_to_the_next_directory() {
    let mut c = connector();
    c.paths_listed(paths(&["/a", "/b", "/c", "/d"]));
    let step = c.connect_ended("u".to_string(), ConnectOutcome::NotReady);
    assert!(step.entries.is_empty());
    assert_eq!(file_of(&step), "/b/.dart_tool/flutter_url");
    let step = c.connect_ended("u".to_string(), ConnectOutcome::TaskFailed("boom".to_string()));
    assert_eq!(messages(&step.entries), vec![("ERROR", "Connection task failed: boom")]);
    assert_eq!(file_of(&step), "/c/.dart_tool/flutter_url");
    let step = c.connect_ended("u".to_string(), ConnectOutcome::SpawnFailed("busy".to_string()));
    assert_eq!(messages(&step.entries), vec![("ERROR", "Failed to spawn connection task: busy")]);
    assert_eq!(file_of(&step), "/d/.dart_tool/flutter_url");
    let step = c.connect_ended("u".to_string(), ConnectOutcome::TaskFailed("boom".to_string()));
    assert_eq!(
        messages(&step.entries),
        vec![("ERROR", "Connection task failed: boom"), ("INFO", "Waiting for Flutter app to start...")]
    );
    c.woken();
    c.paths_listed(paths(&["/a"]));
    let step = c.connect_ended("u".to_string(), ConnectOutcome::SpawnFailed("busy".to_string()));
    assert!(step.entries.is_empty());
}

#[test]
fn missing_panel_is_told() {
    let mut c = connector();
    let step = c.paths_listed(None);
    assert_eq!(
        messages(&step.entries),
        vec![("WARNING", "No workspace available"), ("INFO", "Waiting for Flutter app to start...")]
    );
}

#[test]
fn looking_ends_after_thirty_seconds() {
    let mut c = connector();
    let mut waited = 0;
    let mut told = 0;
    loop {
        assert!(c.goes_on());
        let step = c.paths_listed(paths(&[]));
        told += step.entries.iter().filter(|e| e.message.starts_with("Waiting")).count();
        match step.action {
            ConnectAction::Wait { millis } => waited += millis,
            ConnectAction::GiveUp => {
                assert_eq!(
                    messages(&step.entries),
                    vec![
                        ("ERROR", "Could not link to running Flutter app (connection timed out)."),
                        (
                            "ERROR",
                            "Please ensure 'flutter run' is active and '.dart_tool/flutter_url' exists."
                        ),
                    ]
                );
                break;
            }
            other => panic!("{:?}", other),
        }
        c.woken();
    }
    assert!(!c.goes_on());
    assert_eq!(waited, 30_000);
    assert_eq!(told, 1);
}

#[test]
fn session_subscribes_receives_and_stops() {
    let (event, action) = session_opened();
    assert!(matches!(event, LogEvent::Connected));
    assert_eq!(action, SessionAction::Subscribe);
    let (event, action) = session_subscribed(Ok(()));
    assert!(matches!(event, LogEvent::Subscribed));
    assert_eq!(action, SessionAction::Receive);
    let (event, action) = session_subscribed(Err("no".to_string()));
    match event {
        LogEvent::Error(message) => assert_eq!(message, "Failed to subscribe to logs: no"),
        other => panic!("{:?}", other),
    }
    assert_eq!(action, SessionAction::Stop);
    let record =
        LogRecord { message: None, time: None, level: Some(5), logger_name: None, error: None, stack_trace: None };
    let (event, action) = session_received(Some(record));
    assert!(matches!(event, LogEvent::Log(LogRecord { level: Some(5), .. })));
    assert_eq!(action, SessionAction::Receive);
    let (event, action) = session_received(None);
    assert!(matches!(event, LogEvent::Disconnected));
    assert_eq!(action, SessionAction::Stop);
}

#[test]
fn windows_directories_are_looked_in() {
    let (mut c, _) = Connector::new(PathStyle::Windows);
    let step = c.paths_listed(paths(&["C:\\app", "D:\\"]));
    assert_eq!(file_of(&step), "C:\\app\\.dart_tool/flutter_url");
    let step = c.file_read(None);
    assert_eq!(file_of(&step), "D:\\.dart_tool/flutter_url");
}
