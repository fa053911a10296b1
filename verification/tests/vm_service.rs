use flutter::uri::{service_uri, websocket_uri};
use flutter::vm_service::{
    extract_vm_service_uri, found, next_request_id, DartVmService, Exchange, Incoming, InstanceRef, JsonRpcResponse,
    LogRecord, NextLog, RequestCounter, StreamNotifyParams, VmEvent, VmServiceError,
};

fn response(method: Option<&str>, params: Option<&str>, error: Option<&str>) -> JsonRpcResponse<String> {
    JsonRpcResponse {
        jsonrpc: "2.0".to_string(),
        id: Some("1".to_string()),
        method: method.map(|s| s.to_string()),
        result: None,
        params: params.map(|s| s.to_string()),
        error: error.map(|s| s.to_string()),
    }
}

fn record(message: &str) -> LogRecord {
    LogRecord {
        message: Some(InstanceRef { value_as_string: Some(message.to_string()) }),
        time: Some(17),
        level: Some(800),
        logger_name: None,
        error: None,
        stack_trace: None,
    }
}

fn notify(stream: &str, kind: &str, log_record: Option<LogRecord>) -> StreamNotifyParams {
    StreamNotifyParams {
        stream_id: stream.to_string(),
        event: VmEvent { kind: kind.to_string(), log_record },
    }
}

fn service() -> DartVmService {
    match DartVmService::connect::<(), String>(Ok(())) {
        Ok(service) => service,
        Err(_) => panic!("not connected"),
    }
}

#[test]
fn request_ids_count_from_one() {
    let mut counter = RequestCounter::new();
    assert_eq!(next_request_id(&mut counter), "1");
    assert_eq!(next_request_id(&mut counter), "2");
    for _ in 0..8 {
        next_request_id(&mut counter);
    }
    assert_eq!(next_request_id(&mut counter), "11");
}

#[test]
fn request_ids_differ_pairwise() {
    let mut counter = RequestCounter::new();
    let ids: Vec<String> = (0..200).map(|_| next_request_id(&mut counter)).collect();
    for i in 0..ids.len() {
        for j in 0..i {
            assert_ne!(ids[i], ids[j]);
        }
    }
}

#[test]
fn listen_request_is_json_rpc() {
    let mut counter = RequestCounter::new();
    let text = service().subscribe_logging(&mut counter);
    assert_eq!(
        text,
        "{\"jsonrpc\":\"2.0\",\"method\":\"streamListen\",\"params\":{\"streamId\":\"Logging\"},\"id\":\"1\"}"
    );
    let value: serde_json::Value = serde_json::from_str(&text).unwrap();
    assert_eq!(value["jsonrpc"], "2.0");
    assert_eq!(value["method"], "streamListen");
    assert_eq!(value["params"]["streamId"], "Logging");
    assert_eq!(value["id"], "1");
    assert_eq!(value.as_object().unwrap().len(), 4);
    let again: serde_json::Value = serde_json::from_str(&service().subscribe_logging(&mut counter)).unwrap();
    assert_eq!(again["id"], "2");
}

#[test]
fn failed_socket_is_no_connection() {
    let r = DartVmService::connect::<&str, String>(Err("refused"));
    match r {
        Err(e) => assert_eq!(e.message(""), "Failed to connect to Dart VM Service"),
        Ok(_) => panic!("connected"),
    }
}

#[test]
fn subscription_outcomes() {
    let s = service();
    assert!(s.subscribed::<String>(Exchange::Reply(Incoming::Closed)).is_ok());
    assert!(s.subscribed::<String>(Exchange::Reply(Incoming::NotText)).is_ok());
    assert!(s.subscribed(Exchange::Reply(Incoming::Response(response(None, None, None)))).is_ok());
    let send = s.subscribed::<String>(Exchange::NotSent).unwrap_err();
    assert!(matches!(send, VmServiceError::SendFailed));
    assert_eq!(send.message("x"), "Failed to send streamListen request");
    let read = s.subscribed::<String>(Exchange::Reply(Incoming::Failed)).unwrap_err();
    assert_eq!(read.message("x"), "WebSocket read error");
    let bad = s.subscribed::<String>(Exchange::Reply(Incoming::NotResponse)).unwrap_err();
    assert_eq!(bad.message("x"), "Failed to parse streamListen response");
    let refused = s
        .subscribed(Exchange::Reply(Incoming::Response(response(None, None, Some("no such stream")))))
        .unwrap_err();
    match &refused {
        VmServiceError::Refused(error) => assert_eq!(error, "no such stream"),
        _ => panic!("{:?}", refused),
    }
    assert_eq!(refused.message("Some(1)"), "streamListen failed: Some(1)");
}

#[test]
fn only_notifications_are_decoded() {
    let mut s = service();
    assert!(matches!(s.next_log::<String>(Incoming::Closed), NextLog::Ended));
    assert!(matches!(s.next_log::<String>(Incoming::Failed), NextLog::Ended));
    assert!(matches!(s.next_log::<String>(Incoming::NotText), NextLog::Skip));
    assert!(matches!(s.next_log::<String>(Incoming::NotResponse), NextLog::Skip));
    let other = Incoming::Response(response(Some("streamCancel"), Some("p"), None));
    assert!(matches!(s.next_log(other), NextLog::Skip));
    let answer = Incoming::Response(response(None, Some("p"), None));
    assert!(matches!(s.next_log(answer), NextLog::Skip));
    let bare = Incoming::Response(response(Some("streamNotify"), None, None));
    assert!(matches!(s.next_log(bare), NextLog::Skip));
    match s.next_log(Incoming::Response(response(Some("streamNotify"), Some("p"), None))) {
        NextLog::Notification(params) => assert_eq!(params, "p"),
        other => panic!("{:?}", other),
    }
}

#[test]
fn only_log_records_end_the_wait() {
    let s = service();
    assert!(s.logged(None).is_none());
    assert!(s.logged(Some(notify("Debug", "Logging", Some(record("x"))))).is_none());
    assert!(s.logged(Some(notify("Logging", "Isolate", Some(record("x"))))).is_none());
    assert!(matches!(s.logged(Some(notify("Logging", "Logging", None))), Some(None)));
    match s.logged(Some(notify("Logging", "Logging", Some(record("hello"))))) {
        Some(Some(r)) => assert_eq!(r.message.unwrap().value_as_string.unwrap(), "hello"),
        other => panic!("{:?}", other),
    }
}

#[test]
fn service_uri_is_found_in_output() {
    let text = "Flutter run key commands.\nservice: ws://127.0.0.1:50123/AbC_9-=/ws is up";
    assert_eq!(extract_vm_service_uri(text).as_deref(), Some("ws://127.0.0.1:50123/AbC_9-=/ws"));
    let local = "\u{1f4aa} at ws://localhost:8181/tok/ws/next";
    assert_eq!(extract_vm_service_uri(local).as_deref(), Some("ws://localhost:8181/tok/ws"));
}

#[test]
fn loopback_is_preferred_to_localhost() {
    let text = "ws://localhost:1/a/ws and later ws://127.0.0.1:2/b/ws";
    assert_eq!(extract_vm_service_uri(text).as_deref(), Some("ws://127.0.0.1:2/b/ws"));
}

#[test]
fn first_of_several_uris_is_found() {
    let text = "ws://127.0.0.1:/a/ws ws://127.0.0.1:1/a/ws ws://127.0.0.1:2/b/ws";
    assert_eq!(extract_vm_service_uri(text).as_deref(), Some("ws://127.0.0.1:1/a/ws"));
}

#[test]
fn other_texts_hold_no_service_uri() {
    for text in [
        "",
        "http://127.0.0.1:1/a/ws",
        "ws://127.0.0.1:port/a/ws",
        "ws://127.0.0.1:1//ws",
        "ws://127.0.0.1:1/a b/ws",
        "ws://127.0.0.1:1/a/wx",
        "ws://127x0x0x1:1/a/ws",
        "ws://example.com:1/a/ws",
    ] {
        assert_eq!(extract_vm_service_uri(text), None, "{}", text);
    }
}

#[test]
fn broken_pattern_finds_nothing() {
    assert_eq!(found(Err(regex::Regex::new("(").unwrap_err())), None);
    assert_eq!(found(Ok(None)), None);
    assert_eq!(found(Ok(Some("m".to_string()))).as_deref(), Some("m"));
}

#[test]
fn websocket_uri_exchanges_schemes_and_adds_path() {
    assert_eq!(websocket_uri("http://127.0.0.1:1/abc="), "ws://127.0.0.1:1/abc=/ws");
    assert_eq!(websocket_uri("http://127.0.0.1:1/abc=/"), "ws://127.0.0.1:1/abc=/ws");
    assert_eq!(websocket_uri("https://h/x/ws"), "wss://h/x/ws");
    assert_eq!(websocket_uri("https://h/x/ws/"), "wss://h/x/ws/");
    assert_eq!(websocket_uri("ws://h"), "ws://h/ws");
    assert_eq!(websocket_uri("http://a/http://b"), "ws://a/ws://b/ws");
}

#[test]
fn websocket_uri_twice_is_websocket_uri_once() {
    for uri in ["http://a", "https://b/", "ws://c/ws", "x http:/", "", "/", "http:/", "hthttp://tp://"] {
        let once = websocket_uri(uri);
        assert_eq!(websocket_uri(&once), once);
        assert!(!once.contains("http://") && !once.contains("https://"));
        assert!(once.ends_with("/ws") || once.ends_with("/ws/"));
    }
}

#[test]
fn service_file_announces_its_uri() {
    assert_eq!(service_uri("  http://127.0.0.1:9/k=/ \n").as_deref(), Some("ws://127.0.0.1:9/k=/ws"));
    assert_eq!(service_uri(""), None);
    assert_eq!(service_uri(" \t\r\n"), None);
    let found = extract_vm_service_uri("see ws://localhost:3/t/ws!").unwrap();
    assert_eq!(service_uri(&found), Some(found));
}

/// The first and the last digit of each run of decimal digits.
const DIGITS: [(u32, u32); 71] = [
    (0x30, 0x39), (0x660, 0x669), (0x6f0, 0x6f9), (0x7c0, 0x7c9), (0x966, 0x96f), (0x9e6, 0x9ef),
    (0xa66, 0xa6f), (0xae6, 0xaef), (0xb66, 0xb6f), (0xbe6, 0xbef), (0xc66, 0xc6f),
    (0xce6, 0xcef), (0xd66, 0xd6f), (0xde6, 0xdef), (0xe50, 0xe59), (0xed0, 0xed9),
    (0xf20, 0xf29), (0x1040, 0x1049), (0x1090, 0x1099), (0x17e0, 0x17e9), (0x1810, 0x1819),
    (0x1946, 0x194f), (0x19d0, 0x19d9), (0x1a80, 0x1a89), (0x1a90, 0x1a99), (0x1b50, 0x1b59),
    (0x1bb0, 0x1bb9), (0x1c40, 0x1c49), (0x1c50, 0x1c59), (0xa620, 0xa629), (0xa8d0, 0xa8d9),
    (0xa900, 0xa909), (0xa9d0, 0xa9d9), (0xa9f0, 0xa9f9), (0xaa50, 0xaa59), (0xabf0, 0xabf9),
    (0xff10, 0xff19), (0x104a0, 0x104a9), (0x10d30, 0x10d39), (0x10d40, 0x10d49),
    (0x11066, 0x1106f), (0x110f0, 0x110f9), (0x11136, 0x1113f), (0x111d0, 0x111d9),
    (0x112f0, 0x112f9), (0x11450, 0x11459), (0x114d0, 0x114d9), (0x11650, 0x11659),
    (0x116c0, 0x116c9), (0x116d0, 0x116e3), (0x11730, 0x11739), (0x118e0, 0x118e9),
    (0x11950, 0x11959), (0x11bf0, 0x11bf9), (0x11c50, 0x11c59), (0x11d50, 0x11d59),
    (0x11da0, 0x11da9), (0x11f50, 0x11f59), (0x16130, 0x16139), (0x16a60, 0x16a69),
    (0x16ac0, 0x16ac9), (0x16b50, 0x16b59), (0x16d70, 0x16d79), (0x1ccf0, 0x1ccf9),
    (0x1d7ce, 0x1d7ff), (0x1e140, 0x1e149), (0x1e2f0, 0x1e2f9), (0x1e4f0, 0x1e4f9),
    (0x1e5f1, 0x1e5fa), (0x1e950, 0x1e959), (0x1fbf0, 0x1fbf9),
];

#[test]
fn ports_are_of_decimal_digits_of_any_script() {
    let found = |code: u32| match char::from_u32(code) {
        Some(c) => {
            let uri = format!("ws://127.0.0.1:1{}/a/ws", c);
            let result = extract_vm_service_uri(&uri);
            assert!(result.is_none() || result == Some(uri));
            result.is_some()
        }
        None => false,
    };
    let is_digit = |code: u32| DIGITS.iter().any(|(first, last)| *first <= code && code <= *last);
    for (first, last) in DIGITS {
        for code in [first - 1, first, last, last + 1] {
            assert_eq!(found(code), is_digit(code), "{:x}", code);
        }
    }
    for code in [0x2f, 0x3a, 0x80, 0xb2, 0xbd, 0x65f, 0x2460, 0x4e00] {
        assert!(!found(code), "{:x}", code);
    }
}

#[test]
fn found_uri_is_found_again() {
    for text in [
        "at ws://127.0.0.1:1/a/ws and ws://localhost:2/b/ws",
        "at ws://localhost:2/b-c_=/ws.",
        "ws://127.0.0.1:ws://127.0.0.1:\u{0667}/a/ws",
    ] {
        let uri = extract_vm_service_uri(text).unwrap();
        assert_eq!(extract_vm_service_uri(&uri).as_deref(), Some(uri.as_str()));
        assert_eq!(service_uri(&uri).as_deref(), Some(uri.as_str()));
    }
}

#[test]
fn announced_uri_is_announced_again() {
    for contents in ["http://127.0.0.1:7/k=/", " https://x \n", "ws://y/ws/", "z"] {
        let uri = service_uri(contents).unwrap();
        assert_eq!(service_uri(&uri).as_deref(), Some(uri.as_str()));
        assert_eq!(service_uri(&format!("{}\n", contents)).as_deref(), Some(uri.as_str()));
    }
}
