use statemaster::clock::Timestamp;
use statemaster::engine::outcome::TransitionResult;
use statemaster::fsm::builder::MachineBuilder;
use statemaster::fsm::record::{ChangeRecord, EntityState};
use statemaster::proto::codec::encode_message;
use statemaster::proto::constants::PROTOCOL_VERSION;
use statemaster::proto::error::ProtoError;
use statemaster::proto::frame::{Frame, FrameTag};
use statemaster::proto::messages::{
    ErrorMessage, NoticeMessage, RejectionMessage, ResultMessage,
};
use statemaster::proto::push::ChangeRecordMessage;
use statemaster::proto::records::{entity_value, result_value};
use statemaster::sdk::config::{ClientBuilder, ClientConfig};
use statemaster::sdk::connection::{
    check_config, extract_request_id, ClientHandshake, RequestIds, Routed, SharedState,
};
use statemaster::sdk::error::SdkError;
use statemaster::sdk::request::{
    auth_message, current_message, define_message, startup_message, subscribe_message,
    HistoryBuilder, TransitionBuilder,
};
use statemaster::sdk::response::{
    read_current_reply, read_done, read_history_reply, read_transition_reply,
};
use statemaster::sdk::retry::{base_delay_ms, delay_with, retry_delay_ms};
use statemaster::wire::commands::records_value;
use std::time::Duration;

#[test]
fn default_client_settings() {
    let c = ClientConfig::default();
    assert_eq!(c.addr, "localhost:7632");
    assert_eq!(c.token, "");
    assert!(!c.tls);
    assert_eq!(c.pool_size, 8);
    assert_eq!(c.connect_timeout, Duration::from_secs(5));
    assert_eq!(c.request_timeout, Duration::from_secs(30));
    assert_eq!(c.max_retries, 3);
}

#[test]
fn builder_sets_each_setting() {
    let c = ClientBuilder::new("example:1")
        .token("my-token")
        .tls(true)
        .pool_size(2)
        .connect_timeout(Duration::from_millis(1500))
        .request_timeout(Duration::from_secs(7))
        .max_retries(9)
        .into_config();
    assert_eq!(c.addr, "example:1");
    assert_eq!(c.token, "my-token");
    assert!(c.tls);
    assert_eq!(c.pool_size, 2);
    assert_eq!(c.connect_timeout, Duration::from_millis(1500));
    assert_eq!(c.request_timeout, Duration::from_secs(7));
    assert_eq!(c.max_retries, 9);
    assert!(matches!(check_config(&c), Err(SdkError::Internal(_))));
    assert!(check_config(&ClientConfig::default()).is_ok());
}

#[test]
fn waits_double_up_to_a_limit() {
    let waits: Vec<u64> = (0..9).map(base_delay_ms).collect();
    assert_eq!(waits, vec![100, 200, 400, 800, 1600, 3200, 6400, 6400, 6400]);
    assert_eq!(delay_with(1, 3, 100), Some(300));
    assert_eq!(delay_with(3, 3, 0), None);
    for attempt in 0..8 {
        for _ in 0..50 {
            let base = base_delay_ms(attempt);
            let wait = retry_delay_ms(attempt, 100).unwrap();
            assert!(base <= wait && wait <= base + base / 2);
        }
    }
    assert_eq!(retry_delay_ms(3, 3), None);
}

#[test]
fn transition_builder_fills_the_message() {
    let m = TransitionBuilder::new("order_1", "fulfillment", "ship").into_message(9);
    assert_eq!(m.request_id, 9);
    assert_eq!(m.expected_version, None);
    assert_eq!(m.ctx, serde_json::Value::Null);
    assert_eq!(m.actor, "");
    assert_eq!(m.idempotency_key, None);
    let m = TransitionBuilder::new("order_1", "fulfillment", "ship")
        .expected_version(3)
        .ctx("x".into())
        .actor("svc:billing")
        .idempotency_key("key-123")
        .into_message(10);
    assert_eq!(m.entity_id, "order_1");
    assert_eq!(m.machine, "fulfillment");
    assert_eq!(m.event, "ship");
    assert_eq!(m.expected_version, Some(3));
    assert_eq!(m.ctx, serde_json::Value::from("x"));
    assert_eq!(m.actor, "svc:billing");
    assert_eq!(m.idempotency_key, Some("key-123".to_string()));
}

#[test]
fn other_requests_are_filled() {
    let m = HistoryBuilder::new("e", "m").limit(5).after_sequence(2).into_message(1);
    assert_eq!((m.limit, m.after_sequence), (Some(5), Some(2)));
    let m = HistoryBuilder::new("e", "m").into_message(1);
    assert_eq!((m.limit, m.after_sequence), (None, None));
    let def = MachineBuilder::new()
        .name("m")
        .version(4)
        .state("a")
        .initial_state("a")
        .build()
        .unwrap();
    let m = define_message(2, def);
    assert_eq!((m.request_id, m.name.as_str(), m.version), (2, "m", 4));
    let m = current_message(3, "e", "m");
    assert_eq!((m.entity_id.as_str(), m.machine.as_str()), ("e", "m"));
    let a = subscribe_message(4, None, 7);
    let b = subscribe_message(5, Some("m".to_string()), 7);
    assert_ne!(a.subscription_id, b.subscription_id);
    assert_eq!(a.subscription_id.len(), 36);
    assert_eq!(b.machine_filter, Some("m".to_string()));
    let m = startup_message();
    assert_eq!(m.protocol_version, PROTOCOL_VERSION);
    assert_eq!(m.capabilities, vec!["subscribe", "history"]);
    assert_eq!(auth_message("t").token, "t");
}

fn frame(tag: FrameTag, body: serde_json::Value) -> Frame {
    encode_message(tag, &body).unwrap()
}

fn result(payload: serde_json::Value) -> Frame {
    ResultMessage { request_id: 1, payload }.to_frame().unwrap()
}

fn rejected() -> Frame {
    RejectionMessage {
        request_id: 1,
        code: "version_conflict".to_string(),
        message: "no".to_string(),
        current_state: Some("paid".to_string()),
        version: Some(4),
    }
    .to_frame()
    .unwrap()
}

fn error(message: &str) -> Frame {
    ErrorMessage { code: "x".to_string(), message: message.to_string() }.to_frame().unwrap()
}

fn moment() -> Timestamp {
    Timestamp { secs: 1_700_000_000, nanos: 250_000_000 }
}

#[test]
fn transition_replies_are_understood() {
    let t = TransitionResult {
        entity_id: "e".to_string(),
        machine: "m".to_string(),
        from_state: "a".to_string(),
        to_state: "b".to_string(),
        version: 2,
        transition_id: "t".to_string(),
        sequence: 9,
        timestamp: moment(),
    };
    let r = read_transition_reply(&result(result_value(&t))).unwrap();
    assert_eq!((r.from_state.as_str(), r.to_state.as_str()), ("a", "b"));
    assert_eq!((r.version, r.sequence), (2, 9));
    assert_eq!(r.timestamp, moment());
    match read_transition_reply(&rejected()) {
        Err(SdkError::Rejected { code, message, current_state, version }) => {
            assert_eq!((code.as_str(), message.as_str()), ("version_conflict", "no"));
            assert_eq!((current_state, version), (Some("paid".to_string()), Some(4)));
        }
        other => panic!("unexpected: {:?}", other),
    }
    match read_transition_reply(&error("boom")) {
        Err(SdkError::Internal(m)) => assert_eq!(m, "boom"),
        other => panic!("unexpected: {:?}", other),
    }
    let broken = Frame { tag: FrameTag::Error, body: bytes::Bytes::new() };
    match read_transition_reply(&broken) {
        Err(SdkError::Internal(m)) => assert_eq!(m, "unknown server error"),
        other => panic!("unexpected: {:?}", other),
    }
    match read_transition_reply(&Frame { tag: FrameTag::Pong, body: bytes::Bytes::new() }) {
        Err(SdkError::Internal(m)) => assert_eq!(m, "unexpected response tag: Pong"),
        other => panic!("unexpected: {:?}", other),
    }
    assert!(matches!(
        read_transition_reply(&result("x".into())),
        Err(SdkError::Internal(_))
    ));
    let unreadable = Frame { tag: FrameTag::Rejection, body: bytes::Bytes::new() };
    assert!(matches!(
        read_transition_reply(&unreadable),
        Err(SdkError::Proto(ProtoError::DeserializationError(_)))
    ));
}

#[test]
fn other_replies_are_understood() {
    let s = EntityState {
        entity_id: "e".to_string(),
        machine: "m".to_string(),
        current_state: "paid".to_string(),
        version: 3,
        updated_at: moment(),
        created_at: moment(),
    };
    let back = read_current_reply(&result(entity_value(&s))).unwrap();
    assert_eq!((back.current_state.as_str(), back.version), ("paid", 3));
    assert!(matches!(read_current_reply(&rejected()), Err(SdkError::Rejected { .. })));
    assert!(read_history_reply(&result(records_value(&vec![]))).unwrap().is_empty());
    assert!(matches!(read_history_reply(&result("x".into())), Err(SdkError::Internal(_))));
    assert!(read_done(&result("x".into())).is_ok());
    assert!(matches!(read_done(&rejected()), Err(SdkError::Rejected { .. })));
}

#[test]
fn handshake_waits_for_both_frames() {
    let ok = error("ok");
    let auth_ok = Frame { tag: FrameTag::AuthOk, body: ok.body.clone() };
    let ready = Frame { tag: FrameTag::Ready, body: bytes::Bytes::new() };
    for order in [[&auth_ok, &ready], [&ready, &auth_ok]] {
        let h = ClientHandshake::new();
        assert!(!h.is_done());
        let h = h.receive(order[0]).unwrap();
        assert!(!h.is_done());
        let notice = NoticeMessage { message: "hi".to_string(), code: None }.to_frame().unwrap();
        let h = h.receive(&notice).unwrap();
        assert!(h.receive(order[1]).unwrap().is_done());
    }
    let denied = Frame { tag: FrameTag::AuthError, body: error("invalid token").body };
    match ClientHandshake::new().receive(&denied) {
        Err(SdkError::AuthFailed(m)) => assert_eq!(m, "invalid token"),
        other => panic!("unexpected: {:?}", other),
    }
    let broken = Frame { tag: FrameTag::AuthError, body: bytes::Bytes::new() };
    match ClientHandshake::new().receive(&broken) {
        Err(SdkError::AuthFailed(m)) => assert_eq!(m, "auth error"),
        other => panic!("unexpected: {:?}", other),
    }
    match ClientHandshake::new().receive(&error("boom")) {
        Err(SdkError::ConnectionFailed(m)) => assert_eq!(m, "boom"),
        other => panic!("unexpected: {:?}", other),
    }
}

#[test]
fn requests_are_numbered_from_one() {
    let mut ids = RequestIds::new();
    assert_eq!(ids.next_request_id(), 1);
    assert_eq!(ids.next_request_id(), 2);
}

#[test]
fn replies_go_to_whoever_waits() {
    let mut s: SharedState<&str, &str> = SharedState::new();
    s.expect(1, "one").unwrap();
    s.expect(2, "two").unwrap();
    let reply = result("x".into());
    assert_eq!(extract_request_id(&reply), Some(1));
    assert!(matches!(s.route(&reply), Routed::Reply("one")));
    assert!(matches!(s.route(&reply), Routed::Nobody));
    s.give_up(2);
    let late = ResultMessage { request_id: 2, payload: "x".into() }.to_frame().unwrap();
    assert!(matches!(s.route(&late), Routed::Nobody));
    let pong = Frame { tag: FrameTag::Pong, body: bytes::Bytes::new() };
    assert!(matches!(s.route(&pong), Routed::Nobody));
}

fn change(id: &str) -> Frame {
    ChangeRecordMessage {
        subscription_id: id.to_string(),
        record: ChangeRecord {
            sequence: 5,
            transition_id: "t".to_string(),
            entity_id: "e".to_string(),
            machine: "m".to_string(),
            from_state: "a".to_string(),
            to_state: "b".to_string(),
            event: "go".to_string(),
            actor: "me".to_string(),
            version: 1,
            timestamp: moment(),
            ctx: serde_json::Value::Null,
            effects: vec![],
        },
    }
    .to_frame()
    .unwrap()
}

#[test]
fn records_go_to_their_subscription() {
    let mut s: SharedState<&str, &str> = SharedState::new();
    s.add_subscription("s1".to_string(), "sink");
    match s.route(&change("s1")) {
        Routed::Record { subscription_id, record } => {
            assert_eq!(subscription_id, "s1");
            assert_eq!(record.sequence, 5);
            assert_eq!(s.subscription(&subscription_id), Some(&"sink"));
        }
        _ => panic!("expected a record"),
    }
    assert!(matches!(s.route(&change("s2")), Routed::Nobody));
    s.remove_subscription("s1");
    assert!(matches!(s.route(&change("s1")), Routed::Nobody));
    assert!(matches!(s.route(&frame(FrameTag::ChangeRecord, "x".into())), Routed::Nobody));
}

#[test]
fn lost_connections_take_no_requests() {
    let mut s: SharedState<&str, &str> = SharedState::new();
    s.expect(1, "one").unwrap();
    s.add_subscription("s".to_string(), "sink");
    assert!(!s.is_dead());
    assert!(matches!(s.route(&error("fatal")), Routed::Nobody));
    assert!(s.is_dead());
    assert_eq!(s.subscription("s"), None);
    assert!(matches!(s.expect(2, "two"), Err(SdkError::Disconnected)));
    assert!(matches!(s.route(&result("x".into())), Routed::Nobody));
    let mut s: SharedState<&str, tokio::sync::mpsc::UnboundedSender<u8>> = SharedState::new();
    let (tx, mut rx) = tokio::sync::mpsc::unbounded_channel();
    s.add_subscription("s".to_string(), tx);
    s.mark_dead();
    assert!(s.is_dead());
    assert_eq!(rx.try_recv(), Err(tokio::sync::mpsc::error::TryRecvError::Disconnected));
}

#[test]
fn client_errors_are_put_into_words() {
    let e = SdkError::Rejected {
        code: "guard_failed".to_string(),
        message: "no".to_string(),
        current_state: None,
        version: None,
    };
    assert_eq!(e.message(), "transition rejected: [guard_failed] no");
    assert_eq!(SdkError::Timeout.message(), "request timed out");
    assert_eq!(SdkError::Disconnected.message(), "disconnected from server");
    assert_eq!(SdkError::Io("x".to_string()).message(), "io error: x");
    assert_eq!(SdkError::AuthFailed("x".to_string()).message(), "authentication failed: x");
    assert_eq!(SdkError::ConnectionFailed("x".to_string()).message(), "connection failed: x");
    assert_eq!(SdkError::Internal("x".to_string()).message(), "internal error: x");
}
