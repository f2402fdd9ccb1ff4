use bytes::BytesMut;
use statemaster::clock::Timestamp;
use statemaster::fsm::builder::MachineBuilder;
use statemaster::fsm::record::{ChangeRecord, EffectPayload};
use statemaster::proto::codec::{decode_message, encode_message};
use statemaster::proto::constants::{
    DEFAULT_METRICS_PORT, DEFAULT_PORT, MAX_FRAME_SIZE, PROTOCOL_VERSION, SERVER_VERSION,
};
use statemaster::proto::error::ProtoError;
use statemaster::proto::frame::{Frame, FrameCodec, FrameTag};
use statemaster::proto::messages::{
    AckMessage, AuthMessage, CurrentMessage, ErrorMessage, HistoryMessage, NoticeMessage,
    ReadyMessage, RejectionMessage, ResultMessage, StartupMessage, SubscribeMessage,
    TransitionMessage, UnsubscribeMessage,
};
use statemaster::proto::push::{ChangeRecordMessage, DefineMachineMessage};

fn roundtrip_frame(tag: FrameTag, body: bytes::Bytes) -> Frame {
    let original = Frame { tag, body };
    let mut buf = BytesMut::new();
    let mut codec = FrameCodec;
    codec.encode(original, &mut buf).expect("encode failed");

    codec.decode(&mut buf).expect("decode error").expect("expected a frame")
}

#[test]
fn frame_codec_roundtrip_empty_body() {
    let frame = roundtrip_frame(FrameTag::Ping, bytes::Bytes::new());
    assert_eq!(frame.tag, FrameTag::Ping);
    assert!(frame.body.is_empty());
}

#[test]
fn frame_codec_roundtrip_with_body() {
    let body = bytes::Bytes::from_static(b"hello world");
    let frame = roundtrip_frame(FrameTag::Auth, body.clone());
    assert_eq!(frame.tag, FrameTag::Auth);
    assert_eq!(frame.body, body);
}

#[test]
fn frame_codec_partial_read() {
    let body = bytes::Bytes::from_static(b"partial");
    let full = Frame { tag: FrameTag::Ping, body };
    let mut buf = BytesMut::new();
    let mut codec = FrameCodec;
    codec.encode(full, &mut buf).unwrap();

    // Feed only part of the buffer
    let mut partial = buf.split_to(3);
    assert!(codec.decode(&mut partial).unwrap().is_none());
}

#[test]
fn frame_codec_rejects_oversized_frame() {
    let mut buf = BytesMut::new();
    buf.extend_from_slice(&[FrameTag::Auth.to_byte()]);
    // Length field: 17 MB, exceeds MAX_FRAME_SIZE
    let too_big: u32 = 17 * 1024 * 1024;
    buf.extend_from_slice(&too_big.to_be_bytes());

    let mut codec = FrameCodec;
    let err = codec.decode(&mut buf).unwrap_err();
    assert!(matches!(err, ProtoError::FrameTooLarge { .. }));
}

#[test]
fn frame_codec_rejects_unknown_tag() {
    let mut buf = BytesMut::new();
    buf.extend_from_slice(&[0xFF]); // unknown tag
    buf.extend_from_slice(&0u32.to_be_bytes()); // zero-length body

    let mut codec = FrameCodec;
    let err = codec.decode(&mut buf).unwrap_err();
    assert!(matches!(err, ProtoError::InvalidFrameType(0xFF)));
}

#[test]
fn message_encode_decode_startup() {
    let msg = StartupMessage {
        protocol_version: PROTOCOL_VERSION,
        capabilities: vec!["subscribe".into(), "history".into()],
    };
    let frame = encode_message(FrameTag::Startup, &msg.to_value()).unwrap();
    assert_eq!(frame.tag, FrameTag::Startup);

    let decoded = StartupMessage::from_value(&decode_message(&frame).unwrap()).unwrap();
    assert_eq!(decoded.protocol_version, PROTOCOL_VERSION);
    assert_eq!(decoded.capabilities, vec!["subscribe", "history"]);
}

#[test]
fn message_encode_decode_auth() {
    let msg = AuthMessage { token: "secret-token".into() };
    let frame = encode_message(FrameTag::Auth, &msg.to_value()).unwrap();
    let decoded = AuthMessage::from_value(&decode_message(&frame).unwrap()).unwrap();
    assert_eq!(decoded.token, "secret-token");
}

#[test]
fn message_encode_decode_ready() {
    let msg = ReadyMessage {
        session_id: "sess-abc".into(),
        server_version: SERVER_VERSION.into(),
        protocol_version: PROTOCOL_VERSION,
        capabilities: vec!["subscribe".into()],
    };
    let frame = encode_message(FrameTag::Ready, &msg.to_value()).unwrap();
    let decoded = ReadyMessage::from_value(&decode_message(&frame).unwrap()).unwrap();
    assert_eq!(decoded.session_id, "sess-abc");
    assert_eq!(decoded.protocol_version, PROTOCOL_VERSION);
}

#[test]
fn frame_codec_multiple_frames_in_buffer() {
    let mut buf = BytesMut::new();
    let mut codec = FrameCodec;

    let f1 = Frame { tag: FrameTag::Ping, body: bytes::Bytes::from_static(b"one") };
    let f2 = Frame { tag: FrameTag::Pong, body: bytes::Bytes::from_static(b"two") };
    codec.encode(f1, &mut buf).unwrap();
    codec.encode(f2, &mut buf).unwrap();

    let d1 = codec.decode(&mut buf).unwrap().unwrap();
    assert_eq!(d1.tag, FrameTag::Ping);
    assert_eq!(&d1.body[..], b"one");

    let d2 = codec.decode(&mut buf).unwrap().unwrap();
    assert_eq!(d2.tag, FrameTag::Pong);
    assert_eq!(&d2.body[..], b"two");

    assert!(codec.decode(&mut buf).unwrap().is_none());
}

#[test]
fn frames_have_their_documented_bytes() {
    let mut buf = BytesMut::new();
    let mut codec = FrameCodec;
    codec
        .encode(Frame { tag: FrameTag::Transition, body: bytes::Bytes::from_static(b"abc") }, &mut buf)
        .unwrap();
    assert_eq!(&buf[..], &[0x11, 0, 0, 0, 3, b'a', b'b', b'c']);
}

#[test]
fn largest_frame_is_accepted_and_one_more_byte_is_not() {
    let mut codec = FrameCodec;
    let mut buf = BytesMut::new();
    let body = bytes::Bytes::from(vec![7u8; MAX_FRAME_SIZE as usize]);
    codec.encode(Frame { tag: FrameTag::Ping, body }, &mut buf).unwrap();
    assert_eq!(codec.decode(&mut buf).unwrap().unwrap().body.len(), MAX_FRAME_SIZE as usize);
    let body = bytes::Bytes::from(vec![7u8; MAX_FRAME_SIZE as usize + 1]);
    let mut buf = BytesMut::new();
    codec.encode(Frame { tag: FrameTag::Ping, body }, &mut buf).unwrap();
    match codec.decode(&mut buf) {
        Err(ProtoError::FrameTooLarge { size, max }) => {
            assert_eq!((size, max), (MAX_FRAME_SIZE + 1, MAX_FRAME_SIZE));
        }
        other => panic!("unexpected: {:?}", other),
    }
}

#[test]
fn tags_read_back_from_their_bytes() {
    let tags = [
        (FrameTag::Startup, 0x01u8, "Startup"),
        (FrameTag::Auth, 0x02, "Auth"),
        (FrameTag::DefineMachine, 0x10, "DefineMachine"),
        (FrameTag::Transition, 0x11, "Transition"),
        (FrameTag::Current, 0x12, "Current"),
        (FrameTag::History, 0x13, "History"),
        (FrameTag::Subscribe, 0x20, "Subscribe"),
        (FrameTag::Ack, 0x21, "Ack"),
        (FrameTag::Unsubscribe, 0x22, "Unsubscribe"),
        (FrameTag::Ping, 0x30, "Ping"),
        (FrameTag::Terminate, 0x31, "Terminate"),
        (FrameTag::Ready, 0x80, "Ready"),
        (FrameTag::AuthOk, 0x81, "AuthOk"),
        (FrameTag::AuthError, 0x82, "AuthError"),
        (FrameTag::Result, 0x90, "Result"),
        (FrameTag::Rejection, 0x91, "Rejection"),
        (FrameTag::ChangeRecord, 0xA0, "ChangeRecord"),
        (FrameTag::Notice, 0xB0, "Notice"),
        (FrameTag::Error, 0xB1, "Error"),
        (FrameTag::Pong, 0xC0, "Pong"),
    ];
    for (tag, byte, name) in tags {
        assert_eq!(tag.to_byte(), byte);
        assert_eq!(FrameTag::try_from(byte).unwrap(), tag);
        assert_eq!(tag.name(), name);
    }
    assert!(FrameTag::try_from(0x03).is_err());
}

#[test]
fn ports_are_the_documented_ones() {
    assert_eq!(DEFAULT_PORT, 7632);
    assert_eq!(DEFAULT_METRICS_PORT, 7633);
    assert_eq!(MAX_FRAME_SIZE, 16_777_216);
    assert_eq!(PROTOCOL_VERSION, 1);
}

fn object(members: &[(&str, serde_json::Value)]) -> serde_json::Value {
    let mut m = serde_json::Map::new();
    for (k, v) in members {
        m.insert(k.to_string(), v.clone());
    }
    serde_json::Value::Object(m)
}

fn transition() -> TransitionMessage {
    TransitionMessage {
        request_id: 42,
        entity_id: "order_8412".into(),
        machine: "fulfillment".into(),
        event: "ship".into(),
        expected_version: Some(3),
        idempotency_key: Some("3f8c1a9e-bb4d-4c2a-a3e1-c1d5f7890abc".into()),
        ctx: object(&[("carrier", "ups".into())]),
        actor: "svc:fulfillment-worker".into(),
    }
}

#[test]
fn transition_messages_read_back() {
    let frame = transition().to_frame().unwrap();
    assert_eq!(frame.tag, FrameTag::Transition);
    let m = TransitionMessage::from_frame(&frame).unwrap();
    assert_eq!(m.request_id, 42);
    assert_eq!(m.entity_id, "order_8412");
    assert_eq!(m.machine, "fulfillment");
    assert_eq!(m.event, "ship");
    assert_eq!(m.expected_version, Some(3));
    assert_eq!(m.idempotency_key, Some("3f8c1a9e-bb4d-4c2a-a3e1-c1d5f7890abc".to_string()));
    assert_eq!(m.ctx["carrier"], "ups");
    assert_eq!(m.actor, "svc:fulfillment-worker");
}

#[test]
fn optional_fields_may_be_missing_and_unknown_ones_are_ignored() {
    let body = object(&[
        ("request_id", 1.into()),
        ("entity_id", "e".into()),
        ("machine", "m".into()),
        ("event", "go".into()),
        ("colour", "blue".into()),
    ]);
    let frame = encode_message(FrameTag::Transition, &body).unwrap();
    let m = TransitionMessage::from_frame(&frame).unwrap();
    assert_eq!(m.expected_version, None);
    assert_eq!(m.idempotency_key, None);
    assert_eq!(m.ctx, serde_json::Value::Null);
    assert_eq!(m.actor, "");
}

#[test]
fn required_fields_must_be_there() {
    let body = object(&[("request_id", 1.into()), ("entity_id", "e".into())]);
    let frame = encode_message(FrameTag::Transition, &body).unwrap();
    assert!(matches!(
        TransitionMessage::from_frame(&frame),
        Err(ProtoError::DeserializationError(_))
    ));
    let broken = Frame { tag: FrameTag::Auth, body: bytes::Bytes::from_static(&[0xc1]) };
    assert!(matches!(
        AuthMessage::from_frame(&broken),
        Err(ProtoError::DeserializationError(_))
    ));
}

#[test]
fn histories_may_be_asked_for_under_either_name() {
    for key in ["after_seq", "after_sequence"] {
        let body = object(&[
            ("request_id", 1.into()),
            ("entity_id", "e".into()),
            ("machine", "m".into()),
            (key, 7.into()),
        ]);
        let m = HistoryMessage::from_value(&body).unwrap();
        assert_eq!(m.after_sequence, Some(7));
        assert_eq!(m.limit, None);
    }
    let m = HistoryMessage {
        request_id: 9,
        entity_id: "e".into(),
        machine: "m".into(),
        limit: Some(5),
        after_sequence: Some(2),
    };
    let back = HistoryMessage::from_frame(&m.to_frame().unwrap()).unwrap();
    assert_eq!((back.request_id, back.limit, back.after_sequence), (9, Some(5), Some(2)));
    assert_eq!(m.to_value()["after_seq"], 2);
}

#[test]
fn subscription_messages_read_back() {
    let m = SubscribeMessage {
        request_id: 3,
        subscription_id: "s1".into(),
        machine_filter: Some("fulfillment".into()),
        entity_filter: None,
        after_sequence: 100_000,
    };
    assert_eq!(m.to_value()["filter_machine"], "fulfillment");
    let back = SubscribeMessage::from_frame(&m.to_frame().unwrap()).unwrap();
    assert_eq!(back.subscription_id, "s1");
    assert_eq!(back.machine_filter, Some("fulfillment".to_string()));
    assert_eq!(back.entity_filter, None);
    assert_eq!(back.after_sequence, 100_000);
    let a = AckMessage { subscription_id: "s1".into(), up_to_sequence: 5 };
    let back = AckMessage::from_frame(&a.to_frame().unwrap()).unwrap();
    assert_eq!((back.subscription_id.as_str(), back.up_to_sequence), ("s1", 5));
    let u = UnsubscribeMessage { request_id: 4, subscription_id: "s1".into() };
    let back = UnsubscribeMessage::from_frame(&u.to_frame().unwrap()).unwrap();
    assert_eq!((back.request_id, back.subscription_id.as_str()), (4, "s1"));
    let c = CurrentMessage { request_id: 8, entity_id: "e".into(), machine: "m".into() };
    let back = CurrentMessage::from_frame(&c.to_frame().unwrap()).unwrap();
    assert_eq!((back.request_id, back.entity_id.as_str()), (8, "e"));
}

#[test]
fn replies_read_back() {
    let r = ResultMessage { request_id: 1, payload: "x".into() };
    let back = ResultMessage::from_frame(&r.to_frame().unwrap()).unwrap();
    assert_eq!((back.request_id, back.payload), (1, "x".into()));
    let r = RejectionMessage {
        request_id: 2,
        code: "illegal_transition".into(),
        message: "no".into(),
        current_state: Some("delivered".into()),
        version: Some(7),
    };
    let back = RejectionMessage::from_frame(&r.to_frame().unwrap()).unwrap();
    assert_eq!(back.code, "illegal_transition");
    assert_eq!(back.current_state, Some("delivered".to_string()));
    assert_eq!(back.version, Some(7));
    let n = NoticeMessage { message: "hello".into(), code: None };
    let back = NoticeMessage::from_frame(&n.to_frame().unwrap()).unwrap();
    assert_eq!((back.message.as_str(), back.code), ("hello", None));
    let e = ErrorMessage { code: "protocol_error".into(), message: "no".into() };
    let back = ErrorMessage::from_frame(&e.to_frame().unwrap()).unwrap();
    assert_eq!((back.code.as_str(), back.message.as_str()), ("protocol_error", "no"));
}

#[test]
fn change_records_are_flat_and_read_back() {
    let m = ChangeRecordMessage {
        subscription_id: "sub_orders_1".into(),
        record: ChangeRecord {
            sequence: 100_428,
            transition_id: "txn".into(),
            entity_id: "order_8412".into(),
            machine: "fulfillment".into(),
            from_state: "packed".into(),
            to_state: "shipped".into(),
            event: "ship".into(),
            actor: "svc".into(),
            version: 4,
            ctx: object(&[("carrier", "ups".into())]),
            effects: vec![EffectPayload {
                effect_name: "notify".into(),
                payload: object(&[("template", "shipped".into())]),
            }],
            timestamp: Timestamp { secs: 1_780_326_245, nanos: 0 },
        },
    };
    let frame = m.to_frame().unwrap();
    let body = decode_message(&frame).unwrap();
    assert_eq!(body["sequence"], 100_428);
    assert_eq!(body["from"], "packed");
    assert_eq!(body["to"], "shipped");
    assert_eq!(body["ts"], "2026-06-01T15:04:05Z");
    assert_eq!(body["effects"][0]["type"], "notify");
    let back = ChangeRecordMessage::from_frame(&frame).unwrap();
    assert_eq!(back.subscription_id, "sub_orders_1");
    assert_eq!(back.record.timestamp, m.record.timestamp);
    assert_eq!(back.record.effects[0].effect_name, "notify");
    assert_eq!(back.record.ctx, m.record.ctx);
}

#[test]
fn definitions_travel_whole() {
    let definition = MachineBuilder::new()
        .name("m")
        .version(2)
        .states(&["a", "b"])
        .initial_state("a")
        .transition_with_guards("go", &["a"], "b", &["g"])
        .effect("go", "mail", Some("x".into()))
        .build()
        .unwrap();
    let created = definition.created_at;
    let m = DefineMachineMessage { request_id: 5, name: "m".into(), version: 2, definition };
    let back = DefineMachineMessage::from_frame(&m.to_frame().unwrap()).unwrap();
    assert_eq!(back.request_id, 5);
    assert_eq!(back.definition.name, "m");
    assert_eq!(back.definition.version, 2);
    assert_eq!(back.definition.transitions[0].guards, vec!["g".to_string()]);
    assert_eq!(back.definition.effects[0].payload, Some("x".into()));
    assert_eq!(back.definition.created_at, created);
}

#[test]
fn deep_values_survive_and_very_deep_ones_are_refused() {
    let nested = |depth: usize| {
        let mut v = serde_json::Value::from(1);
        for _ in 0..depth {
            v = serde_json::Value::Array(vec![v]);
        }
        v
    };
    let v = object(&[("payload", nested(1022))]);
    let frame = encode_message(FrameTag::Result, &v).unwrap();
    assert_eq!(decode_message(&frame).unwrap(), v);
    let frame = encode_message(FrameTag::Result, &object(&[("payload", nested(1023))])).unwrap();
    assert!(decode_message(&frame).is_err());
}

/// A frame whose body is a map with the given entries, each in MessagePack.
fn framed(tag: FrameTag, entries: &[&[u8]]) -> Frame {
    let mut body = vec![0x80 + entries.len() as u8];
    for e in entries {
        body.extend_from_slice(e);
    }
    Frame { tag, body: bytes::Bytes::from(body) }
}

#[test]
fn unknown_keys_are_ignored_whatever_their_values_are() {
    // "token": "t"
    let token: &[u8] = &[0xa5, b't', b'o', b'k', b'e', b'n', 0xa1, b't'];
    let read = |entries: &[&[u8]]| AuthMessage::from_frame(&framed(FrameTag::Auth, entries));
    assert_eq!(read(&[token]).unwrap().token, "t");
    // "x": two bytes of binary
    let binary: &[u8] = &[0xa1, b'x', 0xc4, 0x02, 0xff, 0x00];
    // "y": an extension of one byte
    let extension: &[u8] = &[0xa1, b'y', 0xd4, 0x05, 0x2a];
    // "z": a map from a number to a number
    let odd_map: &[u8] = &[0xa1, b'z', 0x81, 0x01, 0x02];
    // "w": a text that is not UTF-8
    let odd_text: &[u8] = &[0xa1, b'w', 0xa1, 0xff];
    for odd in [binary, extension, odd_map, odd_text] {
        assert_eq!(read(&[odd, token]).unwrap().token, "t");
        assert_eq!(read(&[token, odd]).unwrap().token, "t");
        assert_eq!(read(&[odd, token, odd]).unwrap().token, "t");
    }
    assert_eq!(read(&[binary, extension, token, odd_map, odd_text]).unwrap().token, "t");
}

#[test]
fn known_keys_must_come_once_and_with_a_value_that_can_be_held() {
    let token: &[u8] = &[0xa5, b't', b'o', b'k', b'e', b'n', 0xa1, b't'];
    let binary: &[u8] = &[0xa5, b't', b'o', b'k', b'e', b'n', 0xc4, 0x01, 0xff];
    let read = |entries: &[&[u8]]| AuthMessage::from_frame(&framed(FrameTag::Auth, entries));
    assert!(matches!(read(&[token, token]), Err(ProtoError::DeserializationError(_))));
    assert!(matches!(read(&[binary]), Err(ProtoError::DeserializationError(_))));
    assert!(matches!(read(&[binary, token]), Err(ProtoError::DeserializationError(_))));
    assert!(matches!(read(&[]), Err(ProtoError::DeserializationError(_))));
    // "ctx": binary
    let ctx: &[u8] = &[0xa3, b'c', b't', b'x', 0xc4, 0x01, 0x07];
    let whole = transition().to_frame().unwrap();
    let mut body = whole.body.to_vec();
    assert_eq!(body[0], 0x88);
    assert!(TransitionMessage::from_frame(&whole).is_ok());
    body[0] = 0x89;
    body.extend_from_slice(ctx);
    let twice = Frame { tag: FrameTag::Transition, body: bytes::Bytes::from(body) };
    assert!(TransitionMessage::from_frame(&twice).is_err());
}

/// A text in MessagePack.
fn packed(s: &str) -> Vec<u8> {
    let mut b = vec![0xa0 + s.len() as u8];
    b.extend_from_slice(s.as_bytes());
    b
}

/// A map or a list in MessagePack, made of its head and what stands in it.
fn gathered(head: u8, parts: &[&[u8]]) -> Vec<u8> {
    let mut b = vec![head];
    for p in parts {
        b.extend_from_slice(p);
    }
    b
}

/// A definition in MessagePack, with a rule and more fields put in.
fn packed_door(rule: &[u8], more: &[&[u8]]) -> Vec<u8> {
    let fields: Vec<Vec<u8>> = vec![
        [packed("name"), packed("door")].concat(),
        [packed("version"), vec![1]].concat(),
        [packed("states"), gathered(0x91, &[&packed("open")])].concat(),
        [packed("initial_state"), packed("open")].concat(),
        [packed("transitions"), gathered(0x91, &[rule])].concat(),
        [packed("effects"), vec![0x90]].concat(),
        [packed("created_at"), packed("2024-01-01T00:00:00Z")].concat(),
    ];
    let mut all: Vec<&[u8]> = fields.iter().map(|f| f.as_slice()).collect();
    all.extend_from_slice(more);
    gathered(0x80 + all.len() as u8, &all)
}

#[test]
fn fields_of_a_definition_must_come_once() {
    let read = |definition: &[u8]| {
        let body = gathered(
            0x84,
            &[
                &[packed("request_id"), vec![9]].concat(),
                &[packed("name"), packed("door")].concat(),
                &[packed("version"), vec![1]].concat(),
                &[packed("definition"), definition.to_vec()].concat(),
            ],
        );
        DefineMachineMessage::from_frame(&Frame {
            tag: FrameTag::DefineMachine,
            body: bytes::Bytes::from(body),
        })
    };
    let event = [packed("event"), packed("push")].concat();
    let from = [packed("from_states"), vec![0x90]].concat();
    let to = [packed("to_state"), packed("open")].concat();
    let guards = [packed("guards"), vec![0x90]].concat();
    let rule = gathered(0x84, &[&event, &from, &to, &guards]);
    let m = read(&packed_door(&rule, &[])).unwrap();
    assert_eq!(m.definition.transitions[0].event, "push");
    let by_place = gathered(0x94, &[&packed("push"), &[0x90], &packed("open"), &[0x90]]);
    let m = read(&packed_door(&by_place, &[])).unwrap();
    assert_eq!(m.definition.transitions[0].to_state, "open");
    let unknown = [packed("x"), vec![1]].concat();
    assert!(read(&packed_door(&rule, &[&unknown, &unknown])).is_ok());
    let told = |r: Result<DefineMachineMessage, ProtoError>| r.unwrap_err().message();
    let version = [packed("version"), vec![1]].concat();
    assert_eq!(
        told(read(&packed_door(&rule, &[&version]))),
        "deserialization error: malformed DefineMachine body"
    );
    let twice = gathered(0x85, &[&event, &from, &to, &guards, &to]);
    assert_eq!(
        told(read(&packed_door(&twice, &[]))),
        "deserialization error: malformed DefineMachine body"
    );
}

#[test]
fn bodies_are_maps_with_text_keys_of_any_size() {
    let read = |body: Vec<u8>| {
        AuthMessage::from_frame(&Frame { tag: FrameTag::Auth, body: bytes::Bytes::from(body) })
    };
    let token: &[u8] = &[0xa5, b't', b'o', b'k', b'e', b'n', 0xa1, b't'];
    let with_head = |head: &[u8]| [head, token].concat();
    assert_eq!(read(with_head(&[0x81])).unwrap().token, "t");
    assert_eq!(read(with_head(&[0xde, 0x00, 0x01])).unwrap().token, "t");
    assert_eq!(read(with_head(&[0xdf, 0x00, 0x00, 0x00, 0x01])).unwrap().token, "t");
    assert!(read(with_head(&[0x82])).is_err());
    assert!(read(with_head(&[0xde, 0x01, 0x00])).is_err());
    assert!(read(vec![]).is_err());
    assert!(read(vec![0xde, 0x00]).is_err());
    assert!(read(vec![0x91, 0xa1, b't']).is_err());
    assert!(read(vec![0x81, 0x01, 0x02]).is_err());
    let many: Vec<(String, serde_json::Value)> =
        (0..70000).map(|i| (format!("k{i}"), serde_json::Value::from(i))).collect();
    let v = serde_json::Value::Object(many.into_iter().collect());
    let frame = encode_message(FrameTag::Result, &v).unwrap();
    assert_eq!(frame.body[0], 0xdf);
    assert_eq!(decode_message(&frame).unwrap(), v);
}

#[test]
fn proto_errors_are_put_into_words() {
    assert_eq!(ProtoError::InvalidFrameType(0xff).message().to_lowercase().contains("ff"), true);
    let e = ProtoError::FrameTooLarge { size: 20, max: 10 };
    assert!(e.message().contains("20") && e.message().contains("10"));
}
