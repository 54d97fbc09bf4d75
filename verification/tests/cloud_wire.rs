use tanuki::remote::wire::attach;
use tanuki::remote::wire::auth_payload;
use tanuki::remote::wire::decode_bytes_field;
use tanuki::remote::wire::encode_bytes_field;
use tanuki::remote::wire::extract_bare_bytes;
use tanuki::remote::wire::extract_bytes_field;
use tanuki::remote::wire::extract_json_field;
use tanuki::remote::wire::extract_reason;
use tanuki::remote::wire::extract_str_field;
use tanuki::remote::wire::extract_u64_field;
use tanuki::remote::wire::extract_viewer_bytes;
use tanuki::remote::wire::frame;
use tanuki::remote::wire::host_bye;
use tanuki::remote::wire::host_hello;
use tanuki::remote::wire::input;
use tanuki::remote::wire::payload_as_value;
use tanuki::remote::wire::reattach;
use tanuki::remote::wire::reattach_ack;
use tanuki::remote::wire::reattach_error;
use tanuki::remote::wire::webrtc_answer;
use tanuki::remote::wire::webrtc_ice;
use tanuki::remote::wire::webrtc_offer;
use tanuki::remote::wire::webrtc_stats;
use tanuki::remote::wire::Body;
use tanuki::remote::wire::Emit;
use tanuki::remote::wire::Field;
use tanuki::remote::wire::JsonContent;
use tanuki::remote::wire::JsonValue;
use tanuki::remote::wire::LegionConfig;
use tanuki::remote::wire::Payload;

fn string(text: &str) -> JsonValue {
    JsonValue { content: JsonContent::Text(text.into()), json: format!("{text:?}") }
}

fn number(n: u64) -> JsonValue {
    JsonValue { content: JsonContent::Whole(n), json: format!("{n}") }
}

fn object(members: Vec<(&str, JsonValue)>) -> JsonValue {
    JsonValue {
        content: JsonContent::Object(members.into_iter().map(|(k, v)| (k.to_string(), v)).collect()),
        json: "{}".into(),
    }
}

fn payload(value: JsonValue) -> Payload {
    Payload::Text(vec![value, string("second")])
}

fn text(value: &str) -> Field {
    Field::Text(value.into())
}

fn emit(event: &str, members: Vec<(&str, Field)>) -> Emit {
    Emit {
        event: event.into(),
        body: Body::Members(members.into_iter().map(|(k, v)| (k.to_string(), v)).collect()),
    }
}

#[test]
fn bytes_are_carried_as_base64() {
    assert_eq!(encode_bytes_field(b""), "");
    assert_eq!(encode_bytes_field(b"f"), "Zg==");
    assert_eq!(encode_bytes_field(b"foobar"), "Zm9vYmFy");
    assert_eq!(encode_bytes_field(&[0xfb, 0xff]), "+/8=");
    for len in 0..200usize {
        let bytes: Vec<u8> = (0..len).map(|i| (i * 37 + len) as u8).collect();
        assert_eq!(decode_bytes_field(&string(&encode_bytes_field(&bytes))), Some(bytes));
    }
    assert_eq!(decode_bytes_field(&string("Zg")), None);
    assert_eq!(decode_bytes_field(&string("Zg= =")), None);
    assert_eq!(decode_bytes_field(&string("****")), None);
    assert_eq!(decode_bytes_field(&number(7)), None);
}

#[test]
fn payloads_are_read_from_their_first_value() {
    let p = payload(object(vec![("a", string("x")), ("n", number(5)), ("o", object(vec![]))]));
    assert_eq!(extract_str_field(&p, "a"), Some("x".to_string()));
    assert_eq!(extract_str_field(&p, "n"), None);
    assert_eq!(extract_str_field(&p, "missing"), None);
    assert_eq!(extract_u64_field(&p, "n"), Some(5));
    assert_eq!(extract_u64_field(&p, "a"), None);
    assert_eq!(extract_json_field(&p, "n"), Some("5".to_string()));
    assert_eq!(extract_json_field(&p, "o"), Some("{}".to_string()));
    assert_eq!(extract_bytes_field(&p, "a"), None);
    assert!(payload_as_value(&Payload::Text(vec![])).is_none());
    assert!(payload_as_value(&Payload::Other).is_none());
    assert_eq!(extract_str_field(&payload(string("x")), "a"), None);
    let other = JsonValue { content: JsonContent::Other, json: "null".into() };
    assert_eq!(extract_str_field(&payload(other), "a"), None);
}

#[test]
fn reasons_default_to_unknown() {
    assert_eq!(extract_reason(&payload(object(vec![("reason", string("busy"))]))), "busy");
    assert_eq!(extract_reason(&payload(object(vec![]))), "unknown");
    assert_eq!(extract_reason(&Payload::Other), "unknown");
}

#[test]
fn viewer_bytes_need_both_parts() {
    let p = payload(object(vec![("viewer_sid", string("v")), ("bytes", string("aGk="))]));
    assert_eq!(extract_viewer_bytes(&p), Some(("v".to_string(), b"hi".to_vec())));
    assert_eq!(extract_viewer_bytes(&payload(object(vec![("bytes", string("aGk="))]))), None);
    assert_eq!(extract_viewer_bytes(&payload(object(vec![("viewer_sid", string("v"))]))), None);
    let bad = payload(object(vec![("viewer_sid", string("v")), ("bytes", string("?"))]));
    assert_eq!(extract_viewer_bytes(&bad), None);
    assert_eq!(extract_bare_bytes(&payload(string("aGk="))), Some(b"hi".to_vec()));
    assert_eq!(extract_bare_bytes(&payload(number(1))), None);
    assert_eq!(extract_bare_bytes(&Payload::Other), None);
}

#[test]
fn messages_have_the_agreed_shape() {
    assert_eq!(host_hello(), emit("term:host_hello", vec![]));
    assert_eq!(host_bye(), emit("term:host_bye", vec![]));
    assert_eq!(
        frame("v", b"hi"),
        emit("term:frame", vec![("viewer_sid", text("v")), ("bytes", text("aGk="))])
    );
    assert_eq!(
        input(b"hi"),
        Emit { event: "term:input".into(), body: Body::Bare("aGk=".into()) }
    );
    assert_eq!(
        attach("t", "s"),
        emit("term:attach", vec![("target_token_id", text("t")), ("viewer_session_id", text("s"))])
    );
    assert_eq!(
        reattach("t", "s", 7),
        emit(
            "term:reattach",
            vec![
                ("target_token_id", text("t")),
                ("viewer_session_id", text("s")),
                ("last_seq", Field::Whole(7))
            ]
        )
    );
    assert_eq!(
        reattach_error("v", "r"),
        emit("term:reattach_error", vec![("viewer_sid", text("v")), ("reason", text("r"))])
    );
    assert_eq!(
        reattach_ack("v", b"hi", 9),
        emit(
            "term:reattach_ack",
            vec![
                ("viewer_sid", text("v")),
                ("replay_bytes", text("aGk=")),
                ("resume_seq", Field::Whole(9))
            ]
        )
    );
    assert_eq!(webrtc_offer("o"), emit("term:webrtc_offer", vec![("sdp", text("o"))]));
    assert_eq!(
        webrtc_answer("v", "a"),
        emit("term:webrtc_answer", vec![("viewer_sid", text("v")), ("sdp", text("a"))])
    );
    assert_eq!(
        webrtc_stats(Some("v"), true, Some("host")),
        emit(
            "term:webrtc_stats",
            vec![
                ("viewer_sid", text("v")),
                ("established", Field::Flag(true)),
                ("candidate_type", text("host"))
            ]
        )
    );
    assert_eq!(
        webrtc_stats(None, false, None),
        emit(
            "term:webrtc_stats",
            vec![("established", Field::Flag(false)), ("candidate_type", text("unknown"))]
        )
    );
}

#[test]
fn candidates_are_nested_as_json_or_not_sent() {
    let json = "{\"candidate\":\"c\"}";
    assert_eq!(
        webrtc_ice(None, json),
        Some(emit("term:webrtc_ice", vec![("candidate", Field::Json(json.into()))]))
    );
    assert_eq!(
        webrtc_ice(Some("v"), json),
        Some(emit(
            "term:webrtc_ice",
            vec![("viewer_sid", text("v")), ("candidate", Field::Json(json.into()))]
        ))
    );
    assert_eq!(webrtc_ice(None, "{"), None);
    assert_eq!(webrtc_ice(None, ""), None);
}

#[test]
fn connections_authenticate_with_the_identity() {
    let config = LegionConfig {
        id: "i".into(),
        token: "t".into(),
        server_url: "u".into(),
    };
    assert_eq!(
        Body::Members(auth_payload(&config, "term-host")),
        emit(
            "",
            vec![
                ("id", text("i")),
                ("secret", text("t")),
                ("type", text("legion")),
                ("role", text("term-host"))
            ]
        )
        .body
    );
}
