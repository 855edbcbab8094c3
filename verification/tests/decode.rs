//! Decoding inbound webhook documents into session events.

use bot_messenger::json::JsonValue;
use bot_messenger::utils::{BotUser, DecodeError, MessagingType};

fn s(v: &str) -> JsonValue {
    JsonValue::Str(v.to_string())
}

fn obj(entries: Vec<(&str, JsonValue)>) -> JsonValue {
    JsonValue::Obj(entries.into_iter().map(|(k, v)| (k.to_string(), v)).collect())
}

/// A webhook document carrying the given messaging node.
fn inbound(messaging: JsonValue) -> JsonValue {
    obj(vec![
        ("object", s("page")),
        ("entry", JsonValue::Arr(vec![obj(vec![(
            "messaging",
            JsonValue::Arr(vec![messaging]),
        )])])),
    ])
}

#[test]
fn decodes_free_text() {
    let doc = inbound(obj(vec![
        ("sender", obj(vec![("id", s("U1"))])),
        ("message", obj(vec![("text", s("hi there"))])),
    ]));
    let user = BotUser::from_json(&doc).expect("a session event");
    assert_eq!(user.get_sender(), "U1");
    assert_eq!(user.get_message().message(), "hi there");
    assert_eq!(user.get_message().message_type(), MessagingType::MESSAGE);
}

#[test]
fn decodes_postback() {
    let doc = inbound(obj(vec![
        ("sender", obj(vec![("id", s("U2"))])),
        ("postback", obj(vec![("payload", s("GO"))])),
    ]));
    let user = BotUser::from_json(&doc).expect("a session event");
    assert_eq!(user.get_sender(), "U2");
    assert_eq!(user.get_message().message(), "GO");
    assert_eq!(user.get_message().message_type(), MessagingType::POSTBACK);
}

#[test]
fn postback_wins_over_text() {
    let doc = inbound(obj(vec![
        ("sender", obj(vec![("id", s("U3"))])),
        ("postback", obj(vec![("payload", s("FROM_BUTTON"))])),
        ("message", obj(vec![("text", s("typed text"))])),
    ]));
    let user = BotUser::from_json(&doc).expect("a session event");
    assert_eq!(user.get_message().message(), "FROM_BUTTON");
    assert_eq!(user.get_message().message_type(), MessagingType::POSTBACK);
}

#[test]
fn rejects_wrong_object() {
    let doc = obj(vec![("object", s("not_a_page"))]);
    assert_eq!(BotUser::from_json(&doc).err(), Some(DecodeError::InvalidFormat));
    let doc = obj(vec![("entry", JsonValue::Arr(vec![]))]);
    assert_eq!(BotUser::from_json(&doc).err(), Some(DecodeError::InvalidFormat));
}

#[test]
fn rejects_missing_sender() {
    let doc = inbound(obj(vec![("message", obj(vec![("text", s("hi"))]))]));
    assert_eq!(BotUser::from_json(&doc).err(), Some(DecodeError::NoSenderId));
    // A non-string id counts as missing.
    let doc = inbound(obj(vec![
        ("sender", obj(vec![("id", JsonValue::Bool(true))])),
        ("message", obj(vec![("text", s("hi"))])),
    ]));
    assert_eq!(BotUser::from_json(&doc).err(), Some(DecodeError::NoSenderId));
}

#[test]
fn rejects_missing_content() {
    let doc = inbound(obj(vec![("sender", obj(vec![("id", s("U4"))]))]));
    assert_eq!(BotUser::from_json(&doc).err(), Some(DecodeError::NoContent));
}

#[test]
fn decode_error_messages() {
    assert_eq!(
        DecodeError::InvalidFormat.message(),
        "Doesn't have a valid json format API FB"
    );
    assert_eq!(DecodeError::NoSenderId.message(), "Doesn't have a sender id in json");
    assert_eq!(
        DecodeError::NoContent.message(),
        "Don't have Messaging or Postback value in json"
    );
}

#[test]
fn object_lookup_takes_first_match() {
    let doc = obj(vec![("k", s("first")), ("k", s("second"))]);
    assert_eq!(doc.get("k"), Some(&s("first")));
    assert_eq!(doc.get("missing"), None);
    assert_eq!(s("scalar").get("k"), None);
}

#[test]
fn array_lookup_by_position() {
    let arr = JsonValue::Arr(vec![s("a"), s("b")]);
    assert_eq!(arr.at(0), Some(&s("a")));
    assert_eq!(arr.at(1), Some(&s("b")));
    assert_eq!(arr.at(2), None);
    assert_eq!(s("scalar").at(0), None);
}
