//! The wire encoding of buttons, cards and whole message payloads.

use bot_messenger::api::button::Button;
use bot_messenger::api::card::{Card, CardButtons, CardGeneric, DefaultAction};
use bot_messenger::api::Message;
use bot_messenger::json::JsonValue;
use bot_messenger::utils::{BotUser, Messaging, MessagingMessage};

fn s(v: &str) -> JsonValue {
    JsonValue::Str(v.to_string())
}

fn obj(entries: Vec<(&str, JsonValue)>) -> JsonValue {
    JsonValue::Obj(entries.into_iter().map(|(k, v)| (k.to_string(), v)).collect())
}

fn keys(v: &JsonValue) -> Vec<String> {
    match v {
        JsonValue::Obj(entries) => entries.iter().map(|e| e.0.clone()).collect(),
        _ => panic!("not an object"),
    }
}

#[test]
fn postback_button_exact_fields() {
    let b = Button::new_button_pb("Push", "GO");
    let json = b.to_json();
    assert_eq!(
        json,
        obj(vec![("type", s("postback")), ("title", s("Push")), ("payload", s("GO"))])
    );
    assert_eq!(keys(&json), vec!["type", "title", "payload"]);
}

#[test]
fn url_button_exact_fields() {
    let b = Button::new_button_url("wake me up", "www.google.fr");
    let json = b.to_json();
    assert_eq!(
        json,
        obj(vec![
            ("type", s("web_url")),
            ("title", s("wake me up")),
            ("url", s("www.google.fr")),
            ("webview_height_ratio", s("compact")),
            ("messenger_extensions", JsonValue::Bool(false)),
        ])
    );
    assert_eq!(
        keys(&json),
        vec!["type", "title", "url", "webview_height_ratio", "messenger_extensions"]
    );
}

#[test]
fn quick_reply_button_exact_fields() {
    let b = Button::new_button_quick_pb("not me !", "Hello");
    let json = b.to_json();
    assert_eq!(
        json,
        obj(vec![("content_type", s("text")), ("title", s("not me !")), ("payload", s("Hello"))])
    );
}

#[test]
fn button_json_text_is_valid_json() {
    let b = Button::new_button_pb("Push", "GO");
    assert_eq!(
        b.to_json_str(),
        "{\"type\":\"postback\",\"title\":\"Push\",\"payload\":\"GO\"}"
    );
    // The assembled text parses as JSON with the same fields.
    let parsed: serde_json::Value = serde_json::from_str(&b.to_json_str()).unwrap();
    assert_eq!(parsed["type"], "postback");
    assert_eq!(parsed["title"], "Push");
    assert_eq!(parsed["payload"], "GO");

    let u = Button::new_button_url("wake me up", "www.google.fr");
    let parsed: serde_json::Value = serde_json::from_str(&u.to_json_str()).unwrap();
    assert_eq!(parsed["type"], "web_url");
    assert_eq!(parsed["url"], "www.google.fr");
    assert_eq!(parsed["webview_height_ratio"], "compact");
    assert_eq!(parsed["messenger_extensions"], false);
}

#[test]
fn default_action_exact_fields() {
    let a = DefaultAction::new("ignored title", "https://example.org");
    assert_eq!(
        a.to_json(),
        obj(vec![("type", s("web_url")), ("url", s("https://example.org"))])
    );
    assert_eq!(a.typed(), "none");
}

#[test]
fn bare_generic_card_omits_unset_fields() {
    let c = CardGeneric::new("Hello");
    let json = c.to_json();
    // Envelope: a generic template with one element.
    assert_eq!(keys(&json), vec!["type", "payload"]);
    let payload = json.get("payload").unwrap();
    assert_eq!(keys(payload), vec!["template_type", "elements"]);
    assert_eq!(payload.get("template_type"), Some(&s("generic")));
    let element = payload.get("elements").unwrap().at(0).unwrap();
    // Only the title: no subtitle, image, action or buttons.
    assert_eq!(element, &obj(vec![("title", s("Hello"))]));
    assert_eq!(c.typed(), "generic");
}

#[test]
fn full_generic_card_keeps_field_order() {
    let c = CardGeneric::new("Hello")
        .subtitle("Bouyah")
        .image("https://example.org/image.jpg")
        .default_action(DefaultAction::new("x", "https://example.org"))
        .button(Button::new_button_pb("Welcom back Mr potter", "Hello"));
    let json = c.to_json();
    let element = json.get("payload").unwrap().get("elements").unwrap().at(0).unwrap();
    assert_eq!(
        keys(element),
        vec!["title", "subtitle", "image_url", "default_action", "buttons"]
    );
    assert_eq!(element.get("subtitle"), Some(&s("Bouyah")));
    assert_eq!(
        element.get("buttons").unwrap().at(0).unwrap(),
        &obj(vec![
            ("type", s("postback")),
            ("title", s("Welcom back Mr potter")),
            ("payload", s("Hello")),
        ])
    );
}

#[test]
fn generic_card_buttons_only_when_attached() {
    let without = CardGeneric::new("Hello").subtitle("Bouyah").to_json();
    let element = without.get("payload").unwrap().get("elements").unwrap().at(0).unwrap();
    assert!(element.get("buttons").is_none());
    assert!(element.get("image_url").is_none());
    assert!(element.get("default_action").is_none());
    let with = CardGeneric::new("Hello").button(Button::new_button_pb("a", "b")).to_json();
    let element = with.get("payload").unwrap().get("elements").unwrap().at(0).unwrap();
    assert!(element.get("buttons").is_some());
}

#[test]
fn buttons_template_card_exact_fields() {
    let c = CardButtons::new("Can you choose !")
        .button(Button::new_button_url("wake me up", "www.google.fr"))
        .button(Button::new_button_pb("not me !", "Hello"));
    let json = c.to_json();
    assert_eq!(keys(&json), vec!["type", "payload"]);
    assert_eq!(json.get("type"), Some(&s("template")));
    let payload = json.get("payload").unwrap();
    assert_eq!(keys(payload), vec!["template_type", "text", "buttons"]);
    assert_eq!(payload.get("template_type"), Some(&s("button")));
    assert_eq!(payload.get("text"), Some(&s("Can you choose !")));
    let buttons = payload.get("buttons").unwrap();
    assert!(buttons.at(0).unwrap().get("url").is_some());
    assert!(buttons.at(1).unwrap().get("payload").is_some());
    assert_eq!(c.typed(), "buttons");
}

#[test]
fn text_message_payload_shape() {
    let user = BotUser::new("U42", Messaging::Message(MessagingMessage::new("hi")));
    let m = Message::new(Some("Hello new user".to_string()), None, None);
    let req = m.send(&user, "TOKEN").expect("a delivery");
    assert_eq!(req.token, "TOKEN");
    assert_eq!(
        req.body,
        obj(vec![
            ("messaging_type", s("RESPONSE")),
            ("recipient", obj(vec![("id", s("U42"))])),
            (
                "message",
                obj(vec![("text", s("Hello new user")), ("quick_replies", JsonValue::Null)]),
            ),
        ])
    );
}

#[test]
fn text_message_with_quick_replies() {
    let user = BotUser::new("U42", Messaging::Message(MessagingMessage::new("hi")));
    let m = Message::new(
        Some("Pick".to_string()),
        Some(vec![Button::new_button_quick_pb("A", "PA")]),
        None,
    );
    let req = m.send(&user, "TOKEN").expect("a delivery");
    let qr = req.body.get("message").unwrap().get("quick_replies").unwrap();
    assert_eq!(
        qr.at(0).unwrap(),
        &obj(vec![("content_type", s("text")), ("title", s("A")), ("payload", s("PA"))])
    );
}

#[test]
fn card_message_sends_first_card_only() {
    let user = BotUser::new("U42", Messaging::Message(MessagingMessage::new("hi")));
    let first = Card::Generic(CardGeneric::new("first"));
    let second = Card::Generic(CardGeneric::new("second"));
    let m = Message::new(None, None, Some(vec![first.clone(), second]));
    let req = m.send(&user, "TOKEN").expect("a delivery");
    let attachment = req.body.get("message").unwrap().get("attachment").unwrap();
    assert_eq!(attachment, &first.to_json());
}

#[test]
fn empty_token_or_empty_message_sends_nothing() {
    let user = BotUser::new("U42", Messaging::Message(MessagingMessage::new("hi")));
    let m = Message::new(Some("text".to_string()), None, None);
    assert!(m.send(&user, "").is_none());
    let empty = Message::new(None, None, None);
    assert!(empty.send(&user, "TOKEN").is_none());
    let empty_cards = Message::new(None, None, Some(vec![]));
    assert!(empty_cards.send(&user, "TOKEN").is_none());
}
