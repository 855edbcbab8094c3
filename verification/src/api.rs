//! The outbound message model and its wire encoding.

pub mod button;
pub mod card;

use vstd::prelude::*;

use crate::api::button::{buttons_to_json, spec_buttons_json, Button, ButtonView};
use crate::api::card::{clone_buttons, clone_cards, spec_card_json, Card, CardView};
use crate::json::{entries_view, jarr, jstr, jobj, JsonValue, JsonView};
use crate::utils::BotUser;

verus! {

/// The platform's messaging-type tag carried by every outbound
/// payload.
#[allow(non_camel_case_types)]
#[derive(Clone, Copy, PartialEq, Eq, Structural, Debug)]
pub enum MessagingType {
    RESPONSE,
    UPDATE,
    MESSAGETAG,
}

/// The wire spelling of a messaging type.
pub open spec fn spec_messaging_type_str(t: MessagingType) -> Seq<char> {
    match t {
        MessagingType::RESPONSE => "RESPONSE"@,
        MessagingType::UPDATE => "UPDATE"@,
        MessagingType::MESSAGETAG => "MESSAGE_TAG"@,
    }
}

impl MessagingType {
    /// The wire spelling of this tag.
    pub fn as_str(&self) -> (r: &'static str)
        ensures
            r@ == spec_messaging_type_str(*self),
    {
        match self {
            MessagingType::RESPONSE => "RESPONSE",
            MessagingType::UPDATE => "UPDATE",
            MessagingType::MESSAGETAG => "MESSAGE_TAG",
        }
    }
}

/// One outbound delivery: the token to authenticate with and the JSON
/// document to post.  Performing the network call is the transport
/// layer's business.
pub struct SendRequest {
    pub token: String,
    pub body: JsonValue,
}

/// The mathematical model of a [`SendRequest`].
pub struct SendRequestView {
    pub token: Seq<char>,
    pub body: JsonView,
}

impl View for SendRequest {
    type V = SendRequestView;

    open spec fn view(&self) -> SendRequestView {
        SendRequestView { token: self.token@, body: self.body@ }
    }
}

/// The view of an optional delivery.
pub open spec fn opt_req_view(r: Option<SendRequest>) -> Option<SendRequestView> {
    match r {
        Option::Some(req) => Option::Some(req@),
        Option::None => Option::None,
    }
}

/// An outbound message: at most one of the two payload shapes, either
/// a text (with optional quick-reply buttons) or a card list.
pub struct Message {
    text: Option<String>,
    buttons: Option<Vec<Button>>,
    cards: Option<Vec<Card>>,
}

/// The mathematical model of a [`Message`].
pub struct MessageView {
    pub text: Option<Seq<char>>,
    pub buttons: Option<Seq<ButtonView>>,
    pub cards: Option<Seq<CardView>>,
}

impl View for Message {
    type V = MessageView;

    closed spec fn view(&self) -> MessageView {
        MessageView {
            text: self.text.deep_view(),
            buttons: self.buttons.deep_view(),
            cards: self.cards.deep_view(),
        }
    }
}

impl Clone for Message {
    fn clone(&self) -> (res: Self)
        ensures
            res@ == self@,
    {
        Message {
            text: match &self.text {
                Option::Some(t) => Option::Some(t.clone()),
                Option::None => Option::None,
            },
            buttons: match &self.buttons {
                Option::Some(bs) => Option::Some(clone_buttons(bs)),
                Option::None => Option::None,
            },
            cards: match &self.cards {
                Option::Some(cs) => Option::Some(clone_cards(cs)),
                Option::None => Option::None,
            },
        }
    }
}

/// The `recipient` object of an outbound payload: exactly `{id}`.
pub open spec fn spec_recipient(sender: Seq<char>) -> JsonView {
    JsonView::Obj(seq![("id"@, JsonView::Str(sender))])
}

/// The `quick_replies` value: the button documents, or JSON null when
/// no buttons are configured.
pub open spec fn spec_quick_replies(buttons: Option<Seq<ButtonView>>) -> JsonView {
    match buttons {
        Option::Some(bs) => JsonView::Arr(spec_buttons_json(bs)),
        Option::None => JsonView::Null,
    }
}

/// The simple payload shape: a text message with quick replies.
pub open spec fn spec_text_payload(
    text: Seq<char>,
    buttons: Option<Seq<ButtonView>>,
    sender: Seq<char>,
) -> JsonView {
    JsonView::Obj(
        seq![
            ("messaging_type"@, JsonView::Str("RESPONSE"@)),
            ("recipient"@, spec_recipient(sender)),
            (
                "message"@,
                JsonView::Obj(
                    seq![
                        ("text"@, JsonView::Str(text)),
                        ("quick_replies"@, spec_quick_replies(buttons)),
                    ],
                ),
            ),
        ],
    )
}

/// The card payload shape: the first card as an attachment.
pub open spec fn spec_card_payload(card: CardView, sender: Seq<char>) -> JsonView {
    JsonView::Obj(
        seq![
            ("messaging_type"@, JsonView::Str("RESPONSE"@)),
            ("recipient"@, spec_recipient(sender)),
            ("message"@, JsonView::Obj(seq![("attachment"@, spec_card_json(card))])),
        ],
    )
}

/// What sending a message yields: nothing when the token is empty (the
/// delivery is skipped) or when the message has no payload shape;
/// otherwise one delivery, text shape first, else the first card.
pub open spec fn spec_send(m: MessageView, sender: Seq<char>, token: Seq<char>) -> Option<
    SendRequestView,
> {
    if token.len() == 0 {
        Option::None
    } else {
        match m.text {
            Option::Some(t) => Option::Some(
                SendRequestView { token, body: spec_text_payload(t, m.buttons, sender) },
            ),
            Option::None => match m.cards {
                Option::Some(cs) => if cs.len() > 0 {
                    Option::Some(SendRequestView { token, body: spec_card_payload(cs[0], sender) })
                } else {
                    Option::None
                },
                Option::None => Option::None,
            },
        }
    }
}

/// The `recipient` object for a session.
fn recipient_json(user: &BotUser) -> (r: JsonValue)
    ensures
        r@ == spec_recipient(user@.sender),
{
    let entries: Vec<(String, JsonValue)> = vec![("id".to_owned(), jstr(user.get_sender()))];
    proof {
        assert(entries_view(entries@) =~= spec_recipient(user@.sender)->Obj_0);
    }
    jobj(entries)
}

impl Message {
    /// A message from its parts.
    pub fn new(text: Option<String>, buttons: Option<Vec<Button>>, cards: Option<Vec<Card>>) -> (r:
        Message)
        ensures
            r@ == (MessageView {
                text: text.deep_view(),
                buttons: buttons.deep_view(),
                cards: cards.deep_view(),
            }),
    {
        Message { text, buttons, cards }
    }

    /// Builds the delivery for this message, per [`spec_send`]: `None`
    /// when the token is empty or nothing is configured to send.
    pub fn send(&self, user: &BotUser, token: &str) -> (r: Option<SendRequest>)
        ensures
            opt_req_view(r) == spec_send(self@, user@.sender, token@),
    {
        if token.is_empty() {
            return Option::None;
        }
        if let Option::Some(t) = &self.text {
            let quick: JsonValue = match &self.buttons {
                Option::Some(bs) => jarr(buttons_to_json(bs)),
                Option::None => JsonValue::Null,
            };
            proof {
                assert(quick@ == spec_quick_replies(self@.buttons));
            }
            let msg_entries: Vec<(String, JsonValue)> = vec![
                ("text".to_owned(), jstr(t.as_str())),
                ("quick_replies".to_owned(), quick),
            ];
            proof {
                assert(entries_view(msg_entries@) =~= spec_text_payload(
                    t@,
                    self@.buttons,
                    user@.sender,
                )->Obj_0[2].1->Obj_0);
            }
            let body_entries: Vec<(String, JsonValue)> = vec![
                ("messaging_type".to_owned(), jstr("RESPONSE")),
                ("recipient".to_owned(), recipient_json(user)),
                ("message".to_owned(), jobj(msg_entries)),
            ];
            proof {
                assert(entries_view(body_entries@) =~= spec_text_payload(
                    t@,
                    self@.buttons,
                    user@.sender,
                )->Obj_0);
            }
            return Option::Some(SendRequest { token: token.to_owned(), body: jobj(body_entries) });
        }
        if let Option::Some(cs) = &self.cards {
            if cs.len() > 0 {
                let attachment = cs[0].to_json();
                let msg_entries: Vec<(String, JsonValue)> = vec![
                    ("attachment".to_owned(), attachment),
                ];
                proof {
                    assert(entries_view(msg_entries@) =~= spec_card_payload(
                        self@.cards->0[0],
                        user@.sender,
                    )->Obj_0[2].1->Obj_0);
                }
                let body_entries: Vec<(String, JsonValue)> = vec![
                    ("messaging_type".to_owned(), jstr("RESPONSE")),
                    ("recipient".to_owned(), recipient_json(user)),
                    ("message".to_owned(), jobj(msg_entries)),
                ];
                proof {
                    assert(entries_view(body_entries@) =~= spec_card_payload(
                        self@.cards->0[0],
                        user@.sender,
                    )->Obj_0);
                }
                return Option::Some(
                    SendRequest { token: token.to_owned(), body: jobj(body_entries) },
                );
            }
        }
        Option::None
    }
}

} // verus!
