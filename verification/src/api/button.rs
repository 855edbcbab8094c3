//! Buttons attached to outbound messages, with their wire encodings.

use vstd::prelude::*;

use crate::json::{entries_view, items_view, jstr, jobj, JsonValue, JsonView};

verus! {

/// An interactive element of an outbound message.  Each variant has a
/// fixed set of fields on the wire (see [`spec_button_json`]).
#[allow(non_camel_case_types)]
pub enum Button {
    /// A postback button: `{type: "postback", title, payload}`.
    PAYLOAD(String, String),
    /// A link button: `{type: "web_url", title, url, webview_height_ratio,
    /// messenger_extensions}`.
    URL(String, String),
    /// A quick-reply choice: `{content_type: "text", title, payload}`.
    QUICKPAYLOAD(String, String),
}

/// The mathematical model of a [`Button`].
pub enum ButtonView {
    Payload { title: Seq<char>, payload: Seq<char> },
    Url { title: Seq<char>, url: Seq<char> },
    QuickPayload { title: Seq<char>, payload: Seq<char> },
}

impl View for Button {
    type V = ButtonView;

    open spec fn view(&self) -> ButtonView {
        match self {
            Button::PAYLOAD(title, payload) => ButtonView::Payload {
                title: title@,
                payload: payload@,
            },
            Button::URL(title, url) => ButtonView::Url { title: title@, url: url@ },
            Button::QUICKPAYLOAD(title, payload) => ButtonView::QuickPayload {
                title: title@,
                payload: payload@,
            },
        }
    }
}

impl DeepView for Button {
    type V = ButtonView;

    open spec fn deep_view(&self) -> ButtonView {
        self.view()
    }
}

impl Clone for Button {
    fn clone(&self) -> (res: Self)
        ensures
            res == *self,
    {
        match self {
            Button::PAYLOAD(title, payload) => Button::PAYLOAD(title.clone(), payload.clone()),
            Button::URL(title, url) => Button::URL(title.clone(), url.clone()),
            Button::QUICKPAYLOAD(title, payload) => Button::QUICKPAYLOAD(
                title.clone(),
                payload.clone(),
            ),
        }
    }
}

/// The JSON document of a button: per variant, exactly the fields of
/// its wire encoding, in a fixed order.
pub open spec fn spec_button_json(b: ButtonView) -> JsonView {
    match b {
        ButtonView::Payload { title, payload } => JsonView::Obj(
            seq![
                ("type"@, JsonView::Str("postback"@)),
                ("title"@, JsonView::Str(title)),
                ("payload"@, JsonView::Str(payload)),
            ],
        ),
        ButtonView::Url { title, url } => JsonView::Obj(
            seq![
                ("type"@, JsonView::Str("web_url"@)),
                ("title"@, JsonView::Str(title)),
                ("url"@, JsonView::Str(url)),
                ("webview_height_ratio"@, JsonView::Str("compact"@)),
                ("messenger_extensions"@, JsonView::Bool(false)),
            ],
        ),
        ButtonView::QuickPayload { title, payload } => JsonView::Obj(
            seq![
                ("content_type"@, JsonView::Str("text"@)),
                ("title"@, JsonView::Str(title)),
                ("payload"@, JsonView::Str(payload)),
            ],
        ),
    }
}

/// Law: a postback button's document carries exactly the fields
/// `type`, `title` and `payload`, in that order.
pub proof fn lemma_payload_button_fields(b: ButtonView)
    requires
        b is Payload,
    ensures
        spec_button_json(b).keys() =~= seq!["type"@, "title"@, "payload"@],
{
}

/// Law: a link button's document carries exactly the fields `type`,
/// `title`, `url`, `webview_height_ratio` and `messenger_extensions`,
/// in that order.
pub proof fn lemma_url_button_fields(b: ButtonView)
    requires
        b is Url,
    ensures
        spec_button_json(b).keys() =~= seq![
            "type"@,
            "title"@,
            "url"@,
            "webview_height_ratio"@,
            "messenger_extensions"@,
        ],
{
}

/// Law: a quick-reply button's document carries exactly the fields
/// `content_type`, `title` and `payload`, in that order.
pub proof fn lemma_quick_button_fields(b: ButtonView)
    requires
        b is QuickPayload,
    ensures
        spec_button_json(b).keys() =~= seq!["content_type"@, "title"@, "payload"@],
{
}

/// The JSON documents of a list of buttons, element by element.
pub open spec fn spec_buttons_json(bs: Seq<ButtonView>) -> Seq<JsonView> {
    bs.map(|i: int, b: ButtonView| spec_button_json(b))
}

/// Serializes every button of a list.
pub fn buttons_to_json(bs: &Vec<Button>) -> (r: Vec<JsonValue>)
    ensures
        items_view(r@) == spec_buttons_json(bs.deep_view()),
{
    let mut r: Vec<JsonValue> = Vec::new();
    let mut i: usize = 0;
    while i < bs.len()
        invariant
            i <= bs@.len(),
            r@.len() == i,
            forall|j: int| 0 <= j < i ==> r@[j]@ == spec_button_json(bs@[j]@),
        decreases bs@.len() - i,
    {
        let b = bs[i].to_json();
        r.push(b);
        i = i + 1;
    }
    proof {
        assert(items_view(r@) =~= spec_buttons_json(bs.deep_view()));
    }
    r
}

/// The JSON text of a button: the same fields as [`spec_button_json`],
/// assembled verbatim (values are not escaped).
pub open spec fn spec_button_text(b: ButtonView) -> Seq<char> {
    match b {
        ButtonView::Payload { title, payload } => "{\"type\":\"postback\",\"title\":\""@ + title
            + "\",\"payload\":\""@ + payload + "\"}"@,
        ButtonView::Url { title, url } => "{\"type\":\"web_url\",\"title\":\""@ + title
            + "\",\"url\":\""@ + url
            + "\",\"webview_height_ratio\":\"compact\",\"messenger_extensions\":false}"@,
        ButtonView::QuickPayload { title, payload } => "{\"content_type\":\"text\",\"title\":\""@
            + title + "\",\"payload\":\""@ + payload + "\"}"@,
    }
}

impl Button {
    /// A new postback button.
    pub fn new_button_pb(name: &str, postback: &str) -> (r: Button)
        ensures
            r@ == (ButtonView::Payload { title: name@, payload: postback@ }),
    {
        Button::PAYLOAD(name.to_owned(), postback.to_owned())
    }

    /// A new quick-reply button.
    pub fn new_button_quick_pb(name: &str, postback: &str) -> (r: Button)
        ensures
            r@ == (ButtonView::QuickPayload { title: name@, payload: postback@ }),
    {
        Button::QUICKPAYLOAD(name.to_owned(), postback.to_owned())
    }

    /// A new link button.
    pub fn new_button_url(name: &str, url: &str) -> (r: Button)
        ensures
            r@ == (ButtonView::Url { title: name@, url: url@ }),
    {
        Button::URL(name.to_owned(), url.to_owned())
    }

    /// The button's JSON document, with exactly the fields of its
    /// variant's wire encoding.
    pub fn to_json(&self) -> (r: JsonValue)
        ensures
            r@ == spec_button_json(self@),
    {
        match self {
            Button::PAYLOAD(title, payload) => {
                let entries: Vec<(String, JsonValue)> = vec![
                    ("type".to_owned(), jstr("postback")),
                    ("title".to_owned(), jstr(title.as_str())),
                    ("payload".to_owned(), jstr(payload.as_str())),
                ];
                proof {
                    assert(entries_view(entries@) =~= spec_button_json(self@)->Obj_0);
                }
                jobj(entries)
            },
            Button::URL(title, url) => {
                let entries: Vec<(String, JsonValue)> = vec![
                    ("type".to_owned(), jstr("web_url")),
                    ("title".to_owned(), jstr(title.as_str())),
                    ("url".to_owned(), jstr(url.as_str())),
                    ("webview_height_ratio".to_owned(), jstr("compact")),
                    ("messenger_extensions".to_owned(), JsonValue::Bool(false)),
                ];
                proof {
                    assert(entries_view(entries@) =~= spec_button_json(self@)->Obj_0);
                }
                jobj(entries)
            },
            Button::QUICKPAYLOAD(title, payload) => {
                let entries: Vec<(String, JsonValue)> = vec![
                    ("content_type".to_owned(), jstr("text")),
                    ("title".to_owned(), jstr(title.as_str())),
                    ("payload".to_owned(), jstr(payload.as_str())),
                ];
                proof {
                    assert(entries_view(entries@) =~= spec_button_json(self@)->Obj_0);
                }
                jobj(entries)
            },
        }
    }

    /// The button's wire encoding as JSON text, assembled verbatim.
    pub fn to_json_str(&self) -> (r: String)
        ensures
            r@ == spec_button_text(self@),
    {
        let mut s = String::new();
        match self {
            Button::PAYLOAD(title, payload) => {
                s.append("{\"type\":\"postback\",\"title\":\"");
                s.append(title.as_str());
                s.append("\",\"payload\":\"");
                s.append(payload.as_str());
                s.append("\"}");
            },
            Button::URL(title, url) => {
                s.append("{\"type\":\"web_url\",\"title\":\"");
                s.append(title.as_str());
                s.append("\",\"url\":\"");
                s.append(url.as_str());
                s.append(
                    "\",\"webview_height_ratio\":\"compact\",\"messenger_extensions\":false}",
                );
            },
            Button::QUICKPAYLOAD(title, payload) => {
                s.append("{\"content_type\":\"text\",\"title\":\"");
                s.append(title.as_str());
                s.append("\",\"payload\":\"");
                s.append(payload.as_str());
                s.append("\"}");
            },
        }
        proof {
            assert(s@ =~= spec_button_text(self@));
        }
        s
    }
}

} // verus!
