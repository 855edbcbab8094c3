//! Configuration, session identities and inbound events.

pub mod block;

use vstd::prelude::*;

use crate::json::{streq, JsonValue, JsonView};

verus! {

/// The kind of inbound datum a session carries: a button postback or
/// free-form text.
#[allow(non_camel_case_types)]
#[derive(Clone, Copy, PartialEq, Eq, Structural, Debug)]
pub enum MessagingType {
    POSTBACK,
    MESSAGE,
}

/// The transition signal a step returns to its script.
#[allow(non_camel_case_types)]
#[derive(Clone, Copy, PartialEq, Eq, Structural, Debug)]
pub enum PipeStatus {
    NEXT,
    REPLAY,
    RESTART,
}

/// A button-postback payload carried by an inbound event.
pub struct MessagingPostback {
    payload: String,
}

impl View for MessagingPostback {
    type V = Seq<char>;

    closed spec fn view(&self) -> Seq<char> {
        self.payload@
    }
}

impl Clone for MessagingPostback {
    fn clone(&self) -> (res: Self)
        ensures
            res@ == self@,
    {
        MessagingPostback { payload: self.payload.clone() }
    }
}

impl MessagingPostback {
    /// A new postback datum.
    pub fn new(payload: &str) -> (r: Self)
        ensures
            r@ == payload@,
    {
        MessagingPostback { payload: payload.to_owned() }
    }

    /// The kind of this datum.
    pub fn message_type(&self) -> (r: MessagingType)
        ensures
            r == MessagingType::POSTBACK,
    {
        MessagingType::POSTBACK
    }

    /// The carried payload.
    pub fn message(&self) -> (r: &str)
        ensures
            r@ == self@,
    {
        self.payload.as_str()
    }
}

/// A free-text datum carried by an inbound event.
pub struct MessagingMessage {
    text: String,
}

impl View for MessagingMessage {
    type V = Seq<char>;

    closed spec fn view(&self) -> Seq<char> {
        self.text@
    }
}

impl Clone for MessagingMessage {
    fn clone(&self) -> (res: Self)
        ensures
            res@ == self@,
    {
        MessagingMessage { text: self.text.clone() }
    }
}

impl MessagingMessage {
    /// A new free-text datum.
    pub fn new(text: &str) -> (r: Self)
        ensures
            r@ == text@,
    {
        MessagingMessage { text: text.to_owned() }
    }

    /// The kind of this datum.
    pub fn message_type(&self) -> (r: MessagingType)
        ensures
            r == MessagingType::MESSAGE,
    {
        MessagingType::MESSAGE
    }

    /// The carried text.
    pub fn message(&self) -> (r: &str)
        ensures
            r@ == self@,
    {
        self.text.as_str()
    }
}

/// The single inbound datum of a session event: exactly one of a
/// postback payload or a free text.
pub enum Messaging {
    Postback(MessagingPostback),
    Message(MessagingMessage),
}

/// The mathematical model of a [`Messaging`] datum.
pub enum MessagingView {
    Postback(Seq<char>),
    Message(Seq<char>),
}

impl MessagingView {
    /// The carried characters, whatever the kind.
    pub open spec fn datum(self) -> Seq<char> {
        match self {
            MessagingView::Postback(s) => s,
            MessagingView::Message(s) => s,
        }
    }
}

impl View for Messaging {
    type V = MessagingView;

    open spec fn view(&self) -> MessagingView {
        match self {
            Messaging::Postback(p) => MessagingView::Postback(p@),
            Messaging::Message(m) => MessagingView::Message(m@),
        }
    }
}

impl Clone for Messaging {
    fn clone(&self) -> (res: Self)
        ensures
            res@ == self@,
    {
        match self {
            Messaging::Postback(p) => Messaging::Postback(p.clone()),
            Messaging::Message(m) => Messaging::Message(m.clone()),
        }
    }
}

impl Messaging {
    /// The kind of the carried datum.
    pub fn message_type(&self) -> (r: MessagingType)
        ensures
            self@ is Postback ==> r == MessagingType::POSTBACK,
            self@ is Message ==> r == MessagingType::MESSAGE,
    {
        match self {
            Messaging::Postback(p) => p.message_type(),
            Messaging::Message(m) => m.message_type(),
        }
    }

    /// The carried characters, whatever the kind.
    pub fn message(&self) -> (r: &str)
        ensures
            r@ == self@.datum(),
    {
        match self {
            Messaging::Postback(p) => p.message(),
            Messaging::Message(m) => m.message(),
        }
    }
}

/// Process configuration: address, port, route, workers and the two
/// tokens (webhook verification and page delivery).
pub struct Conf {
    port: u16,
    ip: String,
    uri: String,
    workers: u16,
    token_webhook: String,
    token_fb_page: String,
}

/// The mathematical model of a [`Conf`].
pub struct ConfView {
    pub port: u16,
    pub ip: Seq<char>,
    pub uri: Seq<char>,
    pub workers: u16,
    pub token_webhook: Seq<char>,
    pub token_fb_page: Seq<char>,
}

impl View for Conf {
    type V = ConfView;

    closed spec fn view(&self) -> ConfView {
        ConfView {
            port: self.port,
            ip: self.ip@,
            uri: self.uri@,
            workers: self.workers,
            token_webhook: self.token_webhook@,
            token_fb_page: self.token_fb_page@,
        }
    }
}

impl Clone for Conf {
    fn clone(&self) -> (res: Self)
        ensures
            res@ == self@,
    {
        Conf {
            port: self.port,
            ip: self.ip.clone(),
            uri: self.uri.clone(),
            workers: self.workers,
            token_webhook: self.token_webhook.clone(),
            token_fb_page: self.token_fb_page.clone(),
        }
    }
}

impl Conf {
    /// A configuration from explicit values.
    pub fn new(port: u16, ip: &str, uri: &str, size: u16, token_webhook: &str, token_fb_page: &str)
        -> (r: Self)
        ensures
            r@ == (ConfView {
                port,
                ip: ip@,
                uri: uri@,
                workers: size,
                token_webhook: token_webhook@,
                token_fb_page: token_fb_page@,
            }),
    {
        Conf {
            port,
            ip: ip.to_owned(),
            uri: uri.to_owned(),
            workers: size,
            token_webhook: token_webhook.to_owned(),
            token_fb_page: token_fb_page.to_owned(),
        }
    }

    /// Sets the webhook verification token.
    pub fn set_token_webhook(&mut self, token: &str)
        ensures
            final(self)@ == (ConfView { token_webhook: token@, ..old(self)@ }),
    {
        self.token_webhook = token.to_owned();
    }

    /// Sets the page delivery token.
    pub fn set_token_fb_page(&mut self, token: &str)
        ensures
            final(self)@ == (ConfView { token_fb_page: token@, ..old(self)@ }),
    {
        self.token_fb_page = token.to_owned();
    }

    /// Sets the port.
    pub fn set_port(&mut self, port: u16)
        ensures
            final(self)@ == (ConfView { port, ..old(self)@ }),
    {
        self.port = port;
    }

    /// Sets the bind address.
    pub fn set_ip(&mut self, ip: &str)
        ensures
            final(self)@ == (ConfView { ip: ip@, ..old(self)@ }),
    {
        self.ip = ip.to_owned();
    }

    /// Sets the route.
    pub fn set_uri(&mut self, uri: &str)
        ensures
            final(self)@ == (ConfView { uri: uri@, ..old(self)@ }),
    {
        self.uri = uri.to_owned();
    }

    /// Sets the worker count.
    pub fn set_workers(&mut self, workers: u16)
        ensures
            final(self)@ == (ConfView { workers, ..old(self)@ }),
    {
        self.workers = workers;
    }

    /// The route.
    pub fn get_uri(&self) -> (r: &str)
        ensures
            r@ == self@.uri,
    {
        self.uri.as_str()
    }

    /// The bind address.
    pub fn get_ip(&self) -> (r: &str)
        ensures
            r@ == self@.ip,
    {
        self.ip.as_str()
    }

    /// The port.
    pub fn get_port(&self) -> (r: &u16)
        ensures
            *r == self@.port,
    {
        &self.port
    }

    /// The worker count.
    pub fn get_workers(&self) -> (r: &u16)
        ensures
            *r == self@.workers,
    {
        &self.workers
    }

    /// The webhook verification token.
    pub fn get_token_webhook(&self) -> (r: &str)
        ensures
            r@ == self@.token_webhook,
    {
        self.token_webhook.as_str()
    }

    /// The page delivery token.
    pub fn get_token_fb_page(&self) -> (r: &str)
        ensures
            r@ == self@.token_fb_page,
    {
        self.token_fb_page.as_str()
    }
}

/// The stock configuration.
pub open spec fn spec_default_conf() -> ConfView {
    ConfView {
        port: 7878,
        ip: "0.0.0.0"@,
        uri: "/webhook"@,
        workers: 12,
        token_webhook: "MamaGuriba"@,
        token_fb_page: "MamaGuriba"@,
    }
}

impl Default for Conf {
    /// The stock configuration.
    fn default() -> (r: Self)
        ensures
            r@ == spec_default_conf(),
    {
        Conf::new(7878, "0.0.0.0", "/webhook", 12, "MamaGuriba", "MamaGuriba")
    }
}

/// An end user's session event: the sender identity plus the one
/// inbound datum.
pub struct BotUser {
    sender_id: String,
    message: Messaging,
}

/// The mathematical model of a [`BotUser`].
pub struct BotUserView {
    pub sender: Seq<char>,
    pub message: MessagingView,
}

impl View for BotUser {
    type V = BotUserView;

    closed spec fn view(&self) -> BotUserView {
        BotUserView { sender: self.sender_id@, message: self.message@ }
    }
}

impl Clone for BotUser {
    fn clone(&self) -> (res: Self)
        ensures
            res@ == self@,
    {
        BotUser { sender_id: self.sender_id.clone(), message: self.message.clone() }
    }
}

/// Why an inbound document was rejected.
#[derive(Clone, Copy, PartialEq, Eq, Structural, Debug)]
pub enum DecodeError {
    /// The top-level `object` field is missing or not `"page"`.
    InvalidFormat,
    /// No sender id under `entry[0].messaging[0].sender.id`.
    NoSenderId,
    /// Neither a postback payload nor a message text is present.
    NoContent,
}

impl DecodeError {
    /// A short account of the rejection.
    pub fn message(&self) -> (r: &'static str)
        ensures
            *self == DecodeError::InvalidFormat ==> r@ == "Doesn't have a valid json format API FB"@,
            *self == DecodeError::NoSenderId ==> r@ == "Doesn't have a sender id in json"@,
            *self == DecodeError::NoContent ==> r@
                == "Don't have Messaging or Postback value in json"@,
    {
        match self {
            DecodeError::InvalidFormat => "Doesn't have a valid json format API FB",
            DecodeError::NoSenderId => "Doesn't have a sender id in json",
            DecodeError::NoContent => "Don't have Messaging or Postback value in json",
        }
    }
}

/// Field lookup on an optional object.
pub open spec fn spec_opt_get(node: Option<JsonView>, key: Seq<char>) -> Option<JsonView> {
    match node {
        Option::Some(n) => n.get(key),
        Option::None => Option::None,
    }
}

/// The characters of an optional string value.
pub open spec fn spec_as_str(node: Option<JsonView>) -> Option<Seq<char>> {
    match node {
        Option::Some(JsonView::Str(s)) => Option::Some(s),
        _ => Option::None,
    }
}

/// The node under `entry[0].messaging[0]`, if the document has one.
pub open spec fn spec_messaging_node(v: JsonView) -> Option<JsonView> {
    match v.get("entry"@) {
        Option::Some(entry) => match entry.at(0) {
            Option::Some(e0) => match e0.get("messaging"@) {
                Option::Some(ms) => ms.at(0),
                Option::None => Option::None,
            },
            Option::None => Option::None,
        },
        Option::None => Option::None,
    }
}

/// What decoding an inbound document yields: the session event, or the
/// exact reason for rejection.  A postback wins over a message text
/// when both are present.
pub open spec fn spec_decode(v: JsonView) -> Result<BotUserView, DecodeError> {
    if !(spec_as_str(v.get("object"@)) matches Option::Some(p) && p == "page"@) {
        Result::Err(DecodeError::InvalidFormat)
    } else {
        let node = spec_messaging_node(v);
        let sender = spec_as_str(spec_opt_get(spec_opt_get(node, "sender"@), "id"@));
        let payload = spec_as_str(spec_opt_get(spec_opt_get(node, "postback"@), "payload"@));
        let text = spec_as_str(spec_opt_get(spec_opt_get(node, "message"@), "text"@));
        match sender {
            Option::None => Result::Err(DecodeError::NoSenderId),
            Option::Some(id) => match payload {
                Option::Some(p) => Result::Ok(
                    BotUserView { sender: id, message: MessagingView::Postback(p) },
                ),
                Option::None => match text {
                    Option::Some(t) => Result::Ok(
                        BotUserView { sender: id, message: MessagingView::Message(t) },
                    ),
                    Option::None => Result::Err(DecodeError::NoContent),
                },
            },
        }
    }
}

/// The view of an optional value reference.
pub open spec fn opt_jv_view(node: Option<&JsonValue>) -> Option<JsonView> {
    match node {
        Option::Some(x) => Option::Some(x@),
        Option::None => Option::None,
    }
}

/// Looks up a string field of an optional object node.
fn get_str_field<'a>(node: Option<&'a JsonValue>, key: &str) -> (r: Option<&'a String>)
    ensures
        match r {
            Option::Some(s) => spec_as_str(spec_opt_get(opt_jv_view(node), key@))
                == Option::Some(s@),
            Option::None => spec_as_str(spec_opt_get(opt_jv_view(node), key@)) is None,
        },
{
    match node {
        Option::Some(n) => match n.get(key) {
            Option::Some(JsonValue::Str(s)) => Option::Some(s),
            _ => Option::None,
        },
        Option::None => Option::None,
    }
}

impl BotUser {
    /// A new session event.
    pub fn new(id: &str, message: Messaging) -> (r: Self)
        ensures
            r@ == (BotUserView { sender: id@, message: message@ }),
    {
        BotUser { sender_id: id.to_owned(), message }
    }

    /// The sender identity.
    pub fn get_sender(&self) -> (r: &str)
        ensures
            r@ == self@.sender,
    {
        self.sender_id.as_str()
    }

    /// The inbound datum.
    pub fn get_message(&self) -> (r: &Messaging)
        ensures
            r@ == self@.message,
    {
        &self.message
    }

    /// Decodes a platform webhook document into a session event, per
    /// [`spec_decode`].
    pub fn from_json(v: &JsonValue) -> (r: Result<BotUser, DecodeError>)
        ensures
            match r {
                Result::Ok(u) => spec_decode(v@) == Result::<BotUserView, DecodeError>::Ok(u@),
                Result::Err(e) => spec_decode(v@) == Result::<BotUserView, DecodeError>::Err(e),
            },
    {
        let page_ok = match v.get("object") {
            Option::Some(JsonValue::Str(s)) => streq(s.as_str(), "page"),
            _ => false,
        };
        if !page_ok {
            return Result::Err(DecodeError::InvalidFormat);
        }
        let node: Option<&JsonValue> = match v.get("entry") {
            Option::Some(entry) => match entry.at(0) {
                Option::Some(e0) => match e0.get("messaging") {
                    Option::Some(ms) => ms.at(0),
                    Option::None => Option::None,
                },
                Option::None => Option::None,
            },
            Option::None => Option::None,
        };
        proof {
            assert(opt_jv_view(node) == spec_messaging_node(v@));
        }
        let sender_node: Option<&JsonValue> = match node {
            Option::Some(n) => n.get("sender"),
            Option::None => Option::None,
        };
        let id: &String = match get_str_field(sender_node, "id") {
            Option::Some(s) => s,
            Option::None => {
                return Result::Err(DecodeError::NoSenderId);
            },
        };
        let postback_node: Option<&JsonValue> = match node {
            Option::Some(n) => n.get("postback"),
            Option::None => Option::None,
        };
        if let Option::Some(p) = get_str_field(postback_node, "payload") {
            return Result::Ok(
                BotUser::new(id.as_str(), Messaging::Postback(MessagingPostback::new(p.as_str()))),
            );
        }
        let message_node: Option<&JsonValue> = match node {
            Option::Some(n) => n.get("message"),
            Option::None => Option::None,
        };
        if let Option::Some(t) = get_str_field(message_node, "text") {
            return Result::Ok(
                BotUser::new(id.as_str(), Messaging::Message(MessagingMessage::new(t.as_str()))),
            );
        }
        Result::Err(DecodeError::NoContent)
    }
}

} // verus!
