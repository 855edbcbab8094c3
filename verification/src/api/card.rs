//! Card (attachment) content for outbound messages, with the wire
//! encoding of each variant.

use vstd::prelude::*;

use crate::api::button::{buttons_to_json, spec_buttons_json, Button, ButtonView};
use crate::json::{entries_view, items_view, jarr, jstr, jobj, JsonValue, JsonView};

verus! {

/// The action taken when a card itself is tapped: opens a URL.
/// Encodes as `{type: "web_url", url}`.
pub struct DefaultAction {
    url: String,
}

/// The mathematical model of a [`DefaultAction`].
pub struct DefaultActionView {
    pub url: Seq<char>,
}

impl View for DefaultAction {
    type V = DefaultActionView;

    closed spec fn view(&self) -> DefaultActionView {
        DefaultActionView { url: self.url@ }
    }
}

impl Clone for DefaultAction {
    fn clone(&self) -> (res: Self)
        ensures
            res == *self,
    {
        DefaultAction { url: self.url.clone() }
    }
}

/// The JSON document of a default action: exactly `{type, url}`.
pub open spec fn spec_default_action_json(a: DefaultActionView) -> JsonView {
    JsonView::Obj(
        seq![("type"@, JsonView::Str("web_url"@)), ("url"@, JsonView::Str(a.url))],
    )
}

impl DefaultAction {
    /// A new default action for the given URL.  The title has no place
    /// in the wire encoding and is ignored.
    pub fn new(_title: &str, url: &str) -> (r: Self)
        ensures
            r@.url == url@,
    {
        DefaultAction { url: url.to_owned() }
    }

    /// The action's JSON document.
    pub fn to_json(&self) -> (r: JsonValue)
        ensures
            r@ == spec_default_action_json(self@),
    {
        let entries: Vec<(String, JsonValue)> = vec![
            ("type".to_owned(), jstr("web_url")),
            ("url".to_owned(), jstr(self.url.as_str())),
        ];
        proof {
            assert(entries_view(entries@) =~= spec_default_action_json(self@)->Obj_0);
        }
        jobj(entries)
    }

    /// The tag this content answers to.
    pub fn typed(&self) -> (r: &'static str)
        ensures
            r@ == "none"@,
    {
        "none"
    }
}

/// A generic card: a titled element with optional subtitle, image,
/// default action and buttons, sent inside a generic template.
pub struct CardGeneric {
    title: String,
    subtitle: Option<String>,
    image_url: Option<String>,
    buttons: Option<Vec<Button>>,
    default_action: Option<DefaultAction>,
}

/// The mathematical model of a [`CardGeneric`].
pub struct CardGenericView {
    pub title: Seq<char>,
    pub subtitle: Option<Seq<char>>,
    pub image_url: Option<Seq<char>>,
    pub buttons: Option<Seq<ButtonView>>,
    pub default_action: Option<DefaultActionView>,
}

impl View for CardGeneric {
    type V = CardGenericView;

    closed spec fn view(&self) -> CardGenericView {
        CardGenericView {
            title: self.title@,
            subtitle: match self.subtitle {
                Option::Some(s) => Option::Some(s@),
                Option::None => Option::None,
            },
            image_url: match self.image_url {
                Option::Some(s) => Option::Some(s@),
                Option::None => Option::None,
            },
            buttons: match self.buttons {
                Option::Some(bs) => Option::Some(bs.deep_view()),
                Option::None => Option::None,
            },
            default_action: match self.default_action {
                Option::Some(a) => Option::Some(a@),
                Option::None => Option::None,
            },
        }
    }
}

/// Clones a button list, keeping its model.
pub(crate) fn clone_buttons(bs: &Vec<Button>) -> (r: Vec<Button>)
    ensures
        r.deep_view() == bs.deep_view(),
        r@.len() == bs@.len(),
{
    let mut r: Vec<Button> = Vec::new();
    let mut i: usize = 0;
    while i < bs.len()
        invariant
            i <= bs@.len(),
            r@.len() == i,
            forall|j: int| 0 <= j < i ==> r@[j] == bs@[j],
        decreases bs@.len() - i,
    {
        let b = bs[i].clone();
        r.push(b);
        i = i + 1;
    }
    proof {
        assert(r.deep_view() =~= bs.deep_view());
    }
    r
}

impl Clone for CardGeneric {
    fn clone(&self) -> (res: Self)
        ensures
            res@ == self@,
    {
        CardGeneric {
            title: self.title.clone(),
            subtitle: match &self.subtitle {
                Option::Some(s) => Option::Some(s.clone()),
                Option::None => Option::None,
            },
            image_url: match &self.image_url {
                Option::Some(s) => Option::Some(s.clone()),
                Option::None => Option::None,
            },
            buttons: match &self.buttons {
                Option::Some(bs) => Option::Some(clone_buttons(bs)),
                Option::None => Option::None,
            },
            default_action: match &self.default_action {
                Option::Some(a) => Option::Some(a.clone()),
                Option::None => Option::None,
            },
        }
    }
}

/// The element of a generic card: `title` always; `subtitle`,
/// `image_url`, `default_action` and `buttons` only when set.
pub open spec fn spec_generic_element(c: CardGenericView) -> Seq<(Seq<char>, JsonView)> {
    seq![("title"@, JsonView::Str(c.title))] + (match c.subtitle {
        Option::Some(s) => seq![("subtitle"@, JsonView::Str(s))],
        Option::None => Seq::empty(),
    }) + (match c.image_url {
        Option::Some(u) => seq![("image_url"@, JsonView::Str(u))],
        Option::None => Seq::empty(),
    }) + (match c.default_action {
        Option::Some(a) => seq![("default_action"@, spec_default_action_json(a))],
        Option::None => Seq::empty(),
    }) + (match c.buttons {
        Option::Some(bs) => seq![("buttons"@, JsonView::Arr(spec_buttons_json(bs)))],
        Option::None => Seq::empty(),
    })
}

/// Law: a generic card's element always carries `title`; it carries
/// `buttons` exactly when a button list was attached, and omits
/// `subtitle`, `image_url` and `default_action` when they are unset.
pub proof fn lemma_generic_card_fields(c: CardGenericView)
    ensures
        ({
            let ks = JsonView::Obj(spec_generic_element(c)).keys();
            &&& ks.contains("title"@)
            &&& ks.contains("buttons"@) <==> c.buttons is Some
            &&& ks.contains("subtitle"@) <==> c.subtitle is Some
            &&& ks.contains("image_url"@) <==> c.image_url is Some
            &&& ks.contains("default_action"@) <==> c.default_action is Some
        }),
{
    proof_strlit_facts();
    let es = spec_generic_element(c);
    let ks = JsonView::Obj(es).keys();
    assert(ks.len() == es.len());
    assert(forall|i: int| 0 <= i < es.len() ==> #[trigger] ks[i] == es[i].0);
    assert(ks[0] == "title"@);
    assert(ks.contains("title"@)) by {
        assert(ks[0] == "title"@);
    }
    assert forall|i: int| 0 <= i < es.len() implies es[i].0 == "title"@ || es[i].0 == "subtitle"@
        || es[i].0 == "image_url"@ || es[i].0 == "default_action"@ || es[i].0 == "buttons"@ by {}
    if c.buttons is Some {
        assert(es[es.len() - 1].0 == "buttons"@);
        assert(ks.contains("buttons"@)) by {
            assert(ks[ks.len() - 1] == "buttons"@);
        }
    } else {
        assert forall|i: int| 0 <= i < ks.len() implies ks[i] != "buttons"@ by {}
    }
    if c.subtitle is Some {
        assert(es[1].0 == "subtitle"@);
        assert(ks.contains("subtitle"@)) by {
            assert(ks[1] == "subtitle"@);
        }
    } else {
        assert forall|i: int| 0 <= i < ks.len() implies ks[i] != "subtitle"@ by {}
    }
    if c.image_url is Some {
        let at = 1int + (if c.subtitle is Some { 1int } else { 0int });
        assert(es[at].0 == "image_url"@);
        assert(ks.contains("image_url"@)) by {
            assert(ks[1int + (if c.subtitle is Some { 1int } else { 0int })] == "image_url"@);
        }
    } else {
        assert forall|i: int| 0 <= i < ks.len() implies ks[i] != "image_url"@ by {}
    }
    if c.default_action is Some {
        let at = 1int + (if c.subtitle is Some { 1int } else { 0int }) + (if c.image_url is Some {
            1int
        } else {
            0int
        });
        assert(es[at].0 == "default_action"@);
        assert(ks.contains("default_action"@)) by {
            assert(ks[1int + (if c.subtitle is Some { 1int } else { 0int }) + (
            if c.image_url is Some {
                1int
            } else {
                0int
            })] == "default_action"@);
        }
    } else {
        assert forall|i: int| 0 <= i < ks.len() implies ks[i] != "default_action"@ by {}
    }
}

/// The element field names are pairwise distinct (their lengths
/// differ).
proof fn proof_strlit_facts()
    ensures
        "title"@ != "subtitle"@,
        "title"@ != "image_url"@,
        "title"@ != "default_action"@,
        "title"@ != "buttons"@,
        "subtitle"@ != "image_url"@,
        "subtitle"@ != "default_action"@,
        "subtitle"@ != "buttons"@,
        "image_url"@ != "default_action"@,
        "image_url"@ != "buttons"@,
        "default_action"@ != "buttons"@,
{
    reveal_strlit("title");
    reveal_strlit("subtitle");
    reveal_strlit("image_url");
    reveal_strlit("default_action");
    reveal_strlit("buttons");
    assert("title"@.len() == 5);
    assert("subtitle"@.len() == 8);
    assert("image_url"@.len() == 9);
    assert("default_action"@.len() == 14);
    assert("buttons"@.len() == 7);
}

/// The JSON document of a generic card: a template attachment whose
/// payload carries one element.
pub open spec fn spec_generic_card_json(c: CardGenericView) -> JsonView {
    JsonView::Obj(
        seq![
            ("type"@, JsonView::Str("template"@)),
            (
                "payload"@,
                JsonView::Obj(
                    seq![
                        ("template_type"@, JsonView::Str("generic"@)),
                        (
                            "elements"@,
                            JsonView::Arr(seq![JsonView::Obj(spec_generic_element(c))]),
                        ),
                    ],
                ),
            ),
        ],
    )
}

impl CardGeneric {
    /// A new generic card with the given title and nothing else set.
    pub fn new(title: &str) -> (r: Self)
        ensures
            r@ == (CardGenericView {
                title: title@,
                subtitle: Option::None,
                image_url: Option::None,
                buttons: Option::None,
                default_action: Option::None,
            }),
    {
        CardGeneric {
            title: title.to_owned(),
            subtitle: Option::None,
            image_url: Option::None,
            buttons: Option::None,
            default_action: Option::None,
        }
    }

    /// Sets the subtitle.
    pub fn subtitle(self, subtitle: &str) -> (r: Self)
        ensures
            r@ == (CardGenericView { subtitle: Option::Some(subtitle@), ..self@ }),
    {
        CardGeneric { subtitle: Option::Some(subtitle.to_owned()), ..self }
    }

    /// Sets the image URL.
    pub fn image(self, url: &str) -> (r: Self)
        ensures
            r@ == (CardGenericView { image_url: Option::Some(url@), ..self@ }),
    {
        CardGeneric { image_url: Option::Some(url.to_owned()), ..self }
    }

    /// Sets the default action.
    pub fn default_action(self, default_action: DefaultAction) -> (r: Self)
        ensures
            r@ == (CardGenericView { default_action: Option::Some(default_action@), ..self@ }),
    {
        CardGeneric { default_action: Option::Some(default_action), ..self }
    }

    /// Appends a button.
    pub fn button(self, button: Button) -> (r: Self)
        ensures
            r@ == (CardGenericView {
                buttons: Option::Some(appended_button(self@.buttons, button@)),
                ..self@
            }),
    {
        let mut bs: Vec<Button> = match self.buttons {
            Option::Some(v) => v,
            Option::None => Vec::new(),
        };
        bs.push(button);
        proof {
            assert(bs.deep_view() =~= appended_button(self@.buttons, button@));
        }
        CardGeneric { buttons: Option::Some(bs), ..self }
    }

    /// The card's JSON document.
    pub fn to_json(&self) -> (r: JsonValue)
        ensures
            r@ == spec_generic_card_json(self@),
    {
        let mut element: Vec<(String, JsonValue)> = Vec::new();
        element.push(("title".to_owned(), jstr(self.title.as_str())));
        if let Option::Some(s) = &self.subtitle {
            element.push(("subtitle".to_owned(), jstr(s.as_str())));
        }
        if let Option::Some(u) = &self.image_url {
            element.push(("image_url".to_owned(), jstr(u.as_str())));
        }
        if let Option::Some(a) = &self.default_action {
            element.push(("default_action".to_owned(), a.to_json()));
        }
        if let Option::Some(bs) = &self.buttons {
            element.push(("buttons".to_owned(), jarr(buttons_to_json(bs))));
        }
        proof {
            assert(entries_view(element@) =~= spec_generic_element(self@));
        }
        let element_obj = jobj(element);
        let elements: Vec<JsonValue> = vec![element_obj];
        proof {
            assert(items_view(elements@) =~= seq![JsonView::Obj(spec_generic_element(self@))]);
        }
        let payload_entries: Vec<(String, JsonValue)> = vec![
            ("template_type".to_owned(), jstr("generic")),
            ("elements".to_owned(), jarr(elements)),
        ];
        proof {
            assert(entries_view(payload_entries@)
                =~= spec_generic_card_json(self@)->Obj_0[1].1->Obj_0);
        }
        let outer: Vec<(String, JsonValue)> = vec![
            ("type".to_owned(), jstr("template")),
            ("payload".to_owned(), jobj(payload_entries)),
        ];
        proof {
            assert(entries_view(outer@) =~= spec_generic_card_json(self@)->Obj_0);
        }
        jobj(outer)
    }

    /// The tag this content answers to.
    pub fn typed(&self) -> (r: &'static str)
        ensures
            r@ == "generic"@,
    {
        "generic"
    }
}

/// A button list with one more button; starts a list when none was
/// there yet.
pub open spec fn appended_button(bs: Option<Seq<ButtonView>>, b: ButtonView) -> Seq<ButtonView> {
    match bs {
        Option::Some(s) => s.push(b),
        Option::None => seq![b],
    }
}

/// A card list with one more card; starts a list when none was there
/// yet.
pub open spec fn appended_card(cs: Option<Seq<CardView>>, c: CardView) -> Seq<CardView> {
    match cs {
        Option::Some(s) => s.push(c),
        Option::None => seq![c],
    }
}

/// A button-template card: a text plus a list of buttons.
pub struct CardButtons {
    text: String,
    buttons: Option<Vec<Button>>,
}

/// The mathematical model of a [`CardButtons`].
pub struct CardButtonsView {
    pub text: Seq<char>,
    pub buttons: Option<Seq<ButtonView>>,
}

impl View for CardButtons {
    type V = CardButtonsView;

    closed spec fn view(&self) -> CardButtonsView {
        CardButtonsView {
            text: self.text@,
            buttons: match self.buttons {
                Option::Some(bs) => Option::Some(bs.deep_view()),
                Option::None => Option::None,
            },
        }
    }
}

impl Clone for CardButtons {
    fn clone(&self) -> (res: Self)
        ensures
            res@ == self@,
    {
        CardButtons {
            text: self.text.clone(),
            buttons: match &self.buttons {
                Option::Some(bs) => Option::Some(clone_buttons(bs)),
                Option::None => Option::None,
            },
        }
    }
}

/// An absent button list counts as an empty one.
pub open spec fn buttons_or_empty(bs: Option<Seq<ButtonView>>) -> Seq<ButtonView> {
    match bs {
        Option::Some(s) => s,
        Option::None => Seq::empty(),
    }
}

/// The JSON document of a button-template card: exactly `{type,
/// payload}` with `payload = {template_type, text, buttons}`.
pub open spec fn spec_buttons_card_json(c: CardButtonsView) -> JsonView {
    JsonView::Obj(
        seq![
            ("type"@, JsonView::Str("template"@)),
            (
                "payload"@,
                JsonView::Obj(
                    seq![
                        ("template_type"@, JsonView::Str("button"@)),
                        ("text"@, JsonView::Str(c.text)),
                        ("buttons"@, JsonView::Arr(spec_buttons_json(buttons_or_empty(c.buttons)))),
                    ],
                ),
            ),
        ],
    )
}

impl CardButtons {
    /// A new button-template card with the given text and no buttons.
    pub fn new(text: &str) -> (r: Self)
        ensures
            r@ == (CardButtonsView { text: text@, buttons: Option::None }),
    {
        CardButtons { text: text.to_owned(), buttons: Option::None }
    }

    /// Appends a button.
    pub fn button(self, button: Button) -> (r: Self)
        ensures
            r@ == (CardButtonsView {
                buttons: Option::Some(appended_button(self@.buttons, button@)),
                ..self@
            }),
    {
        let mut bs: Vec<Button> = match self.buttons {
            Option::Some(v) => v,
            Option::None => Vec::new(),
        };
        bs.push(button);
        proof {
            assert(bs.deep_view() =~= appended_button(self@.buttons, button@));
        }
        CardButtons { text: self.text, buttons: Option::Some(bs) }
    }

    /// The card's JSON document.
    pub fn to_json(&self) -> (r: JsonValue)
        ensures
            r@ == spec_buttons_card_json(self@),
    {
        let buttons_json: Vec<JsonValue> = match &self.buttons {
            Option::Some(bs) => buttons_to_json(bs),
            Option::None => Vec::new(),
        };
        proof {
            assert(items_view(buttons_json@)
                =~= spec_buttons_json(buttons_or_empty(self@.buttons)));
        }
        let payload_entries: Vec<(String, JsonValue)> = vec![
            ("template_type".to_owned(), jstr("button")),
            ("text".to_owned(), jstr(self.text.as_str())),
            ("buttons".to_owned(), jarr(buttons_json)),
        ];
        proof {
            assert(entries_view(payload_entries@)
                =~= spec_buttons_card_json(self@)->Obj_0[1].1->Obj_0);
        }
        let outer: Vec<(String, JsonValue)> = vec![
            ("type".to_owned(), jstr("template")),
            ("payload".to_owned(), jobj(payload_entries)),
        ];
        proof {
            assert(entries_view(outer@) =~= spec_buttons_card_json(self@)->Obj_0);
        }
        jobj(outer)
    }

    /// The tag this content answers to.
    pub fn typed(&self) -> (r: &'static str)
        ensures
            r@ == "buttons"@,
    {
        "buttons"
    }
}

/// Card content of an outbound message: one of the template variants.
pub enum Card {
    Generic(CardGeneric),
    Buttons(CardButtons),
}

/// The mathematical model of a [`Card`].
pub enum CardView {
    Generic(CardGenericView),
    Buttons(CardButtonsView),
}

impl View for Card {
    type V = CardView;

    open spec fn view(&self) -> CardView {
        match self {
            Card::Generic(c) => CardView::Generic(c@),
            Card::Buttons(c) => CardView::Buttons(c@),
        }
    }
}

impl DeepView for Card {
    type V = CardView;

    open spec fn deep_view(&self) -> CardView {
        self.view()
    }
}

impl Clone for Card {
    fn clone(&self) -> (res: Self)
        ensures
            res@ == self@,
    {
        match self {
            Card::Generic(c) => Card::Generic(c.clone()),
            Card::Buttons(c) => Card::Buttons(c.clone()),
        }
    }
}

/// Clones a card list, keeping its model.
pub(crate) fn clone_cards(cs: &Vec<Card>) -> (r: Vec<Card>)
    ensures
        r.deep_view() == cs.deep_view(),
        r@.len() == cs@.len(),
{
    let mut r: Vec<Card> = Vec::new();
    let mut i: usize = 0;
    while i < cs.len()
        invariant
            i <= cs@.len(),
            r@.len() == i,
            forall|j: int| 0 <= j < i ==> r@[j]@ == cs@[j]@,
        decreases cs@.len() - i,
    {
        let c = cs[i].clone();
        r.push(c);
        i = i + 1;
    }
    proof {
        assert(r.deep_view() =~= cs.deep_view());
    }
    r
}

/// The JSON document of a card, by variant.
pub open spec fn spec_card_json(c: CardView) -> JsonView {
    match c {
        CardView::Generic(g) => spec_generic_card_json(g),
        CardView::Buttons(b) => spec_buttons_card_json(b),
    }
}

impl Card {
    /// The card's JSON document.
    pub fn to_json(&self) -> (r: JsonValue)
        ensures
            r@ == spec_card_json(self@),
    {
        match self {
            Card::Generic(c) => c.to_json(),
            Card::Buttons(c) => c.to_json(),
        }
    }

    /// The tag this content answers to.
    pub fn typed(&self) -> (r: &'static str)
        ensures
            self@ is Generic ==> r@ == "generic"@,
            self@ is Buttons ==> r@ == "buttons"@,
    {
        match self {
            Card::Generic(c) => c.typed(),
            Card::Buttons(c) => c.typed(),
        }
    }
}

} // verus!
