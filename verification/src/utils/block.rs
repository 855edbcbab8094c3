//! Conversation scripts: ordered steps, per-session progress cursors,
//! and the transition logic that advances them.

use vstd::prelude::*;

use crate::api::button::{Button, ButtonView};
use crate::api::card::{appended_button, appended_card, clone_buttons, clone_cards, Card, CardView};
use crate::api::{opt_req_view, spec_send, Message, MessageView, SendRequest, SendRequestView};
use crate::json::streq;
use crate::utils::{BotUser, BotUserView, MessagingView, PipeStatus};

verus! {

/// A step's guarding predicate, as an inspectable strategy: accept every
/// event, or only those whose datum equals a given string.
pub enum Gate {
    AcceptAll,
    MatchExact(String),
}

/// The mathematical model of a [`Gate`].
pub enum GateView {
    AcceptAll,
    MatchExact(Seq<char>),
}

impl GateView {
    /// Whether the guard lets an inbound datum through.
    pub open spec fn accepts(self, m: MessagingView) -> bool {
        match self {
            GateView::AcceptAll => true,
            GateView::MatchExact(s) => m.datum() == s,
        }
    }
}

impl View for Gate {
    type V = GateView;

    open spec fn view(&self) -> GateView {
        match self {
            Gate::AcceptAll => GateView::AcceptAll,
            Gate::MatchExact(s) => GateView::MatchExact(s@),
        }
    }
}

impl Clone for Gate {
    fn clone(&self) -> (res: Self)
        ensures
            res@ == self@,
    {
        match self {
            Gate::AcceptAll => Gate::AcceptAll,
            Gate::MatchExact(s) => Gate::MatchExact(s.clone()),
        }
    }
}

impl Gate {
    /// Evaluates the guard on an event.
    pub fn evaluate(&self, user: &BotUser) -> (r: bool)
        ensures
            r == self@.accepts(user@.message),
    {
        match self {
            Gate::AcceptAll => true,
            Gate::MatchExact(s) => streq(user.get_message().message(), s.as_str()),
        }
    }
}

/// One unit of conversation: a guarding predicate plus the message
/// configuration to emit when the guard accepts.
pub struct CartBox {
    function_controle: Gate,
    text: Option<String>,
    button: Option<Vec<Button>>,
    cards: Option<Vec<Card>>,
}

/// The mathematical model of a [`CartBox`].
pub struct CartBoxView {
    pub gate: GateView,
    pub text: Option<Seq<char>>,
    pub buttons: Option<Seq<ButtonView>>,
    pub cards: Option<Seq<CardView>>,
}

impl View for CartBox {
    type V = CartBoxView;

    closed spec fn view(&self) -> CartBoxView {
        CartBoxView {
            gate: self.function_controle@,
            text: self.text.deep_view(),
            buttons: self.button.deep_view(),
            cards: self.cards.deep_view(),
        }
    }
}

impl DeepView for CartBox {
    type V = CartBoxView;

    open spec fn deep_view(&self) -> CartBoxView {
        self.view()
    }
}

impl Clone for CartBox {
    fn clone(&self) -> (res: Self)
        ensures
            res@ == self@,
    {
        CartBox {
            function_controle: self.function_controle.clone(),
            text: match &self.text {
                Option::Some(t) => Option::Some(t.clone()),
                Option::None => Option::None,
            },
            button: match &self.button {
                Option::Some(bs) => Option::Some(clone_buttons(bs)),
                Option::None => Option::None,
            },
            cards: match &self.cards {
                Option::Some(cs) => Option::Some(clone_cards(cs)),
                Option::None => Option::None,
            },
        }
    }
}

/// The message a step builds: a configured text takes priority over
/// cards; with neither, a stock text is sent.
pub open spec fn built_message(cb: CartBoxView) -> MessageView {
    match cb.text {
        Option::Some(_) => MessageView { text: cb.text, buttons: cb.buttons, cards: Option::None },
        Option::None => match cb.cards {
            Option::Some(cs) => if cs.len() > 0 {
                MessageView { text: Option::None, buttons: Option::None, cards: cb.cards }
            } else {
                stock_message()
            },
            Option::None => stock_message(),
        },
    }
}

/// The message a step with no content falls back to.
pub open spec fn stock_message() -> MessageView {
    MessageView { text: Option::Some("Basic Text"@), buttons: Option::None, cards: Option::None }
}

/// The transition a step reports: the guard decides between advancing
/// and replaying.
pub open spec fn consume_status(cb: CartBoxView, u: BotUserView) -> PipeStatus {
    if cb.gate.accepts(u.message) {
        PipeStatus::NEXT
    } else {
        PipeStatus::REPLAY
    }
}

/// The delivery a step emits: only an accepted event builds and sends
/// a message; the token guard of [`spec_send`] still applies.
pub open spec fn consume_output(cb: CartBoxView, u: BotUserView, token: Seq<char>) -> Option<
    SendRequestView,
> {
    if cb.gate.accepts(u.message) {
        spec_send(built_message(cb), u.sender, token)
    } else {
        Option::None
    }
}

impl CartBox {
    /// An empty step: accepts every event, sends the stock text.
    pub fn new() -> (r: Self)
        ensures
            r@ == (CartBoxView {
                gate: GateView::AcceptAll,
                text: Option::None,
                buttons: Option::None,
                cards: Option::None,
            }),
    {
        CartBox {
            function_controle: Gate::AcceptAll,
            text: Option::None,
            button: Option::None,
            cards: Option::None,
        }
    }

    /// Sets the text to send.
    pub fn text(self, text: &str) -> (r: Self)
        ensures
            r@ == (CartBoxView { text: Option::Some(text@), ..self@ }),
    {
        CartBox { text: Option::Some(text.to_owned()), ..self }
    }

    /// Appends a postback button.
    pub fn button_postback(self, button_text: &str, button_payload: &str) -> (r: Self)
        ensures
            r@ == (CartBoxView {
                buttons: Option::Some(
                    appended_button(
                        self@.buttons,
                        ButtonView::Payload { title: button_text@, payload: button_payload@ },
                    ),
                ),
                ..self@
            }),
    {
        let b = Button::new_button_pb(button_text, button_payload);
        let mut bs: Vec<Button> = match self.button {
            Option::Some(v) => v,
            Option::None => Vec::new(),
        };
        proof {
            assert(bs.deep_view().push(b@) =~= appended_button(
                self@.buttons,
                ButtonView::Payload { title: button_text@, payload: button_payload@ },
            ));
        }
        bs.push(b);
        proof {
            assert(bs.deep_view() =~= appended_button(
                self@.buttons,
                ButtonView::Payload { title: button_text@, payload: button_payload@ },
            ));
        }
        CartBox { button: Option::Some(bs), ..self }
    }

    /// Appends a card.
    pub fn card(self, card: Card) -> (r: Self)
        ensures
            r@ == (CartBoxView {
                cards: Option::Some(appended_card(self@.cards, card@)),
                ..self@
            }),
    {
        let ghost cv = card@;
        let mut cs: Vec<Card> = match self.cards {
            Option::Some(v) => v,
            Option::None => Vec::new(),
        };
        cs.push(card);
        proof {
            assert(cs.deep_view() =~= appended_card(self@.cards, cv));
        }
        CartBox { cards: Option::Some(cs), ..self }
    }

    /// Replaces the gating predicate.
    pub fn with_func_ctrl(&mut self, func: Gate)
        ensures
            final(self)@ == (CartBoxView { gate: func@, ..old(self)@ }),
    {
        self.function_controle = func;
    }

    /// Builds this step's message, per [`built_message`].
    fn build(&self) -> (m: Message)
        ensures
            m@ == built_message(self@),
    {
        match &self.text {
            Option::Some(t) => {
                let buttons: Option<Vec<Button>> = match &self.button {
                    Option::Some(bs) => Option::Some(clone_buttons(bs)),
                    Option::None => Option::None,
                };
                Message::new(Option::Some(t.clone()), buttons, Option::None)
            },
            Option::None => match &self.cards {
                Option::Some(cs) => {
                    if cs.len() > 0 {
                        Message::new(Option::None, Option::None, Option::Some(clone_cards(cs)))
                    } else {
                        Message::new(
                            Option::Some("Basic Text".to_owned()),
                            Option::None,
                            Option::None,
                        )
                    }
                },
                Option::None => Message::new(
                    Option::Some("Basic Text".to_owned()),
                    Option::None,
                    Option::None,
                ),
            },
        }
    }

    /// Consumes one event: evaluates the guard, builds and readies the
    /// delivery on acceptance, and reports the transition.  An empty
    /// token yields no delivery while the transition is still reported.
    pub fn consume(&self, message: &BotUser, token: &str) -> (r: (PipeStatus, Option<SendRequest>))
        ensures
            r.0 == consume_status(self@, message@),
            opt_req_view(r.1) == consume_output(self@, message@, token@),
    {
        if self.function_controle.evaluate(message) {
            let m = self.build();
            let req = m.send(message, token);
            (PipeStatus::NEXT, req)
        } else {
            (PipeStatus::REPLAY, Option::None)
        }
    }
}

/// Membership of a sender in a child list.
pub open spec fn seq_is_member(childs: Seq<(BotUserView, int)>, sender: Seq<char>) -> bool {
    exists|i: int| 0 <= i < childs.len() && childs[i].0.sender == sender
}

/// The index of a member sender in a child list (unique under
/// [`BlockView::wf`]).
pub open spec fn seq_member_index(childs: Seq<(BotUserView, int)>, sender: Seq<char>) -> int {
    choose|i: int| 0 <= i < childs.len() && childs[i].0.sender == sender
}

/// A child list with the given sender evicted (unchanged when the
/// sender is no member).
pub open spec fn removed_sender(childs: Seq<(BotUserView, int)>, sender: Seq<char>) -> Seq<
    (BotUserView, int),
> {
    if seq_is_member(childs, sender) {
        childs.remove(seq_member_index(childs, sender))
    } else {
        childs
    }
}

/// A named conversation script: an ordered step list plus per-session
/// progress cursors.
pub struct Block {
    name: String,
    token: String,
    childs: Vec<(BotUser, usize)>,
    pipe: Vec<CartBox>,
}

/// The mathematical model of a [`Block`].
pub struct BlockView {
    pub name: Seq<char>,
    pub token: Seq<char>,
    pub childs: Seq<(BotUserView, int)>,
    pub pipe: Seq<CartBoxView>,
}

impl View for Block {
    type V = BlockView;

    closed spec fn view(&self) -> BlockView {
        BlockView {
            name: self.name@,
            token: self.token@,
            childs: self.childs@.map(|i: int, c: (BotUser, usize)| (c.0@, c.1 as int)),
            pipe: self.pipe.deep_view(),
        }
    }
}

impl DeepView for Block {
    type V = BlockView;

    open spec fn deep_view(&self) -> BlockView {
        self.view()
    }
}

impl BlockView {
    /// Well-formedness: one entry per sender, and every cursor within
    /// the step list (a cursor equal to the step count never persists;
    /// an empty script keeps its members at zero).
    pub open spec fn wf(self) -> bool {
        &&& forall|i: int, j: int|
            0 <= i < j < self.childs.len() ==> self.childs[i].0.sender != self.childs[j].0.sender
        &&& forall|i: int|
            0 <= i < self.childs.len() ==> 0 <= #[trigger] self.childs[i].1 && (self.childs[i].1
                < self.pipe.len() || self.childs[i].1 == 0)
    }

    /// Whether the sender is tracked by this script.
    pub open spec fn is_member(self, sender: Seq<char>) -> bool {
        seq_is_member(self.childs, sender)
    }

    /// The tracked cursor of a member sender.
    pub open spec fn cursor_of(self, sender: Seq<char>) -> int {
        self.childs[seq_member_index(self.childs, sender)].1
    }
}

/// The cursor transition for one reported step status: `None` means
/// the session leaves the script (conversation complete).
pub open spec fn spec_transition(status: PipeStatus, cursor: int, len: int) -> Option<int> {
    match status {
        PipeStatus::NEXT => if cursor + 1 >= len {
            Option::None
        } else {
            Option::Some(cursor + 1)
        },
        PipeStatus::REPLAY => Option::Some(cursor),
        PipeStatus::RESTART => Option::Some(0),
    }
}

/// Applies one step transition to a cursor.  `NEXT` advances and
/// completes the conversation at the end of the script; `REPLAY`
/// leaves the cursor unchanged; `RESTART` puts it back to zero,
/// whatever its prior value.
pub fn transition(status: PipeStatus, cursor: usize, len: usize) -> (r: Option<usize>)
    requires
        cursor < len,
    ensures
        match r {
            Option::Some(c) => Option::Some(c as int) == spec_transition(
                status,
                cursor as int,
                len as int,
            ) && c < len,
            Option::None => spec_transition(status, cursor as int, len as int) is None,
        },
{
    match status {
        PipeStatus::NEXT => {
            if cursor + 1 >= len {
                Option::None
            } else {
                Option::Some(cursor + 1)
            }
        },
        PipeStatus::REPLAY => Option::Some(cursor),
        PipeStatus::RESTART => Option::Some(0),
    }
}

/// The child list after an event's sender is made a member: an
/// existing member is kept; a new session enters at cursor zero.
pub open spec fn entered_childs(b: BlockView, u: BotUserView) -> Seq<(BotUserView, int)> {
    if seq_is_member(b.childs, u.sender) {
        b.childs
    } else {
        b.childs.push((u, 0))
    }
}

/// The child list after one event is routed through the script.
pub open spec fn advanced_childs(b: BlockView, u: BotUserView) -> Seq<(BotUserView, int)> {
    let cs = entered_childs(b, u);
    let idx = seq_member_index(cs, u.sender);
    let c = cs[idx].1;
    if c >= b.pipe.len() {
        cs
    } else {
        match spec_transition(consume_status(b.pipe[c], u), c, b.pipe.len() as int) {
            Option::Some(c1) => cs.update(idx, (cs[idx].0, c1)),
            Option::None => cs.remove(idx),
        }
    }
}

/// The script state after one event is routed through it: only the
/// child list changes.
pub open spec fn advanced(b: BlockView, u: BotUserView) -> BlockView {
    BlockView { childs: advanced_childs(b, u), ..b }
}

/// The delivery one routed event emits from the script.
pub open spec fn advance_output(b: BlockView, u: BotUserView) -> Option<SendRequestView> {
    let cs = entered_childs(b, u);
    let idx = seq_member_index(cs, u.sender);
    let c = cs[idx].1;
    if c >= b.pipe.len() {
        Option::None
    } else {
        consume_output(b.pipe[c], u, b.token)
    }
}

/// The script with the given sender evicted from its membership.
pub open spec fn evicted(b: BlockView, sender: Seq<char>) -> BlockView {
    BlockView { childs: removed_sender(b.childs, sender), ..b }
}

/// The delivery of one stateless pass over the script: its first step
/// is consumed and no membership or cursor is recorded.
pub open spec fn default_output(b: BlockView, u: BotUserView) -> Option<SendRequestView> {
    if b.pipe.len() == 0 {
        Option::None
    } else {
        consume_output(b.pipe[0], u, b.token)
    }
}

/// After an eviction the sender is no member (under well-formedness).
pub proof fn lemma_evicted_not_member(b: BlockView, sender: Seq<char>)
    requires
        b.wf(),
    ensures
        !evicted(b, sender).is_member(sender),
        evicted(b, sender).wf(),
{
    let cs = b.childs;
    if seq_is_member(cs, sender) {
        let idx = seq_member_index(cs, sender);
        assert(0 <= idx < cs.len() && cs[idx].0.sender == sender);
        let res = cs.remove(idx);
        assert forall|i: int| 0 <= i < res.len() implies res[i].0.sender != sender by {
            let oi = if i < idx { i } else { i + 1 };
            assert(res[i] == cs[oi]);
            if oi < idx {
                assert(cs[oi].0.sender != cs[idx].0.sender);
            } else {
                assert(cs[idx].0.sender != cs[oi].0.sender);
            }
        }
        assert forall|i: int, j: int|
            0 <= i < j < res.len() implies res[i].0.sender != res[j].0.sender by {
            let oi = if i < idx { i } else { i + 1 };
            let oj = if j < idx { j } else { j + 1 };
            assert(res[i] == cs[oi] && res[j] == cs[oj]);
        }
    }
}

/// Under well-formedness, the member index is the only index carrying
/// the sender.
pub proof fn lemma_member_index_unique(
    childs: Seq<(BotUserView, int)>,
    sender: Seq<char>,
    i: int,
)
    requires
        forall|x: int, y: int|
            0 <= x < y < childs.len() ==> childs[x].0.sender != childs[y].0.sender,
        0 <= i < childs.len(),
        childs[i].0.sender == sender,
    ensures
        seq_is_member(childs, sender),
        seq_member_index(childs, sender) == i,
{
    assert(seq_is_member(childs, sender));
    let j = seq_member_index(childs, sender);
    assert(0 <= j < childs.len() && childs[j].0.sender == sender);
    if i < j {
        assert(childs[i].0.sender != childs[j].0.sender);
    } else if j < i {
        assert(childs[j].0.sender != childs[i].0.sender);
    }
}

/// Entering preserves well-formedness and makes the sender a member.
pub proof fn lemma_entered_wf(b: BlockView, u: BotUserView)
    requires
        b.wf(),
    ensures
        (BlockView { childs: entered_childs(b, u), ..b }).wf(),
        seq_is_member(entered_childs(b, u), u.sender),
{
    let cs = entered_childs(b, u);
    if !seq_is_member(b.childs, u.sender) {
        assert(cs[cs.len() - 1].0.sender == u.sender);
        assert forall|i: int, j: int|
            0 <= i < j < cs.len() implies cs[i].0.sender != cs[j].0.sender by {
            if j < cs.len() - 1 {
                assert(cs[i] == b.childs[i] && cs[j] == b.childs[j]);
            } else {
                assert(cs[i] == b.childs[i]);
                assert(!(b.childs[i].0.sender == u.sender));
            }
        }
    }
}

/// Advancing preserves well-formedness.
pub proof fn lemma_advanced_wf(b: BlockView, u: BotUserView)
    requires
        b.wf(),
    ensures
        advanced(b, u).wf(),
{
    lemma_entered_wf(b, u);
    let cs = entered_childs(b, u);
    let idx = seq_member_index(cs, u.sender);
    assert(0 <= idx < cs.len() && cs[idx].0.sender == u.sender);
    let c = cs[idx].1;
    let res = advanced_childs(b, u);
    if c >= b.pipe.len() {
    } else {
        match spec_transition(consume_status(b.pipe[c], u), c, b.pipe.len() as int) {
            Option::Some(c1) => {
                assert(0 <= c1 && (c1 < b.pipe.len() || c1 == 0));
                assert forall|i: int, j: int|
                    0 <= i < j < res.len() implies res[i].0.sender != res[j].0.sender by {
                    assert(res[i].0 == cs[i].0 && res[j].0 == cs[j].0);
                }
            },
            Option::None => {
                assert forall|i: int, j: int|
                    0 <= i < j < res.len() implies res[i].0.sender != res[j].0.sender by {
                    let oi = if i < idx { i } else { i + 1 };
                    let oj = if j < idx { j } else { j + 1 };
                    assert(res[i] == cs[oi] && res[j] == cs[oj]);
                }
            },
        }
    }
}

/// The stock script: named `Hello`, no token, no steps, no members.
pub open spec fn spec_default_block() -> BlockView {
    BlockView { name: "Hello"@, token: ""@, childs: Seq::empty(), pipe: Seq::empty() }
}

/// Removing the one entry of a sender leaves a child list without it.
proof fn lemma_remove_member(cs: Seq<(BotUserView, int)>, s: Seq<char>, idx: int)
    requires
        forall|x: int, y: int| 0 <= x < y < cs.len() ==> cs[x].0.sender != cs[y].0.sender,
        0 <= idx < cs.len(),
        cs[idx].0.sender == s,
    ensures
        !seq_is_member(cs.remove(idx), s),
{
    let res = cs.remove(idx);
    assert forall|i: int| 0 <= i < res.len() implies res[i].0.sender != s by {
        let oi = if i < idx { i } else { i + 1 };
        assert(res[i] == cs[oi]);
        if oi < idx {
            assert(cs[oi].0.sender != cs[idx].0.sender);
        } else {
            assert(cs[idx].0.sender != cs[oi].0.sender);
        }
    }
}

/// Law: an accepted event advances a member session's cursor by
/// exactly one step, and completes the conversation — evicting the
/// session — when the cursor thereby leaves the script.
pub proof fn lemma_completion_step(b: BlockView, u: BotUserView)
    requires
        b.wf(),
        b.is_member(u.sender),
        b.cursor_of(u.sender) < b.pipe.len(),
        b.pipe[b.cursor_of(u.sender)].gate.accepts(u.message),
    ensures
        advanced(b, u).name == b.name,
        advanced(b, u).token == b.token,
        advanced(b, u).pipe == b.pipe,
        advanced(b, u).wf(),
        b.cursor_of(u.sender) + 1 < b.pipe.len() ==> advanced(b, u).is_member(u.sender)
            && advanced(b, u).cursor_of(u.sender) == b.cursor_of(u.sender) + 1,
        b.cursor_of(u.sender) + 1 >= b.pipe.len() ==> !advanced(b, u).is_member(u.sender),
        advance_output(b, u) == consume_output(
            b.pipe[b.cursor_of(u.sender)],
            u,
            b.token,
        ),
{
    lemma_advanced_wf(b, u);
    let cs = entered_childs(b, u);
    assert(cs == b.childs);
    let idx = seq_member_index(cs, u.sender);
    assert(0 <= idx < cs.len() && cs[idx].0.sender == u.sender);
    let c = cs[idx].1;
    assert(c == b.cursor_of(u.sender));
    assert(consume_status(b.pipe[c], u) == PipeStatus::NEXT);
    if c + 1 >= b.pipe.len() {
        lemma_remove_member(cs, u.sender, idx);
        assert(advanced_childs(b, u) == cs.remove(idx));
    } else {
        let res = cs.update(idx, (cs[idx].0, c + 1));
        assert(advanced_childs(b, u) == res);
        assert(res[idx].0.sender == u.sender);
        assert(seq_is_member(res, u.sender));
        assert forall|x: int, y: int|
            0 <= x < y < res.len() implies res[x].0.sender != res[y].0.sender by {
            assert(res[x].0 == cs[x].0 && res[y].0 == cs[y].0);
        }
        lemma_member_index_unique(res, u.sender, idx);
        assert(advanced(b, u).cursor_of(u.sender) == c + 1);
    }
}

/// Law: a new session's first accepted event enters it at the top of
/// the script and runs the first step (completing at once when the
/// script has a single step).
pub proof fn lemma_entry_step(b: BlockView, u: BotUserView)
    requires
        b.wf(),
        !b.is_member(u.sender),
        b.pipe.len() > 0,
        b.pipe[0].gate.accepts(u.message),
    ensures
        advanced(b, u).name == b.name,
        advanced(b, u).token == b.token,
        advanced(b, u).pipe == b.pipe,
        advanced(b, u).wf(),
        1 < b.pipe.len() ==> advanced(b, u).is_member(u.sender) && advanced(b, u).cursor_of(
            u.sender,
        ) == 1,
        1 >= b.pipe.len() ==> !advanced(b, u).is_member(u.sender),
        advance_output(b, u) == consume_output(b.pipe[0], u, b.token),
{
    lemma_entered_wf(b, u);
    lemma_advanced_wf(b, u);
    let cs = entered_childs(b, u);
    assert(cs == b.childs.push((u, 0)));
    assert(cs[cs.len() - 1].0.sender == u.sender);
    let b_entered = BlockView { childs: cs, ..b };
    lemma_member_index_unique(cs, u.sender, cs.len() - 1);
    let idx = seq_member_index(cs, u.sender);
    assert(idx == cs.len() - 1);
    let c = cs[idx].1;
    assert(c == 0);
    assert(consume_status(b.pipe[0], u) == PipeStatus::NEXT);
    if 1 >= b.pipe.len() {
        lemma_remove_member(cs, u.sender, idx);
        assert(advanced_childs(b, u) == cs.remove(idx));
    } else {
        let res = cs.update(idx, (cs[idx].0, 1));
        assert(advanced_childs(b, u) == res);
        assert(res[idx].0.sender == u.sender);
        assert(seq_is_member(res, u.sender));
        assert forall|x: int, y: int|
            0 <= x < y < res.len() implies res[x].0.sender != res[y].0.sender by {
            assert(res[x].0 == cs[x].0 && res[y].0 == cs[y].0);
        }
        lemma_member_index_unique(res, u.sender, idx);
        assert(advanced(b, u).cursor_of(u.sender) == 1);
    }
}

/// Law: when the guarded step rejects the event — or the cursor stands
/// defensively outside the script — routing leaves the script exactly
/// as it was and sends nothing; repeated such events change nothing,
/// however many arrive.
pub proof fn lemma_replay_stability(b: BlockView, u: BotUserView)
    requires
        b.wf(),
        b.is_member(u.sender),
        b.cursor_of(u.sender) < b.pipe.len() ==> !b.pipe[b.cursor_of(u.sender)].gate.accepts(
            u.message,
        ),
    ensures
        advanced(b, u) == b,
        advance_output(b, u) is None,
{
    let cs = entered_childs(b, u);
    assert(cs == b.childs);
    let idx = seq_member_index(cs, u.sender);
    assert(0 <= idx < cs.len() && cs[idx].0.sender == u.sender);
    let c = cs[idx].1;
    assert(c == b.cursor_of(u.sender));
    if c < b.pipe.len() {
        assert(consume_status(b.pipe[c], u) == PipeStatus::REPLAY);
        assert(spec_transition(PipeStatus::REPLAY, c, b.pipe.len() as int) == Option::Some(c));
        assert(cs.update(idx, (cs[idx].0, c)) =~= cs);
    }
    assert(advanced_childs(b, u) == b.childs);
}

/// Runs a sequence of events through the script, in order.
pub open spec fn run_events(b: BlockView, events: Seq<BotUserView>) -> BlockView
    decreases events.len(),
{
    if events.len() == 0 {
        b
    } else {
        run_events(advanced(b, events[0]), events.skip(1))
    }
}

/// From cursor `c`, one accepted event per remaining step completes
/// the conversation.
proof fn lemma_completion_from(b: BlockView, events: Seq<BotUserView>, s: Seq<char>, c: int)
    requires
        b.wf(),
        b.is_member(s),
        b.cursor_of(s) == c,
        0 <= c < b.pipe.len(),
        events.len() == b.pipe.len() - c,
        forall|i: int| 0 <= i < events.len() ==> (#[trigger] events[i]).sender == s,
        forall|i: int|
            0 <= i < events.len() ==> b.pipe[c + i].gate.accepts(
                (#[trigger] events[i]).message,
            ),
    ensures
        !run_events(b, events).is_member(s),
        forall|k: int|
            0 <= k < events.len() ==> (#[trigger] run_events(b, events.take(k))).is_member(s)
                && run_events(b, events.take(k)).cursor_of(s) == c + k,
    decreases events.len(),
{
    assert(events[0].sender == s);
    assert(b.pipe[c].gate.accepts(events[0].message));
    lemma_completion_step(b, events[0]);
    let b1 = advanced(b, events[0]);
    assert(events.take(0) =~= Seq::<BotUserView>::empty());
    assert(run_events(b, events.take(0)) == b);
    if c + 1 >= b.pipe.len() {
        assert(events.len() == 1);
        assert(events.skip(1).len() == 0);
        assert(run_events(b1, events.skip(1)) == b1);
        assert(run_events(b, events) == run_events(b1, events.skip(1)));
    } else {
        let rest = events.skip(1);
        assert forall|i: int| 0 <= i < rest.len() implies (#[trigger] rest[i]).sender == s by {
            assert(rest[i] == events[i + 1]);
        }
        assert forall|i: int|
            0 <= i < rest.len() implies b1.pipe[c + 1 + i].gate.accepts(
            (#[trigger] rest[i]).message,
        ) by {
            assert(rest[i] == events[i + 1]);
            assert(b.pipe[c + (i + 1)].gate.accepts(events[i + 1].message));
        }
        lemma_completion_from(b1, rest, s, c + 1);
        assert(run_events(b, events) == run_events(b1, rest));
        assert forall|k: int|
            1 <= k < events.len() implies (#[trigger] run_events(b, events.take(k))).is_member(s)
                && run_events(b, events.take(k)).cursor_of(s) == c + k by {
            assert(events.take(k)[0] == events[0]);
            assert(events.take(k).skip(1) =~= rest.take(k - 1));
            assert(run_events(b, events.take(k)) == run_events(b1, events.take(k).skip(1)));
            assert(run_events(b1, rest.take(k - 1)).is_member(s) && run_events(
                b1,
                rest.take(k - 1),
            ).cursor_of(s) == c + 1 + (k - 1));
        }
    }
}

/// Law: a session not yet tracked that sends one accepted event per
/// step walks the cursor from the top strictly through every step —
/// after `k` events it stands at cursor `k` — and is no longer a
/// member once the last step has run.
pub proof fn lemma_completion(b: BlockView, events: Seq<BotUserView>, s: Seq<char>)
    requires
        b.wf(),
        !b.is_member(s),
        b.pipe.len() > 0,
        events.len() == b.pipe.len(),
        forall|i: int| 0 <= i < events.len() ==> (#[trigger] events[i]).sender == s,
        forall|i: int|
            0 <= i < events.len() ==> b.pipe[i].gate.accepts((#[trigger] events[i]).message),
    ensures
        !run_events(b, events).is_member(s),
        forall|k: int|
            1 <= k < events.len() ==> (#[trigger] run_events(b, events.take(k))).is_member(s)
                && run_events(b, events.take(k)).cursor_of(s) == k,
{
    assert(events[0].sender == s);
    assert(b.pipe[0].gate.accepts(events[0].message));
    lemma_entry_step(b, events[0]);
    let b1 = advanced(b, events[0]);
    if 1 >= b.pipe.len() {
        assert(events.len() == 1);
        assert(events.skip(1).len() == 0);
        assert(run_events(b1, events.skip(1)) == b1);
        assert(run_events(b, events) == run_events(b1, events.skip(1)));
    } else {
        let rest = events.skip(1);
        assert forall|i: int| 0 <= i < rest.len() implies (#[trigger] rest[i]).sender == s by {
            assert(rest[i] == events[i + 1]);
        }
        assert forall|i: int|
            0 <= i < rest.len() implies b1.pipe[1 + i].gate.accepts(
            (#[trigger] rest[i]).message,
        ) by {
            assert(rest[i] == events[i + 1]);
            assert(b.pipe[i + 1].gate.accepts(events[i + 1].message));
        }
        lemma_completion_from(b1, rest, s, 1);
        assert(run_events(b, events) == run_events(b1, rest));
        assert forall|k: int|
            1 <= k < events.len() implies (#[trigger] run_events(b, events.take(k))).is_member(s)
                && run_events(b, events.take(k)).cursor_of(s) == k by {
            assert(events.take(k)[0] == events[0]);
            assert(events.take(k).skip(1) =~= rest.take(k - 1));
            assert(run_events(b, events.take(k)) == run_events(b1, events.take(k).skip(1)));
            assert(run_events(b1, rest.take(k - 1)).is_member(s) && run_events(
                b1,
                rest.take(k - 1),
            ).cursor_of(s) == 1 + (k - 1));
        }
    }
}

/// Law: an empty delivery token suppresses the network delivery while
/// the accepted event still advances the conversation.
pub proof fn lemma_token_guard(cb: CartBoxView, u: BotUserView)
    requires
        cb.gate.accepts(u.message),
    ensures
        consume_status(cb, u) == PipeStatus::NEXT,
        consume_output(cb, u, Seq::<char>::empty()) is None,
{
}

impl Default for Block {
    /// A stock script: named `Hello`, no token, no steps, no members.
    fn default() -> (r: Self)
        ensures
            r@ == spec_default_block(),
            r@.wf(),
    {
        let b = Block {
            name: "Hello".to_owned(),
            token: "".to_owned(),
            childs: Vec::new(),
            pipe: Vec::new(),
        };
        proof {
            assert(b@.childs =~= Seq::<(BotUserView, int)>::empty());
            assert(b@.pipe =~= Seq::<CartBoxView>::empty());
        }
        b
    }
}

impl Block {
    /// A new script with the given name.
    pub fn new(name: &str) -> (r: Self)
        ensures
            r@ == (BlockView {
                name: name@,
                token: ""@,
                childs: Seq::empty(),
                pipe: Seq::empty(),
            }),
            r@.wf(),
    {
        let mut block = Block::default();
        block.set_name(name);
        block
    }

    /// Renames the script.
    pub fn set_name(&mut self, name: &str)
        ensures
            final(self)@ == (BlockView { name: name@, ..old(self)@ }),
            old(self)@.wf() ==> final(self)@.wf(),
    {
        self.name = name.to_owned();
    }

    /// Sets the delivery token the steps send with.
    pub fn set_token(&mut self, token: &str)
        ensures
            final(self)@ == (BlockView { token: token@, ..old(self)@ }),
            old(self)@.wf() ==> final(self)@.wf(),
    {
        self.token = token.to_owned();
    }

    /// The script's name.
    pub fn get_name(&self) -> (r: &str)
        ensures
            r@ == self@.name,
    {
        self.name.as_str()
    }

    /// The script's steps.
    pub fn get_pipe(&self) -> (r: &Vec<CartBox>)
        ensures
            r.deep_view() == self@.pipe,
    {
        &self.pipe
    }

    /// Appends a step.
    #[allow(non_snake_case)]
    pub fn cartBox(self, pipeBox: CartBox) -> (r: Self)
        ensures
            r@ == (BlockView { pipe: self@.pipe.push(pipeBox@), ..self@ }),
            self@.wf() ==> r@.wf(),
    {
        let ghost pv = pipeBox@;
        let mut pipe = self.pipe;
        pipe.push(pipeBox);
        proof {
            assert(pipe.deep_view() =~= self@.pipe.push(pv));
        }
        Block { name: self.name, token: self.token, childs: self.childs, pipe }
    }

    /// Whether the event's sender is tracked by this script.
    pub fn find(&self, user: &BotUser) -> (r: bool)
        ensures
            r == self@.is_member(user@.sender),
    {
        let mut i: usize = 0;
        while i < self.childs.len()
            invariant
                i <= self.childs.len(),
                forall|j: int| 0 <= j < i ==> self@.childs[j].0.sender != user@.sender,
            decreases self.childs.len() - i,
        {
            if streq(self.childs[i].0.get_sender(), user.get_sender()) {
                proof {
                    assert(self@.childs[i as int].0.sender == user@.sender);
                }
                return true;
            }
            i = i + 1;
        }
        false
    }

    /// The index tracking the event's sender.
    fn index_of(&self, user: &BotUser) -> (idx: usize)
        requires
            seq_is_member(self@.childs, user@.sender),
        ensures
            idx < self@.childs.len(),
            self@.childs[idx as int].0.sender == user@.sender,
    {
        let mut i: usize = 0;
        while i < self.childs.len()
            invariant
                i <= self.childs.len(),
                seq_is_member(self@.childs, user@.sender),
                forall|j: int| 0 <= j < i ==> self@.childs[j].0.sender != user@.sender,
            decreases self.childs.len() - i,
        {
            if streq(self.childs[i].0.get_sender(), user.get_sender()) {
                return i;
            }
            i = i + 1;
        }
        proof {
            assert(false);
        }
        0
    }

    /// Evicts the event's sender from the script's membership.
    pub fn remove_child(&mut self, user: &BotUser)
        requires
            old(self)@.wf(),
        ensures
            final(self)@ == (BlockView {
                childs: removed_sender(old(self)@.childs, user@.sender),
                ..old(self)@
            }),
            final(self)@.wf(),
    {
        if self.find(user) {
            let idx = self.index_of(user);
            proof {
                lemma_member_index_unique(self@.childs, user@.sender, idx as int);
            }
            self.childs.remove(idx);
            proof {
                assert(final(self)@.childs =~= removed_sender(old(self)@.childs, user@.sender));
                assert forall|i: int, j: int|
                    0 <= i < j < final(self)@.childs.len()
                    implies final(self)@.childs[i].0.sender != final(self)@.childs[j].0.sender by {
                    let oi = if i < idx { i } else { i + 1 };
                    let oj = if j < idx { j } else { j + 1 };
                    assert(final(self)@.childs[i] == old(self)@.childs[oi]);
                    assert(final(self)@.childs[j] == old(self)@.childs[oj]);
                }
            }
        }
    }

    /// One stateless pass: consumes the first step for this event
    /// without recording membership or a cursor.  This is the
    /// registry's catch-all policy for its default script, which thus
    /// serves every unmatched session from the top.
    pub fn root_once(&self, user: &BotUser) -> (r: Option<SendRequest>)
        ensures
            opt_req_view(r) == default_output(self@, user@),
    {
        if self.pipe.len() == 0 {
            return Option::None;
        }
        let step_result = self.pipe[0].consume(user, self.token.as_str());
        step_result.1
    }

    /// Routes one event through the script: enters the session when it
    /// is new, consumes the step under its cursor, applies the
    /// reported transition, and hands back the step's delivery.
    pub fn root(&mut self, user: &BotUser) -> (r: Option<SendRequest>)
        requires
            old(self)@.wf(),
        ensures
            final(self)@ == advanced(old(self)@, user@),
            opt_req_view(r) == advance_output(old(self)@, user@),
            final(self)@.wf(),
    {
        proof {
            lemma_entered_wf(old(self)@, user@);
            lemma_advanced_wf(old(self)@, user@);
        }
        if !self.find(user) {
            let u = user.clone();
            self.childs.push((u, 0));
            proof {
                assert(self@.childs =~= entered_childs(old(self)@, user@));
            }
        }
        proof {
            assert(self@.childs == entered_childs(old(self)@, user@));
        }
        let idx = self.index_of(user);
        proof {
            lemma_member_index_unique(self@.childs, user@.sender, idx as int);
        }
        let c = self.childs[idx].1;
        if c >= self.pipe.len() {
            return Option::None;
        }
        let step_result = self.pipe[c].consume(user, self.token.as_str());
        let status = step_result.0;
        let req = step_result.1;
        let ghost before = self@.childs;
        match transition(status, c, self.pipe.len()) {
            Option::Some(c1) => {
                self.childs[idx].1 = c1;
                proof {
                    assert(self@.childs =~= before.update(
                        idx as int,
                        (before[idx as int].0, c1 as int),
                    ));
                }
            },
            Option::None => {
                self.childs.remove(idx);
                proof {
                    assert(self@.childs =~= before.remove(idx as int));
                }
            },
        }
        proof {
            assert(self@.childs =~= advanced_childs(old(self)@, user@));
        }
        req
    }
}

} // verus!
