//! A scripted-conversation engine for a chat platform.
//!
//! Named conversation scripts ([`utils::block::Block`]) hold ordered
//! steps and per-session progress cursors; the registry
//! ([`BotMessenger`]) routes each inbound session event to a script by
//! exact name match, by existing membership, or to a default catch-all
//! script.  Steps build platform-formatted outbound messages
//! ([`api::Message`]) whose JSON wire encoding is pinned down exactly.
//! What reaches the network, and what arrives from it, is the business
//! of the surrounding transport layer: routing yields the delivery to
//! perform ([`api::SendRequest`]) as a value.

pub mod api;
pub mod json;
pub mod utils;

use vstd::prelude::*;

use crate::api::{opt_req_view, SendRequest, SendRequestView};
use crate::json::streq;
use crate::utils::block::{
    advance_output, advanced, consume_output, default_output, evicted, Block, BlockView,
};
use crate::utils::{BotUser, BotUserView, Conf, ConfView};

verus! {

/// The conversation registry: a set of named scripts, a default
/// catch-all script, the process configuration, and an optional static
/// file root for the surrounding server.
pub struct BotMessenger {
    conf: Conf,
    blocks: Vec<Block>,
    block_default: Block,
    static_file: Option<String>,
}

/// The mathematical model of a [`BotMessenger`].
pub struct BotMessengerView {
    pub conf: ConfView,
    pub blocks: Seq<BlockView>,
    pub block_default: BlockView,
    pub static_file: Option<Seq<char>>,
}

impl View for BotMessenger {
    type V = BotMessengerView;

    closed spec fn view(&self) -> BotMessengerView {
        BotMessengerView {
            conf: self.conf@,
            blocks: self.blocks.deep_view(),
            block_default: self.block_default@,
            static_file: self.static_file.deep_view(),
        }
    }
}

impl BotMessengerView {
    /// Well-formedness: every script, the default one included, is
    /// well-formed.
    pub open spec fn wf(self) -> bool {
        &&& forall|i: int| 0 <= i < self.blocks.len() ==> (#[trigger] self.blocks[i]).wf()
        &&& self.block_default.wf()
    }
}

/// The first script whose name equals the datum, or `-1`.
pub open spec fn first_name_match(blocks: Seq<BlockView>, datum: Seq<char>) -> int
    decreases blocks.len(),
{
    if blocks.len() == 0 {
        -1
    } else if blocks[0].name == datum {
        0
    } else {
        let r = first_name_match(blocks.skip(1), datum);
        if r < 0 {
            -1
        } else {
            r + 1
        }
    }
}

/// The first script tracking the sender, or `-1`.
pub open spec fn first_member_match(blocks: Seq<BlockView>, sender: Seq<char>) -> int
    decreases blocks.len(),
{
    if blocks.len() == 0 {
        -1
    } else if blocks[0].is_member(sender) {
        0
    } else {
        let r = first_member_match(blocks.skip(1), sender);
        if r < 0 {
            -1
        } else {
            r + 1
        }
    }
}

/// What [`first_name_match`] finds: the first index with the name, or
/// `-1` when no script carries it.
pub proof fn lemma_first_name_match(blocks: Seq<BlockView>, datum: Seq<char>)
    ensures
        -1 <= first_name_match(blocks, datum) < blocks.len(),
        first_name_match(blocks, datum) >= 0 ==> blocks[first_name_match(blocks, datum)].name
            == datum,
        forall|j: int|
            0 <= j < blocks.len() && (j < first_name_match(blocks, datum) || first_name_match(
                blocks,
                datum,
            ) == -1) ==> (#[trigger] blocks[j]).name != datum,
    decreases blocks.len(),
{
    if blocks.len() > 0 && blocks[0].name != datum {
        lemma_first_name_match(blocks.skip(1), datum);
        let r = first_name_match(blocks, datum);
        assert forall|j: int|
            0 <= j < blocks.len() && (j < r || r == -1) implies (#[trigger] blocks[j]).name
            != datum by {
            if j > 0 {
                assert(blocks.skip(1)[j - 1] == blocks[j]);
            }
        }
        if r >= 0 {
            assert(blocks.skip(1)[r - 1] == blocks[r]);
        }
    }
}

/// What [`first_member_match`] finds: the first index tracking the
/// sender, or `-1` when none does.
pub proof fn lemma_first_member_match(blocks: Seq<BlockView>, sender: Seq<char>)
    ensures
        -1 <= first_member_match(blocks, sender) < blocks.len(),
        first_member_match(blocks, sender) >= 0 ==> blocks[first_member_match(
            blocks,
            sender,
        )].is_member(sender),
        forall|j: int|
            0 <= j < blocks.len() && (j < first_member_match(blocks, sender) || first_member_match(
                blocks,
                sender,
            ) == -1) ==> !(#[trigger] blocks[j]).is_member(sender),
    decreases blocks.len(),
{
    if blocks.len() > 0 && !blocks[0].is_member(sender) {
        lemma_first_member_match(blocks.skip(1), sender);
        let r = first_member_match(blocks, sender);
        assert forall|j: int|
            0 <= j < blocks.len() && (j < r || r == -1) implies !(#[trigger] blocks[j]).is_member(
            sender,
        ) by {
            if j > 0 {
                assert(blocks.skip(1)[j - 1] == blocks[j]);
            }
        }
        if r >= 0 {
            assert(blocks.skip(1)[r - 1] == blocks[r]);
        }
    }
}

/// Every script's membership with the sender evicted.
pub open spec fn evicted_all(blocks: Seq<BlockView>, sender: Seq<char>) -> Seq<BlockView> {
    blocks.map(|i: int, b: BlockView| evicted(b, sender))
}

/// The scripts after one event is routed, first match winning: a name
/// match evicts the session everywhere and starts the named script
/// afresh; else an existing membership continues; else nothing changes
/// (the default script serves the event statelessly).
pub open spec fn routed_blocks(m: BotMessengerView, u: BotUserView) -> Seq<BlockView> {
    let nm = first_name_match(m.blocks, u.message.datum());
    let mm = first_member_match(m.blocks, u.sender);
    if nm >= 0 {
        evicted_all(m.blocks, u.sender).update(nm, advanced(evicted(m.blocks[nm], u.sender), u))
    } else if mm >= 0 {
        m.blocks.update(mm, advanced(m.blocks[mm], u))
    } else {
        m.blocks
    }
}

/// The registry after one event is routed: only the scripts change.
pub open spec fn routed(m: BotMessengerView, u: BotUserView) -> BotMessengerView {
    BotMessengerView { blocks: routed_blocks(m, u), ..m }
}

/// The delivery one routed event emits.
pub open spec fn route_output(m: BotMessengerView, u: BotUserView) -> Option<SendRequestView> {
    let nm = first_name_match(m.blocks, u.message.datum());
    let mm = first_member_match(m.blocks, u.sender);
    if nm >= 0 {
        advance_output(evicted(m.blocks[nm], u.sender), u)
    } else if mm >= 0 {
        advance_output(m.blocks[mm], u)
    } else {
        default_output(m.block_default, u)
    }
}

/// Law: a session tracked by one script whose event datum exactly
/// names another script is evicted from the first and begins the named
/// script afresh on the same event: the named script's first step is
/// the one consumed, and an accepted first step puts the session at
/// cursor one there.
pub proof fn lemma_script_switch(m: BotMessengerView, u: BotUserView, a: int, b: int)
    requires
        m.wf(),
        0 <= a < m.blocks.len(),
        0 <= b < m.blocks.len(),
        a != b,
        m.blocks[a].is_member(u.sender),
        first_name_match(m.blocks, u.message.datum()) == b,
    ensures
        !routed(m, u).blocks[a].is_member(u.sender),
        routed(m, u).blocks[b] == advanced(evicted(m.blocks[b], u.sender), u),
        route_output(m, u) == advance_output(evicted(m.blocks[b], u.sender), u),
        m.blocks[b].pipe.len() > 0 && m.blocks[b].pipe[0].gate.accepts(u.message) ==> {
            &&& route_output(m, u) == consume_output(
                m.blocks[b].pipe[0],
                u,
                m.blocks[b].token,
            )
            &&& 1 < m.blocks[b].pipe.len() ==> routed(m, u).blocks[b].is_member(u.sender)
                && routed(m, u).blocks[b].cursor_of(u.sender) == 1
        },
{
    let sender = u.sender;
    assert(routed_blocks(m, u) == evicted_all(m.blocks, sender).update(
        b,
        advanced(evicted(m.blocks[b], sender), u),
    ));
    assert(routed(m, u).blocks[a] == evicted_all(m.blocks, sender)[a]);
    assert(evicted_all(m.blocks, sender)[a] == evicted(m.blocks[a], sender));
    crate::utils::block::lemma_evicted_not_member(m.blocks[a], sender);
    let eb = evicted(m.blocks[b], sender);
    crate::utils::block::lemma_evicted_not_member(m.blocks[b], sender);
    assert(eb.pipe == m.blocks[b].pipe && eb.token == m.blocks[b].token);
    if m.blocks[b].pipe.len() > 0 && m.blocks[b].pipe[0].gate.accepts(u.message) {
        crate::utils::block::lemma_entry_step(eb, u);
    }
}

/// Law: an event matching no script name and tracked by no script
/// leaves the whole registry unchanged; the default script serves it
/// statelessly, from its first step, on every such occurrence.
pub proof fn lemma_default_fallback(m: BotMessengerView, u: BotUserView)
    requires
        first_name_match(m.blocks, u.message.datum()) == -1,
        first_member_match(m.blocks, u.sender) == -1,
    ensures
        routed(m, u) == m,
        route_output(m, u) == default_output(m.block_default, u),
{
    assert(routed_blocks(m, u) == m.blocks);
}

impl BotMessenger {
    /// An empty registry with the stock configuration and a stock
    /// default script.
    pub fn new() -> (r: Self)
        ensures
            r@ == (BotMessengerView {
                conf: crate::utils::spec_default_conf(),
                blocks: Seq::empty(),
                block_default: crate::utils::block::spec_default_block(),
                static_file: Option::None,
            }),
            r@.wf(),
    {
        let r = BotMessenger {
            conf: Conf::default(),
            blocks: Vec::new(),
            block_default: Block::default(),
            static_file: Option::None,
        };
        proof {
            assert(r@.blocks =~= Seq::<BlockView>::empty());
        }
        r
    }

    /// Adds a script, handing it the configured delivery token.
    pub fn block(self, value: Block) -> (r: Self)
        ensures
            r@ == (BotMessengerView {
                blocks: self@.blocks.push(
                    BlockView { token: self@.conf.token_fb_page, ..value@ },
                ),
                ..self@
            }),
            self@.wf() && value@.wf() ==> r@.wf(),
    {
        let mut block = value;
        let mut this = self;
        block.set_token(this.conf.get_token_fb_page());
        this.add_block(block);
        this
    }

    /// Replaces the default script, handing it the configured delivery
    /// token.
    pub fn block_default(self, value: Block) -> (r: Self)
        ensures
            r@ == (BotMessengerView {
                block_default: BlockView { token: self@.conf.token_fb_page, ..value@ },
                ..self@
            }),
            self@.wf() && value@.wf() ==> r@.wf(),
    {
        let mut block = value;
        let mut this = self;
        block.set_token(this.conf.get_token_fb_page());
        this.block_default = block;
        this
    }

    /// Replaces the configuration.
    pub fn with_conf(self, conf: Conf) -> (r: Self)
        ensures
            r@ == (BotMessengerView { conf: conf@, ..self@ }),
            self@.wf() ==> r@.wf(),
    {
        BotMessenger { conf, ..self }
    }

    /// Sets the delivery token, on the configuration and on every
    /// script already added, the default one included.
    pub fn with_token_fb(self, token: &str) -> (r: Self)
        ensures
            r@ == (BotMessengerView {
                conf: ConfView { token_fb_page: token@, ..self@.conf },
                blocks: self@.blocks.map(|i: int, b: BlockView| BlockView { token: token@, ..b }),
                block_default: BlockView { token: token@, ..self@.block_default },
                ..self@
            }),
            self@.wf() ==> r@.wf(),
    {
        let mut this = self;
        this.conf.set_token_fb_page(token);
        let ghost before = this@.blocks;
        let mut i: usize = 0;
        while i < this.blocks.len()
            invariant
                i <= this.blocks@.len(),
                this@.blocks.len() == before.len(),
                before == self@.blocks,
                this@.conf == (ConfView { token_fb_page: token@, ..self@.conf }),
                this@.block_default == self@.block_default,
                this@.static_file == self@.static_file,
                forall|j: int|
                    0 <= j < i ==> this@.blocks[j] == (BlockView {
                        token: token@,
                        ..before[j]
                    }),
                forall|j: int| i <= j < before.len() ==> this@.blocks[j] == before[j],
            decreases this.blocks@.len() - i,
        {
            let ghost pre = this@.blocks;
            this.blocks[i].set_token(token);
            proof {
                assert forall|j: int|
                    0 <= j < i + 1 implies this@.blocks[j] == (BlockView {
                        token: token@,
                        ..before[j]
                    }) by {
                    if j < i {
                        assert(this@.blocks[j] == pre[j]);
                        assert(pre[j] == (BlockView { token: token@, ..before[j] }));
                    } else {
                        assert(pre[j] == before[j]);
                        assert(this@.blocks[j] == (BlockView { token: token@, ..pre[j] }));
                    }
                }
            }
            i = i + 1;
        }
        this.block_default.set_token(token);
        proof {
            assert(this@.blocks =~= self@.blocks.map(
                |i: int, b: BlockView| BlockView { token: token@, ..b },
            ));
        }
        this
    }

    /// Sets the webhook verification token.
    pub fn with_token_wh(self, token: &str) -> (r: Self)
        ensures
            r@ == (BotMessengerView {
                conf: ConfView { token_webhook: token@, ..self@.conf },
                ..self@
            }),
            self@.wf() ==> r@.wf(),
    {
        let mut this = self;
        this.conf.set_token_webhook(token);
        this
    }

    /// Sets the port.
    pub fn with_port(self, port: u16) -> (r: Self)
        ensures
            r@ == (BotMessengerView { conf: ConfView { port, ..self@.conf }, ..self@ }),
            self@.wf() ==> r@.wf(),
    {
        let mut this = self;
        this.conf.set_port(port);
        this
    }

    /// Sets the static file root served beside the webhook.
    pub fn with_static_file(self, file: String) -> (r: Self)
        ensures
            r@ == (BotMessengerView { static_file: Option::Some(file@), ..self@ }),
            self@.wf() ==> r@.wf(),
    {
        BotMessenger { static_file: Option::Some(file), ..self }
    }

    /// The configuration.
    pub fn get_conf(&self) -> (r: &Conf)
        ensures
            r@ == self@.conf,
    {
        &self.conf
    }

    /// The configuration, for in-place changes.
    pub fn get_conf_mut(&mut self) -> (r: &mut Conf)
        ensures
            *r == old(self).conf_value(),
            final(self)@ == (BotMessengerView { conf: final(r)@, ..old(self)@ }),
    {
        &mut self.conf
    }

    /// The configured static file root, if any.
    pub fn get_static_file(&self) -> (r: &Option<String>)
        ensures
            r.deep_view() == self@.static_file,
    {
        &self.static_file
    }

    /// The configuration value itself (a helper for contracts over
    /// [`Self::get_conf_mut`]).
    pub closed spec fn conf_value(&self) -> Conf {
        self.conf
    }

    /// Appends a script as it stands, its token untouched.
    pub fn add_block(&mut self, block: Block)
        ensures
            final(self)@ == (BotMessengerView {
                blocks: old(self)@.blocks.push(block@),
                ..old(self)@
            }),
            old(self)@.wf() && block@.wf() ==> final(self)@.wf(),
    {
        let ghost bv = block@;
        self.blocks.push(block);
        proof {
            assert(self@.blocks =~= old(self)@.blocks.push(bv));
        }
    }

    /// Routes one session event, per [`routed`] and [`route_output`]:
    /// an exact name match wins and restarts that script for this
    /// session; else the script already tracking the session continues
    /// it; else the default script serves the event statelessly.
    pub fn add_user(&mut self, user: &BotUser) -> (r: Option<SendRequest>)
        requires
            old(self)@.wf(),
        ensures
            final(self)@ == routed(old(self)@, user@),
            opt_req_view(r) == route_output(old(self)@, user@),
            final(self)@.wf(),
    {
        proof {
            lemma_first_name_match(old(self)@.blocks, user@.message.datum());
            lemma_first_member_match(old(self)@.blocks, user@.sender);
        }
        let ghost m = old(self)@;
        let ghost nm = first_name_match(m.blocks, user@.message.datum());
        let ghost mm = first_member_match(m.blocks, user@.sender);

        // First pass: an exact name match.
        let mut i: usize = 0;
        let mut name_match: Option<usize> = Option::None;
        while i < self.blocks.len() && name_match.is_none()
            invariant
                i <= self.blocks@.len(),
                *self == *old(self),
                name_match matches Option::Some(k) ==> k == i && i < self.blocks@.len()
                    && self@.blocks[k as int].name == user@.message.datum(),
                forall|j: int|
                    0 <= j < i ==> (#[trigger] self@.blocks[j]).name != user@.message.datum(),
            decreases
                    self.blocks@.len() - i,
                    (if name_match.is_none() {
                        1int
                    } else {
                        0int
                    }),
        {
            if streq(self.blocks[i].get_name(), user.get_message().message()) {
                name_match = Option::Some(i);
            } else {
                i = i + 1;
            }
        }
        if let Option::Some(k) = name_match {
            proof {
                assert(self@.blocks[k as int].name == user@.message.datum());
                if nm == -1 || nm > k as int {
                    assert(self@.blocks[k as int].name != user@.message.datum());
                } else if nm < k as int {
                    assert(self@.blocks[nm].name != user@.message.datum());
                }
                assert(nm == k as int);
            }
            // A session lives in one script at a time: evict it
            // everywhere, then start the matched script afresh.
            let ghost before = self@.blocks;
            let mut j: usize = 0;
            while j < self.blocks.len()
                invariant
                    j <= self.blocks@.len(),
                    self@.blocks.len() == before.len(),
                    self@.conf == m.conf,
                    self@.block_default == m.block_default,
                    self@.static_file == m.static_file,
                    forall|x: int|
                        0 <= x < j ==> self@.blocks[x] == evicted(before[x], user@.sender),
                    forall|x: int| j <= x < before.len() ==> self@.blocks[x] == before[x],
                    forall|x: int| 0 <= x < before.len() ==> (#[trigger] before[x]).wf(),
                decreases self.blocks@.len() - j,
            {
                let ghost pre = self@.blocks;
                proof {
                    assert(pre[j as int] == before[j as int]);
                    assert(before[j as int].wf());
                }
                self.blocks[j].remove_child(user);
                proof {
                    assert forall|x: int|
                        0 <= x < j + 1 implies self@.blocks[x] == evicted(
                            before[x],
                            user@.sender,
                        ) by {
                        if x < j {
                            assert(self@.blocks[x] == pre[x]);
                            assert(pre[x] == evicted(before[x], user@.sender));
                        } else {
                            assert(self@.blocks[x] == evicted(pre[x], user@.sender));
                        }
                    }
                }
                j = j + 1;
            }
            proof {
                assert(self@.blocks =~= evicted_all(before, user@.sender));
                assert(self@.blocks[k as int].wf()) by {
                    crate::utils::block::lemma_evicted_not_member(before[k as int], user@.sender);
                }
            }
            let ghost mid = self@.blocks;
            let req = self.blocks[k].root(user);
            proof {
                assert(self@.blocks =~= mid.update(
                    k as int,
                    advanced(evicted(before[k as int], user@.sender), user@),
                ));
                assert(final(self)@ == routed(m, user@));
                assert forall|x: int| 0 <= x < self@.blocks.len() implies (
                #[trigger] self@.blocks[x]).wf() by {
                    if x != k as int {
                        crate::utils::block::lemma_evicted_not_member(before[x], user@.sender);
                    }
                }
            }
            return req;
        }
        proof {
            assert(nm == -1);
        }

        // Second pass: an existing membership.
        let mut i2: usize = 0;
        let mut member_match: Option<usize> = Option::None;
        while i2 < self.blocks.len() && member_match.is_none()
            invariant
                i2 <= self.blocks@.len(),
                *self == *old(self),
                member_match matches Option::Some(k) ==> k == i2 && i2 < self.blocks@.len()
                    && self@.blocks[k as int].is_member(user@.sender),
                forall|j: int|
                    0 <= j < i2 ==> !(#[trigger] self@.blocks[j]).is_member(user@.sender),
            decreases
                    self.blocks@.len() - i2,
                    (if member_match.is_none() {
                        1int
                    } else {
                        0int
                    }),
        {
            if self.blocks[i2].find(user) {
                member_match = Option::Some(i2);
            } else {
                i2 = i2 + 1;
            }
        }
        if let Option::Some(k) = member_match {
            proof {
                assert(self@.blocks[k as int].is_member(user@.sender));
                if mm == -1 || mm > k as int {
                    assert(!self@.blocks[k as int].is_member(user@.sender));
                } else if mm < k as int {
                    assert(!self@.blocks[mm].is_member(user@.sender));
                }
                assert(mm == k as int);
            }
            let ghost before = self@.blocks;
            let req = self.blocks[k].root(user);
            proof {
                assert(self@.blocks =~= before.update(
                    k as int,
                    advanced(before[k as int], user@),
                ));
                assert(final(self)@ == routed(m, user@));
            }
            return req;
        }
        proof {
            assert(mm == -1);
        }

        // Fall through: the default script, statelessly.
        let req = self.block_default.root_once(user);
        proof {
            assert(final(self)@ == routed(m, user@));
        }
        req
    }

    /// Answers the platform's subscription-verification handshake: the
    /// challenge is echoed only for a subscribe request carrying the
    /// configured webhook token; anything else gets a refusal.
    pub fn root_connection(&self, mode: &str, verify_token: &str, challenge: &str) -> (r: String)
        ensures
            mode@ == "subscribe"@ && verify_token@ == self@.conf.token_webhook ==> r@
                == challenge@,
            !(mode@ == "subscribe"@ && verify_token@ == self@.conf.token_webhook) ==> r@
                == "Sorry I don't understand"@,
    {
        if streq(mode, "subscribe") && streq(verify_token, self.conf.get_token_webhook()) {
            challenge.to_owned()
        } else {
            "Sorry I don't understand".to_owned()
        }
    }
}

/// The health-check answer of the surrounding server's root route.
pub fn get_basic() -> (r: &'static str)
    ensures
        r@ == "ok"@,
{
    "ok"
}

} // verus!
