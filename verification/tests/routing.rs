//! The conversation-routing engine, exercised through scripts and the
//! registry.

use bot_messenger::api::SendRequest;
use bot_messenger::json::JsonValue;
use bot_messenger::utils::block::{transition, Block, CartBox, Gate};
use bot_messenger::utils::{BotUser, Messaging, MessagingMessage, MessagingPostback, PipeStatus};
use bot_messenger::BotMessenger;

fn text_event(sender: &str, text: &str) -> BotUser {
    BotUser::new(sender, Messaging::Message(MessagingMessage::new(text)))
}

fn postback_event(sender: &str, payload: &str) -> BotUser {
    BotUser::new(sender, Messaging::Postback(MessagingPostback::new(payload)))
}

fn body_text(req: &SendRequest) -> String {
    // The `text` field under `message` of a simple-shape payload.
    let msg = req.body.get("message").expect("message object");
    match msg.get("text") {
        Some(JsonValue::Str(s)) => s.clone(),
        _ => panic!("no text field"),
    }
}

fn three_step_block() -> Block {
    Block::new("Hello")
        .cartBox(CartBox::new().text("step zero"))
        .cartBox(CartBox::new().text("step one"))
        .cartBox(CartBox::new().text("step two"))
}

#[test]
fn completion_walks_all_steps_then_evicts() {
    let mut block = three_step_block();
    block.set_token("TOKEN");
    let user = text_event("U1", "whatever");

    let r0 = block.root(&user).expect("first delivery");
    assert_eq!(body_text(&r0), "step zero");
    assert!(block.find(&user));

    let r1 = block.root(&user).expect("second delivery");
    assert_eq!(body_text(&r1), "step one");
    assert!(block.find(&user));

    let r2 = block.root(&user).expect("third delivery");
    assert_eq!(body_text(&r2), "step two");
    // Cursor reached the step count: the session is gone.
    assert!(!block.find(&user));

    // A fresh event starts over from the top.
    let r3 = block.root(&user).expect("fourth delivery");
    assert_eq!(body_text(&r3), "step zero");
}

#[test]
fn replay_keeps_cursor_put_indefinitely() {
    let mut guarded_step = CartBox::new().text("guarded");
    guarded_step.with_func_ctrl(Gate::MatchExact("open sesame".to_string()));
    let mut block = Block::new("Guard").cartBox(guarded_step).cartBox(CartBox::new().text("inside"));
    block.set_token("TOKEN");

    let wrong = text_event("U1", "let me in");
    for _ in 0..5 {
        // The guard rejects: no delivery, and the cursor stays at the
        // guarded step.
        assert!(block.root(&wrong).is_none());
        assert!(block.find(&wrong));
    }
    let right = text_event("U1", "open sesame");
    let r = block.root(&right).expect("guard accepted");
    assert_eq!(body_text(&r), "guarded");
    let next = block.root(&wrong).expect("second step accepts anything");
    assert_eq!(body_text(&next), "inside");
}

#[test]
fn restart_transition_resets_cursor_to_zero() {
    for cursor in 0..4usize {
        assert_eq!(transition(PipeStatus::RESTART, cursor, 5), Some(0));
    }
    assert_eq!(transition(PipeStatus::REPLAY, 3, 5), Some(3));
    assert_eq!(transition(PipeStatus::NEXT, 3, 5), Some(4));
    assert_eq!(transition(PipeStatus::NEXT, 4, 5), None);
}

#[test]
fn script_switch_evicts_and_restarts() {
    let mut bot = BotMessenger::new()
        .with_token_fb("TOKEN")
        .block(
            Block::new("Alpha")
                .cartBox(CartBox::new().text("alpha zero"))
                .cartBox(CartBox::new().text("alpha one"))
                .cartBox(CartBox::new().text("alpha two")),
        )
        .block(
            Block::new("Beta")
                .cartBox(CartBox::new().text("beta zero"))
                .cartBox(CartBox::new().text("beta one")),
        )
        .block_default(Block::new("default").cartBox(CartBox::new().text("fallback")));

    // Enter Alpha by name and advance one step inside it.
    let enter = text_event("U1", "Alpha");
    let r = bot.add_user(&enter).expect("alpha start");
    assert_eq!(body_text(&r), "alpha zero");
    let r = bot.add_user(&text_event("U1", "anything")).expect("alpha next");
    assert_eq!(body_text(&r), "alpha one");

    // Mid-pipeline, the exact name of Beta switches scripts and starts
    // Beta at its first step on the same event.
    let r = bot.add_user(&text_event("U1", "Beta")).expect("beta start");
    assert_eq!(body_text(&r), "beta zero");

    // The session now lives in Beta only: the next unmatched event
    // continues Beta rather than Alpha.
    let r = bot.add_user(&text_event("U1", "anything")).expect("beta next");
    assert_eq!(body_text(&r), "beta one");
}

#[test]
fn default_fallback_is_stateless() {
    let mut bot = BotMessenger::new()
        .with_token_fb("TOKEN")
        .block(Block::new("Named").cartBox(CartBox::new().text("named zero")))
        .block_default(
            Block::new("default")
                .cartBox(CartBox::new().text("greeting"))
                .cartBox(CartBox::new().text("never reached")),
        );

    // No name match, no membership: the default script answers from
    // its first step on every such occurrence.
    for _ in 0..3 {
        let r = bot.add_user(&text_event("U2", "unknown")).expect("fallback");
        assert_eq!(body_text(&r), "greeting");
    }
}

#[test]
fn postback_datum_routes_by_name_too() {
    let mut bot = BotMessenger::new()
        .with_token_fb("TOKEN")
        .block(Block::new("Order").cartBox(CartBox::new().text("ordering")))
        .block_default(Block::new("default").cartBox(CartBox::new().text("fallback")));

    let r = bot.add_user(&postback_event("U3", "Order")).expect("postback name match");
    assert_eq!(body_text(&r), "ordering");
}

#[test]
fn token_guard_sends_nothing_but_advances() {
    let step = CartBox::new().text("hello");
    let user = text_event("U1", "hi");
    // An empty token suppresses the delivery; the step still reports
    // the success-path transition.
    let (status, request) = step.consume(&user, "");
    assert_eq!(status, PipeStatus::NEXT);
    assert!(request.is_none());

    // The same holds through a whole script: the conversation advances
    // with nothing delivered.
    let mut block = three_step_block();
    let u = text_event("U9", "hi");
    assert!(block.root(&u).is_none());
    assert!(block.find(&u));
    assert!(block.root(&u).is_none());
    assert!(block.root(&u).is_none());
    assert!(!block.find(&u));
}

#[test]
fn empty_script_is_a_defensive_noop() {
    let mut block = Block::new("Empty");
    block.set_token("TOKEN");
    let user = text_event("U1", "hi");
    assert!(block.root(&user).is_none());
    assert!(block.find(&user));
    assert!(block.root(&user).is_none());
}

#[test]
fn remove_child_evicts_membership() {
    let mut block = three_step_block();
    block.set_token("TOKEN");
    let user = text_event("U1", "hi");
    block.root(&user);
    assert!(block.find(&user));
    block.remove_child(&user);
    assert!(!block.find(&user));
}

#[test]
fn end_to_end_scenario() {
    let mut bot = BotMessenger::new()
        .with_token_fb("TOKEN_FB")
        .block(
            Block::new("Hello")
                .cartBox(CartBox::new().text("Hello new user"))
                .cartBox(
                    CartBox::new().text("It's a new day").button_postback("Push", "Hello"),
                )
                .cartBox(
                    CartBox::new().card(bot_messenger::api::card::Card::Generic(
                        bot_messenger::api::card::CardGeneric::new("A card"),
                    )),
                ),
        )
        .block_default(Block::new("default").cartBox(CartBox::new().text("Sorry I don't understand")));

    // Free text with no name match falls to the default script.
    let r = bot.add_user(&text_event("U1", "hi")).expect("default greeting");
    assert_eq!(body_text(&r), "Sorry I don't understand");

    // The literal name routes into the script at cursor zero.
    let r = bot.add_user(&text_event("U1", "Hello")).expect("step zero");
    assert_eq!(body_text(&r), "Hello new user");

    // Any content advances through the remaining steps.
    let r = bot.add_user(&text_event("U1", "anything")).expect("step one");
    assert_eq!(body_text(&r), "It's a new day");

    let r = bot.add_user(&text_event("U1", "more")).expect("step two");
    // The third step sends a card: an attachment payload.
    assert!(r.body.get("message").unwrap().get("attachment").is_some());

    // The cursor reached the step count: the session left the script,
    // so an unmatched event falls to the default again.
    let r = bot.add_user(&text_event("U1", "hi again")).expect("default again");
    assert_eq!(body_text(&r), "Sorry I don't understand");

    // Naming the script once more restarts it from the top.
    let r = bot.add_user(&text_event("U1", "Hello")).expect("restarted");
    assert_eq!(body_text(&r), "Hello new user");
}
