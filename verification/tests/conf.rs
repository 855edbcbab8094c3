//! Configuration, the registry builders, and the webhook handshake.

use bot_messenger::api::button::Button;
use bot_messenger::api::card::{Card, CardButtons, CardGeneric};
use bot_messenger::utils::block::{Block, CartBox};
use bot_messenger::utils::{BotUser, Conf, Messaging, MessagingMessage};
use bot_messenger::{get_basic, BotMessenger};

#[test]
fn conf_new_and_getters() {
    let conf = Conf::new(8080, "127.0.0.1", "hook", 4, "WH", "FB");
    assert_eq!(*conf.get_port(), 8080);
    assert_eq!(conf.get_ip(), "127.0.0.1");
    assert_eq!(conf.get_uri(), "hook");
    assert_eq!(*conf.get_workers(), 4);
    assert_eq!(conf.get_token_webhook(), "WH");
    assert_eq!(conf.get_token_fb_page(), "FB");
}

#[test]
fn conf_setters() {
    let mut conf = Conf::default();
    conf.set_port(9999);
    conf.set_ip("10.0.0.1");
    conf.set_uri("path");
    conf.set_workers(2);
    conf.set_token_webhook("W2");
    conf.set_token_fb_page("F2");
    assert_eq!(*conf.get_port(), 9999);
    assert_eq!(conf.get_ip(), "10.0.0.1");
    assert_eq!(conf.get_uri(), "path");
    assert_eq!(*conf.get_workers(), 2);
    assert_eq!(conf.get_token_webhook(), "W2");
    assert_eq!(conf.get_token_fb_page(), "F2");
}

#[test]
fn conf_stock_values() {
    let conf = Conf::default();
    assert_eq!(*conf.get_port(), 7878);
    assert_eq!(conf.get_ip(), "0.0.0.0");
    assert_eq!(conf.get_uri(), "/webhook");
    assert_eq!(*conf.get_workers(), 12);
    assert_eq!(conf.get_token_webhook(), "MamaGuriba");
    assert_eq!(conf.get_token_fb_page(), "MamaGuriba");
}

#[test]
fn registry_builders_reach_the_conf() {
    let bot = BotMessenger::new()
        .with_token_fb("FB_TOKEN")
        .with_token_wh("WH_TOKEN")
        .with_port(7000);
    assert_eq!(bot.get_conf().get_token_fb_page(), "FB_TOKEN");
    assert_eq!(bot.get_conf().get_token_webhook(), "WH_TOKEN");
    assert_eq!(*bot.get_conf().get_port(), 7000);

    let bot = BotMessenger::new().with_conf(Conf::new(1, "a", "b", 2, "c", "d"));
    assert_eq!(*bot.get_conf().get_port(), 1);
    assert_eq!(bot.get_conf().get_token_fb_page(), "d");
}

#[test]
fn token_set_after_blocks_still_reaches_them() {
    // with_token_fb also retokens scripts added before it.
    let mut bot = BotMessenger::new()
        .block(Block::new("Late").cartBox(CartBox::new().text("hello")))
        .with_token_fb("LATE_TOKEN");
    let user = BotUser::new("U1", Messaging::Message(MessagingMessage::new("Late")));
    let req = bot.add_user(&user).expect("a delivery");
    assert_eq!(req.token, "LATE_TOKEN");
}

#[test]
fn webhook_handshake() {
    let bot = BotMessenger::new().with_token_wh("MamaGuriba");
    assert_eq!(
        bot.root_connection("subscribe", "MamaGuriba", "challenge-123"),
        "challenge-123"
    );
    assert_eq!(
        bot.root_connection("subscribe", "wrong", "challenge-123"),
        "Sorry I don't understand"
    );
    assert_eq!(
        bot.root_connection("unsubscribe", "MamaGuriba", "challenge-123"),
        "Sorry I don't understand"
    );
}

#[test]
fn health_check() {
    assert_eq!(get_basic(), "ok");
}

#[test]
fn builds_the_sample_bot() {
    let mut bot = BotMessenger::new()
        .block_default(
            Block::new("default").cartBox(CartBox::new().text("Sorry I don't understand 🐻")),
        )
        .block(
            Block::new("Hello")
                .cartBox(CartBox::new().text("Hello new user"))
                .cartBox(CartBox::new().text("Hello new user 2"))
                .cartBox(CartBox::new().text("Hello new user 3"))
                .cartBox(CartBox::new().text("It's a new day").button_postback("Push", "Hello"))
                .cartBox(
                    CartBox::new()
                        .card(Card::Generic(
                            CardGeneric::new("Hello")
                                .button(Button::new_button_pb("Welcom back Mr potter", "Hello"))
                                .image("https://example.org/image.jpg")
                                .subtitle("Bouyah"),
                        ))
                        .card(Card::Generic(
                            CardGeneric::new("Hello")
                                .button(Button::new_button_pb("Welcom back Mr potter", "Hello"))
                                .image("https://example.org/image.jpg")
                                .subtitle("Bouyah"),
                        )),
                )
                .cartBox(
                    CartBox::new().card(Card::Buttons(
                        CardButtons::new("Can you choose !")
                            .button(Button::new_button_url("wake me up", "www.google.fr"))
                            .button(Button::new_button_pb("not me !", "Hello")),
                    )),
                ),
        )
        .block(Block::new("#Start").cartBox(CartBox::new().text("New start user")))
        .with_token_fb("TOKEN_FB")
        .with_token_wh("MamaGuriba");

    assert_eq!(bot.get_conf().get_token_fb_page(), "TOKEN_FB");
    assert_eq!(bot.get_conf().get_token_webhook(), "MamaGuriba");

    // The named scripts answer to their names with their first steps.
    let hello = BotUser::new("U1", Messaging::Message(MessagingMessage::new("Hello")));
    let req = bot.add_user(&hello).expect("a delivery");
    assert_eq!(req.token, "TOKEN_FB");
    let start = BotUser::new("U2", Messaging::Message(MessagingMessage::new("#Start")));
    let req = bot.add_user(&start).expect("a delivery");
    assert!(req.body.get("message").unwrap().get("text").is_some());
}
