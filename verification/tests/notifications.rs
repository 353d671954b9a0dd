use eqm_miner::telegram::TelegramBot;

fn ready() -> TelegramBot {
    TelegramBot::from_env(Some("true"), Some("TOKEN"), Some("-42"))
}

#[test]
fn only_the_word_true_enables_the_bot() {
    for (word, enabled) in [
        ("true", true),
        ("TRUE", true),
        ("TrUe", true),
        ("True", true),
        ("false", false),
        ("1", false),
        ("yes", false),
        ("true ", false),
        ("tru", false),
        ("truee", false),
        ("", false),
    ] {
        assert_eq!(TelegramBot::from_env(Some(word), None, None).enabled, enabled);
        assert_eq!(word.to_lowercase() == "true", enabled);
    }
    assert!(!TelegramBot::from_env(None, None, None).enabled);
}

#[test]
fn settings_that_are_not_set_are_empty() {
    let bot = TelegramBot::from_env(None, None, None);
    assert_eq!(bot.token, "");
    assert_eq!(bot.chat_id, "");
    let bot = ready();
    assert_eq!(bot.token, "TOKEN");
    assert_eq!(bot.chat_id, "-42");
}

#[test]
fn nothing_is_sent_unless_all_is_set() {
    assert!(ready().send("hi").is_some());
    assert!(TelegramBot::from_env(Some("no"), Some("t"), Some("c")).send("hi").is_none());
    assert!(TelegramBot::from_env(None, Some("t"), Some("c")).send("hi").is_none());
    assert!(TelegramBot::from_env(Some("true"), None, Some("c")).send("hi").is_none());
    assert!(TelegramBot::from_env(Some("true"), Some("t"), None).send("hi").is_none());
    assert!(TelegramBot::from_env(Some("true"), Some(""), Some("c")).send("hi").is_none());
}

#[test]
fn request_goes_to_the_bot() {
    let request = ready().request("body".to_string()).unwrap();
    assert_eq!(request.url, "https://api.telegram.org/botTOKEN/sendMessage");
    assert_eq!(request.body, "body");
}

#[test]
fn message_is_carried_as_json() {
    let text = "<b>\"quoted\"</b>\n\\ ⛏ \u{1}";
    let request = ready().send(text).unwrap();
    assert_eq!(request.url, "https://api.telegram.org/botTOKEN/sendMessage");
    let body: serde_json::Value = serde_json::from_str(&request.body).unwrap();
    assert_eq!(body.as_object().unwrap().len(), 4);
    assert_eq!(body["chat_id"], "-42");
    assert_eq!(body["text"], text);
    assert_eq!(body["parse_mode"], "HTML");
    assert_eq!(body["disable_web_page_preview"], true);
}
