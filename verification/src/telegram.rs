//! Telegram notifications: whether to send one, and the request that sends it.

use vstd::prelude::*;
use vstd::string::*;

use crate::form::{fits, group_forms, same_wording, Form};
use crate::text::chars_of;

verus! {

/// The text of a JSON object with some text members and some boolean members, whose keys are all
/// different.
pub uninterp spec fn json_object_text(
    texts: Seq<(Seq<char>, Seq<char>)>,
    flags: Seq<(Seq<char>, bool)>,
) -> Seq<char>;

/// Members with text values.
pub open spec fn text_members(members: Seq<(String, String)>) -> Seq<(Seq<char>, Seq<char>)> {
    members.map_values(|m: (String, String)| (m.0@, m.1@))
}

/// Members with boolean values.
pub open spec fn flag_members(members: Seq<(String, bool)>) -> Seq<(Seq<char>, bool)> {
    members.map_values(|m: (String, bool)| (m.0@, m.1))
}

/// Calls `serde_json::Value::to_string` on the object that holds the given members: its compact
/// JSON text. How the text is written is left to the name.
#[verifier::external_body]
fn json_object(texts: &Vec<(String, String)>, flags: &Vec<(String, bool)>) -> (r: String)
    ensures
        r@ == json_object_text(text_members(texts@), flag_members(flags@)),
{
    let mut object: serde_json::Map<String, serde_json::Value> = serde_json::Map::new();
    object.extend(texts.iter().map(|m| (m.0.clone(), serde_json::Value::from(m.1.clone()))));
    object.extend(flags.iter().map(|m| (m.0.clone(), serde_json::Value::from(m.1))));
    serde_json::Value::Object(object).to_string()
}

/// The body of a request that sends `message`: HTML, without a preview of links.
pub open spec fn message_body(chat_id: Seq<char>, message: Seq<char>) -> Seq<char> {
    json_object_text(
        seq![("chat_id"@, chat_id), ("text"@, message), ("parse_mode"@, "HTML"@)],
        seq![("disable_web_page_preview"@, true)],
    )
}

/// Where the messages of a bot are sent to.
pub open spec fn message_url(token: Seq<char>) -> Seq<char> {
    "https://api.telegram.org/bot"@ + token + "/sendMessage"@
}

/// Whether a text is "true" once it is put in lower case. Besides these letters themselves only
/// their capitals become them.
pub open spec fn is_true(s: Seq<char>) -> bool {
    &&& s.len() == 4
    &&& s[0] == 't' || s[0] == 'T'
    &&& s[1] == 'r' || s[1] == 'R'
    &&& s[2] == 'u' || s[2] == 'U'
    &&& s[3] == 'e' || s[3] == 'E'
}

/// The text of a setting, empty where it is not set.
pub open spec fn setting(s: Option<&str>) -> Seq<char> {
    match s {
        Some(text) => text@,
        None => Seq::empty(),
    }
}

fn setting_text(s: Option<&str>) -> (r: String)
    ensures
        r@ == setting(s),
{
    match s {
        Some(text) => text.to_string(),
        None => String::new(),
    }
}

/// A request to be posted.
#[derive(Debug)]
pub struct TelegramRequest {
    pub url: String,
    pub body: String,
}

/// A bot that sends notifications to one chat.
#[derive(Debug, Clone)]
pub struct TelegramBot {
    pub enabled: bool,
    pub token: String,
    pub chat_id: String,
}

impl TelegramBot {
    /// Whether messages are sent at all: the bot is enabled, and has a token and a chat.
    pub open spec fn is_ready(&self) -> bool {
        self.enabled && self.token@.len() > 0 && self.chat_id@.len() > 0
    }

    /// A bot from the settings `TELEGRAM_ENABLED`, `TELEGRAM_BOT_TOKEN` and `TELEGRAM_CHAT_ID`.
    /// Only the word "true", in any case, enables it.
    pub fn from_env(enabled: Option<&str>, token: Option<&str>, chat_id: Option<&str>) -> (r: Self)
        ensures
            r.enabled == is_true(setting(enabled)),
            r.token@ == setting(token),
            r.chat_id@ == setting(chat_id),
    {
        let word = setting_text(enabled);
        let w = chars_of(word.as_str());
        let enabled = w.len() == 4 && (w[0] == 't' || w[0] == 'T') && (w[1] == 'r' || w[1] == 'R')
            && (w[2] == 'u' || w[2] == 'U') && (w[3] == 'e' || w[3] == 'E');
        Self { enabled, token: setting_text(token), chat_id: setting_text(chat_id) }
    }

    /// The request with a given body, or nothing where no messages are sent.
    pub fn request(&self, body: String) -> (r: Option<TelegramRequest>)
        ensures
            r is Some <==> self.is_ready(),
            r matches Some(request) ==> request.url@ == message_url(self.token@) && request.body@
                == body@,
    {
        if !self.enabled || self.token.as_str().is_empty() || self.chat_id.as_str().is_empty() {
            return None;
        }
        let url = "https://api.telegram.org/bot".to_string().concat(self.token.as_str()).concat(
            "/sendMessage",
        );
        Some(TelegramRequest { url, body })
    }

    /// The request that sends a message, or nothing where no messages are sent.
    pub fn send(&self, message: &str) -> (r: Option<TelegramRequest>)
        ensures
            r is Some <==> self.is_ready(),
            r matches Some(request) ==> request.url@ == message_url(self.token@) && request.body@
                == message_body(self.chat_id@, message@),
    {
        let mut texts: Vec<(String, String)> = Vec::new();
        texts.push(("chat_id".to_string(), self.chat_id.clone()));
        texts.push(("text".to_string(), message.to_string()));
        texts.push(("parse_mode".to_string(), "HTML".to_string()));
        let mut flags: Vec<(String, bool)> = Vec::new();
        flags.push(("disable_web_page_preview".to_string(), true));
        assert(text_members(texts@) =~= seq![
            ("chat_id"@, self.chat_id@),
            ("text"@, message@),
            ("parse_mode"@, "HTML"@),
        ]);
        assert(flag_members(flags@) =~= seq![("disable_web_page_preview"@, true)]);
        self.request(json_object(&texts, &flags))
    }
}

/// Messages go to the same address around the token of the bot.
pub proof fn bots_are_addressed_alike(a: Seq<char>, b: Seq<char>)
    ensures
        same_wording(
            message_url(a),
            seq![a],
            message_url(b),
            seq![b],
        ),
{
    broadcast use group_forms;

    let form = Form::blank().says("https://api.telegram.org/bot"@).gives().says("/sendMessage"@);
    assert(fits(message_url(a), form, seq![a]));
    assert(fits(message_url(b), form, seq![b]));
}

/// A letter in lower case.
pub open spec fn lower(c: char) -> int {
    if 'A' <= c <= 'Z' {
        c as int + 32
    } else {
        c as int
    }
}

/// Exactly the word "true" enables the bot, in any mixture of cases.
pub proof fn only_true_enables(word: Seq<char>)
    ensures
        is_true(word) <==> (word.len() == "true"@.len() && forall|i: int|
            0 <= i < word.len() ==> lower(#[trigger] word[i]) == "true"@[i] as int),
{
    reveal_strlit("true");
    if word.len() == 4 && forall|i: int|
        0 <= i < word.len() ==> lower(#[trigger] word[i]) == "true"@[i] as int {
        assert(lower(word[0]) == 't' as int);
        assert(lower(word[1]) == 'r' as int);
        assert(lower(word[2]) == 'u' as int);
        assert(lower(word[3]) == 'e' as int);
    }
    if is_true(word) {
        assert forall|i: int| 0 <= i < word.len() implies lower(#[trigger] word[i])
            == "true"@[i] as int by {
            assert(i == 0 || i == 1 || i == 2 || i == 3);
        }
    }
}

/// A setting is taken as it is, and is empty where it is not set.
pub proof fn setting_is_taken_as_it_is(text: &str)
    ensures
        setting(Some(text)) == text@,
        setting(None).len() == 0,
{
}

/// A bot is ready exactly if it is enabled and neither its token nor its chat is empty.
pub proof fn bot_needs_token_and_chat(bot: TelegramBot)
    ensures
        bot.is_ready() <==> (bot.enabled && bot.token@ != Seq::<char>::empty() && bot.chat_id@
            != Seq::<char>::empty()),
{
    if bot.token@.len() == 0 {
        assert(bot.token@ =~= Seq::<char>::empty());
    }
    if bot.chat_id@.len() == 0 {
        assert(bot.chat_id@ =~= Seq::<char>::empty());
    }
}

/// Whether some members of a JSON object are what a message needs: the chat and the whole message,
/// as HTML and without a preview of links, and nothing else.
pub open spec fn carry_message(
    texts: Seq<(Seq<char>, Seq<char>)>,
    flags: Seq<(Seq<char>, bool)>,
    chat_id: Seq<char>,
    message: Seq<char>,
) -> bool {
    &&& texts.len() == 3
    &&& texts.contains(("chat_id"@, chat_id))
    &&& texts.contains(("text"@, message))
    &&& texts.contains(("parse_mode"@, "HTML"@))
    &&& flags.len() == 1
    &&& flags.contains(("disable_web_page_preview"@, true))
}

/// The body of a request carries the chat and the whole message.
pub proof fn body_carries_the_message(chat_id: Seq<char>, message: Seq<char>)
    ensures
        exists|texts: Seq<(Seq<char>, Seq<char>)>, flags: Seq<(Seq<char>, bool)>| #[trigger]
            json_object_text(texts, flags) == message_body(chat_id, message) && carry_message(
                texts,
                flags,
                chat_id,
                message,
            ),
{
    let texts = seq![("chat_id"@, chat_id), ("text"@, message), ("parse_mode"@, "HTML"@)];
    let flags = seq![("disable_web_page_preview"@, true)];
    assert(texts[0] == ("chat_id"@, chat_id));
    assert(texts[1] == ("text"@, message));
    assert(texts[2] == ("parse_mode"@, "HTML"@));
    assert(flags[0] == ("disable_web_page_preview"@, true));
    assert(json_object_text(texts, flags) == message_body(chat_id, message));
}

/// The members handed to the JSON text are taken at their word, in their order.
pub proof fn members_are_taken_at_their_word(
    texts: Seq<(String, String)>,
    flags: Seq<(String, bool)>,
)
    ensures
        text_members(texts).len() == texts.len(),
        forall|i: int|
            0 <= i < texts.len() ==> #[trigger] text_members(texts)[i] == (
                texts[i].0@,
                texts[i].1@,
            ),
        flag_members(flags).len() == flags.len(),
        forall|i: int|
            0 <= i < flags.len() ==> #[trigger] flag_members(flags)[i] == (
                flags[i].0@,
                flags[i].1,
            ),
{
}

} // verus!
