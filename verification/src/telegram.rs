use vstd::prelude::*;
use vstd::string::StringExecFns;

use crate::logic::{build_telegram_json, telegram_json};

verus! {

/// An HTTPS request to the Bot API's `sendMessage` method.
pub struct TelegramRequest {
    pub url: String,
    pub body: String,
}

/// The `sendMessage` URL of the bot with `bot_token`.
pub open spec fn send_message_url(bot_token: Seq<char>) -> Seq<char> {
    "https://api.telegram.org/bot"@ + bot_token + "/sendMessage"@
}

/// The request that sends `text` to `chat_id`, or nothing when no bot token
/// or no chat id is configured (sending is then skipped).
pub fn telegram_request(bot_token: &str, chat_id: &str, text: &str) -> (req: Option<TelegramRequest>)
    ensures
        req is None <==> (bot_token@.len() == 0 || chat_id@.len() == 0),
        req matches Some(r) ==> r.url@ == send_message_url(bot_token@) && r.body@ == telegram_json(
            chat_id@,
            text@,
        ),
{
    if bot_token.is_empty() || chat_id.is_empty() {
        return None;
    }
    let mut url = String::from_str("https://api.telegram.org/bot");
    url.append(bot_token);
    url.append("/sendMessage");
    let body = build_telegram_json(chat_id, text);
    Some(TelegramRequest { url, body })
}

/// Telegram accepted the message exactly when it answered HTTP 200.
pub fn telegram_accepted(status: u16) -> (ok: bool)
    ensures
        ok == (status == 200),
{
    status == 200
}

} // verus!
