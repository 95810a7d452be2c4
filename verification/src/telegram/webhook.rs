//! HTTP server: `/healthz` and one webhook route per bot.

use crate::text;
use vstd::prelude::*;

verus! {

/// What becomes of a webhook call.
#[derive(Debug, Clone, Copy, PartialEq, Eq, Structural)]
pub enum Verdict {
    Unauthorized,
    NotFound,
    Accepted,
}

impl Verdict {
    /// The HTTP status.
    pub open spec fn status(self) -> u16 {
        match self {
            Verdict::Unauthorized => 401,
            Verdict::NotFound => 404,
            Verdict::Accepted => 200,
        }
    }

    /// The HTTP status.
    pub fn code(&self) -> (r: u16)
        ensures
            r == self.status(),
    {
        match self {
            Verdict::Unauthorized => 401,
            Verdict::NotFound => 404,
            Verdict::Accepted => 200,
        }
    }
}

/// Judges a webhook call: the secret first, then whether the bot is served.
pub fn judge(provided: Option<&str>, secret: &str, known_bot: bool) -> (r: Verdict)
    ensures
        r == (if (match provided {
            Some(p) => p@,
            None => Seq::empty(),
        }) != secret@ {
            Verdict::Unauthorized
        } else if !known_bot {
            Verdict::NotFound
        } else {
            Verdict::Accepted
        }),
{
    let matches: bool = match provided {
        Some(p) => text::same(p, secret),
        None => {
            assert((secret@.len() == 0) == (secret@ =~= Seq::<char>::empty()));
            text::char_count(secret) == 0
        },
    };
    if !matches {
        Verdict::Unauthorized
    } else if !known_bot {
        Verdict::NotFound
    } else {
        Verdict::Accepted
    }
}

/// The reply of `/healthz`.
pub fn health_text(bots: usize) -> (r: String)
    ensures
        r@ == "ok bots="@ + text::decimal(bots as nat) + "\n"@,
{
    let mut r: String = "ok bots=".to_string();
    r.append(text::decimal_of(bots as u64).as_str());
    r.append("\n");
    r
}

/// The address that Telegram calls for a bot.
pub fn webhook_url(public: &str, bot: &str) -> (r: String)
    ensures
        r@ == text::drop_back(public@, '/') + "/webhook/"@ + bot@,
{
    let mut r = text::dropped_back(public, '/');
    r.append("/webhook/");
    r.append(bot);
    r
}

}
