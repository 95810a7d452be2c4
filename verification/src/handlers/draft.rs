//! The live draft of an answer: what it shows, and what is made of Telegram's
//! replies.

use crate::pattern;
use crate::telegram::render;
use crate::text;
use crate::util;
use vstd::prelude::*;

verus! {

/// The time between two showings of a draft, in milliseconds.
pub const DRAFT_INTERVAL: u64 = 500;

/// What a draft is found by when its reader stops it: the chat, the topic (0 for
/// none) and the draft's id.
pub fn draft_key(chat_id: i64, thread_id: Option<i32>, draft_id: i64) -> (r: (i64, i32, i64))
    ensures
        r == (
            chat_id,
            match thread_id {
                Some(t) => t,
                None => 0,
            },
            draft_id,
        ),
{
    let thread: i32 = match thread_id {
        Some(t) => t,
        None => 0,
    };
    (chat_id, thread, draft_id)
}

/// The text of a draft: the answer so far, without its images and with its code
/// closed, and below it what the agent is doing.
pub open spec fn draft_words(visible: Seq<char>, status: Option<Seq<char>>) -> Seq<char> {
    let body = render::fence_closed(visible);
    match status {
        Some(s) => body + (if body.len() > 0 {
            "\n\n"@
        } else {
            Seq::empty()
        }) + "_⚙️ "@ + s + "…_"@,
        None => body,
    }
}

/// The answer so far without its images.
pub open spec fn visible_part(answer: Seq<char>) -> Seq<char> {
    render::without_images(pattern::found_in(render::IMAGE@, answer)).0
}

/// The text of a draft; `visible` is the answer without its images.
pub fn draft_text(visible: &str, status: Option<&str>) -> (r: String)
    ensures
        r@ == draft_words(
            visible@,
            match status {
                Some(s) => Some(s@),
                None => None,
            },
        ),
{
    let mut r = render::close_open_fence(visible);
    match status {
        Some(s) => {
            let ghost body = r@;
            if text::char_count(r.as_str()) > 0 {
                r.append("\n\n");
            }
            r.append("_⚙️ ");
            r.append(s);
            r.append("…_");
            assert(body.len() == 0 ==> body + Seq::<char>::empty() =~= body);
        },
        None => {},
    }
    r
}

/// What is sent to show a draft.
#[derive(Debug)]
pub enum Showing {
    /// Nothing.
    Nothing,
    /// An empty draft, as a sign of life.
    Thinking,
    /// A draft with markup.
    Rich(String),
    /// A draft without markup.
    Plain(String),
}

/// What is sent to show a draft, as mathematical values.
pub ghost enum ShowingView {
    Nothing,
    Thinking,
    Rich(Seq<char>),
    Plain(Seq<char>),
}

impl View for Showing {
    type V = ShowingView;

    open spec fn view(&self) -> ShowingView {
        match self {
            Showing::Nothing => ShowingView::Nothing,
            Showing::Thinking => ShowingView::Thinking,
            Showing::Rich(s) => ShowingView::Rich(s@),
            Showing::Plain(s) => ShowingView::Plain(s@),
        }
    }
}

/// What Telegram made of a request.
#[derive(Debug, Clone, Copy, PartialEq, Eq, Structural)]
pub enum Outcome {
    /// Done.
    Sent,
    /// Refused as a bad request: it will not be taken in this form.
    Refused,
    /// Failed in another way.
    Failed,
}

/// A draft without markup.
pub open spec fn plain_draft(words: Seq<char>) -> Seq<char> {
    util::truncated(render::plain_of(words), render::TG_TEXT_LIMIT as nat)
}

/// The live draft of one turn.
#[derive(Debug, Clone, Copy, PartialEq, Eq, Structural)]
pub struct DraftState {
    pub draft_id: i64,
    /// Whether markup is taken.
    pub rich_ok: bool,
    /// When it was last shown, in milliseconds.
    pub last_flush: Option<u64>,
    /// Whether the reader has seen anything of it.
    pub shown: bool,
}

impl DraftState {
    /// What is sent to show these words.
    pub open spec fn showing(self, words: Seq<char>) -> ShowingView {
        if text::blank(words) {
            if self.shown {
                ShowingView::Nothing
            } else {
                ShowingView::Thinking
            }
        } else if self.rich_ok {
            ShowingView::Rich(render::clamped(words, render::RICH_TEXT_LIMIT as int))
        } else {
            ShowingView::Plain(plain_draft(words))
        }
    }

    /// Whether it is time to show the draft again.
    pub open spec fn due_at(self, now: u64) -> bool {
        match self.last_flush {
            Some(t) => now - t >= DRAFT_INTERVAL,
            None => true,
        }
    }

    /// The draft once Telegram has replied.
    pub open spec fn replied(self, sent: ShowingView, outcome: Outcome, now: u64) -> DraftState {
        match sent {
            ShowingView::Nothing => self,
            ShowingView::Thinking => DraftState {
                shown: self.shown || outcome == Outcome::Sent,
                ..self
            },
            ShowingView::Rich(_) => match outcome {
                Outcome::Sent => DraftState { shown: true, last_flush: Some(now), ..self },
                Outcome::Refused => DraftState { rich_ok: false, ..self },
                Outcome::Failed => DraftState { last_flush: Some(now), ..self },
            },
            ShowingView::Plain(_) => DraftState {
                shown: self.shown || outcome == Outcome::Sent,
                last_flush: Some(now),
                ..self
            },
        }
    }

    /// A draft that nothing has been shown of.
    pub fn new(draft_id: i64) -> (r: DraftState)
        ensures
            r == (DraftState { draft_id, rich_ok: true, last_flush: None, shown: false }),
    {
        DraftState { draft_id, rich_ok: true, last_flush: None, shown: false }
    }

    /// Whether a draft is shown now: something changed, and either it must be
    /// seen at once or enough time has passed.
    pub fn wants_flush(&self, dirty: bool, at_once: bool, now: u64) -> (r: bool)
        ensures
            r == (dirty && (at_once || self.due_at(now))),
    {
        if !dirty {
            return false;
        }
        if at_once {
            return true;
        }
        match self.last_flush {
            Some(t) => now >= t && now - t >= DRAFT_INTERVAL,
            None => true,
        }
    }

    /// What is sent to show these words.
    pub fn flush_words(&self, words: &str) -> (r: Showing)
        ensures
            r@ == self.showing(words@),
    {
        if text::is_blank(words) {
            if self.shown {
                Showing::Nothing
            } else {
                Showing::Thinking
            }
        } else if self.rich_ok {
            Showing::Rich(render::clamp_rich(words, render::RICH_TEXT_LIMIT))
        } else {
            let plain = render::markdown_to_plain(words);
            Showing::Plain(util::truncate_chars(plain.as_str(), render::TG_TEXT_LIMIT))
        }
    }

    /// What is sent to show an answer so far and what the agent is doing.
    pub fn flush(&self, answer: &str, status: Option<&str>) -> (r: Showing)
        ensures
            r@ == self.showing(
                draft_words(
                    visible_part(answer@),
                    match status {
                        Some(s) => Some(s@),
                        None => None,
                    },
                ),
            ),
    {
        let (visible, _) = render::strip_images(answer);
        let words = draft_text(visible.as_str(), status);
        self.flush_words(words.as_str())
    }

    /// Takes in Telegram's reply. Where it is true, the draft is shown again, in
    /// the form that remains.
    pub fn on_reply(&mut self, sent: &Showing, outcome: Outcome, now: u64) -> (again: bool)
        ensures
            *final(self) == old(self).replied(sent@, outcome, now),
            again == (sent@ is Rich && outcome == Outcome::Refused),
    {
        match sent {
            Showing::Nothing => false,
            Showing::Thinking => {
                if outcome == Outcome::Sent {
                    self.shown = true;
                }
                false
            },
            Showing::Rich(_) => {
                match outcome {
                    Outcome::Sent => {
                        self.shown = true;
                        self.last_flush = Some(now);
                        false
                    },
                    Outcome::Refused => {
                        self.rich_ok = false;
                        true
                    },
                    Outcome::Failed => {
                        self.last_flush = Some(now);
                        false
                    },
                }
            },
            Showing::Plain(_) => {
                if outcome == Outcome::Sent {
                    self.shown = true;
                }
                self.last_flush = Some(now);
                false
            },
        }
    }
}

/// Once markup was refused, no draft of the turn uses it again, whatever is
/// replied later; and the words that were refused are shown without it.
pub proof fn refused_markup_is_not_tried_again(
    d: DraftState,
    words: Seq<char>,
    sent: ShowingView,
    outcome: Outcome,
    now: u64,
)
    ensures
        !d.rich_ok ==> !d.replied(sent, outcome, now).rich_ok,
        !d.rich_ok ==> !(d.showing(words) is Rich),
        d.showing(words) is Rich && outcome == Outcome::Refused ==> d.replied(
            d.showing(words),
            outcome,
            now,
        ).showing(words) == ShowingView::Plain(plain_draft(words)),
{
}

/// A draft that the reader has seen is never emptied: nothing is shown in place
/// of words.
pub proof fn shown_drafts_are_not_emptied(
    d: DraftState,
    words: Seq<char>,
    sent: ShowingView,
    outcome: Outcome,
    now: u64,
)
    requires
        d.shown,
    ensures
        d.replied(sent, outcome, now).shown,
        !(d.showing(words) is Thinking),
{
}

/// What is sent as a draft fits into what Telegram takes.
pub proof fn drafts_fit(d: DraftState, words: Seq<char>)
    ensures
        d.showing(words) matches ShowingView::Rich(s) ==> s.len() <= render::RICH_TEXT_LIMIT,
        d.showing(words) matches ShowingView::Plain(s) ==> s.len() <= render::TG_TEXT_LIMIT,
{
    crate::telegram::laws::clamp_fits(words, render::RICH_TEXT_LIMIT as int);
}

/// Two showings of a draft lie at least the interval apart, but for tool calls.
pub proof fn drafts_are_paced(d: DraftState, words: Seq<char>, outcome: Outcome, now: u64, later: u64)
    requires
        !text::blank(words),
        !(d.showing(words) is Rich && outcome == Outcome::Refused),
        now <= later < now + DRAFT_INTERVAL,
    ensures
        !d.replied(d.showing(words), outcome, now).due_at(later),
{
}

}
