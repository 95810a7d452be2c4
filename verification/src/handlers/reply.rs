//! Getting a reply to a command through: where it is tried, and in which form.

use crate::handlers::commands;
use crate::telegram::api;
use crate::telegram::api::Target;
use crate::telegram::raw::ParseMode;
use crate::telegram::types::Message;
use vstd::prelude::*;

verus! {

/// How far a reply has come.
#[derive(Debug, Clone, Copy, PartialEq, Eq, Structural)]
pub enum ReplyStage {
    /// It is tried in MarkdownV2 at this place.
    Marked(usize),
    /// It is tried as plain text at the last place.
    Plain,
    /// Nothing is left to try.
    Over,
}

/// A reply on its way.
#[derive(Debug)]
pub struct Reply {
    places: Vec<Target>,
    words: String,
    stage: ReplyStage,
}

/// A reply on its way, as mathematical values.
pub ghost struct ReplyView {
    pub places: Seq<api::TargetView>,
    pub words: Seq<char>,
    pub stage: ReplyStage,
}

impl View for Reply {
    type V = ReplyView;

    closed spec fn view(&self) -> ReplyView {
        ReplyView {
            places: self.places@.map_values(|t: Target| t@),
            words: self.words@,
            stage: self.stage,
        }
    }
}

/// One attempt to send a reply.
#[derive(Debug)]
pub struct Attempt {
    pub target: Target,
    pub words: String,
    pub mode: Option<ParseMode>,
    /// Whether it is the last: where it fails, so does the reply.
    pub last: bool,
}

/// One attempt as mathematical values.
pub ghost struct AttemptView {
    pub target: api::TargetView,
    pub words: Seq<char>,
    pub mode: Option<ParseMode>,
    pub last: bool,
}

impl View for Attempt {
    type V = AttemptView;

    open spec fn view(&self) -> AttemptView {
        AttemptView {
            target: self.target@,
            words: self.words@,
            mode: self.mode,
            last: self.last,
        }
    }
}

/// The value of an attempt, where there is one.
pub open spec fn attempt_view(a: Option<Attempt>) -> Option<AttemptView> {
    match a {
        Some(a) => Some(a@),
        None => None,
    }
}

impl ReplyView {
    /// A reply to a command, not tried yet.
    pub open spec fn begun(msg: Message, words: Seq<char>) -> ReplyView {
        ReplyView { places: commands::reply_places(msg), words, stage: ReplyStage::Marked(0) }
    }

    /// Whether there is a place to reply, and the stage is one of them.
    pub open spec fn wf(self) -> bool {
        &&& 0 < self.places.len() <= usize::MAX
        &&& self.stage matches ReplyStage::Marked(i) ==> i < self.places.len()
    }

    /// The next attempt: MarkdownV2 at each place in turn, then plain text at the
    /// last of them.
    pub open spec fn attempt(self) -> Option<AttemptView> {
        match self.stage {
            ReplyStage::Marked(i) => Some(
                AttemptView {
                    target: self.places[i as int],
                    words: self.words,
                    mode: Some(ParseMode::MarkdownV2),
                    last: false,
                },
            ),
            ReplyStage::Plain => Some(
                AttemptView {
                    target: self.places.last(),
                    words: commands::plain_words(self.words),
                    mode: None,
                    last: true,
                },
            ),
            ReplyStage::Over => None,
        }
    }

    /// The reply after an attempt that succeeded or did not.
    pub open spec fn after(self, sent: bool) -> ReplyView {
        ReplyView {
            stage: match self.stage {
                ReplyStage::Marked(i) => if sent {
                    ReplyStage::Over
                } else if i + 1 < self.places.len() {
                    ReplyStage::Marked((i + 1) as usize)
                } else {
                    ReplyStage::Plain
                },
                _ => ReplyStage::Over,
            },
            ..self
        }
    }

    /// A bound on the attempts that are left.
    pub open spec fn attempts_left(self) -> int {
        match self.stage {
            ReplyStage::Marked(i) => self.places.len() - i + 1,
            ReplyStage::Plain => 1,
            ReplyStage::Over => 0,
        }
    }
}

impl Reply {
    /// A reply to a command, in MarkdownV2.
    pub fn new(msg: &Message, words: String) -> (r: Reply)
        ensures
            r@ == ReplyView::begun(*msg, words@),
            r@.wf(),
    {
        Reply { places: commands::reply_targets(msg), words, stage: ReplyStage::Marked(0) }
    }

    /// The next attempt; none once the reply is over.
    pub fn attempt(&self) -> (r: Option<Attempt>)
        requires
            self@.wf(),
        ensures
            attempt_view(r) == self@.attempt(),
    {
        match self.stage {
            ReplyStage::Marked(i) => {
                assert(self@.places[i as int] == self.places@[i as int]@);
                Some(
                    Attempt {
                        target: self.places[i].clone(),
                        words: self.words.as_str().to_string(),
                        mode: Some(ParseMode::MarkdownV2),
                        last: false,
                    },
                )
            },
            ReplyStage::Plain => {
                let i: usize = self.places.len() - 1;
                assert(self@.places.last() == self.places@[i as int]@);
                Some(
                    Attempt {
                        target: self.places[i].clone(),
                        words: commands::plain_reply(self.words.as_str()),
                        mode: None,
                        last: true,
                    },
                )
            },
            ReplyStage::Over => None,
        }
    }

    /// Takes in whether the last attempt succeeded.
    pub fn on_report(&mut self, sent: bool)
        requires
            old(self)@.wf(),
        ensures
            final(self)@ == old(self)@.after(sent),
            final(self)@.wf(),
    {
        self.stage = match self.stage {
            ReplyStage::Marked(i) => if sent {
                ReplyStage::Over
            } else if i + 1 < self.places.len() {
                ReplyStage::Marked(i + 1)
            } else {
                ReplyStage::Plain
            },
            _ => ReplyStage::Over,
        };
    }
}

/// Every reply comes to its end: each attempt leaves fewer, and one that succeeds
/// leaves none.
pub proof fn replies_end(r: ReplyView, sent: bool)
    requires
        r.wf(),
        r.stage != ReplyStage::Over,
    ensures
        r.after(sent).wf(),
        0 <= r.after(sent).attempts_left() < r.attempts_left(),
        sent ==> r.after(sent).attempt() is None,
{
}

/// A reply is made plain only after MarkdownV2 failed at the last place, and is then
/// sent there.
pub proof fn plain_is_the_last_resort(r: ReplyView, sent: bool)
    requires
        r.wf(),
        r.stage is Marked,
        r.after(sent).stage is Plain,
    ensures
        !sent,
        r.attempt()->0.target == r.places.last(),
        r.after(sent).attempt()->0.target == r.places.last(),
        r.after(sent).attempt()->0.words == commands::plain_words(r.words),
{
}

}
