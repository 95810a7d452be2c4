//! One turn of a conversation: what is gathered while the agent answers, and
//! what becomes of it.

use crate::docsgpt::types;
use crate::docsgpt::types::{Event, Source, ToolCall, ToolOutputs};
use crate::text;
use crate::util;
use vstd::prelude::*;

verus! {

/// The longest silence of the agent, in seconds.
pub const IDLE_TIMEOUT: u64 = 150;

/// The most characters of a spoken answer.
pub const SPOKEN_LIMIT: usize = 1500;

/// The most characters of an error that are shown.
pub const SHOWN_ERROR: usize = 300;

/// What a turn hears.
#[derive(Debug)]
pub enum Heard {
    /// Nothing, for too long.
    Silence,
    /// The reader pressed stop.
    Cancelled,
    /// The stream came to its end.
    Closed,
    /// The stream broke off.
    Broken,
    /// An event.
    Event(Event),
}

/// What a turn hears, as mathematical values.
pub ghost enum HeardView {
    Silence,
    Cancelled,
    Closed,
    Broken,
    Event(types::EventView),
}

impl View for Heard {
    type V = HeardView;

    open spec fn view(&self) -> HeardView {
        match self {
            Heard::Silence => HeardView::Silence,
            Heard::Cancelled => HeardView::Cancelled,
            Heard::Closed => HeardView::Closed,
            Heard::Broken => HeardView::Broken,
            Heard::Event(e) => HeardView::Event(e@),
        }
    }
}

/// What follows from something heard.
#[derive(Debug, Clone, Copy, PartialEq, Eq, Structural)]
pub struct Next {
    /// The turn is over.
    pub done: bool,
    /// The agent is thinking and has not said anything yet.
    pub thinking: bool,
    /// What changed is shown at once.
    pub at_once: bool,
}

/// A turn as it goes on.
#[derive(Debug)]
pub struct Turn {
    pub answer: String,
    pub sources: Vec<Source>,
    pub outputs: ToolOutputs,
    /// The conversation that the turn belongs to.
    pub conversation: Option<String>,
    pub error: Option<String>,
    /// What the agent is doing.
    pub status: Option<String>,
    /// Whether the reader stopped it.
    pub stopped: bool,
    /// Whether something changed that is not shown yet.
    pub dirty: bool,
}

/// A turn as mathematical values.
pub ghost struct TurnView {
    pub answer: Seq<char>,
    pub sources: Seq<types::SourceView>,
    pub outputs: types::OutputsView,
    pub conversation: Option<Seq<char>>,
    pub error: Option<Seq<char>>,
    pub status: Option<Seq<char>>,
    pub stopped: bool,
    pub dirty: bool,
}

impl View for Turn {
    type V = TurnView;

    open spec fn view(&self) -> TurnView {
        TurnView {
            answer: self.answer@,
            sources: types::source_views(self.sources@),
            outputs: self.outputs@,
            conversation: text::opt_view(self.conversation),
            error: text::opt_view(self.error),
            status: text::opt_view(self.status),
            stopped: self.stopped,
            dirty: self.dirty,
        }
    }
}

/// Whether a tool call has run its course, well or badly.
pub open spec fn call_is_over(status: Seq<char>) -> bool {
    status == "completed"@ || status == "error"@ || status == "denied"@
}

/// What a call produced.
pub open spec fn produced(call: types::ToolCallView) -> types::OutputsView {
    types::outputs_of(call, types::result_value(call))
}

/// The outputs with those of the first `n` calls added.
pub open spec fn with_calls(
    outputs: types::OutputsView,
    calls: Seq<types::ToolCallView>,
    n: nat,
) -> types::OutputsView
    decreases n,
{
    if n == 0 {
        outputs
    } else {
        with_calls(outputs, calls, (n - 1) as nat).merged(produced(calls[n - 1]))
    }
}

impl TurnView {
    /// A turn at its beginning.
    pub open spec fn begun(conversation: Option<Seq<char>>) -> TurnView {
        TurnView {
            answer: Seq::empty(),
            sources: Seq::empty(),
            outputs: types::OutputsView { artifacts: Seq::empty(), image_urls: Seq::empty() },
            conversation,
            error: None,
            status: None,
            stopped: false,
            dirty: false,
        }
    }

    /// The turn after an event.
    pub open spec fn after_event(self, e: types::EventView) -> TurnView {
        match e {
            types::EventView::Answer(delta) => TurnView {
                answer: self.answer + delta,
                dirty: true,
                ..self
            },
            types::EventView::ToolCall(call) => if call_is_over(call.status) {
                TurnView {
                    outputs: self.outputs.merged(produced(call)),
                    status: None,
                    dirty: true,
                    ..self
                }
            } else {
                TurnView {
                    status: Some(types::label_of(call.tool_name, call.action_name)),
                    dirty: true,
                    ..self
                }
            },
            types::EventView::ToolCalls(calls) => TurnView {
                outputs: with_calls(self.outputs, calls, calls.len()),
                status: None,
                ..self
            },
            types::EventView::Source(list) => TurnView { sources: list, ..self },
            types::EventView::MessageId { message_id, conversation_id } => TurnView {
                conversation: if conversation_id is Some {
                    conversation_id
                } else {
                    self.conversation
                },
                ..self
            },
            types::EventView::ConversationId(c) => TurnView { conversation: Some(c), ..self },
            types::EventView::StructuredAnswer(s) => if text::blank(self.answer) {
                TurnView { answer: s, ..self }
            } else {
                self
            },
            types::EventView::Error(s) => TurnView { error: Some(s), ..self },
            _ => self,
        }
    }

    /// The turn after something heard.
    pub open spec fn after(self, heard: HeardView) -> TurnView {
        match heard {
            HeardView::Silence => TurnView {
                error: Some("Timed out waiting for the assistant."@),
                ..self
            },
            HeardView::Cancelled => TurnView { stopped: true, ..self },
            HeardView::Closed => self,
            HeardView::Broken => TurnView {
                error: Some("The connection to the assistant dropped."@),
                ..self
            },
            HeardView::Event(e) => self.after_event(e),
        }
    }

    /// What follows from something heard.
    pub open spec fn next(self, heard: HeardView) -> Next {
        Next {
            done: ends_turn(heard),
            thinking: heard matches HeardView::Event(types::EventView::Thought(_))
                && self.answer.len() == 0,
            at_once: heard matches HeardView::Event(types::EventView::ToolCall(_)),
        }
    }

    /// The turn after the first `n` of a list of things heard.
    pub open spec fn after_all(self, list: Seq<HeardView>, n: nat) -> TurnView
        decreases n,
    {
        if n == 0 {
            self
        } else {
            self.after_all(list, (n - 1) as nat).after(list[n - 1])
        }
    }
}

/// Whether a turn is over once it has heard this.
pub open spec fn ends_turn(heard: HeardView) -> bool {
    match heard {
        HeardView::Event(types::EventView::Error(_)) => true,
        HeardView::Event(types::EventView::End) => true,
        HeardView::Event(_) => false,
        _ => true,
    }
}

impl Turn {
    /// A turn at its beginning, in the conversation that goes on.
    pub fn new(conversation: Option<String>) -> (r: Turn)
        ensures
            r@ == TurnView::begun(text::opt_view(conversation)),
    {
        let r = Turn {
            answer: String::new(),
            sources: Vec::new(),
            outputs: ToolOutputs::none(),
            conversation,
            error: None,
            status: None,
            stopped: false,
            dirty: false,
        };
        assert(r@.answer =~= Seq::<char>::empty());
        assert(r@.sources =~= Seq::<types::SourceView>::empty());
        r
    }

    fn on_call(&mut self, call: ToolCall)
        ensures
            final(self)@ == old(self)@.after_event(types::EventView::ToolCall(call@)),
    {
        if call.is_completed() || text::same(call.status.as_str(), "error") || text::same(
            call.status.as_str(),
            "denied",
        ) {
            let out = call.outputs();
            self.outputs.merge(out);
            self.status = None;
        } else {
            self.status = Some(call.label());
        }
        self.dirty = true;
    }

    fn on_calls(&mut self, calls: &Vec<ToolCall>)
        ensures
            final(self)@ == old(self)@.after_event(
                types::EventView::ToolCalls(types::call_views(calls@)),
            ),
    {
        let ghost start = self@;
        let ghost views = types::call_views(calls@);
        let mut i: usize = 0;
        while i < calls.len()
            invariant
                i <= calls@.len(),
                views == types::call_views(calls@),
                self@ == (TurnView { outputs: with_calls(start.outputs, views, i as nat), ..start }),
            decreases calls@.len() - i,
        {
            let out = calls[i].outputs();
            assert(calls@[i as int]@ == views[i as int]);
            self.outputs.merge(out);
            i = i + 1;
        }
        self.status = None;
    }

    /// Takes in what was heard.
    pub fn hear(&mut self, heard: Heard) -> (r: Next)
        ensures
            final(self)@ == old(self)@.after(heard@),
            r == old(self)@.next(heard@),
    {
        let mut next = Next { done: false, thinking: false, at_once: false };
        match heard {
            Heard::Silence => {
                self.error = Some("Timed out waiting for the assistant.".to_string());
                next.done = true;
            },
            Heard::Cancelled => {
                self.stopped = true;
                next.done = true;
            },
            Heard::Closed => {
                next.done = true;
            },
            Heard::Broken => {
                self.error = Some("The connection to the assistant dropped.".to_string());
                next.done = true;
            },
            Heard::Event(Event::Answer(delta)) => {
                self.answer.append(delta.as_str());
                self.dirty = true;
            },
            Heard::Event(Event::Thought(_)) => {
                next.thinking = text::char_count(self.answer.as_str()) == 0;
            },
            Heard::Event(Event::ToolCall(call)) => {
                self.on_call(call);
                next.at_once = true;
            },
            Heard::Event(Event::ToolCalls(calls)) => {
                self.on_calls(&calls);
            },
            Heard::Event(Event::Source(list)) => {
                self.sources = list;
            },
            Heard::Event(Event::MessageId { message_id: _, conversation_id }) => {
                if conversation_id.is_some() {
                    self.conversation = conversation_id;
                }
            },
            Heard::Event(Event::ConversationId(c)) => {
                self.conversation = Some(c);
            },
            Heard::Event(Event::StructuredAnswer(s)) => {
                if text::is_blank(self.answer.as_str()) {
                    self.answer = s;
                }
            },
            Heard::Event(Event::Error(s)) => {
                self.error = Some(s);
                next.done = true;
            },
            Heard::Event(Event::End) => {
                next.done = true;
            },
            Heard::Event(Event::Notice(_)) => {},
            Heard::Event(Event::Other(_, _)) => {},
        }
        next
    }

    /// Notes that what changed has been shown.
    pub fn shown(&mut self)
        ensures
            final(self)@ == (TurnView { dirty: false, ..old(self)@ }),
    {
        self.dirty = false;
    }
}

/// The conversation to keep, where it is not the one that the turn began with.
pub open spec fn kept_conversation(before: Option<Seq<char>>, after: Option<Seq<char>>) -> Option<
    Seq<char>,
> {
    if after is Some && after != before {
        after
    } else {
        None
    }
}

/// The words that tell of an error.
pub open spec fn error_words(detail: Seq<char>) -> Seq<char> {
    "Sorry, I couldn't get an answer right now.\n\n"@ + util::truncated(
        detail,
        SHOWN_ERROR as nat,
    )
}

/// The words that tell of an error.
pub fn error_text(detail: &str) -> (r: String)
    ensures
        r@ == error_words(detail@),
{
    let mut r: String = "Sorry, I couldn't get an answer right now.\n\n".to_string();
    r.append(util::truncate_chars(detail, SHOWN_ERROR).as_str());
    r
}

/// What is said where DocsGPT cannot be reached at all.
pub fn unreachable_text() -> (r: String)
    ensures
        r@ == error_words("The assistant could not be reached."@),
{
    error_text("The assistant could not be reached.")
}

/// How a turn ends.
#[derive(Debug)]
pub enum Ending {
    /// There is no answer; these words are sent.
    Say(String),
    /// The answer is delivered.
    Deliver(String),
}

/// How a turn ends, as mathematical values.
pub ghost enum EndingView {
    Say(Seq<char>),
    Deliver(Seq<char>),
}

impl View for Ending {
    type V = EndingView;

    open spec fn view(&self) -> EndingView {
        match self {
            Ending::Say(s) => EndingView::Say(s@),
            Ending::Deliver(s) => EndingView::Deliver(s@),
        }
    }
}

impl TurnView {
    /// How the turn ends.
    pub open spec fn ending(self) -> EndingView {
        let answer = text::trim(self.answer);
        if answer.len() > 0 {
            EndingView::Deliver(answer)
        } else if self.stopped {
            EndingView::Say("Stopped."@)
        } else {
            EndingView::Say(
                error_words(
                    match self.error {
                        Some(e) => e,
                        None => "No answer was produced."@,
                    },
                ),
            )
        }
    }
}

impl Turn {
    /// The conversation to keep after a turn that began in `before`.
    pub fn conversation_to_keep(&self, before: &Option<String>) -> (r: Option<String>)
        ensures
            text::opt_view(r) == kept_conversation(text::opt_view(*before), self@.conversation),
    {
        match &self.conversation {
            None => None,
            Some(c) => {
                match before {
                    Some(b) => {
                        if text::same(c.as_str(), b.as_str()) {
                            return None;
                        }
                    },
                    None => {},
                }
                Some(c.as_str().to_string())
            },
        }
    }

    /// How the turn ends.
    pub fn ending(&self) -> (r: Ending)
        ensures
            r@ == self@.ending(),
    {
        let answer = text::trimmed(self.answer.as_str());
        if text::char_count(answer.as_str()) > 0 {
            return Ending::Deliver(answer);
        }
        if self.stopped {
            return Ending::Say("Stopped.".to_string());
        }
        match &self.error {
            Some(e) => Ending::Say(error_text(e.as_str())),
            None => Ending::Say(error_text("No answer was produced.")),
        }
    }
}

/// The text that a heard thing adds to an answer.
pub open spec fn delta_of(heard: HeardView) -> Seq<char> {
    match heard {
        HeardView::Event(types::EventView::Answer(delta)) => delta,
        _ => Seq::empty(),
    }
}

/// The deltas of the first `n` things heard, one behind the other.
pub open spec fn deltas(list: Seq<HeardView>, n: nat) -> Seq<char>
    decreases n,
{
    if n == 0 {
        Seq::empty()
    } else {
        deltas(list, (n - 1) as nat) + delta_of(list[n - 1])
    }
}

/// Where no structured answer comes, the answer is what was streamed: every
/// delta, in order, and nothing else.
pub proof fn answer_is_what_was_streamed(
    conversation: Option<Seq<char>>,
    list: Seq<HeardView>,
    n: nat,
)
    requires
        n <= list.len(),
        forall|i: int|
            0 <= i < n ==> !((#[trigger] list[i]) matches HeardView::Event(
                types::EventView::StructuredAnswer(_),
            )),
    ensures
        TurnView::begun(conversation).after_all(list, n).answer == deltas(list, n),
    decreases n,
{
    if n > 0 {
        answer_is_what_was_streamed(conversation, list, (n - 1) as nat);
        let before = TurnView::begun(conversation).after_all(list, (n - 1) as nat);
        assert(before.after(list[n - 1]).answer =~= before.answer + delta_of(list[n - 1]));
    }
}

/// Stopping a turn cuts it short and loses nothing of what had come: the answer
/// so far is delivered, and only an empty one is answered with a notice.
pub proof fn stopping_keeps_the_answer(t: TurnView)
    ensures
        t.after(HeardView::Cancelled).answer == t.answer,
        t.next(HeardView::Cancelled).done,
        text::trim(t.answer).len() > 0 ==> t.after(HeardView::Cancelled).ending()
            == EndingView::Deliver(text::trim(t.answer)),
        text::trim(t.answer).len() == 0 ==> t.after(HeardView::Cancelled).ending()
            == EndingView::Say("Stopped."@),
{
}

/// Every turn is answered with some words.
pub proof fn every_turn_is_answered(t: TurnView)
    ensures
        t.ending() matches EndingView::Say(s) ==> s.len() > 0,
        t.ending() matches EndingView::Deliver(s) ==> s.len() > 0,
{
    reveal_strlit("Stopped.");
    reveal_strlit("Sorry, I couldn't get an answer right now.\n\n");
}

/// An answer that came before an error is delivered all the same.
pub proof fn errors_do_not_discard_the_answer(t: TurnView, heard: HeardView)
    requires
        heard is Silence || heard is Broken || heard matches HeardView::Event(
            types::EventView::Error(_),
        ),
    ensures
        t.next(heard).done,
        t.after(heard).answer == t.answer,
        text::trim(t.answer).len() > 0 ==> t.after(heard).ending() == EndingView::Deliver(
            text::trim(t.answer),
        ),
{
}

/// A conversation is kept once: a later turn in it that is given no other has
/// nothing to keep.
pub proof fn conversations_are_kept_once(before: Option<Seq<char>>, after: Option<Seq<char>>)
    ensures
        kept_conversation(before, after) matches Some(c) ==> kept_conversation(Some(c), after)
            is None,
        kept_conversation(before, before) is None,
        kept_conversation(before, after) is None ==> after is None || after == before,
{
}

/// The conversation of a turn is the last that was named in it.
pub proof fn last_named_conversation_counts(t: TurnView, c: Seq<char>)
    ensures
        t.after(HeardView::Event(types::EventView::ConversationId(c))).conversation == Some(c),
        forall|e: types::EventView|
            !(e is ConversationId) && !(e matches types::EventView::MessageId {
                message_id,
                conversation_id: Some(_),
            }) ==> (#[trigger] t.after_event(e)).conversation == t.conversation,
{
}

}
