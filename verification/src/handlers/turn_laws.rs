//! What a turn keeps of the things it hears, as laws over everything heard.

use crate::docsgpt::types;
use crate::handlers::turn;
use crate::text;
use vstd::prelude::*;

verus! {

/// A list of sources replaces the one before it, and nothing else that is heard
/// touches the sources.
pub proof fn sources_are_replaced(
    t: turn::TurnView,
    heard: turn::HeardView,
    list: Seq<types::SourceView>,
)
    ensures
        t.after(turn::HeardView::Event(types::EventView::Source(list))).sources == list,
        !(heard matches turn::HeardView::Event(types::EventView::Source(_))) ==> t.after(
            heard,
        ).sources == t.sources,
{
}

/// Whatever is heard, the sources of a turn are those told last.
pub proof fn last_told_sources_count(
    t: turn::TurnView,
    heard: Seq<turn::HeardView>,
    n: nat,
    i: int,
    list: Seq<types::SourceView>,
)
    requires
        n <= heard.len(),
        0 <= i < n,
        heard[i] == turn::HeardView::Event(types::EventView::Source(list)),
        forall|j: int|
            i < j < n ==> !(#[trigger] heard[j] matches turn::HeardView::Event(
                types::EventView::Source(_),
            )),
    ensures
        t.after_all(heard, n).sources == list,
    decreases n,
{
    if i < n - 1 {
        last_told_sources_count(t, heard, (n - 1) as nat, i, list);
        assert(!(heard[n - 1] matches turn::HeardView::Event(types::EventView::Source(_))));
    }
}

/// A turn that is told of no sources keeps those it has.
pub proof fn untold_sources_stay(t: turn::TurnView, heard: Seq<turn::HeardView>, n: nat)
    requires
        n <= heard.len(),
        forall|j: int|
            0 <= j < n ==> !(#[trigger] heard[j] matches turn::HeardView::Event(
                types::EventView::Source(_),
            )),
    ensures
        t.after_all(heard, n).sources == t.sources,
    decreases n,
{
    if n > 0 {
        untold_sources_stay(t, heard, (n - 1) as nat);
        assert(!(heard[n - 1] matches turn::HeardView::Event(types::EventView::Source(_))));
    }
}

/// What a finished tool call produced is collected behind what there was, and
/// only tool calls add anything.
pub proof fn outputs_are_collected(
    t: turn::TurnView,
    heard: turn::HeardView,
    call: types::ToolCallView,
)
    ensures
        call.status == "completed"@ || call.status == "error"@ || call.status == "denied"@ ==> {
            let after = t.after(turn::HeardView::Event(types::EventView::ToolCall(call))).outputs;
            let more = types::outputs_of(call, types::result_value(call));
            &&& t.outputs.artifacts.is_prefix_of(after.artifacts)
            &&& t.outputs.image_urls.is_prefix_of(after.image_urls)
            &&& forall|i: int|
                0 <= i < more.artifacts.len() ==> types::has_id(
                    after.artifacts,
                    (#[trigger] more.artifacts[i]).id,
                )
            &&& forall|i: int|
                0 <= i < more.image_urls.len() ==> after.image_urls.contains(
                    #[trigger] more.image_urls[i],
                )
        },
        call.status != "completed"@ && call.status != "error"@ && call.status != "denied"@
            ==> t.after(turn::HeardView::Event(types::EventView::ToolCall(call))).outputs
            == t.outputs,
        !(heard matches turn::HeardView::Event(types::EventView::ToolCall(_))) && !(
        heard matches turn::HeardView::Event(types::EventView::ToolCalls(_))) ==> t.after(
            heard,
        ).outputs == t.outputs,
{
    types::merge_keeps_and_adds(t.outputs, types::outputs_of(call, types::result_value(call)));
}

proof fn lemma_calls_collected(
    outputs: types::OutputsView,
    calls: Seq<types::ToolCallView>,
    n: nat,
    k: int,
)
    requires
        n <= calls.len(),
        0 <= k < n,
    ensures
        outputs.image_urls.is_prefix_of(turn::with_calls(outputs, calls, n).image_urls),
        outputs.artifacts.is_prefix_of(turn::with_calls(outputs, calls, n).artifacts),
        forall|i: int|
            0 <= i < turn::produced(calls[k]).image_urls.len() ==> turn::with_calls(
                outputs,
                calls,
                n,
            ).image_urls.contains(#[trigger] turn::produced(calls[k]).image_urls[i]),
        forall|i: int|
            0 <= i < turn::produced(calls[k]).artifacts.len() ==> types::has_id(
                turn::with_calls(outputs, calls, n).artifacts,
                (#[trigger] turn::produced(calls[k]).artifacts[i]).id,
            ),
    decreases n,
{
    let before = turn::with_calls(outputs, calls, (n - 1) as nat);
    let more = turn::produced(calls[n - 1]);
    let after = before.merged(more);
    types::merge_keeps_and_adds(before, more);
    if n == 1 {
        assert(turn::with_calls(outputs, calls, 0) == outputs);
    } else if k < n - 1 {
        lemma_calls_collected(outputs, calls, (n - 1) as nat, k);
        let one = turn::produced(calls[k]);
        assert forall|i: int| 0 <= i < one.image_urls.len() implies after.image_urls.contains(
            #[trigger] one.image_urls[i],
        ) by {
            let p = before.image_urls.index_of(one.image_urls[i]);
            assert(after.image_urls[p] == one.image_urls[i]);
        }
        assert forall|i: int| 0 <= i < one.artifacts.len() implies types::has_id(
            after.artifacts,
            (#[trigger] one.artifacts[i]).id,
        ) by {
            let p = choose|p: int|
                0 <= p < before.artifacts.len() && (#[trigger] before.artifacts[p]).id
                    == one.artifacts[i].id;
            assert(after.artifacts[p] == before.artifacts[p]);
        }
    } else {
        lemma_calls_collected(outputs, calls, (n - 1) as nat, 0);
    }
}

/// A list of tool calls adds what each of them produced, takes the status line
/// away, and leaves the rest of the turn alone.
pub proof fn listed_calls_are_collected(
    t: turn::TurnView,
    calls: Seq<types::ToolCallView>,
    k: int,
)
    requires
        0 <= k < calls.len(),
    ensures
        ({
            let after = t.after(turn::HeardView::Event(types::EventView::ToolCalls(calls)));
            let one = types::outputs_of(calls[k], types::result_value(calls[k]));
            &&& t.outputs.image_urls.is_prefix_of(after.outputs.image_urls)
            &&& t.outputs.artifacts.is_prefix_of(after.outputs.artifacts)
            &&& forall|i: int|
                0 <= i < one.image_urls.len() ==> after.outputs.image_urls.contains(
                    #[trigger] one.image_urls[i],
                )
            &&& forall|i: int|
                0 <= i < one.artifacts.len() ==> types::has_id(
                    after.outputs.artifacts,
                    (#[trigger] one.artifacts[i]).id,
                )
            &&& after.status is None
            &&& after == (turn::TurnView { outputs: after.outputs, status: None, ..t })
        }),
{
    lemma_calls_collected(t.outputs, calls, calls.len(), k);
}

/// The status line names a tool while it runs and goes when it is done; nothing
/// but tool calls touches it.
pub proof fn status_names_the_running_tool(
    t: turn::TurnView,
    heard: turn::HeardView,
    call: types::ToolCallView,
)
    ensures
        ({
            let after = t.after(turn::HeardView::Event(types::EventView::ToolCall(call)));
            let over = call.status == "completed"@ || call.status == "error"@ || call.status
                == "denied"@;
            &&& over ==> after.status is None
            &&& !over ==> after.status == Some(types::label_of(call.tool_name, call.action_name))
            &&& after.dirty
            &&& after.answer == t.answer && after.sources == t.sources && after.conversation
                == t.conversation && after.error == t.error && after.stopped == t.stopped
            &&& t.next(turn::HeardView::Event(types::EventView::ToolCall(call))) == (turn::Next {
                done: false,
                thinking: false,
                at_once: true,
            })
        }),
        !(heard matches turn::HeardView::Event(types::EventView::ToolCall(_))) && !(
        heard matches turn::HeardView::Event(types::EventView::ToolCalls(_))) ==> t.after(
            heard,
        ).status == t.status,
        !(heard matches turn::HeardView::Event(types::EventView::ToolCall(_))) ==> !t.next(
            heard,
        ).at_once,
{
}

/// Each way in which a turn fails leaves its own words, and only failures do.
pub proof fn failures_are_told(t: turn::TurnView, heard: turn::HeardView, s: Seq<char>)
    ensures
        t.after(turn::HeardView::Event(types::EventView::Error(s))).error == Some(s),
        t.after(turn::HeardView::Silence).error == Some("Timed out waiting for the assistant."@),
        t.after(turn::HeardView::Broken).error == Some(
            "The connection to the assistant dropped."@,
        ),
        heard == turn::HeardView::Cancelled || heard == turn::HeardView::Closed || (
        heard matches turn::HeardView::Event(e) && !(e is Error)) ==> t.after(heard).error
            == t.error,
        t.after(turn::HeardView::Cancelled).stopped,
        heard != turn::HeardView::Cancelled ==> t.after(heard).stopped == t.stopped,
{
}

/// A turn is over when its stream ends, fails or is stopped, and never while
/// other events come in.
pub proof fn turns_end_with_their_stream(t: turn::TurnView, e: types::EventView)
    ensures
        t.next(turn::HeardView::Silence).done,
        t.next(turn::HeardView::Cancelled).done,
        t.next(turn::HeardView::Closed).done,
        t.next(turn::HeardView::Broken).done,
        t.next(turn::HeardView::Event(e)).done <==> e is End || e is Error,
        t.next(turn::HeardView::Event(e)).thinking <==> e is Thought && t.answer.len() == 0,
{
}

/// A structured answer stands in for one that is blank, and never replaces or
/// lengthens another; thoughts, notices and the rest add nothing to it.
pub proof fn structured_answers_fill_in(t: turn::TurnView, s: Seq<char>, e: types::EventView)
    ensures
        text::blank(t.answer) ==> t.after(
            turn::HeardView::Event(types::EventView::StructuredAnswer(s)),
        ).answer == s,
        !text::blank(t.answer) ==> t.after(
            turn::HeardView::Event(types::EventView::StructuredAnswer(s)),
        ) == t,
        t.after(turn::HeardView::Event(types::EventView::Answer(s))).answer == t.answer + s,
        t.after(turn::HeardView::Event(types::EventView::Answer(s))).dirty,
        !(e is Answer) && !(e is StructuredAnswer) ==> t.after(
            turn::HeardView::Event(e),
        ).answer == t.answer,
        e is Thought || e is Notice || e is End || e is Other ==> t.after(
            turn::HeardView::Event(e),
        ) == t,
{
}

/// The conversation is the one that the agent names, by either event.
pub proof fn named_conversations_are_taken(
    t: turn::TurnView,
    m: Seq<char>,
    c: Seq<char>,
    e: types::EventView,
)
    ensures
        t.after(turn::HeardView::Event(types::EventView::ConversationId(c))).conversation == Some(c),
        t.after(
            turn::HeardView::Event(
                types::EventView::MessageId { message_id: m, conversation_id: Some(c) },
            ),
        ).conversation == Some(c),
        t.after(
            turn::HeardView::Event(
                types::EventView::MessageId { message_id: m, conversation_id: None },
            ),
        ) == t,
        !(e is ConversationId) && !(e is MessageId) ==> t.after(
            turn::HeardView::Event(e),
        ).conversation == t.conversation,
        turn::kept_conversation(None, Some(c)) == Some(c),
        turn::kept_conversation(Some(c), Some(c)) is None,
        c != m ==> turn::kept_conversation(Some(m), Some(c)) == Some(c),
        turn::kept_conversation(Some(c), None) is None,
{
}

/// A turn begins with nothing but its conversation.
pub proof fn turns_begin_empty(c: Option<Seq<char>>)
    ensures
        turn::TurnView::begun(c).answer.len() == 0,
        turn::TurnView::begun(c).sources.len() == 0,
        turn::TurnView::begun(c).outputs.artifacts.len() == 0,
        turn::TurnView::begun(c).outputs.image_urls.len() == 0,
        turn::TurnView::begun(c).conversation == c,
        turn::TurnView::begun(c).error is None,
        turn::TurnView::begun(c).status is None,
        !turn::TurnView::begun(c).stopped,
        !turn::TurnView::begun(c).dirty,
{
}

/// How a turn ends: with its answer where there is one, however it stopped;
/// otherwise with a word on what happened.
pub proof fn turns_end_in_words(t: turn::TurnView, e: Seq<char>)
    ensures
        !text::blank(t.answer) ==> t.ending() == turn::EndingView::Deliver(text::trim(t.answer)),
        text::blank(t.answer) && t.stopped ==> t.ending() == turn::EndingView::Say("Stopped."@),
        text::blank(t.answer) && !t.stopped && t.error == Some(e) && e.len() <= 300 ==> t.ending()
            == turn::EndingView::Say("Sorry, I couldn't get an answer right now.\n\n"@ + e),
        text::blank(t.answer) && !t.stopped && t.error is None ==> t.ending()
            == turn::EndingView::Say(
            "Sorry, I couldn't get an answer right now.\n\n"@ + "No answer was produced."@,
        ),
{
    reveal_strlit("No answer was produced.");
    text::lemma_blank(t.answer);
}

} // verus!
