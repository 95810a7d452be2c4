//! How answers reach the reader, as laws over the actions and what they come to.

use crate::docsgpt::types;
use crate::handlers::draft::Outcome;
use crate::handlers::{commands, delivery, draft, reply};
use crate::telegram::raw::ParseMode;
use crate::telegram::render;
use crate::telegram::types::Message;
use crate::text;
use crate::util;
use vstd::prelude::*;

verus! {

/// A delivery begins with the whole answer as a rich message, its sources below it; the
/// images of the tools that the answer does not show itself, and the files, follow.
pub proof fn deliveries_begin_rich(
    answer: Seq<char>,
    bare: Seq<char>,
    shown: Seq<Seq<char>>,
    sources: Seq<types::SourceView>,
    outputs: types::OutputsView,
    conversation: Option<Seq<char>>,
)
    ensures
        ({
            let c = delivery::CourierView::begun(
                answer,
                bare,
                shown,
                sources,
                outputs,
                conversation,
            );
            &&& (answer + render::rich_block(sources)).len() <= 30000 ==> c.action()
                == delivery::ActionView::SendRich(answer + render::rich_block(sources))
            &&& c.files == outputs.artifacts
            &&& c.conversation == conversation
            &&& c.inline == shown
            &&& shown.len() == 0 ==> c.images == outputs.image_urls
            &&& sources.len() == 0 ==> c.v2 == render::packed(render::v2_blocks(bare), 4096)
            &&& sources.len() == 0 ==> c.plain == render::plain_pieces(
                render::plain_of(bare),
                4096,
            )
        }),
{
    if shown.len() == 0 {
        lemma_none_excluded(outputs.image_urls, shown);
    }
}

proof fn lemma_none_excluded(list: Seq<Seq<char>>, other: Seq<Seq<char>>)
    requires
        other.len() == 0,
    ensures
        delivery::not_in(list, other) == list,
    decreases list.len(),
{
    reveal(Seq::filter);
    if list.len() > 0 {
        lemma_none_excluded(list.drop_last(), other);
        assert(list =~= list.drop_last().push(list.last()));
    }
}

/// Sources go below the last message where they fit there, an empty line between them,
/// and else into a message of their own.
pub proof fn sources_follow_the_answer(messages: Seq<Seq<char>>, last: Seq<char>, s: Seq<char>)
    ensures
        last.len() + 2 + s.len() <= 4096 ==> delivery::with_sources(messages.push(last), Some(s))
            == messages.push(last + seq!['\n', '\n'] + s),
        last.len() + 2 + s.len() > 4096 ==> delivery::with_sources(messages.push(last), Some(s))
            == messages.push(last).push(s),
        delivery::with_sources(messages, None) == messages,
        delivery::plain_with_sources(last, Some(s)) == last + seq!['\n', '\n'] + s,
        delivery::plain_with_sources(last, None) == last,
{
    reveal_strlit("\n\n");
    assert("\n\n"@ =~= seq!['\n', '\n']);
    assert(messages.push(last).drop_last() =~= messages);
}

/// The sources have a heading, in bold where there is markup.
pub proof fn sources_have_headings(list: Seq<types::SourceView>)
    requires
        0 < list.len() <= 20,
    ensures
        delivery::v2_block(list) == Some(
            text::trim_end(
                "*Sources*\n"@ + render::source_lines(render::SourceStyle::V2, list, list.len()),
            ),
        ),
        delivery::plain_block(list) == Some(
            text::trim_end(
                "Sources:\n"@ + render::source_lines(
                    render::SourceStyle::Plain,
                    list,
                    list.len(),
                ),
            ),
        ),
{
}

/// Every image is tried by its address; failing that it is fetched and sent as a photo,
/// and failing that as a document; then the next one follows.
pub proof fn images_are_sent_somehow(c: delivery::CourierView, i: int, name: Seq<char>, mime: Option<Seq<char>>)
    requires
        0 <= i < c.images.len() <= usize::MAX,
    ensures
        ({
            let by_url = c.at_image(i);
            let fetching = by_url.after(delivery::ReportView::Reply(Outcome::Refused));
            let photo = fetching.after(delivery::ReportView::Fetched(name, mime));
            let document = photo.after(delivery::ReportView::Reply(Outcome::Refused));
            &&& by_url.action() == delivery::ActionView::SendPhotoUrl(c.images[i])
            &&& by_url.after(delivery::ReportView::Reply(Outcome::Sent)) == by_url.at_image(i + 1)
            &&& fetching.action() == delivery::ActionView::FetchUrl(c.images[i])
            &&& photo.action() == delivery::ActionView::SendPhoto(
                util::safe_name(name, "image.png"@),
                None,
            )
            &&& photo.after(delivery::ReportView::Reply(Outcome::Sent)) == photo.at_image(i + 1)
            &&& document.action() == delivery::ActionView::SendDocument(
                util::safe_name(name, "image.png"@),
            )
            &&& document.after(delivery::ReportView::Reply(Outcome::Sent)) == document.at_image(
                i + 1,
            )
            &&& fetching.after(delivery::ReportView::NotFetched(name)) == fetching.at_image(i + 1)
        }),
{
}

/// Behind the last image the files follow, each fetched from the conversation by its id;
/// an image is sent as a photo with its name, anything else as a document.
pub proof fn files_are_sent(
    c: delivery::CourierView,
    i: int,
    conversation: Seq<char>,
    name: Seq<char>,
    mime: Seq<char>,
)
    requires
        c.conversation == Some(conversation),
        0 <= i < c.files.len() <= usize::MAX,
        name.len() > 0,
    ensures
        c.at_image(c.images.len() as int) == c.at_file(0),
        ({
            let at = c.at_file(i);
            let image = at.after(delivery::ReportView::Fetched(name, Some("image/"@ + mime)));
            let other = at.after(delivery::ReportView::Fetched(name, Some(mime)));
            &&& at.action() == delivery::ActionView::Download(
                conversation,
                c.files[i].id,
                c.files[i].filename,
            )
            &&& image.action() == delivery::ActionView::SendPhoto(
                util::safe_name(name, "file"@),
                Some(util::safe_name(name, "file"@)),
            )
            &&& !"image/"@.is_prefix_of(mime) ==> other.action()
                == delivery::ActionView::SendDocument(util::safe_name(name, "file"@))
            &&& image.after(delivery::ReportView::Reply(Outcome::Sent)) == image.at_file(i + 1)
            &&& !"image/"@.is_prefix_of(mime) ==> other.after(
                delivery::ReportView::Reply(Outcome::Sent),
            ) == other.at_file(i + 1)
        }),
        c.at_file(c.files.len() as int).action() == delivery::ActionView::Finished,
{
    let m = "image/"@ + mime;
    assert("image/"@ =~= m.subrange(0, "image/"@.len() as int));
}

/// The words about lost files name them.
pub proof fn lost_files_are_named(name: Seq<char>, why: Seq<char>)
    ensures
        delivery::unsent_words(name) == "I created "@ + name + " but couldn't send it here."@,
        why.len() <= 120 ==> delivery::unfetched_words(name, why) == "I created "@ + name
            + " but couldn't fetch it: "@ + why,
{
}

/// Where the rich message was taken the images of the tools follow, and where it was
/// taken without its images those follow too.
pub proof fn images_follow_rich_answers(c: delivery::CourierView)
    ensures
        c.stage == delivery::Stage::Rich ==> c.after(delivery::ReportView::Reply(Outcome::Sent))
            == c.at_image(0),
        c.stage == delivery::Stage::RichBare ==> c.after(
            delivery::ReportView::Reply(Outcome::Sent),
        ).images == c.images + c.inline,
        c.stage == delivery::Stage::Rich && c.inline.len() == 0 ==> c.after(
            delivery::ReportView::Reply(Outcome::Refused),
        ) == c.at_v2(0),
{
}

/// A guest is answered with the first message, and its sources where they fit.
pub proof fn guests_get_one_message(a: Seq<char>, s: Seq<char>)
    ensures
        a.len() + 2 + s.len() <= 4096 ==> delivery::first_or_empty(
            delivery::guest_messages(seq![a], Some(s)),
        ) == a + seq!['\n', '\n'] + s,
        a.len() + 2 + s.len() > 4096 ==> delivery::first_or_empty(
            delivery::guest_messages(seq![a], Some(s)),
        ) == a,
        delivery::first_or_empty(delivery::guest_messages(seq![a], None)) == a,
        delivery::first_or_empty(Seq::empty()).len() == 0,
{
    reveal_strlit("\n\n");
    assert("\n\n"@ =~= seq!['\n', '\n']);
}

/// A draft shows the answer so far and, below it, what the agent is doing.
pub proof fn drafts_show_answer_and_status(body: Seq<char>, status: Seq<char>)
    requires
        render::fence_closed(body) == body,
    ensures
        draft::draft_words(body, None) == body,
        body.len() > 0 ==> draft::draft_words(body, Some(status)) == body + seq!['\n', '\n']
            + "_⚙️ "@ + status + "…_"@,
        body.len() == 0 ==> draft::draft_words(body, Some(status)) == "_⚙️ "@ + status + "…_"@,
{
    reveal_strlit("\n\n");
    assert("\n\n"@ =~= seq!['\n', '\n']);
    assert(body + Seq::<char>::empty() =~= body);
    if body.len() == 0 {
        assert(body + Seq::<char>::empty() + "_⚙️ "@ =~= "_⚙️ "@);
    }
}

/// A draft is shown with markup as long as Telegram takes it, as plain text from then
/// on, and before there are words as a sign of thinking.
pub proof fn drafts_are_shown(d: draft::DraftState, words: Seq<char>)
    ensures
        !text::blank(words) && d.rich_ok && words.len() <= 30000 ==> d.showing(words)
            == draft::ShowingView::Rich(words),
        !text::blank(words) && !d.rich_ok && render::plain_of(words).len() <= 4096 ==> d.showing(
            words,
        ) == draft::ShowingView::Plain(render::plain_of(words)),
        text::blank(words) && !d.shown ==> d.showing(words) == draft::ShowingView::Thinking,
        text::blank(words) && d.shown ==> d.showing(words) == draft::ShowingView::Nothing,
{
}

/// A draft is shown again half a second after it was last sent, whether or not that
/// succeeded, and at once where it was not sent yet.
pub proof fn drafts_wait_half_a_second(
    d: draft::DraftState,
    words: Seq<char>,
    outcome: Outcome,
    t: u64,
    now: u64,
)
    ensures
        d.last_flush is None ==> d.due_at(now),
        d.last_flush == Some(t) ==> (d.due_at(now) <==> now - t >= 500),
        d.replied(draft::ShowingView::Rich(words), Outcome::Sent, t) == (draft::DraftState {
            shown: true,
            last_flush: Some(t),
            ..d
        }),
        d.replied(draft::ShowingView::Rich(words), Outcome::Refused, t) == (draft::DraftState {
            rich_ok: false,
            ..d
        }),
        d.replied(draft::ShowingView::Rich(words), Outcome::Failed, t) == (draft::DraftState {
            last_flush: Some(t),
            ..d
        }),
        d.replied(draft::ShowingView::Plain(words), outcome, t).last_flush == Some(t),
        d.replied(draft::ShowingView::Plain(words), Outcome::Sent, t).shown,
        d.replied(draft::ShowingView::Thinking, Outcome::Sent, t).shown,
        d.replied(draft::ShowingView::Thinking, Outcome::Failed, t) == d,
        d.replied(draft::ShowingView::Nothing, outcome, t) == d,
{
}

/// A command's reply is tried with markup at each of its places in turn, and as plain
/// text at the last.
pub proof fn replies_are_tried_in_turn(msg: Message, words: Seq<char>, i: int)
    requires
        0 <= i < commands::reply_places(msg).len() <= usize::MAX,
    ensures
        ({
            let r0 = reply::ReplyView::begun(msg, words);
            let r = reply::ReplyView { stage: reply::ReplyStage::Marked(i as usize), ..r0 };
            let next = r.after(false);
            &&& r0.attempt() == Some(
                reply::AttemptView {
                    target: commands::reply_places(msg)[0],
                    words,
                    mode: Some(ParseMode::MarkdownV2),
                    last: false,
                },
            )
            &&& r.after(true).attempt() is None
            &&& i + 1 < commands::reply_places(msg).len() ==> next.attempt() == Some(
                reply::AttemptView {
                    target: commands::reply_places(msg)[i + 1],
                    words,
                    mode: Some(ParseMode::MarkdownV2),
                    last: false,
                },
            )
            &&& i + 1 == commands::reply_places(msg).len() ==> (next.attempt() matches Some(a)
                && a.target == commands::reply_places(msg)[i] && a.mode is None && a.last)
            &&& i + 1 == commands::reply_places(msg).len() ==> next.after(false).attempt() is None
        }),
{
}

} // verus!
