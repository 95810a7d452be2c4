//! What holds of every delivery, whatever Telegram and DocsGPT reply.

use crate::docsgpt::types;
use crate::handlers::delivery;
use crate::handlers::draft::Outcome;
use crate::telegram::render;
use vstd::prelude::*;

verus! {

/// How much of a step's file is still ahead.
pub open spec fn file_steps_left(step: delivery::FileStep) -> int {
    match step {
        delivery::FileStep::Download => 6,
        delivery::FileStep::Photo => 5,
        delivery::FileStep::Document => 4,
        delivery::FileStep::Unsent => 3,
        delivery::FileStep::Unfetched => 3,
    }
}

/// How much of a step's image is still ahead.
pub open spec fn image_steps_left(step: delivery::ImageStep) -> int {
    match step {
        delivery::ImageStep::ByUrl => 5,
        delivery::ImageStep::Fetch => 4,
        delivery::ImageStep::Photo => 3,
        delivery::ImageStep::Document => 2,
    }
}

/// A bound on the actions that a delivery still takes.
pub open spec fn actions_left(c: delivery::CourierView) -> int {
    let files = 6 * c.files.len();
    let images = files + 5 * (c.images.len() + c.inline.len()) + 1;
    let plain = images + c.plain.len() as int + 1;
    let v2 = plain + c.v2.len() as int + 1;
    match c.stage {
        delivery::Stage::Rich => v2 + 2,
        delivery::Stage::RichBare => v2 + 1,
        delivery::Stage::V2(i) => plain + (c.v2.len() - i),
        delivery::Stage::Plain(i) => images + (c.plain.len() - i),
        delivery::Stage::Image(i, step) => files + 5 * (c.images.len() - i - 1) + image_steps_left(
            step,
        ),
        delivery::Stage::File(i, step) => 6 * (c.files.len() - i - 1) + file_steps_left(step),
        delivery::Stage::Done => 0,
    }
}

/// Every delivery comes to its end: whatever is reported, each action leaves
/// fewer to take.
#[verifier::rlimit(60)]
#[verifier::spinoff_prover]
pub proof fn deliveries_end(c: delivery::CourierView, report: delivery::ReportView)
    requires
        c.wf(),
        c.stage != delivery::Stage::Done,
    ensures
        0 <= actions_left(c.after(report)) < actions_left(c),
{
    let others = |u: Seq<char>| !c.images.contains(u);
    c.inline.lemma_filter_len(others);
}

/// Whether the text of an answer is behind a delivery.
pub open spec fn past_text(stage: delivery::Stage) -> bool {
    match stage {
        delivery::Stage::Image(_, _) => true,
        delivery::Stage::File(_, _) => true,
        delivery::Stage::Done => true,
        _ => false,
    }
}

/// An answer is not sent twice: once a rich message was taken no other text of
/// the answer follows, nor does one once the images or files have begun.
pub proof fn answers_are_not_repeated(c: delivery::CourierView, report: delivery::ReportView)
    ensures
        (c.stage == delivery::Stage::Rich || c.stage == delivery::Stage::RichBare) && report
            == delivery::ReportView::Reply(Outcome::Sent) ==> past_text(c.after(report).stage),
        past_text(c.stage) ==> past_text(c.after(report).stage),
{
}

/// The forms of an answer are tried in order: MarkdownV2 only where every rich
/// form was not taken, plain text only where MarkdownV2 was refused, and then the
/// whole answer again.
pub proof fn forms_are_tried_in_order(c: delivery::CourierView, report: delivery::ReportView)
    ensures
        c.after(report).stage is V2 && !(c.stage is V2) ==> (c.stage == delivery::Stage::RichBare || (
        c.stage == delivery::Stage::Rich && c.inline.len() == 0)) && report
            != delivery::ReportView::Reply(Outcome::Sent),
        c.after(report).stage is Plain && !(c.stage is Plain) ==> c.stage is V2 && report
            == delivery::ReportView::Reply(Outcome::Refused) && c.after(report).stage
            == delivery::Stage::Plain(0),
        c.stage == delivery::Stage::Rich && c.inline.len() > 0 && report
            != delivery::ReportView::Reply(Outcome::Sent) ==> c.after(report).action()
            == delivery::ActionView::SendRich(c.rich_bare),
{
}

/// The delivery after `n` actions that all succeeded.
pub open spec fn after_successes(c: delivery::CourierView, n: nat) -> delivery::CourierView
    decreases n,
{
    if n == 0 {
        c
    } else {
        after_successes(c, (n - 1) as nat).after(delivery::ReportView::Reply(Outcome::Sent))
    }
}

/// Where MarkdownV2 is taken every message of the answer is sent, in order.
pub proof fn every_v2_message_is_sent(c: delivery::CourierView, n: nat)
    requires
        n < c.v2.len() <= usize::MAX,
    ensures
        after_successes(c.at_v2(0), n) == c.at_v2(n as int),
        after_successes(c.at_v2(0), n).action() == delivery::ActionView::SendV2(c.v2[n as int]),
    decreases n,
{
    if n > 0 {
        every_v2_message_is_sent(c, (n - 1) as nat);
    }
}

/// Where plain text is taken every message of the answer is sent, in order.
pub proof fn every_plain_message_is_sent(c: delivery::CourierView, n: nat)
    requires
        n < c.plain.len() <= usize::MAX,
    ensures
        after_successes(c.at_plain(0), n) == c.at_plain(n as int),
        after_successes(c.at_plain(0), n).action() == delivery::ActionView::SendPlain(
            c.plain[n as int],
        ),
    decreases n,
{
    if n > 0 {
        every_plain_message_is_sent(c, (n - 1) as nat);
    }
}

/// No file is lost in silence: where one cannot be fetched or sent the reader is
/// told so, by its name.
pub proof fn lost_files_are_told(c: delivery::CourierView, i: int, report: delivery::ReportView)
    requires
        c.wf(),
        0 <= i < c.files.len(),
    ensures
        c.stage == delivery::Stage::File(i as usize, delivery::FileStep::Download) ==> (
        report matches delivery::ReportView::NotFetched(why) ==> c.after(report).action()
            == delivery::ActionView::SendPlain(delivery::unfetched_words(c.files[i].filename, why))),
        c.stage == delivery::Stage::File(i as usize, delivery::FileStep::Document) && report
            != delivery::ReportView::Reply(Outcome::Sent) ==> c.after(report).action()
            == delivery::ActionView::SendPlain(delivery::unsent_words(c.name)),
        c.stage == delivery::Stage::File(i as usize, delivery::FileStep::Photo) && report
            != delivery::ReportView::Reply(Outcome::Sent) ==> c.after(report).action()
            == delivery::ActionView::SendDocument(c.name),
{
}

/// The images of an answer that is sent without them follow it.
pub proof fn dropped_images_follow(c: delivery::CourierView, url: Seq<char>)
    requires
        c.inline.contains(url),
    ensures
        c.with_inline().images.contains(url),
{
    let others = |u: Seq<char>| !c.images.contains(u);
    let extra = delivery::not_in(c.inline, c.images);
    if c.images.contains(url) {
        let i = c.images.index_of(url);
        assert(c.with_inline().images[i] == url);
    } else {
        let i = c.inline.index_of(url);
        c.inline.lemma_filter_contains(others, i);
        assert(extra.contains(url));
        let k = extra.index_of(url);
        assert(c.with_inline().images[c.images.len() + k] == url);
    }
}

/// The messages of an answer fit into what Telegram takes, rich, as plain text and,
/// where the block of sources fits by itself, in MarkdownV2.
pub proof fn delivered_texts_fit(
    answer: Seq<char>,
    bare: Seq<char>,
    inline: Seq<Seq<char>>,
    sources: Seq<types::SourceView>,
    outputs: types::OutputsView,
    conversation: Option<Seq<char>>,
    i: int,
)
    ensures
        ({
            let c = delivery::CourierView::begun(
                answer,
                bare,
                inline,
                sources,
                outputs,
                conversation,
            );
            &&& c.rich.len() <= render::RICH_TEXT_LIMIT
            &&& c.rich_bare.len() <= render::RICH_TEXT_LIMIT
            &&& 0 <= i < c.plain.len() ==> 0 < c.plain[i].len() <= render::TG_TEXT_LIMIT
            &&& (delivery::v2_block(sources) matches Some(s) ==> s.len() <= render::TG_TEXT_LIMIT)
                ==> (0 <= i < c.v2.len() ==> c.v2[i].len() <= render::TG_TEXT_LIMIT)
        }),
{
    let blocks = render::v2_blocks(bare);
    let messages = render::packed(blocks, render::TG_TEXT_LIMIT as int);
    assert forall|k: int| 0 <= k < messages.len() implies (#[trigger] messages[k]).len()
        <= render::TG_TEXT_LIMIT by {
        crate::telegram::laws::messages_fit(blocks, render::TG_TEXT_LIMIT as int, k);
    }
    let shown = delivery::v2_block(sources);
    if 0 <= i < delivery::with_sources(messages, shown).len() && (shown is None || shown->0.len()
        <= render::TG_TEXT_LIMIT) {
        attached_sources_fit(messages, shown, i);
    }
    crate::telegram::laws::clamp_fits(
        answer + render::rich_block(sources),
        render::RICH_TEXT_LIMIT as int,
    );
    crate::telegram::laws::clamp_fits(
        bare + render::rich_block(sources),
        render::RICH_TEXT_LIMIT as int,
    );
    let plain = delivery::plain_with_sources(
        render::plain_of(bare),
        delivery::plain_block(sources),
    );
    let limit = render::TG_TEXT_LIMIT as int;
    if 0 <= i < render::plain_pieces(plain, limit).len() {
        crate::telegram::laws::split_pieces_fit(plain, limit, i);
    }
}

/// Putting the sources below the last message breaks no limit: where the messages
/// and the sources fit each by itself, so does every message that is sent.
pub proof fn attached_sources_fit(messages: Seq<Seq<char>>, block: Option<Seq<char>>, i: int)
    requires
        forall|k: int|
            0 <= k < messages.len() ==> (#[trigger] messages[k]).len() <= render::TG_TEXT_LIMIT,
        block matches Some(s) ==> s.len() <= render::TG_TEXT_LIMIT,
        0 <= i < delivery::with_sources(messages, block).len(),
    ensures
        delivery::with_sources(messages, block)[i].len() <= render::TG_TEXT_LIMIT,
{
    reveal_strlit("\n\n");
    if block is Some && messages.len() > 0 && delivery::fits_below(messages.last(), block->0) {
        if i < messages.len() - 1 {
            assert(delivery::with_sources(messages, block)[i] == messages[i]);
        }
    } else if i < messages.len() {
        assert(delivery::with_sources(messages, block)[i] == messages[i]);
    }
}

}
