//! The final message of a turn: rich, else MarkdownV2, else plain; then the
//! images and files that came with it.

use crate::docsgpt::types;
use crate::docsgpt::types::{ArtifactRef, Source, ToolOutputs};
use crate::handlers::draft;
use crate::handlers::draft::Outcome;
use crate::pattern;
use crate::telegram::render;
use crate::text;
use crate::util;
use vstd::prelude::*;

verus! {

/// The MarkdownV2 messages of an answer with its sources: at the end of the last
/// message where they fit there, else in a message of their own.
pub open spec fn with_sources(messages: Seq<Seq<char>>, block: Option<Seq<char>>) -> Seq<Seq<char>> {
    match block {
        None => messages,
        Some(s) => if messages.len() > 0 && fits_below(messages.last(), s) {
            messages.drop_last().push(messages.last() + "\n\n"@ + s)
        } else {
            messages.push(s)
        },
    }
}

/// Whether a block fits below a message.
pub open spec fn fits_below(message: Seq<char>, block: Seq<char>) -> bool {
    message.len() + block.len() + 2 <= render::TG_TEXT_LIMIT
}

/// The sources for a MarkdownV2 message.
pub open spec fn v2_block(sources: Seq<types::SourceView>) -> Option<Seq<char>> {
    render::source_block(render::SourceStyle::V2, "*Sources*\n"@, sources)
}

/// The sources for a plain message.
pub open spec fn plain_block(sources: Seq<types::SourceView>) -> Option<Seq<char>> {
    render::source_block(render::SourceStyle::Plain, "Sources:\n"@, sources)
}

/// A plain text with its sources below it.
pub open spec fn plain_with_sources(plain: Seq<char>, block: Option<Seq<char>>) -> Seq<char> {
    match block {
        Some(s) => plain + "\n\n"@ + s,
        None => plain,
    }
}

/// A rich message: the text and its sources, cut to what Telegram takes.
pub open spec fn rich_message(s: Seq<char>, sources: Seq<types::SourceView>) -> Seq<char> {
    render::clamped(s + render::rich_block(sources), render::RICH_TEXT_LIMIT as int)
}

/// The texts of a list that are not in another.
pub open spec fn not_in(list: Seq<Seq<char>>, other: Seq<Seq<char>>) -> Seq<Seq<char>> {
    list.filter(|u: Seq<char>| !other.contains(u))
}

fn in_list(list: &Vec<String>, s: &str) -> (r: bool)
    ensures
        r == text::views(list@).contains(s@),
{
    let ghost vs = text::views(list@);
    let mut i: usize = 0;
    while i < list.len()
        invariant
            i <= list@.len(),
            vs == text::views(list@),
            vs.len() == list@.len(),
            forall|j: int| 0 <= j < i ==> vs[j] != s@,
        decreases list@.len() - i,
    {
        assert(vs[i as int] == list@[i as int]@);
        if text::same(list[i].as_str(), s) {
            return true;
        }
        i = i + 1;
    }
    false
}

fn missing_from(list: &Vec<String>, other: &Vec<String>) -> (r: Vec<String>)
    ensures
        text::views(r@) == not_in(text::views(list@), text::views(other@)),
{
    let ghost vs = text::views(list@);
    let ghost ws = text::views(other@);
    let ghost keep = |u: Seq<char>| !ws.contains(u);
    let mut r: Vec<String> = Vec::new();
    let mut i: usize = 0;
    proof {
        reveal(Seq::filter);
        assert(text::views(r@) =~= vs.take(0).filter(keep));
    }
    while i < list.len()
        invariant
            i <= list@.len(),
            vs == text::views(list@),
            vs.len() == list@.len(),
            ws == text::views(other@),
            keep == (|u: Seq<char>| !ws.contains(u)),
            text::views(r@) == vs.take(i as int).filter(keep),
        decreases list@.len() - i,
    {
        proof {
            reveal(Seq::filter);
            assert(vs.take(i + 1).drop_last() =~= vs.take(i as int));
            assert(vs.take(i + 1).last() == list@[i as int]@);
        }
        if !in_list(other, list[i].as_str()) {
            let u = list[i].as_str().to_string();
            proof {
                text::lemma_views_push(r@, u);
            }
            r.push(u);
        }
        i = i + 1;
    }
    assert(vs.take(i as int) =~= vs);
    r
}

fn add_all(list: &mut Vec<String>, more: &Vec<String>)
    ensures
        text::views(final(list)@) == text::views(old(list)@) + text::views(more@),
{
    let ghost start = text::views(list@);
    let ghost vs = text::views(more@);
    let mut i: usize = 0;
    assert(start + vs.take(0) =~= start);
    while i < more.len()
        invariant
            i <= more@.len(),
            vs == text::views(more@),
            vs.len() == more@.len(),
            text::views(list@) == start + vs.take(i as int),
        decreases more@.len() - i,
    {
        let u = more[i].as_str().to_string();
        proof {
            text::lemma_views_push(list@, u);
            assert(vs[i as int] == u@);
            assert(start + vs.take(i + 1) =~= (start + vs.take(i as int)).push(u@));
        }
        list.push(u);
        i = i + 1;
    }
    assert(vs.take(i as int) =~= vs);
}

/// Whether a block fits below a message.
fn block_fits(message: &str, block: &str) -> (r: bool)
    ensures
        r == fits_below(message@, block@),
{
    let a: usize = text::char_count(message);
    let b: usize = text::char_count(block);
    let limit: usize = render::TG_TEXT_LIMIT;
    a <= limit && b <= limit && a + b + 2 <= limit
}

fn below(message: &str, block: &str) -> (r: String)
    ensures
        r@ == message@ + "\n\n"@ + block@,
{
    let mut r: String = message.to_string();
    r.append("\n\n");
    r.append(block);
    r
}

/// The MarkdownV2 messages with the sources.
pub fn attach_sources(messages: Vec<String>, block: Option<String>) -> (r: Vec<String>)
    ensures
        text::views(r@) == with_sources(text::views(messages@), text::opt_view(block)),
{
    let mut messages = messages;
    match block {
        None => {},
        Some(s) => {
            let ghost vs = text::views(messages@);
            let n: usize = messages.len();
            assert(vs.len() == n);
            if n > 0 && block_fits(messages[n - 1].as_str(), s.as_str()) {
                let last = below(messages[n - 1].as_str(), s.as_str());
                assert(vs.last() == messages@[n - 1]@);
                messages.set(n - 1, last);
                assert(text::views(messages@) =~= vs.drop_last().push(vs.last() + "\n\n"@ + s@));
            } else {
                assert(n > 0 ==> vs.last() == messages@[n - 1]@);
                proof {
                    text::lemma_views_push(messages@, s);
                }
                messages.push(s);
            }
        },
    }
    messages
}

/// How far the delivery of an image has come.
#[derive(Debug, Clone, Copy, PartialEq, Eq, Structural)]
pub enum ImageStep {
    /// Telegram is given its address.
    ByUrl,
    /// It is fetched.
    Fetch,
    /// It is sent as a photo.
    Photo,
    /// It is sent as a document.
    Document,
}

/// How far the delivery of a file has come.
#[derive(Debug, Clone, Copy, PartialEq, Eq, Structural)]
pub enum FileStep {
    /// It is downloaded.
    Download,
    /// It is sent as a photo.
    Photo,
    /// It is sent as a document.
    Document,
    /// The reader is told that it could not be sent.
    Unsent,
    /// The reader is told that it could not be fetched.
    Unfetched,
}

/// How far a delivery has come.
#[derive(Debug, Clone, Copy, PartialEq, Eq, Structural)]
pub enum Stage {
    /// The whole answer, with its images, as a rich message.
    Rich,
    /// The answer without its images, as a rich message.
    RichBare,
    /// A MarkdownV2 message.
    V2(usize),
    /// A plain message.
    Plain(usize),
    /// An image.
    Image(usize, ImageStep),
    /// A file.
    File(usize, FileStep),
    /// Nothing is left to do.
    Done,
}

/// What is done next to deliver an answer.
#[derive(Debug)]
pub enum Action {
    /// A rich message is sent.
    SendRich(String),
    /// A MarkdownV2 message is sent.
    SendV2(String),
    /// A plain message is sent.
    SendPlain(String),
    /// A photo is sent by its address.
    SendPhotoUrl(String),
    /// An address is fetched.
    FetchUrl(String),
    /// What was fetched is sent as a photo under this name, with a caption or
    /// without.
    SendPhoto(String, Option<String>),
    /// What was fetched is sent as a document under this name.
    SendDocument(String),
    /// A file is downloaded: its conversation, its id and its name.
    Download(String, String, String),
    /// Nothing is left to do.
    Finished,
}

/// What is done next, as mathematical values.
pub ghost enum ActionView {
    SendRich(Seq<char>),
    SendV2(Seq<char>),
    SendPlain(Seq<char>),
    SendPhotoUrl(Seq<char>),
    FetchUrl(Seq<char>),
    SendPhoto(Seq<char>, Option<Seq<char>>),
    SendDocument(Seq<char>),
    Download(Seq<char>, Seq<char>, Seq<char>),
    Finished,
}

impl View for Action {
    type V = ActionView;

    open spec fn view(&self) -> ActionView {
        match self {
            Action::SendRich(s) => ActionView::SendRich(s@),
            Action::SendV2(s) => ActionView::SendV2(s@),
            Action::SendPlain(s) => ActionView::SendPlain(s@),
            Action::SendPhotoUrl(s) => ActionView::SendPhotoUrl(s@),
            Action::FetchUrl(s) => ActionView::FetchUrl(s@),
            Action::SendPhoto(name, caption) => ActionView::SendPhoto(
                name@,
                text::opt_view(*caption),
            ),
            Action::SendDocument(name) => ActionView::SendDocument(name@),
            Action::Download(c, id, name) => ActionView::Download(c@, id@, name@),
            Action::Finished => ActionView::Finished,
        }
    }
}

/// What came of an action.
#[derive(Debug)]
pub enum Report {
    /// Telegram replied to what was sent.
    Reply(Outcome),
    /// Something was fetched: its name and media type.
    Fetched(String, Option<String>),
    /// It could not be fetched, for this reason.
    NotFetched(String),
}

/// What came of an action, as mathematical values.
pub ghost enum ReportView {
    Reply(Outcome),
    Fetched(Seq<char>, Option<Seq<char>>),
    NotFetched(Seq<char>),
}

impl View for Report {
    type V = ReportView;

    open spec fn view(&self) -> ReportView {
        match self {
            Report::Reply(o) => ReportView::Reply(*o),
            Report::Fetched(name, mime) => ReportView::Fetched(name@, text::opt_view(*mime)),
            Report::NotFetched(why) => ReportView::NotFetched(why@),
        }
    }
}

/// The delivery of one answer.
#[derive(Debug)]
pub struct Courier {
    rich: String,
    rich_bare: String,
    v2: Vec<String>,
    plain: Vec<String>,
    /// The images that stand in the answer.
    inline: Vec<String>,
    /// The images that are sent after the text.
    images: Vec<String>,
    files: Vec<ArtifactRef>,
    conversation: Option<String>,
    stage: Stage,
    /// The name of what was fetched last.
    name: String,
    /// Why it could not be fetched.
    why: String,
}

/// The delivery of one answer as mathematical values.
pub ghost struct CourierView {
    pub rich: Seq<char>,
    pub rich_bare: Seq<char>,
    pub v2: Seq<Seq<char>>,
    pub plain: Seq<Seq<char>>,
    pub inline: Seq<Seq<char>>,
    pub images: Seq<Seq<char>>,
    pub files: Seq<types::ArtifactView>,
    pub conversation: Option<Seq<char>>,
    pub stage: Stage,
    pub name: Seq<char>,
    pub why: Seq<char>,
}

impl View for Courier {
    type V = CourierView;

    closed spec fn view(&self) -> CourierView {
        CourierView {
            rich: self.rich@,
            rich_bare: self.rich_bare@,
            v2: text::views(self.v2@),
            plain: text::views(self.plain@),
            inline: text::views(self.inline@),
            images: text::views(self.images@),
            files: types::artifact_views(self.files@),
            conversation: text::opt_view(self.conversation),
            stage: self.stage,
            name: self.name@,
            why: self.why@,
        }
    }
}

/// The name that a fetched image is sent under.
pub open spec fn image_name(filename: Seq<char>) -> Seq<char> {
    util::safe_name(filename, "image.png"@)
}

/// The name that a downloaded file is sent under.
pub open spec fn file_name(filename: Seq<char>, file: types::ArtifactView) -> Seq<char> {
    util::safe_name(
        if filename.len() == 0 {
            file.filename
        } else {
            filename
        },
        "file"@,
    )
}

/// Whether a downloaded file is an image: by the type that came with it, else by
/// the one that it was announced with.
pub open spec fn is_image(mime: Option<Seq<char>>, file: types::ArtifactView) -> bool {
    let ty = if mime is Some {
        mime
    } else {
        file.mime_type
    };
    ty is Some && "image/"@.is_prefix_of(ty->0)
}

/// The words about a file that could not be sent.
pub open spec fn unsent_words(name: Seq<char>) -> Seq<char> {
    "I created "@ + name + " but couldn't send it here."@
}

/// The words about a file that could not be fetched.
pub open spec fn unfetched_words(filename: Seq<char>, why: Seq<char>) -> Seq<char> {
    "I created "@ + filename + " but couldn't fetch it: "@ + util::truncated(why, 120)
}

impl CourierView {
    /// The delivery of an answer at its beginning. `bare` is the answer without
    /// its images, `inline` are the images.
    pub open spec fn begun(
        answer: Seq<char>,
        bare: Seq<char>,
        inline: Seq<Seq<char>>,
        sources: Seq<types::SourceView>,
        outputs: types::OutputsView,
        conversation: Option<Seq<char>>,
    ) -> CourierView {
        CourierView {
            rich: rich_message(answer, sources),
            rich_bare: rich_message(bare, sources),
            v2: with_sources(
                render::packed(render::v2_blocks(bare), render::TG_TEXT_LIMIT as int),
                v2_block(sources),
            ),
            plain: render::plain_pieces(
                plain_with_sources(render::plain_of(bare), plain_block(sources)),
                render::TG_TEXT_LIMIT as int,
            ),
            inline,
            images: not_in(outputs.image_urls, inline),
            files: outputs.artifacts,
            conversation,
            stage: Stage::Rich,
            name: Seq::empty(),
            why: Seq::empty(),
        }
    }

    /// The delivery at a stage.
    pub open spec fn at(self, stage: Stage) -> CourierView {
        CourierView { stage, ..self }
    }

    /// On with the file at this place; without a conversation none can be had.
    pub open spec fn at_file(self, i: int) -> CourierView {
        if self.conversation is Some && i < self.files.len() {
            self.at(Stage::File(i as usize, FileStep::Download))
        } else {
            self.at(Stage::Done)
        }
    }

    /// On with the image at this place.
    pub open spec fn at_image(self, i: int) -> CourierView {
        if i < self.images.len() {
            self.at(Stage::Image(i as usize, ImageStep::ByUrl))
        } else {
            self.at_file(0)
        }
    }

    /// The images of the answer follow the text as well.
    pub open spec fn with_inline(self) -> CourierView {
        CourierView { images: self.images + not_in(self.inline, self.images), ..self }
    }

    /// On with the MarkdownV2 message at this place.
    pub open spec fn at_v2(self, i: int) -> CourierView {
        if i < self.v2.len() {
            self.at(Stage::V2(i as usize))
        } else {
            self.with_inline().at_image(0)
        }
    }

    /// On with the plain message at this place.
    pub open spec fn at_plain(self, i: int) -> CourierView {
        if i < self.plain.len() {
            self.at(Stage::Plain(i as usize))
        } else {
            self.with_inline().at_image(0)
        }
    }

    /// What is done next.
    pub open spec fn action(self) -> ActionView {
        match self.stage {
            Stage::Rich => ActionView::SendRich(self.rich),
            Stage::RichBare => ActionView::SendRich(self.rich_bare),
            Stage::V2(i) => ActionView::SendV2(self.v2[i as int]),
            Stage::Plain(i) => ActionView::SendPlain(self.plain[i as int]),
            Stage::Image(i, ImageStep::ByUrl) => ActionView::SendPhotoUrl(self.images[i as int]),
            Stage::Image(i, ImageStep::Fetch) => ActionView::FetchUrl(self.images[i as int]),
            Stage::Image(_, ImageStep::Photo) => ActionView::SendPhoto(self.name, None),
            Stage::Image(_, ImageStep::Document) => ActionView::SendDocument(self.name),
            Stage::File(i, FileStep::Download) => ActionView::Download(
                self.conversation->0,
                self.files[i as int].id,
                self.files[i as int].filename,
            ),
            Stage::File(_, FileStep::Photo) => ActionView::SendPhoto(self.name, Some(self.name)),
            Stage::File(_, FileStep::Document) => ActionView::SendDocument(self.name),
            Stage::File(_, FileStep::Unsent) => ActionView::SendPlain(unsent_words(self.name)),
            Stage::File(i, FileStep::Unfetched) => ActionView::SendPlain(
                unfetched_words(self.files[i as int].filename, self.why),
            ),
            Stage::Done => ActionView::Finished,
        }
    }

    /// The delivery once an image has come a step further.
    pub open spec fn after_image(self, i: int, step: ImageStep, report: ReportView) -> CourierView {
        let sent = report == ReportView::Reply(Outcome::Sent);
        match step {
            ImageStep::ByUrl => if sent {
                self.at_image(i + 1)
            } else {
                self.at(Stage::Image(i as usize, ImageStep::Fetch))
            },
            ImageStep::Fetch => match report {
                ReportView::Fetched(filename, _) => CourierView {
                    name: image_name(filename),
                    ..self
                }.at(Stage::Image(i as usize, ImageStep::Photo)),
                _ => self.at_image(i + 1),
            },
            ImageStep::Photo => if sent {
                self.at_image(i + 1)
            } else {
                self.at(Stage::Image(i as usize, ImageStep::Document))
            },
            ImageStep::Document => self.at_image(i + 1),
        }
    }

    /// The delivery once a file has come a step further.
    pub open spec fn after_file(self, i: int, step: FileStep, report: ReportView) -> CourierView {
        let sent = report == ReportView::Reply(Outcome::Sent);
        match step {
            FileStep::Download => match report {
                ReportView::Fetched(filename, mime) => CourierView {
                    name: file_name(filename, self.files[i]),
                    ..self
                }.at(
                    Stage::File(
                        i as usize,
                        if is_image(mime, self.files[i]) {
                            FileStep::Photo
                        } else {
                            FileStep::Document
                        },
                    ),
                ),
                ReportView::NotFetched(why) => CourierView { why, ..self }.at(
                    Stage::File(i as usize, FileStep::Unfetched),
                ),
                ReportView::Reply(_) => self.at_file(i + 1),
            },
            FileStep::Photo => if sent {
                self.at_file(i + 1)
            } else {
                self.at(Stage::File(i as usize, FileStep::Document))
            },
            FileStep::Document => if sent {
                self.at_file(i + 1)
            } else {
                self.at(Stage::File(i as usize, FileStep::Unsent))
            },
            FileStep::Unsent => self.at_file(i + 1),
            FileStep::Unfetched => self.at_file(i + 1),
        }
    }

    /// The delivery once an action has been tried.
    pub open spec fn after(self, report: ReportView) -> CourierView {
        let sent = report == ReportView::Reply(Outcome::Sent);
        match self.stage {
            Stage::Rich => if sent {
                self.at_image(0)
            } else if self.inline.len() > 0 {
                self.at(Stage::RichBare)
            } else {
                self.at_v2(0)
            },
            Stage::RichBare => if sent {
                CourierView { images: self.images + self.inline, ..self }.at_image(0)
            } else {
                self.at_v2(0)
            },
            Stage::V2(i) => if sent {
                self.at_v2(i + 1)
            } else if report == ReportView::Reply(Outcome::Refused) {
                self.at_plain(0)
            } else {
                self.at(Stage::Done)
            },
            Stage::Plain(i) => if sent {
                self.at_plain(i + 1)
            } else {
                self.at(Stage::Done)
            },
            Stage::Image(i, step) => self.after_image(i as int, step, report),
            Stage::File(i, step) => self.after_file(i as int, step, report),
            Stage::Done => self,
        }
    }

    /// Whether the stage is one that the delivery has.
    pub open spec fn wf(self) -> bool {
        &&& self.v2.len() <= usize::MAX
        &&& self.plain.len() <= usize::MAX
        &&& self.inline.len() <= usize::MAX
        &&& self.images.len() <= usize::MAX
        &&& self.files.len() <= usize::MAX
        &&& match self.stage {
            Stage::V2(i) => i < self.v2.len(),
            Stage::Plain(i) => i < self.plain.len(),
            Stage::Image(i, _) => i < self.images.len(),
            Stage::File(i, _) => self.conversation is Some && i < self.files.len(),
            _ => true,
        }
    }
}

impl Courier {
    proof fn lemma_lengths(&self)
        ensures
            self@.v2.len() == self.v2@.len(),
            self@.plain.len() == self.plain@.len(),
            self@.inline.len() == self.inline@.len(),
            self@.images.len() == self.images@.len(),
            self@.files.len() == self.files@.len(),
            self@.v2.len() <= usize::MAX,
            self@.plain.len() <= usize::MAX,
            self@.inline.len() <= usize::MAX,
            self@.images.len() <= usize::MAX,
            self@.files.len() <= usize::MAX,
            forall|i: int| 0 <= i < self.v2@.len() ==> self@.v2[i] == (#[trigger] self.v2@[i])@,
            forall|i: int|
                0 <= i < self.plain@.len() ==> self@.plain[i] == (#[trigger] self.plain@[i])@,
            forall|i: int|
                0 <= i < self.images@.len() ==> self@.images[i] == (#[trigger] self.images@[i])@,
            forall|i: int|
                0 <= i < self.files@.len() ==> self@.files[i] == (#[trigger] self.files@[i])@,
    {
        assert(self.v2.len() == self.v2@.len());
        assert(self.plain.len() == self.plain@.len());
        assert(self.inline.len() == self.inline@.len());
        assert(self.images.len() == self.images@.len());
        assert(self.files.len() == self.files@.len());
    }

    /// The delivery of an answer. `bare` is the answer without its images,
    /// `inline` are the images.
    pub fn begin(
        answer: &str,
        bare: &str,
        inline: Vec<String>,
        sources: &Vec<Source>,
        outputs: ToolOutputs,
        conversation: Option<String>,
    ) -> (r: Courier)
        ensures
            r@.wf(),
            r@ == CourierView::begun(
                answer@,
                bare@,
                text::views(inline@),
                types::source_views(sources@),
                outputs@,
                text::opt_view(conversation),
            ),
    {
        let tail = render::rich_sources(sources);
        let mut whole: String = answer.to_string();
        whole.append(tail.as_str());
        let mut part: String = bare.to_string();
        part.append(tail.as_str());
        let messages = render::markdown_v2_messages(bare, render::TG_TEXT_LIMIT);
        let v2 = attach_sources(messages, render::v2_sources(sources));
        let mut plain = render::markdown_to_plain(bare);
        match render::plain_sources(sources) {
            Some(s) => {
                plain = below(plain.as_str(), s.as_str());
            },
            None => {},
        }
        let images = missing_from(&outputs.image_urls, &inline);
        let r = Courier {
            rich: render::clamp_rich(whole.as_str(), render::RICH_TEXT_LIMIT),
            rich_bare: render::clamp_rich(part.as_str(), render::RICH_TEXT_LIMIT),
            v2,
            plain: render::plain_messages(plain.as_str(), render::TG_TEXT_LIMIT),
            inline,
            images,
            files: outputs.artifacts,
            conversation,
            stage: Stage::Rich,
            name: String::new(),
            why: String::new(),
        };
        assert(r@.name =~= Seq::<char>::empty());
        assert(r@.why =~= Seq::<char>::empty());
        proof {
            r.lemma_lengths();
        }
        r
    }

    /// The delivery of an answer.
    pub fn new(
        answer: &str,
        sources: &Vec<Source>,
        outputs: ToolOutputs,
        conversation: Option<String>,
    ) -> (r: Courier)
        ensures
            r@.wf(),
            ({
                let (bare, inline) = render::without_images(
                    pattern::found_in(render::IMAGE@, answer@),
                );
                r@ == CourierView::begun(
                    answer@,
                    bare,
                    inline,
                    types::source_views(sources@),
                    outputs@,
                    text::opt_view(conversation),
                )
            }),
    {
        let (bare, inline) = render::strip_images(answer);
        Courier::begin(answer, bare.as_str(), inline, sources, outputs, conversation)
    }

    /// What is done next.
    pub fn action(&self) -> (r: Action)
        requires
            self@.wf(),
        ensures
            r@ == self@.action(),
    {
        proof {
            self.lemma_lengths();
        }
        match self.stage {
            Stage::Rich => Action::SendRich(self.rich.as_str().to_string()),
            Stage::RichBare => Action::SendRich(self.rich_bare.as_str().to_string()),
            Stage::V2(i) => Action::SendV2(self.v2[i].as_str().to_string()),
            Stage::Plain(i) => Action::SendPlain(self.plain[i].as_str().to_string()),
            Stage::Image(i, ImageStep::ByUrl) => Action::SendPhotoUrl(
                self.images[i].as_str().to_string(),
            ),
            Stage::Image(i, ImageStep::Fetch) => Action::FetchUrl(
                self.images[i].as_str().to_string(),
            ),
            Stage::Image(_, ImageStep::Photo) => Action::SendPhoto(
                self.name.as_str().to_string(),
                None,
            ),
            Stage::Image(_, ImageStep::Document) => Action::SendDocument(
                self.name.as_str().to_string(),
            ),
            Stage::File(i, FileStep::Download) => {
                let conversation: String = match &self.conversation {
                    Some(c) => c.as_str().to_string(),
                    None => String::new(),
                };
                Action::Download(
                    conversation,
                    self.files[i].id.as_str().to_string(),
                    self.files[i].filename.as_str().to_string(),
                )
            },
            Stage::File(_, FileStep::Photo) => Action::SendPhoto(
                self.name.as_str().to_string(),
                Some(self.name.as_str().to_string()),
            ),
            Stage::File(_, FileStep::Document) => Action::SendDocument(
                self.name.as_str().to_string(),
            ),
            Stage::File(_, FileStep::Unsent) => {
                let mut r: String = "I created ".to_string();
                r.append(self.name.as_str());
                r.append(" but couldn't send it here.");
                Action::SendPlain(r)
            },
            Stage::File(i, FileStep::Unfetched) => {
                let mut r: String = "I created ".to_string();
                r.append(self.files[i].filename.as_str());
                r.append(" but couldn't fetch it: ");
                r.append(util::truncate_chars(self.why.as_str(), 120).as_str());
                Action::SendPlain(r)
            },
            Stage::Done => Action::Finished,
        }
    }

    fn go_to_file(&mut self, i: usize)
        ensures
            final(self)@ == old(self)@.at_file(i as int),
    {
        proof {
            self.lemma_lengths();
        }
        if self.conversation.is_some() && i < self.files.len() {
            self.stage = Stage::File(i, FileStep::Download);
        } else {
            self.stage = Stage::Done;
        }
    }

    fn go_to_image(&mut self, i: usize)
        ensures
            final(self)@ == old(self)@.at_image(i as int),
    {
        proof {
            self.lemma_lengths();
        }
        if i < self.images.len() {
            self.stage = Stage::Image(i, ImageStep::ByUrl);
        } else {
            self.go_to_file(0);
        }
    }

    fn add_inline(&mut self)
        ensures
            final(self)@ == old(self)@.with_inline(),
            final(self)@.images.len() <= usize::MAX,
    {
        let extra = missing_from(&self.inline, &self.images);
        add_all(&mut self.images, &extra);
        proof {
            self.lemma_lengths();
        }
    }

    fn go_to_v2(&mut self, i: usize)
        ensures
            final(self)@ == old(self)@.at_v2(i as int),
            final(self)@.images.len() <= usize::MAX,
    {
        proof {
            self.lemma_lengths();
        }
        if i < self.v2.len() {
            self.stage = Stage::V2(i);
        } else {
            self.add_inline();
            self.go_to_image(0);
        }
    }

    fn go_to_plain(&mut self, i: usize)
        ensures
            final(self)@ == old(self)@.at_plain(i as int),
            final(self)@.images.len() <= usize::MAX,
    {
        proof {
            self.lemma_lengths();
        }
        if i < self.plain.len() {
            self.stage = Stage::Plain(i);
        } else {
            self.add_inline();
            self.go_to_image(0);
        }
    }

    fn on_image(&mut self, i: usize, step: ImageStep, report: &Report)
        requires
            old(self)@.wf(),
            i < old(self)@.images.len(),
        ensures
            final(self)@ == old(self)@.after_image(i as int, step, report@),
    {
        proof {
            self.lemma_lengths();
        }
        let sent: bool = match report {
            Report::Reply(o) => *o == Outcome::Sent,
            _ => false,
        };
        match step {
            ImageStep::ByUrl => {
                if sent {
                    self.go_to_image(i + 1);
                } else {
                    self.stage = Stage::Image(i, ImageStep::Fetch);
                }
            },
            ImageStep::Fetch => {
                match report {
                    Report::Fetched(filename, _) => {
                        self.name = util::safe_filename(filename.as_str(), "image.png");
                        self.stage = Stage::Image(i, ImageStep::Photo);
                    },
                    _ => {
                        self.go_to_image(i + 1);
                    },
                }
            },
            ImageStep::Photo => {
                if sent {
                    self.go_to_image(i + 1);
                } else {
                    self.stage = Stage::Image(i, ImageStep::Document);
                }
            },
            ImageStep::Document => {
                self.go_to_image(i + 1);
            },
        }
    }

    fn on_download(&mut self, i: usize, report: &Report)
        requires
            old(self)@.wf(),
            i < old(self)@.files.len(),
        ensures
            final(self)@ == old(self)@.after_file(i as int, FileStep::Download, report@),
    {
        proof {
            self.lemma_lengths();
        }
        assert(self@.files[i as int] == self.files@[i as int]@);
        match report {
            Report::Fetched(filename, mime) => {
                let name = if text::char_count(filename.as_str()) == 0 {
                    util::safe_filename(self.files[i].filename.as_str(), "file")
                } else {
                    util::safe_filename(filename.as_str(), "file")
                };
                let ty: &Option<String> = if mime.is_some() {
                    mime
                } else {
                    &self.files[i].mime_type
                };
                let image: bool = match ty {
                    Some(t) => text::starts_with(t.as_str(), "image/"),
                    None => false,
                };
                self.name = name;
                self.stage = Stage::File(
                    i,
                    if image {
                        FileStep::Photo
                    } else {
                        FileStep::Document
                    },
                );
            },
            Report::NotFetched(why) => {
                self.why = why.as_str().to_string();
                self.stage = Stage::File(i, FileStep::Unfetched);
            },
            Report::Reply(_) => {
                self.go_to_file(i + 1);
            },
        }
    }

    fn on_file(&mut self, i: usize, step: FileStep, report: &Report)
        requires
            old(self)@.wf(),
            i < old(self)@.files.len(),
        ensures
            final(self)@ == old(self)@.after_file(i as int, step, report@),
    {
        proof {
            self.lemma_lengths();
        }
        let sent: bool = match report {
            Report::Reply(o) => *o == Outcome::Sent,
            _ => false,
        };
        match step {
            FileStep::Download => {
                self.on_download(i, report);
            },
            FileStep::Photo => {
                if sent {
                    self.go_to_file(i + 1);
                } else {
                    self.stage = Stage::File(i, FileStep::Document);
                }
            },
            FileStep::Document => {
                if sent {
                    self.go_to_file(i + 1);
                } else {
                    self.stage = Stage::File(i, FileStep::Unsent);
                }
            },
            FileStep::Unsent => {
                self.go_to_file(i + 1);
            },
            FileStep::Unfetched => {
                self.go_to_file(i + 1);
            },
        }
    }

    /// Takes in what came of the last action.
    pub fn on_report(&mut self, report: &Report)
        requires
            old(self)@.wf(),
        ensures
            final(self)@ == old(self)@.after(report@),
            final(self)@.wf(),
    {
        proof {
            self.lemma_lengths();
        }
        let sent: bool = match report {
            Report::Reply(o) => *o == Outcome::Sent,
            _ => false,
        };
        match self.stage {
            Stage::Rich => {
                if sent {
                    self.go_to_image(0);
                } else if self.inline.len() > 0 {
                    self.stage = Stage::RichBare;
                } else {
                    self.go_to_v2(0);
                }
            },
            Stage::RichBare => {
                if sent {
                    add_all(&mut self.images, &self.inline);
                    proof {
                        self.lemma_lengths();
                    }
                    self.go_to_image(0);
                } else {
                    self.go_to_v2(0);
                }
            },
            Stage::V2(i) => {
                let refused: bool = match report {
                    Report::Reply(o) => *o == Outcome::Refused,
                    _ => false,
                };
                if sent {
                    self.go_to_v2(i + 1);
                } else if refused {
                    self.go_to_plain(0);
                } else {
                    self.stage = Stage::Done;
                }
            },
            Stage::Plain(i) => {
                if sent {
                    self.go_to_plain(i + 1);
                } else {
                    self.stage = Stage::Done;
                }
            },
            Stage::Image(i, step) => {
                self.on_image(i, step, report);
            },
            Stage::File(i, step) => {
                self.on_file(i, step, report);
            },
            Stage::Done => {},
        }
        proof {
            self.lemma_lengths();
        }
    }
}

/// What a guest is answered: the first MarkdownV2 message, with the sources where
/// they fit into the last one.
pub open spec fn guest_messages(messages: Seq<Seq<char>>, block: Option<Seq<char>>) -> Seq<Seq<char>> {
    match block {
        Some(s) => if messages.len() > 0 && fits_below(messages.last(), s) {
            messages.drop_last().push(messages.last() + "\n\n"@ + s)
        } else {
            messages
        },
        None => messages,
    }
}

/// The first of a list of texts, or nothing.
pub open spec fn first_or_empty(list: Seq<Seq<char>>) -> Seq<char> {
    if list.len() > 0 {
        list[0]
    } else {
        Seq::empty()
    }
}

/// The first of a list of texts, or nothing.
pub fn first_of(list: &Vec<String>) -> (r: String)
    ensures
        r@ == first_or_empty(text::views(list@)),
{
    assert(text::views(list@).len() == list@.len());
    if list.len() > 0 {
        list[0].as_str().to_string()
    } else {
        let r = String::new();
        assert(r@ =~= Seq::<char>::empty());
        r
    }
}

/// The one reply to a guest, with markup and without: the second is sent where the
/// first is refused. `bare` is the answer without its images.
pub fn guest_replies(bare: &str, sources: &Vec<Source>) -> (r: (String, String))
    ensures
        r.0@ == first_or_empty(
            guest_messages(
                render::packed(render::v2_blocks(bare@), render::TG_TEXT_LIMIT as int),
                v2_block(types::source_views(sources@)),
            ),
        ),
        r.1@ == draft::plain_draft(bare@),
{
    let mut messages = render::markdown_v2_messages(bare, render::TG_TEXT_LIMIT);
    let ghost vs = text::views(messages@);
    let n: usize = messages.len();
    assert(vs.len() == n);
    match render::v2_sources(sources) {
        Some(s) => {
            assert(n > 0 ==> vs.last() == messages@[n - 1]@);
            if n > 0 && block_fits(messages[n - 1].as_str(), s.as_str()) {
                let last = below(messages[n - 1].as_str(), s.as_str());
                messages.set(n - 1, last);
                assert(text::views(messages@) =~= vs.drop_last().push(vs.last() + "\n\n"@ + s@));
            }
        },
        None => {},
    }
    let plain = render::markdown_to_plain(bare);
    (first_of(&messages), util::truncate_chars(plain.as_str(), render::TG_TEXT_LIMIT))
}

/// The one reply to a guest, with markup and without.
pub fn deliver_guest(answer: &str, sources: &Vec<Source>) -> (r: (String, String))
    ensures
        r.0@ == first_or_empty(
            guest_messages(
                render::packed(
                    render::v2_blocks(draft::visible_part(answer@)),
                    render::TG_TEXT_LIMIT as int,
                ),
                v2_block(types::source_views(sources@)),
            ),
        ),
        r.1@ == draft::plain_draft(draft::visible_part(answer@)),
{
    let (bare, _) = render::strip_images(answer);
    guest_replies(bare.as_str(), sources)
}

}
