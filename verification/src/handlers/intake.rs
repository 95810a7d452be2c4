//! Taking media in: what is fetched from Telegram and handed to DocsGPT; and how a
//! voice note becomes a question.

use crate::handlers::attachments;
use crate::handlers::attachments::FileRef;
use crate::storage;
use crate::text;
use vstd::prelude::*;

verus! {

/// What is done next to take files in.
#[derive(Debug)]
pub enum Work {
    /// A file is fetched, by its id.
    Download(String),
    /// What was fetched is transcribed, under this name and media type.
    Transcribe(String, Option<String>),
    /// What was fetched is stored, under this name and media type.
    Store(String, Option<String>),
    /// A task is waited for, for so many seconds.
    WaitFor(String, u64),
    /// These words are sent back.
    Say(String),
    /// The question is asked, with these attachments.
    Ask(String, Vec<String>),
    /// Nothing is left to do.
    Finished,
}

/// What is done next, as mathematical values.
pub ghost enum WorkView {
    Download(Seq<char>),
    Transcribe(Seq<char>, Option<Seq<char>>),
    Store(Seq<char>, Option<Seq<char>>),
    WaitFor(Seq<char>, u64),
    Say(Seq<char>),
    Ask(Seq<char>, Seq<Seq<char>>),
    Finished,
}

impl View for Work {
    type V = WorkView;

    open spec fn view(&self) -> WorkView {
        match self {
            Work::Download(id) => WorkView::Download(id@),
            Work::Transcribe(name, mime) => WorkView::Transcribe(name@, text::opt_view(*mime)),
            Work::Store(name, mime) => WorkView::Store(name@, text::opt_view(*mime)),
            Work::WaitFor(task, secs) => WorkView::WaitFor(task@, *secs),
            Work::Say(s) => WorkView::Say(s@),
            Work::Ask(question, ids) => WorkView::Ask(question@, text::views(ids@)),
            Work::Finished => WorkView::Finished,
        }
    }
}

/// What came of some work.
#[derive(Debug)]
pub enum Gain {
    /// A file was fetched from this path.
    Downloaded(String),
    /// It was transcribed.
    Transcript(String),
    /// It was stored under an id, and a task may be at work on it.
    Stored(String, Option<String>),
    /// It was done.
    Done,
    /// It failed, for this reason.
    Failed(String),
}

/// What came of some work, as mathematical values.
pub ghost enum GainView {
    Downloaded(Seq<char>),
    Transcript(Seq<char>),
    Stored(Seq<char>, Option<Seq<char>>),
    Done,
    Failed(Seq<char>),
}

impl View for Gain {
    type V = GainView;

    open spec fn view(&self) -> GainView {
        match self {
            Gain::Downloaded(p) => GainView::Downloaded(p@),
            Gain::Transcript(t) => GainView::Transcript(t@),
            Gain::Stored(id, task) => GainView::Stored(id@, text::opt_view(*task)),
            Gain::Done => GainView::Done,
            Gain::Failed(why) => GainView::Failed(why@),
        }
    }
}

/// Why some work failed.
pub open spec fn reason_of(gain: GainView) -> Seq<char> {
    match gain {
        GainView::Failed(why) => why,
        _ => Seq::empty(),
    }
}

pub(crate) fn why_failed(gain: &Gain) -> (r: String)
    ensures
        r@ == reason_of(gain@),
{
    match gain {
        Gain::Failed(why) => why.as_str().to_string(),
        _ => {
            let r = String::new();
            assert(r@ =~= Seq::<char>::empty());
            r
        },
    }
}

/// How far the intake of a voice note has come.
#[derive(Debug, Clone, Copy, PartialEq, Eq, Structural)]
pub enum VoiceStage {
    Download,
    Transcribe,
    Store,
    Wait,
    Ask,
    Say,
    Done,
}

/// The seconds that the task of a voice note is waited for.
pub const VOICE_WAIT: u64 = 60;

/// The intake of a voice note or audio: it is transcribed and the transcript
/// asked; where that fails the audio itself goes along as an attachment.
#[derive(Debug)]
pub struct VoiceIntake {
    caption: String,
    file: FileRef,
    stage: VoiceStage,
    question: String,
    ids: Vec<String>,
    task: String,
    said: String,
}

/// The intake of a voice note as mathematical values.
pub ghost struct VoiceView {
    pub caption: Seq<char>,
    pub file: attachments::FileView,
    pub stage: VoiceStage,
    pub question: Seq<char>,
    pub ids: Seq<Seq<char>>,
    pub task: Seq<char>,
    pub said: Seq<char>,
}

impl View for VoiceIntake {
    type V = VoiceView;

    closed spec fn view(&self) -> VoiceView {
        VoiceView {
            caption: self.caption@,
            file: self.file@,
            stage: self.stage,
            question: self.question@,
            ids: text::views(self.ids@),
            task: self.task@,
            said: self.said@,
        }
    }
}

/// The question of a transcript, below the caption where there is one.
pub open spec fn transcript_question(caption: Seq<char>, transcript: Seq<char>) -> Seq<char> {
    if caption.len() == 0 {
        transcript
    } else {
        caption + "\n\n"@ + transcript
    }
}

/// The question about audio that goes along as an attachment.
pub open spec fn voice_question(caption: Seq<char>) -> Seq<char> {
    if caption.len() == 0 {
        "Please answer the question in the attached voice message."@
    } else {
        caption + "\n\n(See the attached voice message.)"@
    }
}

impl VoiceView {
    /// The intake at its beginning.
    pub open spec fn begun(caption: Seq<char>, file: attachments::FileView) -> VoiceView {
        VoiceView {
            caption,
            file,
            stage: VoiceStage::Download,
            question: Seq::empty(),
            ids: Seq::empty(),
            task: Seq::empty(),
            said: Seq::empty(),
        }
    }

    /// The name under which the audio is handed on.
    pub open spec fn name(self) -> Seq<char> {
        attachments::audio_name(self.file.filename, self.file.mime)
    }

    /// What is done next.
    pub open spec fn work(self) -> WorkView {
        match self.stage {
            VoiceStage::Download => WorkView::Download(self.file.file_id),
            VoiceStage::Transcribe => WorkView::Transcribe(self.name(), self.file.mime),
            VoiceStage::Store => WorkView::Store(self.name(), self.file.mime),
            VoiceStage::Wait => WorkView::WaitFor(self.task, VOICE_WAIT),
            VoiceStage::Ask => WorkView::Ask(self.question, self.ids),
            VoiceStage::Say => WorkView::Say(self.said),
            VoiceStage::Done => WorkView::Finished,
        }
    }

    /// The intake after some work.
    pub open spec fn after(self, gain: GainView) -> VoiceView {
        match self.stage {
            VoiceStage::Download => match gain {
                GainView::Downloaded(_) => VoiceView { stage: VoiceStage::Transcribe, ..self },
                _ => VoiceView {
                    stage: VoiceStage::Say,
                    said: "I couldn't download that audio: "@ + reason_of(gain),
                    ..self
                },
            },
            VoiceStage::Transcribe => match gain {
                GainView::Transcript(t) => VoiceView {
                    stage: VoiceStage::Ask,
                    question: transcript_question(self.caption, t),
                    ..self
                },
                _ => VoiceView { stage: VoiceStage::Store, ..self },
            },
            VoiceStage::Store => match gain {
                GainView::Stored(id, task) => VoiceView {
                    stage: if task is Some {
                        VoiceStage::Wait
                    } else {
                        VoiceStage::Ask
                    },
                    question: voice_question(self.caption),
                    ids: seq![id],
                    task: match task {
                        Some(t) => t,
                        None => Seq::empty(),
                    },
                    ..self
                },
                _ => VoiceView {
                    stage: VoiceStage::Say,
                    said: "I couldn't understand that audio. Could you type it instead?"@,
                    ..self
                },
            },
            VoiceStage::Wait => VoiceView { stage: VoiceStage::Ask, ..self },
            _ => VoiceView { stage: VoiceStage::Done, ..self },
        }
    }
}

impl VoiceIntake {
    /// The intake of a voice note or audio.
    pub fn new(caption: String, file: FileRef) -> (r: VoiceIntake)
        ensures
            r@ == VoiceView::begun(caption@, file@),
    {
        let r = VoiceIntake {
            caption,
            file,
            stage: VoiceStage::Download,
            question: String::new(),
            ids: Vec::new(),
            task: String::new(),
            said: String::new(),
        };
        assert(r@.question =~= Seq::<char>::empty());
        assert(r@.ids =~= Seq::<Seq<char>>::empty());
        assert(r@.task =~= Seq::<char>::empty());
        assert(r@.said =~= Seq::<char>::empty());
        r
    }

    fn name(&self) -> (r: String)
        ensures
            r@ == self@.name(),
    {
        match &self.file.mime {
            Some(m) => attachments::normalize_audio_name(
                self.file.filename.as_str(),
                Some(m.as_str()),
            ),
            None => attachments::normalize_audio_name(self.file.filename.as_str(), None),
        }
    }

    /// What is done next.
    pub fn work(&self) -> (r: Work)
        ensures
            r@ == self@.work(),
    {
        match self.stage {
            VoiceStage::Download => Work::Download(self.file.file_id.as_str().to_string()),
            VoiceStage::Transcribe => Work::Transcribe(
                self.name(),
                text::copy_opt(&self.file.mime),
            ),
            VoiceStage::Store => Work::Store(self.name(), text::copy_opt(&self.file.mime)),
            VoiceStage::Wait => Work::WaitFor(self.task.as_str().to_string(), VOICE_WAIT),
            VoiceStage::Ask => Work::Ask(
                self.question.as_str().to_string(),
                text::copy_list(&self.ids),
            ),
            VoiceStage::Say => Work::Say(self.said.as_str().to_string()),
            VoiceStage::Done => Work::Finished,
        }
    }

    fn ask_transcript(&mut self, transcript: &str)
        requires
            old(self)@.stage == VoiceStage::Transcribe,
        ensures
            final(self)@ == old(self)@.after(GainView::Transcript(transcript@)),
    {
        let mut q: String = String::new();
        if text::char_count(self.caption.as_str()) > 0 {
            q.append(self.caption.as_str());
            q.append("\n\n");
        }
        q.append(transcript);
        assert(q@ =~= transcript_question(self.caption@, transcript@));
        self.question = q;
        self.stage = VoiceStage::Ask;
    }

    fn ask_with_audio(&mut self, id: &str, task: &Option<String>)
        requires
            old(self)@.stage == VoiceStage::Store,
        ensures
            final(self)@ == old(self)@.after(GainView::Stored(id@, text::opt_view(*task))),
    {
        let mut q: String = String::new();
        if text::char_count(self.caption.as_str()) == 0 {
            q = "Please answer the question in the attached voice message.".to_string();
        } else {
            q.append(self.caption.as_str());
            q.append("\n\n(See the attached voice message.)");
        }
        assert(q@ =~= voice_question(self.caption@));
        self.question = q;
        let mut ids: Vec<String> = Vec::new();
        ids.push(id.to_string());
        self.ids = ids;
        assert(text::views(self.ids@) =~= seq![id@]);
        match task {
            Some(t) => {
                self.task = t.as_str().to_string();
                self.stage = VoiceStage::Wait;
            },
            None => {
                self.task = String::new();
                self.stage = VoiceStage::Ask;
                assert(self.task@ =~= Seq::<char>::empty());
            },
        }
    }

    /// Takes in what came of the last work.
    pub fn on_gain(&mut self, gain: &Gain)
        ensures
            final(self)@ == old(self)@.after(gain@),
    {
        match self.stage {
            VoiceStage::Download => match gain {
                Gain::Downloaded(_) => {
                    self.stage = VoiceStage::Transcribe;
                },
                _ => {
                    let mut said: String = "I couldn't download that audio: ".to_string();
                    said.append(why_failed(gain).as_str());
                    self.said = said;
                    self.stage = VoiceStage::Say;
                },
            },
            VoiceStage::Transcribe => match gain {
                Gain::Transcript(t) => {
                    self.ask_transcript(t.as_str());
                },
                _ => {
                    self.stage = VoiceStage::Store;
                },
            },
            VoiceStage::Store => match gain {
                Gain::Stored(id, task) => {
                    self.ask_with_audio(id.as_str(), task);
                },
                _ => {
                    self.said = "I couldn't understand that audio. Could you type it instead?".to_string();
                    self.stage = VoiceStage::Say;
                },
            },
            VoiceStage::Wait => {
                self.stage = VoiceStage::Ask;
            },
            _ => {
                self.stage = VoiceStage::Done;
            },
        }
    }
}

/// A bound on the work that the intake of a voice note still takes.
pub open spec fn voice_work_left(stage: VoiceStage) -> int {
    match stage {
        VoiceStage::Download => 5,
        VoiceStage::Transcribe => 4,
        VoiceStage::Store => 3,
        VoiceStage::Wait => 2,
        VoiceStage::Ask => 1,
        VoiceStage::Say => 1,
        VoiceStage::Done => 0,
    }
}

/// The intake of a voice note comes to its end, and its last work asks a question
/// or tells why there is none.
pub proof fn voice_intakes_end(v: VoiceView, gain: GainView)
    requires
        v.stage != VoiceStage::Done,
    ensures
        voice_work_left(v.after(gain).stage) < voice_work_left(v.stage),
        v.after(gain).stage == VoiceStage::Done ==> v.work() is Ask || v.work() is Say,
{
}

/// A transcript is asked as it is, below the caption where there is one, and
/// nothing is uploaded then.
pub proof fn transcripts_are_asked(
    caption: Seq<char>,
    file: attachments::FileView,
    path: Seq<char>,
    transcript: Seq<char>,
)
    ensures
        VoiceView::begun(caption, file).after(GainView::Downloaded(path)).after(
            GainView::Transcript(transcript),
        ).work() == WorkView::Ask(transcript_question(caption, transcript), Seq::empty()),
{
}

}
