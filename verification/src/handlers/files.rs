//! Taking photos and documents in: each is fetched from Telegram and handed to
//! DocsGPT, and all of them make one question.

use crate::handlers::attachments;
use crate::handlers::attachments::FileRef;
use crate::handlers::intake;
use crate::handlers::intake::{Gain, Work};
use crate::storage;
use crate::telegram::types::Message;
use crate::text;
use crate::util;
use vstd::prelude::*;

verus! {

/// The media type that goes with a file name's extension, where one is known.
pub uninterp spec fn media_type_of_name(name: Seq<char>) -> Option<Seq<char>>;

/// Whether a name holds none of the characters that no file name may hold.
pub open spec fn tame(name: Seq<char>) -> bool {
    forall|i: int| 0 <= i < name.len() ==> !util::forbidden_in_name(#[trigger] name[i])
}

/// `mime_guess::from_path` and `first_raw`: the first media type that its table
/// lists for the extension of a name. The name is one without path separators or
/// colons, so that every platform finds the same extension in it; nothing else is
/// claimed of the result but that it depends on the name alone.
#[verifier::external_body]
fn guess_media_type(name: &str) -> (r: Option<String>)
    requires
        tame(name@),
    ensures
        text::opt_view(r) == media_type_of_name(name@),
{
    mime_guess::from_path(name).first_raw().map(str::to_string)
}

/// A message of a batch: its file, or why there is none that can be used.
#[derive(Debug)]
pub enum Pick {
    File(FileRef),
    Unsupported(String),
}

/// A message of a batch as mathematical values.
pub ghost enum PickView {
    File(attachments::FileView),
    Unsupported(Seq<char>),
}

impl View for Pick {
    type V = PickView;

    open spec fn view(&self) -> PickView {
        match self {
            Pick::File(f) => PickView::File(f@),
            Pick::Unsupported(s) => PickView::Unsupported(s@),
        }
    }
}

/// The values of a list of picks.
pub open spec fn pick_views(list: Seq<Pick>) -> Seq<PickView> {
    list.map_values(|p: Pick| p@)
}

/// What is picked of a message.
pub open spec fn pick_of(m: Message) -> PickView {
    match attachments::picked(m) {
        Some(f) => PickView::File(f),
        None => PickView::Unsupported(attachments::description(m)),
    }
}

/// What is picked of each message of a batch.
pub open spec fn picks_of(batch: Seq<Message>) -> Seq<PickView> {
    batch.map_values(|m: Message| pick_of(m))
}

/// How far the intake has come.
#[derive(Debug, Clone, Copy, PartialEq, Eq, Structural)]
pub enum FilesStage {
    /// The file at this place is fetched.
    Download(usize),
    /// It is stored.
    Store(usize),
    /// Its task is waited for.
    Wait(usize),
    /// The sender is told that nothing could be used.
    Refuse,
    /// The sender is told what was left out.
    Tell,
    /// The question is asked.
    Ask,
    /// Nothing is left to do.
    Done,
}

/// The seconds that the task of a file is waited for.
pub const FILE_WAIT: u64 = 120;

/// The intake of a batch of photos and documents.
#[derive(Debug)]
pub struct FilesIntake {
    caption: String,
    picks: Vec<Pick>,
    stage: FilesStage,
    name: String,
    mime: Option<String>,
    task: String,
    ids: Vec<String>,
    names: Vec<String>,
    skipped: Vec<String>,
}

/// The intake of a batch as mathematical values.
pub ghost struct FilesView {
    pub caption: Seq<char>,
    pub picks: Seq<PickView>,
    pub stage: FilesStage,
    /// The name and media type of the file at hand.
    pub name: Seq<char>,
    pub mime: Option<Seq<char>>,
    /// The task that works on it.
    pub task: Seq<char>,
    /// The ids and names of what was stored.
    pub ids: Seq<Seq<char>>,
    pub names: Seq<Seq<char>>,
    /// What was left out, and why.
    pub skipped: Seq<Seq<char>>,
}

impl View for FilesIntake {
    type V = FilesView;

    closed spec fn view(&self) -> FilesView {
        FilesView {
            caption: self.caption@,
            picks: pick_views(self.picks@),
            stage: self.stage,
            name: self.name@,
            mime: text::opt_view(self.mime),
            task: self.task@,
            ids: text::views(self.ids@),
            names: text::views(self.names@),
            skipped: text::views(self.skipped@),
        }
    }
}

/// The question about files, where the sender gave none.
pub open spec fn files_question(caption: Seq<char>, names: Seq<Seq<char>>) -> Seq<char> {
    if caption.len() > 0 {
        caption
    } else if names.len() == 1 {
        "I've attached "@ + names[0] + ". Please review it and summarize the key points."@
    } else {
        "I've attached "@ + text::decimal(names.len()) + " files: "@ + text::join(names, ", "@)
            + ". Please review them and summarize the key points."@
    }
}

/// The words about an intake that gained nothing.
pub open spec fn refusal(skipped: Seq<Seq<char>>) -> Seq<char> {
    "I couldn't use that attachment: "@ + (if skipped.len() == 0 {
        "no supported file found"@
    } else {
        text::join(skipped, ", "@)
    })
}

/// The name under which a file is stored.
pub open spec fn stored_name(f: attachments::FileView, path: Seq<char>) -> Seq<char> {
    attachments::with_extension(f.filename, path)
}

/// The media type under which a file is stored: its own, else that of its name.
pub open spec fn stored_type(f: attachments::FileView, path: Seq<char>) -> Option<Seq<char>> {
    if f.mime is Some {
        f.mime
    } else {
        media_type_of_name(stored_name(f, path))
    }
}

impl FilesView {
    /// The stage that follows the last file.
    pub open spec fn closing(self) -> FilesStage {
        if self.ids.len() == 0 {
            FilesStage::Refuse
        } else if self.skipped.len() > 0 {
            FilesStage::Tell
        } else {
            FilesStage::Ask
        }
    }

    /// On with the next message from place `i` on whose file can be used; those
    /// before it are left out.
    pub open spec fn advance(self, i: int) -> FilesView
        decreases self.picks.len() - i,
    {
        if i >= self.picks.len() {
            FilesView { stage: self.closing(), ..self }
        } else {
            match self.picks[i] {
                PickView::File(_) => FilesView { stage: FilesStage::Download(i as usize), ..self },
                PickView::Unsupported(s) => FilesView {
                    skipped: self.skipped.push(s),
                    ..self
                }.advance(i + 1),
            }
        }
    }

    /// The intake of a batch at its beginning.
    pub open spec fn begun(caption: Seq<char>, picks: Seq<PickView>) -> FilesView {
        FilesView {
            caption,
            picks,
            stage: FilesStage::Ask,
            name: Seq::empty(),
            mime: None,
            task: Seq::empty(),
            ids: Seq::empty(),
            names: Seq::empty(),
            skipped: Seq::empty(),
        }.advance(0)
    }

    /// What is done next.
    pub open spec fn work(self) -> intake::WorkView {
        match self.stage {
            FilesStage::Download(i) => intake::WorkView::Download(
                self.picks[i as int]->File_0.file_id,
            ),
            FilesStage::Store(_) => intake::WorkView::Store(self.name, self.mime),
            FilesStage::Wait(_) => intake::WorkView::WaitFor(self.task, FILE_WAIT),
            FilesStage::Refuse => intake::WorkView::Say(refusal(self.skipped)),
            FilesStage::Tell => intake::WorkView::Say(
                "Skipped: "@ + text::join(self.skipped, ", "@),
            ),
            FilesStage::Ask => intake::WorkView::Ask(
                files_question(self.caption, self.names),
                self.ids,
            ),
            FilesStage::Done => intake::WorkView::Finished,
        }
    }

    /// The intake after a file was fetched, or not.
    pub open spec fn after_download(self, i: int, gain: intake::GainView) -> FilesView {
        let f = self.picks[i]->File_0;
        match gain {
            intake::GainView::Downloaded(path) => FilesView {
                name: stored_name(f, path),
                mime: stored_type(f, path),
                stage: FilesStage::Store(i as usize),
                ..self
            },
            _ => FilesView {
                skipped: self.skipped.push(f.filename + " ("@ + intake::reason_of(gain) + ")"@),
                ..self
            }.advance(i + 1),
        }
    }

    /// The intake after a file was stored, or not.
    pub open spec fn after_store(self, i: int, gain: intake::GainView) -> FilesView {
        match gain {
            intake::GainView::Stored(id, task) => {
                let s = FilesView {
                    ids: self.ids.push(id),
                    names: self.names.push(self.name),
                    ..self
                };
                match task {
                    Some(t) => FilesView { task: t, stage: FilesStage::Wait(i as usize), ..s },
                    None => s.advance(i + 1),
                }
            },
            _ => FilesView {
                skipped: self.skipped.push(self.name + " (upload failed)"@),
                ..self
            }.advance(i + 1),
        }
    }

    /// The intake after some work.
    pub open spec fn after(self, gain: intake::GainView) -> FilesView {
        match self.stage {
            FilesStage::Download(i) => self.after_download(i as int, gain),
            FilesStage::Store(i) => self.after_store(i as int, gain),
            FilesStage::Wait(i) => self.advance(i + 1),
            FilesStage::Tell => FilesView { stage: FilesStage::Ask, ..self },
            _ => FilesView { stage: FilesStage::Done, ..self },
        }
    }

    /// Whether the intake is in order: the file at hand is one, and a file without
    /// a media type has a tame name.
    pub open spec fn wf(self) -> bool {
        &&& self.picks.len() <= usize::MAX
        &&& forall|k: int|
            0 <= k < self.picks.len() ==> ((#[trigger] self.picks[k]) matches PickView::File(f)
                ==> f.mime is Some || tame(f.filename))
        &&& match self.stage {
            FilesStage::Download(i) => i < self.picks.len() && self.picks[i as int] is File,
            FilesStage::Store(i) => i < self.picks.len(),
            FilesStage::Wait(i) => i < self.picks.len(),
            _ => true,
        }
    }

    /// How many messages of the batch are done with.
    pub open spec fn done_with(self) -> int {
        match self.stage {
            FilesStage::Download(i) => i as int,
            FilesStage::Store(i) => i as int,
            FilesStage::Wait(i) => i + 1,
            _ => self.picks.len() as int,
        }
    }

    /// Whether every message that is done with was either stored or left out.
    pub open spec fn accounted(self) -> bool {
        &&& self.ids.len() == self.names.len()
        &&& self.names.len() + self.skipped.len() == self.done_with()
    }
}

proof fn lemma_safe_is_tame(name: Seq<char>)
    ensures
        tame(util::safe_name(name, "document"@)),
{
    if util::safe_name(name, "document"@) == "document"@ {
        reveal_strlit("document");
    } else {
        util::safe_names_are_safe(name, "document"@);
    }
}

proof fn lemma_picked_is_tame(m: Message)
    ensures
        attachments::picked(m) matches Some(f) ==> f.mime is Some || tame(f.filename),
{
    if m.photo is None && m.document is Some {
        let d = m.document->0;
        lemma_safe_is_tame(
            match d.file_name {
                Some(n) => n@,
                None => "document_"@ + d.file_unique_id@,
            },
        );
    }
}

proof fn lemma_extended_is_tame(name: Seq<char>, path: Seq<char>)
    requires
        tame(name),
    ensures
        tame(attachments::with_extension(name, path)),
{
    reveal_strlit(".");
}

proof fn lemma_advance_wf(v: FilesView, i: int)
    requires
        v.picks.len() <= usize::MAX,
        forall|k: int|
            0 <= k < v.picks.len() ==> ((#[trigger] v.picks[k]) matches PickView::File(f)
                ==> f.mime is Some || tame(f.filename)),
        0 <= i <= v.picks.len(),
    ensures
        v.advance(i).wf(),
        v.advance(i).picks == v.picks,
    decreases v.picks.len() - i,
{
    if i < v.picks.len() {
        match v.picks[i] {
            PickView::File(_) => {},
            PickView::Unsupported(s) => {
                lemma_advance_wf(FilesView { skipped: v.skipped.push(s), ..v }, i + 1);
            },
        }
    }
}

impl FilesIntake {
    proof fn lemma_picks(&self)
        ensures
            self@.picks.len() == self.picks@.len(),
            self@.picks.len() <= usize::MAX,
            self@.ids.len() == self.ids@.len(),
            self@.names.len() == self.names@.len(),
            self@.skipped.len() == self.skipped@.len(),
            forall|i: int|
                0 <= i < self.picks@.len() ==> self@.picks[i] == (#[trigger] self.picks@[i])@,
    {
        assert(self.picks.len() == self.picks@.len());
    }

    fn skip(&mut self, s: String)
        ensures
            final(self)@ == (FilesView { skipped: old(self)@.skipped.push(s@), ..old(self)@ }),
    {
        proof {
            text::lemma_views_push(self.skipped@, s);
        }
        self.skipped.push(s);
    }

    fn go_on(&mut self, from: usize)
        requires
            from <= old(self)@.picks.len(),
        ensures
            final(self)@ == old(self)@.advance(from as int),
    {
        let ghost goal = self@.advance(from as int);
        let mut i: usize = from;
        while i < self.picks.len()
            invariant
                i <= self@.picks.len(),
                self@.picks.len() == self.picks@.len(),
                goal == old(self)@.advance(from as int),
                goal == self@.advance(i as int),
            decreases self.picks@.len() - i,
        {
            proof {
                self.lemma_picks();
            }
            let why: Option<String> = match &self.picks[i] {
                Pick::File(_) => None,
                Pick::Unsupported(s) => Some(s.as_str().to_string()),
            };
            assert(self@.picks[i as int] == self.picks@[i as int]@);
            match why {
                None => {
                    self.stage = FilesStage::Download(i);
                    return;
                },
                Some(s) => {
                    self.skip(s);
                },
            }
            proof {
                self.lemma_picks();
            }
            i = i + 1;
        }
        proof {
            self.lemma_picks();
        }
        self.stage = if self.ids.len() == 0 {
            FilesStage::Refuse
        } else if self.skipped.len() > 0 {
            FilesStage::Tell
        } else {
            FilesStage::Ask
        };
    }

    /// The intake of a batch.
    pub fn new(caption: String, batch: &Vec<Message>) -> (r: FilesIntake)
        ensures
            r@ == FilesView::begun(caption@, picks_of(batch@)),
            r@.wf(),
    {
        let ghost all = picks_of(batch@);
        let mut picks: Vec<Pick> = Vec::new();
        let mut i: usize = 0;
        while i < batch.len()
            invariant
                i <= batch@.len(),
                all == picks_of(batch@),
                pick_views(picks@) == all.take(i as int),
                forall|k: int|
                    0 <= k < i ==> ((#[trigger] all[k]) matches PickView::File(f)
                        ==> f.mime is Some || tame(f.filename)),
            decreases batch@.len() - i,
        {
            let p = match attachments::pick_file(&batch[i]) {
                Some(f) => Pick::File(f),
                None => Pick::Unsupported(attachments::describe(&batch[i])),
            };
            proof {
                lemma_picked_is_tame(batch@[i as int]);
                assert(p@ == all[i as int]);
                assert(pick_views(picks@.push(p)) =~= pick_views(picks@).push(p@));
                assert(all.take(i + 1) =~= all.take(i as int).push(all[i as int]));
            }
            picks.push(p);
            i = i + 1;
        }
        let mut r = FilesIntake {
            caption,
            picks,
            stage: FilesStage::Ask,
            name: String::new(),
            mime: None,
            task: String::new(),
            ids: Vec::new(),
            names: Vec::new(),
            skipped: Vec::new(),
        };
        proof {
            assert(all.take(i as int) =~= all);
            assert(r@.name =~= Seq::<char>::empty());
            assert(r@.task =~= Seq::<char>::empty());
            assert(r@.ids =~= Seq::<Seq<char>>::empty());
            assert(r@.names =~= Seq::<Seq<char>>::empty());
            assert(r@.skipped =~= Seq::<Seq<char>>::empty());
            r.lemma_picks();
            lemma_advance_wf(r@, 0);
        }
        r.go_on(0);
        r
    }

    /// What is done next.
    pub fn work(&self) -> (r: Work)
        requires
            self@.wf(),
        ensures
            r@ == self@.work(),
    {
        proof {
            self.lemma_picks();
        }
        match self.stage {
            FilesStage::Download(i) => {
                assert(self@.picks[i as int] == self.picks@[i as int]@);
                match &self.picks[i] {
                    Pick::File(f) => Work::Download(f.file_id.as_str().to_string()),
                    Pick::Unsupported(_) => Work::Finished,
                }
            },
            FilesStage::Store(_) => Work::Store(
                self.name.as_str().to_string(),
                text::copy_opt(&self.mime),
            ),
            FilesStage::Wait(_) => Work::WaitFor(self.task.as_str().to_string(), FILE_WAIT),
            FilesStage::Refuse => {
                let mut r: String = "I couldn't use that attachment: ".to_string();
                if self.skipped.len() == 0 {
                    r.append("no supported file found");
                } else {
                    r.append(text::join_list(&self.skipped, ", ").as_str());
                }
                Work::Say(r)
            },
            FilesStage::Tell => {
                let mut r: String = "Skipped: ".to_string();
                r.append(text::join_list(&self.skipped, ", ").as_str());
                Work::Say(r)
            },
            FilesStage::Ask => Work::Ask(self.question(), text::copy_list(&self.ids)),
            FilesStage::Done => Work::Finished,
        }
    }

    fn question(&self) -> (r: String)
        ensures
            r@ == files_question(self@.caption, self@.names),
    {
        proof {
            self.lemma_picks();
        }
        if text::char_count(self.caption.as_str()) > 0 {
            return self.caption.as_str().to_string();
        }
        let mut r: String = "I've attached ".to_string();
        if self.names.len() == 1 {
            assert(self@.names[0] == self.names@[0]@);
            r.append(self.names[0].as_str());
            r.append(". Please review it and summarize the key points.");
        } else {
            r.append(text::decimal_of(self.names.len() as u64).as_str());
            r.append(" files: ");
            r.append(text::join_list(&self.names, ", ").as_str());
            r.append(". Please review them and summarize the key points.");
        }
        r
    }

    fn on_download(&mut self, i: usize, gain: &Gain)
        requires
            old(self)@.wf(),
            old(self)@.stage == FilesStage::Download(i),
        ensures
            final(self)@ == old(self)@.after_download(i as int, gain@),
    {
        proof {
            self.lemma_picks();
        }
        assert(self@.picks[i as int] == self.picks@[i as int]@);
        match &self.picks[i] {
            Pick::File(f) => match gain {
                Gain::Downloaded(path) => {
                    let name = attachments::ensure_extension(f.filename.as_str(), path.as_str());
                    let mime: Option<String> = match &f.mime {
                        Some(m) => Some(m.as_str().to_string()),
                        None => {
                            proof {
                                lemma_extended_is_tame(f.filename@, path@);
                            }
                            guess_media_type(name.as_str())
                        },
                    };
                    self.name = name;
                    self.mime = mime;
                    self.stage = FilesStage::Store(i);
                },
                _ => {
                    let mut s: String = f.filename.as_str().to_string();
                    s.append(" (");
                    s.append(intake::why_failed(gain).as_str());
                    s.append(")");
                    self.skip(s);
                    self.go_on(i + 1);
                },
            },
            Pick::Unsupported(_) => {},
        }
    }

    fn on_store(&mut self, i: usize, gain: &Gain)
        requires
            old(self)@.wf(),
            old(self)@.stage == FilesStage::Store(i),
        ensures
            final(self)@ == old(self)@.after_store(i as int, gain@),
    {
        proof {
            self.lemma_picks();
        }
        match gain {
            Gain::Stored(id, task) => {
                let id = id.as_str().to_string();
                let name = self.name.as_str().to_string();
                proof {
                    text::lemma_views_push(self.ids@, id);
                    text::lemma_views_push(self.names@, name);
                }
                self.ids.push(id);
                self.names.push(name);
                match task {
                    Some(t) => {
                        self.task = t.as_str().to_string();
                        self.stage = FilesStage::Wait(i);
                    },
                    None => {
                        self.go_on(i + 1);
                    },
                }
            },
            _ => {
                let mut s: String = self.name.as_str().to_string();
                s.append(" (upload failed)");
                self.skip(s);
                self.go_on(i + 1);
            },
        }
    }

    /// Takes in what came of the last work.
    pub fn on_gain(&mut self, gain: &Gain)
        requires
            old(self)@.wf(),
        ensures
            final(self)@ == old(self)@.after(gain@),
            final(self)@.wf(),
    {
        proof {
            self.lemma_picks();
            lemma_after_wf(self@, gain@);
        }
        match self.stage {
            FilesStage::Download(i) => {
                self.on_download(i, gain);
            },
            FilesStage::Store(i) => {
                self.on_store(i, gain);
            },
            FilesStage::Wait(i) => {
                self.go_on(i + 1);
            },
            FilesStage::Tell => {
                self.stage = FilesStage::Ask;
            },
            _ => {
                self.stage = FilesStage::Done;
            },
        }
    }
}

proof fn lemma_after_wf(v: FilesView, gain: intake::GainView)
    requires
        v.wf(),
    ensures
        v.after(gain).wf(),
{
    match v.stage {
        FilesStage::Download(i) => {
            let f = v.picks[i as int]->File_0;
            let s = f.filename + " ("@ + intake::reason_of(gain) + ")"@;
            lemma_advance_wf(FilesView { skipped: v.skipped.push(s), ..v }, i + 1);
        },
        FilesStage::Store(i) => {
            match gain {
                intake::GainView::Stored(id, _) => {
                    let w = FilesView { ids: v.ids.push(id), names: v.names.push(v.name), ..v };
                    lemma_advance_wf(w, i + 1);
                },
                _ => {
                    let s = v.name + " (upload failed)"@;
                    lemma_advance_wf(FilesView { skipped: v.skipped.push(s), ..v }, i + 1);
                },
            }
        },
        FilesStage::Wait(i) => {
            lemma_advance_wf(v, i + 1);
        },
        _ => {},
    }
}

proof fn lemma_advance_accounts(v: FilesView, i: int)
    requires
        v.picks.len() <= usize::MAX,
        0 <= i <= v.picks.len(),
        v.ids.len() == v.names.len(),
        v.names.len() + v.skipped.len() == i,
    ensures
        v.advance(i).accounted(),
        v.advance(i).done_with() >= i,
        v.advance(i).stage matches FilesStage::Download(k) ==> i <= k < v.picks.len(),
        v.advance(i).picks == v.picks,
        !(v.advance(i).stage is Store || v.advance(i).stage is Wait || v.advance(i).stage is Done),
    decreases v.picks.len() - i,
{
    if i < v.picks.len() {
        match v.picks[i] {
            PickView::File(_) => {},
            PickView::Unsupported(s) => {
                lemma_advance_accounts(FilesView { skipped: v.skipped.push(s), ..v }, i + 1);
            },
        }
    }
}

/// A bound on the work that an intake still takes.
pub open spec fn work_left(v: FilesView) -> int {
    let n = v.picks.len() as int;
    match v.stage {
        FilesStage::Download(i) => 3 * (n - i) + 3,
        FilesStage::Store(i) => 3 * (n - i) + 2,
        FilesStage::Wait(i) => 3 * (n - i) + 1,
        FilesStage::Refuse => 1,
        FilesStage::Tell => 2,
        FilesStage::Ask => 1,
        FilesStage::Done => 0,
    }
}

proof fn lemma_after(v: FilesView, gain: intake::GainView)
    requires
        v.wf(),
        v.accounted(),
    ensures
        v.after(gain).accounted(),
        v.done_with() <= v.after(gain).done_with(),
        v.stage != FilesStage::Done ==> 0 <= work_left(v.after(gain)) < work_left(v),
        v.stage != FilesStage::Done && v.after(gain).stage == FilesStage::Done ==> v.stage
            == FilesStage::Ask || v.stage == FilesStage::Refuse,
{
    match v.stage {
        FilesStage::Download(i) => {
            let f = v.picks[i as int]->File_0;
            let s = f.filename + " ("@ + intake::reason_of(gain) + ")"@;
            lemma_advance_accounts(FilesView { skipped: v.skipped.push(s), ..v }, i + 1);
        },
        FilesStage::Store(i) => {
            match gain {
                intake::GainView::Stored(id, _) => {
                    let w = FilesView { ids: v.ids.push(id), names: v.names.push(v.name), ..v };
                    lemma_advance_accounts(w, i + 1);
                },
                _ => {
                    let s = v.name + " (upload failed)"@;
                    lemma_advance_accounts(FilesView { skipped: v.skipped.push(s), ..v }, i + 1);
                },
            }
        },
        FilesStage::Wait(i) => {
            lemma_advance_accounts(v, i + 1);
        },
        _ => {},
    }
}

/// No message of a batch is forgotten and none counts twice: at every point each
/// one that is done with was either stored or left out with a reason, and at the
/// end that holds of all of them.
pub proof fn every_file_is_accounted_for(v: FilesView, gain: intake::GainView)
    requires
        v.wf(),
        v.accounted(),
    ensures
        v.after(gain).accounted(),
        v.done_with() <= v.after(gain).done_with(),
{
    lemma_after(v, gain);
}

/// An intake begins with nothing stored or left out that it has not come to.
pub proof fn intakes_begin_accounted(caption: Seq<char>, picks: Seq<PickView>)
    requires
        picks.len() <= usize::MAX,
    ensures
        FilesView::begun(caption, picks).accounted(),
{
    lemma_advance_accounts(
        FilesView {
            caption,
            picks,
            stage: FilesStage::Ask,
            name: Seq::empty(),
            mime: None,
            task: Seq::empty(),
            ids: Seq::empty(),
            names: Seq::empty(),
            skipped: Seq::empty(),
        },
        0,
    );
}

/// An intake comes to its end, whatever comes of its work; and it ends by asking
/// the question, or by telling that nothing could be used.
pub proof fn intakes_end(v: FilesView, gain: intake::GainView)
    requires
        v.wf(),
        v.accounted(),
        v.stage != FilesStage::Done,
    ensures
        0 <= work_left(v.after(gain)) < work_left(v),
        v.after(gain).stage == FilesStage::Done ==> v.stage == FilesStage::Ask || v.stage
            == FilesStage::Refuse,
{
    lemma_after(v, gain);
}

}
