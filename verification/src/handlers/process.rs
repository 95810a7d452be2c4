//! Which way a batch of messages with media is taken in.

use crate::config::BotConfig;
use crate::handlers::attachments;
use crate::handlers::files;
use crate::handlers::files::FilesIntake;
use crate::handlers::intake;
use crate::handlers::intake::{Gain, VoiceIntake, Work};
use crate::telegram::types::Message;
use vstd::prelude::*;

verus! {

/// The intake of a batch.
#[derive(Debug)]
pub enum Intake {
    /// A voice note or audio.
    Voice(VoiceIntake),
    /// Photos and documents.
    Files(FilesIntake),
}

/// The intake of a batch as mathematical values.
pub ghost enum IntakeView {
    Voice(intake::VoiceView),
    Files(files::FilesView),
}

impl View for Intake {
    type V = IntakeView;

    open spec fn view(&self) -> IntakeView {
        match self {
            Intake::Voice(v) => IntakeView::Voice(v@),
            Intake::Files(f) => IntakeView::Files(f@),
        }
    }
}

impl IntakeView {
    /// The intake of a batch at its beginning: that of audio where the batch is one
    /// message with a voice note or audio, else that of files.
    pub open spec fn begun(caption: Seq<char>, batch: Seq<Message>) -> IntakeView {
        if batch.len() == 1 && attachments::audio_of(batch[0]) is Some {
            IntakeView::Voice(
                intake::VoiceView::begun(caption, attachments::audio_of(batch[0])->0),
            )
        } else {
            IntakeView::Files(files::FilesView::begun(caption, files::picks_of(batch)))
        }
    }

    /// What is done next.
    pub open spec fn work(self) -> intake::WorkView {
        match self {
            IntakeView::Voice(v) => v.work(),
            IntakeView::Files(f) => f.work(),
        }
    }

    /// The intake after some work.
    pub open spec fn after(self, gain: intake::GainView) -> IntakeView {
        match self {
            IntakeView::Voice(v) => IntakeView::Voice(v.after(gain)),
            IntakeView::Files(f) => IntakeView::Files(f.after(gain)),
        }
    }

    /// Whether the intake is in order.
    pub open spec fn wf(self) -> bool {
        match self {
            IntakeView::Voice(_) => true,
            IntakeView::Files(f) => f.wf(),
        }
    }
}

impl Intake {
    /// The intake of a batch, with the words that came with it.
    pub fn new(caption: String, batch: &Vec<Message>) -> (r: Intake)
        ensures
            r@ == IntakeView::begun(caption@, batch@),
            r@.wf(),
    {
        if batch.len() == 1 {
            match attachments::audio_file(&batch[0]) {
                Some(file) => {
                    return Intake::Voice(VoiceIntake::new(caption, file));
                },
                None => {},
            }
        }
        Intake::Files(FilesIntake::new(caption, batch))
    }

    /// Whether the sender is shown that files are on their way.
    pub fn shows_upload(&self) -> (r: bool)
        ensures
            r == (self@ is Files),
    {
        match self {
            Intake::Voice(_) => false,
            Intake::Files(_) => true,
        }
    }

    /// Whether the answer is also spoken: where audio was asked, and the bot is set
    /// to answer it so.
    pub fn voice_reply(&self, cfg: &BotConfig) -> (r: bool)
        ensures
            r == (self@ is Voice && cfg.voice_replies),
    {
        match self {
            Intake::Voice(_) => cfg.voice_replies,
            Intake::Files(_) => false,
        }
    }

    /// What is done next.
    pub fn work(&self) -> (r: Work)
        requires
            self@.wf(),
        ensures
            r@ == self@.work(),
    {
        match self {
            Intake::Voice(v) => v.work(),
            Intake::Files(f) => f.work(),
        }
    }

    /// Takes in what came of the last work.
    pub fn on_gain(&mut self, gain: &Gain)
        requires
            old(self)@.wf(),
        ensures
            final(self)@ == old(self)@.after(gain@),
            final(self)@.wf(),
    {
        match self {
            Intake::Voice(v) => v.on_gain(gain),
            Intake::Files(f) => f.on_gain(gain),
        }
    }
}

/// Only audio that is sent by itself is answered aloud: an album never is.
pub proof fn albums_are_not_answered_aloud(caption: Seq<char>, batch: Seq<Message>)
    requires
        batch.len() != 1,
    ensures
        IntakeView::begun(caption, batch) is Files,
{
}

}
