//! What becomes of files, albums and voice notes, as laws over the messages and over
//! what the work on them brings.

use crate::handlers::{attachments, files, groups, intake, process};
use crate::telegram::types::{ChatKind, Message, PhotoSize};
use crate::text;
use crate::text_laws;
use crate::util;
use vstd::prelude::*;

verus! {

/// Files are taken one by one, or by their album; where they are switched off a private
/// chat is told so and a group is not.
pub proof fn media_are_routed(msg: Message, id: Seq<char>)
    ensures
        text::opt_view(msg.media_group_id) == Some(id) ==> attachments::media_route(msg, true)
            == attachments::MediaRouteView::Album(id),
        msg.media_group_id is None ==> attachments::media_route(msg, true)
            == attachments::MediaRouteView::Single,
        msg.chat.kind == ChatKind::Private ==> attachments::media_route(msg, false)
            == attachments::MediaRouteView::Refuse("Attachments are disabled for this bot."@),
        msg.chat.kind != ChatKind::Private ==> attachments::media_route(msg, false)
            == attachments::MediaRouteView::Ignore,
{
}

/// Every kind of file counts as one.
pub proof fn every_kind_is_media(msg: Message)
    ensures
        msg.photo is Some ==> attachments::carries_media(msg),
        msg.document is Some ==> attachments::carries_media(msg),
        msg.voice is Some ==> attachments::carries_media(msg),
        msg.audio is Some ==> attachments::carries_media(msg),
        msg.video ==> attachments::carries_media(msg),
        msg.video_note ==> attachments::carries_media(msg),
        msg.animation ==> attachments::carries_media(msg),
        msg.photo is None && msg.document is None && msg.voice is None && msg.audio is None
            && !msg.video && !msg.video_note && !msg.animation ==> !attachments::carries_media(msg),
{
}

/// An album's words are its first caption without the bot's name, or those that came
/// with its first message where no message has a caption.
pub proof fn albums_have_one_caption(
    batch: Seq<Message>,
    i: int,
    k: int,
    c: Seq<char>,
    words: Seq<char>,
    username: Seq<char>,
)
    requires
        0 <= k,
    ensures
        k <= i < batch.len() && text::opt_view(batch[i].caption) == Some(c) && (forall|j: int|
            k <= j < i ==> (#[trigger] batch[j]).caption is None) ==> attachments::caption_from(
            batch,
            k,
            words,
            username,
        ) == groups::unmentioned(c, username),
        (forall|j: int| k <= j < batch.len() ==> (#[trigger] batch[j]).caption is None)
            ==> attachments::caption_from(batch, k, words, username) == words,
    decreases batch.len() - k,
{
    if k < batch.len() && batch[k].caption is None {
        albums_have_one_caption(batch, i, k + 1, c, words, username);
    }
}

proof fn lemma_best(sizes: Seq<PhotoSize>, n: int, j: int)
    requires
        1 <= n <= sizes.len(),
        0 <= j < n,
    ensures
        0 <= attachments::best_of(sizes, n) < n,
        attachments::no_worse(sizes[attachments::best_of(sizes, n)], sizes[j]),
    decreases n,
{
    if n > 1 {
        lemma_best(sizes, n - 1, 0);
        if j < n - 1 {
            lemma_best(sizes, n - 1, j);
        }
    }
}

/// Of a photo the largest size is taken: none has more bytes, and none of as many is
/// wider. It is a JPEG, named by its id.
pub proof fn largest_photos_are_taken(m: Message, sizes: Seq<PhotoSize>, j: int) -> (k: int)
    requires
        m.photo is Some,
        m.photo->0@ == sizes,
        0 <= j < sizes.len(),
    ensures
        0 <= k < sizes.len(),
        attachments::picked(m) == Some(
            attachments::FileView {
                file_id: sizes[k].file_id@,
                filename: "photo_"@ + sizes[k].file_unique_id@ + ".jpg"@,
                mime: Some("image/jpeg"@),
            },
        ),
        ({
            let mine = match sizes[k].file_size {
                Some(n) => n,
                None => 0,
            };
            let other = match sizes[j].file_size {
                Some(n) => n,
                None => 0,
            };
            mine > other || (mine == other && sizes[k].width >= sizes[j].width)
        }),
{
    lemma_best(sizes, sizes.len() as int, j);
    attachments::best_of(sizes, sizes.len() as int)
}

/// A document is taken under its own name, made safe, or under its id; a photo goes
/// first; and a message with neither has nothing to take.
pub proof fn documents_are_taken(m: Message, name: Seq<char>)
    ensures
        m.photo is None && m.document is Some ==> (attachments::picked(m) matches Some(f)
            && f.file_id == m.document->0.file_id@ && f.mime == text::opt_view(
            m.document->0.mime_type,
        )),
        m.photo is None && m.document is Some && text::opt_view(m.document->0.file_name) == Some(
            name,
        ) ==> attachments::picked(m)->0.filename == util::safe_name(name, "document"@),
        m.photo is None && m.document is Some && m.document->0.file_name is None
            ==> attachments::picked(m)->0.filename == util::safe_name(
            "document_"@ + m.document->0.file_unique_id@,
            "document"@,
        ),
        m.photo is None && m.document is None ==> attachments::picked(m) is None,
{
}

/// A voice note is OGG; other audio keeps its name and type.
pub proof fn audio_is_taken(m: Message, id: Seq<char>, name: Seq<char>)
    ensures
        text::opt_view(m.voice) == Some(id) ==> attachments::audio_of(m) == Some(
            attachments::FileView {
                file_id: id,
                filename: "voice.ogg"@,
                mime: Some("audio/ogg"@),
            },
        ),
        m.voice is None && m.audio is Some ==> (attachments::audio_of(m) matches Some(f)
            && f.file_id == m.audio->0.file_id@ && f.mime == text::opt_view(m.audio->0.mime_type)),
        m.voice is None && m.audio is Some && text::opt_view(m.audio->0.file_name) == Some(name)
            ==> attachments::audio_of(m)->0.filename == name,
        m.voice is None && m.audio is Some && m.audio->0.file_name is None
            ==> attachments::audio_of(m)->0.filename == "audio.mp3"@,
        m.voice is None && m.audio is None ==> attachments::audio_of(m) is None,
{
}

/// Kinds of file that cannot be used are named.
pub proof fn unusable_files_are_named(m: Message)
    ensures
        m.video ==> attachments::description(m) == "video (not supported)"@,
        !m.video && m.video_note ==> attachments::description(m) == "video note (not supported)"@,
        !m.video && !m.video_note && m.animation ==> attachments::description(m)
            == "animation (not supported)"@,
{
}

/// A name without an extension takes that of the path its file came from, where that is
/// a short word; one with an extension keeps it.
pub proof fn extensions_are_completed(name: Seq<char>, stem: Seq<char>, ext: Seq<char>)
    ensures
        name.contains('.') ==> attachments::with_extension(name, stem) == name,
        !name.contains('.') && 0 < ext.len() <= 5 && (forall|i: int|
            0 <= i < ext.len() ==> text::is_ascii_word(#[trigger] ext[i]))
            ==> attachments::with_extension(name, stem + seq!['.'] + ext) == name + seq!['.'] + ext,
        !name.contains('.') && !stem.contains('.') ==> attachments::with_extension(name, stem)
            == name,
{
    reveal_strlit(".");
    assert("."@ =~= seq!['.']);
    if 0 < ext.len() <= 5 && (forall|i: int|
        0 <= i < ext.len() ==> text::is_ascii_word(#[trigger] ext[i])) {
        assert(!ext.contains('.')) by {
            if ext.contains('.') {
                let k = ext.index_of('.');
                assert(text::is_ascii_word(ext[k]));
            }
        }
        text_laws::cutting_parts(stem, '.', ext);
    }
    text_laws::cutting_parts(stem, '.', ext);
}

/// Opus audio is handed on as OGG, audio without an extension gets that of its type, and
/// any other keeps its name.
pub proof fn audio_names_have_extensions(stem: Seq<char>, name: Seq<char>)
    ensures
        attachments::audio_name(stem + ".oga"@, None) == stem + ".ogg"@,
        attachments::audio_name(stem + ".opus"@, None) == stem + ".ogg"@,
        !name.contains('.') ==> attachments::audio_name(name, Some("audio/mpeg"@)) == name
            + seq!['.'] + "mp3"@ && attachments::audio_name(name, Some("audio/mp4"@)) == name
            + seq!['.'] + "m4a"@ && attachments::audio_name(name, Some("audio/wav"@)) == name
            + seq!['.'] + "wav"@ && attachments::audio_name(name, Some("audio/webm"@)) == name
            + seq!['.'] + "webm"@ && attachments::audio_name(name, None) == name + seq!['.']
            + "ogg"@,
        attachments::audio_name(stem + ".mp3"@, None) == stem + ".mp3"@,
{
    reveal_strlit(".oga");
    reveal_strlit(".opus");
    reveal_strlit(".ogg");
    reveal_strlit(".mp3");
    reveal_strlit(".");
    reveal_strlit("audio/mpeg");
    reveal_strlit("audio/mp3");
    reveal_strlit("audio/mp4");
    reveal_strlit("audio/x-m4a");
    reveal_strlit("audio/wav");
    reveal_strlit("audio/x-wav");
    reveal_strlit("audio/webm");
    reveal_strlit("video/webm");
    assert("."@ =~= seq!['.']);
    assert("audio/mp4"@[8] == '4');
    assert("audio/mp3"@[8] == '3');
    assert("audio/wav"@[6] == 'w');
    assert("audio/mpeg"@[6] == 'm' && "audio/webm"@[6] == 'w' && "video/webm"@[0] == 'v');
    assert("audio/mp3"@[6] == 'm' && "audio/mp4"@[6] == 'm');
    assert("audio/x-m4a"@[8] == 'm' && "audio/x-wav"@[8] == 'w');
    assert("audio/mpeg"@.len() == 10 && "audio/mp3"@.len() == 9 && "audio/mp4"@.len() == 9
        && "audio/x-m4a"@.len() == 11 && "audio/wav"@.len() == 9 && "audio/x-wav"@.len() == 11
        && "audio/webm"@.len() == 10 && "video/webm"@.len() == 10);
    lemma_suffix(stem, ".oga"@);
    lemma_suffix(stem, ".opus"@);
    lemma_suffix(stem, ".mp3"@);
    let m = stem + ".mp3"@;
    assert(m[stem.len() as int] == '.');
    assert(m.contains('.'));
    let l = text::lower(m);
    assert(l.last() == '3') by {
        assert(m.last() == '3');
    }
    if ".oga"@.is_suffix_of(l) {
        assert(".oga"@[3] == l.subrange(l.len() - 4, l.len() as int)[3]);
    }
    if ".opus"@.is_suffix_of(l) {
        assert(".opus"@[4] == l.subrange(l.len() - 5, l.len() as int)[4]);
    }
    if !name.contains('.') {
        let n = text::lower(name);
        if ".oga"@.is_suffix_of(n) {
            assert(".oga"@[0] == n.subrange(n.len() - 4, n.len() as int)[0]);
            assert(n[n.len() - 4] == '.');
            assert(name.contains(name[n.len() - 4]));
        }
        if ".opus"@.is_suffix_of(n) {
            assert(".opus"@[0] == n.subrange(n.len() - 5, n.len() as int)[0]);
            assert(n[n.len() - 5] == '.');
            assert(name.contains(name[n.len() - 5]));
        }
    }
}

proof fn lemma_suffix(stem: Seq<char>, ext: Seq<char>)
    requires
        ext.len() > 0,
        ext[0] == '.',
        forall|i: int| 1 <= i < ext.len() ==> #[trigger] ext[i] != '.' && !text::is_upper(ext[i]),
    ensures
        ext.is_suffix_of(text::lower(stem + ext)),
        (stem + ext).take(text::last_index_of(stem + ext, '.')) == stem,
{
    let w = stem + ext;
    let l = text::lower(w);
    assert(l.subrange(l.len() - ext.len(), l.len() as int) =~= ext) by {
        assert forall|i: int| 0 <= i < ext.len() implies l[stem.len() + i] == ext[i] by {
            assert(w[stem.len() + i] == ext[i]);
        }
    }
    assert(w[stem.len() as int] == '.');
    assert forall|j: int| stem.len() < j < w.len() implies #[trigger] w[j] != '.' by {
        assert(w[j] == ext[j - stem.len()]);
    }
    text::lemma_last_index_of(w, '.', stem.len() as int);
    assert(w.take(stem.len() as int) =~= stem);
}

/// A voice note is fetched and transcribed, and its words are asked, below its caption
/// where it has one.
pub proof fn voice_notes_are_transcribed(
    caption: Seq<char>,
    file: attachments::FileView,
    path: Seq<char>,
    t: Seq<char>,
)
    ensures
        ({
            let v0 = intake::VoiceView::begun(caption, file);
            let v1 = v0.after(intake::GainView::Downloaded(path));
            let v2 = v1.after(intake::GainView::Transcript(t));
            &&& v0.work() == intake::WorkView::Download(file.file_id)
            &&& v1.work() == intake::WorkView::Transcribe(
                attachments::audio_name(file.filename, file.mime),
                file.mime,
            )
            &&& caption.len() == 0 ==> v2.work() == intake::WorkView::Ask(t, Seq::empty())
            &&& caption.len() > 0 ==> v2.work() == intake::WorkView::Ask(
                caption + seq!['\n', '\n'] + t,
                Seq::empty(),
            )
            &&& v2.after(intake::GainView::Done).work() == intake::WorkView::Finished
        }),
{
    reveal_strlit("\n\n");
    assert("\n\n"@ =~= seq!['\n', '\n']);
}

/// A voice note that cannot be transcribed goes along as a file, once it is ready; one
/// that cannot be fetched or stored is answered with a word on it.
pub proof fn untranscribed_notes_go_along(
    caption: Seq<char>,
    file: attachments::FileView,
    path: Seq<char>,
    why: Seq<char>,
    id: Seq<char>,
    task: Seq<char>,
)
    ensures
        ({
            let v0 = intake::VoiceView::begun(caption, file);
            let lost = v0.after(intake::GainView::Failed(why));
            let v1 = v0.after(intake::GainView::Downloaded(path)).after(
                intake::GainView::Failed(why),
            );
            let unstored = v1.after(intake::GainView::Failed(why));
            let ready = v1.after(intake::GainView::Stored(id, None));
            let waiting = v1.after(intake::GainView::Stored(id, Some(task)));
            let question = if caption.len() == 0 {
                "Please answer the question in the attached voice message."@
            } else {
                caption + "\n\n(See the attached voice message.)"@
            };
            &&& lost.work() == intake::WorkView::Say("I couldn't download that audio: "@ + why)
            &&& v1.work() == intake::WorkView::Store(
                attachments::audio_name(file.filename, file.mime),
                file.mime,
            )
            &&& unstored.work() == intake::WorkView::Say(
                "I couldn't understand that audio. Could you type it instead?"@,
            )
            &&& ready.work() == intake::WorkView::Ask(question, seq![id])
            &&& waiting.work() == intake::WorkView::WaitFor(task, 60)
            &&& waiting.after(intake::GainView::Done).work() == intake::WorkView::Ask(
                question,
                seq![id],
            )
            &&& waiting.after(intake::GainView::Failed(why)).work() == intake::WorkView::Ask(
                question,
                seq![id],
            )
        }),
{
}

/// One file is fetched, stored under its name and type, waited for where there is a task,
/// and asked about; the sender's words are the question where there are any.
pub proof fn files_are_stored_and_asked(
    caption: Seq<char>,
    f: attachments::FileView,
    path: Seq<char>,
    id: Seq<char>,
    task: Seq<char>,
)
    ensures
        ({
            let v0 = files::FilesView::begun(caption, seq![files::PickView::File(f)]);
            let v1 = v0.after(intake::GainView::Downloaded(path));
            let v2 = v1.after(intake::GainView::Stored(id, None));
            let w2 = v1.after(intake::GainView::Stored(id, Some(task)));
            let name = attachments::with_extension(f.filename, path);
            let question = if caption.len() > 0 {
                caption
            } else {
                "I've attached "@ + name + ". Please review it and summarize the key points."@
            };
            &&& v0.work() == intake::WorkView::Download(f.file_id)
            &&& v1.work() matches intake::WorkView::Store(n, m) && n == name && (f.mime is Some
                ==> m == f.mime)
            &&& v2.work() == intake::WorkView::Ask(question, seq![id])
            &&& w2.work() == intake::WorkView::WaitFor(task, 120)
            &&& w2.after(intake::GainView::Done).work() == intake::WorkView::Ask(
                question,
                seq![id],
            )
            &&& v2.after(intake::GainView::Done).work() == intake::WorkView::Finished
        }),
{
    reveal_with_fuel(files::FilesView::advance, 2);
    let v0 = files::FilesView::begun(caption, seq![files::PickView::File(f)]);
    let v1 = v0.after(intake::GainView::Downloaded(path));
    let v2 = v1.after(intake::GainView::Stored(id, None));
    let w2 = v1.after(intake::GainView::Stored(id, Some(task)));
    let name = attachments::with_extension(f.filename, path);
    assert(v1.stage == files::FilesStage::Store(0));
    assert(v2.ids =~= seq![id]);
    assert(v2.names =~= seq![name]);
    assert(w2.ids =~= seq![id]);
    assert(w2.names =~= seq![name]);
}

/// A file that cannot be fetched or stored is left out, with its name and the reason,
/// and where nothing is left the sender is told so and nothing is asked.
pub proof fn lost_files_are_named(
    caption: Seq<char>,
    f: attachments::FileView,
    path: Seq<char>,
    why: Seq<char>,
)
    ensures
        ({
            let v0 = files::FilesView::begun(caption, seq![files::PickView::File(f)]);
            let lost = v0.after(intake::GainView::Failed(why));
            let name = attachments::with_extension(f.filename, path);
            let unstored = v0.after(intake::GainView::Downloaded(path)).after(
                intake::GainView::Failed(why),
            );
            &&& lost.work() == intake::WorkView::Say(
                "I couldn't use that attachment: "@ + (f.filename + " ("@ + why + ")"@),
            )
            &&& unstored.work() == intake::WorkView::Say(
                "I couldn't use that attachment: "@ + (name + " (upload failed)"@),
            )
            &&& lost.after(intake::GainView::Done).work() == intake::WorkView::Finished
        }),
{
    reveal_with_fuel(files::FilesView::advance, 2);
    let v0 = files::FilesView::begun(caption, seq![files::PickView::File(f)]);
    let lost = v0.after(intake::GainView::Failed(why));
    let v1 = v0.after(intake::GainView::Downloaded(path));
    let unstored = v1.after(intake::GainView::Failed(why));
    let name = attachments::with_extension(f.filename, path);
    assert(lost.skipped =~= seq![f.filename + " ("@ + why + ")"@]);
    assert(v1.stage == files::FilesStage::Store(0));
    assert(unstored.skipped =~= seq![name + " (upload failed)"@]);
}

/// Where some of an album's files are left out the sender is told which, and is asked
/// about the rest.
pub proof fn left_out_files_are_told(
    caption: Seq<char>,
    f: attachments::FileView,
    other: Seq<char>,
    path: Seq<char>,
    id: Seq<char>,
)
    ensures
        ({
            let v0 = files::FilesView::begun(
                caption,
                seq![files::PickView::File(f), files::PickView::Unsupported(other)],
            );
            let v2 = v0.after(intake::GainView::Downloaded(path)).after(
                intake::GainView::Stored(id, None),
            );
            &&& v2.work() == intake::WorkView::Say("Skipped: "@ + other)
            &&& caption.len() > 0 ==> v2.after(intake::GainView::Done).work()
                == intake::WorkView::Ask(caption, seq![id])
        }),
{
    reveal_with_fuel(files::FilesView::advance, 3);
    let v0 = files::FilesView::begun(
        caption,
        seq![files::PickView::File(f), files::PickView::Unsupported(other)],
    );
    let v1 = v0.after(intake::GainView::Downloaded(path));
    let v2 = v1.after(intake::GainView::Stored(id, None));
    assert(v1.stage == files::FilesStage::Store(0));
    assert(v2.skipped =~= seq![other]);
    assert(v2.ids =~= seq![id]);
}

/// The question about several files names them all.
pub proof fn several_files_are_all_named(caption: Seq<char>, names: Seq<Seq<char>>)
    ensures
        caption.len() > 0 ==> files::files_question(caption, names) == caption,
        caption.len() == 0 && names.len() > 1 ==> files::files_question(caption, names)
            == "I've attached "@ + text::decimal(names.len()) + " files: "@ + text::join(
            names,
            ", "@,
        ) + ". Please review them and summarize the key points."@,
{
}

/// One message with audio is listened to; anything else is a batch of files.
pub proof fn audio_is_listened_to(caption: Seq<char>, batch: Seq<Message>)
    ensures
        batch.len() == 1 && (batch[0].voice is Some || batch[0].audio is Some)
            ==> process::IntakeView::begun(caption, batch) is Voice,
        batch.len() != 1 || (batch[0].voice is None && batch[0].audio is None)
            ==> process::IntakeView::begun(caption, batch) == process::IntakeView::Files(
            files::FilesView::begun(caption, files::picks_of(batch)),
        ),
        batch.len() > 0 && attachments::picked(batch[0]) is Some ==> files::picks_of(batch)[0]
            == files::PickView::File(attachments::picked(batch[0])->0),
        batch.len() > 0 && attachments::picked(batch[0]) is None ==> files::picks_of(batch)[0]
            == files::PickView::Unsupported(attachments::description(batch[0])),
        files::picks_of(batch).len() == batch.len(),
{
}

/// A name that a file may have is kept, as long as it is not too long; characters that
/// no name may hold are taken out, and where nothing is left another name stands in.
pub proof fn safe_names_are_kept(name: Seq<char>, fallback: Seq<char>)
    ensures
        0 < name.len() <= 120 && name[0] != '.' && !text::is_space(name[0]) && !text::is_space(
            name.last(),
        ) && (forall|i: int|
            0 <= i < name.len() ==> !"/\\\0:*?\"<>|"@.contains(#[trigger] name[i]))
            ==> util::safe_name(name, fallback) == name,
        util::safe_name(Seq::empty(), fallback) == fallback,
{
    reveal_strlit("/\\\0:*?\"<>|");
    let bad = "/\\\0:*?\"<>|"@;
    let keep = |c: char| !util::forbidden_in_name(c);
    let none = Seq::<char>::empty();
    reveal(Seq::filter);
    assert(none.filter(keep) =~= none);
    text::lemma_blank(none);
    assert(text::trim(none) =~= none);
    assert(bad[0] == '/' && bad[1] == '\\' && bad[2] == '\0' && bad[3] == ':' && bad[4] == '*'
        && bad[5] == '?' && bad[6] == '"' && bad[7] == '<' && bad[8] == '>' && bad[9] == '|');
    if 0 < name.len() <= 120 && name[0] != '.' && !text::is_space(name[0]) && !text::is_space(
        name.last(),
    ) && (forall|i: int| 0 <= i < name.len() ==> !bad.contains(#[trigger] name[i])) {
        assert forall|i: int| 0 <= i < name.len() implies keep(#[trigger] name[i]) by {
            let c = name[i];
            assert(!bad.contains(c));
            if util::forbidden_in_name(c) {
                assert(exists|j: int| 0 <= j < bad.len() && bad[j] == c);
            }
        }
        lemma_all_stay(name, keep);
        text_laws::trimming_takes_outer_space(none, name, none);
        assert(none + name + none =~= name);
        assert(text::drop_front(name, '.') == name);
    }
}

proof fn lemma_all_stay(s: Seq<char>, keep: spec_fn(char) -> bool)
    requires
        forall|i: int| 0 <= i < s.len() ==> keep(#[trigger] s[i]),
    ensures
        s.filter(keep) == s,
    decreases s.len(),
{
    reveal(Seq::filter);
    if s.len() > 0 {
        lemma_all_stay(s.drop_last(), keep);
        assert(s =~= s.drop_last().push(s.last()));
    }
}

} // verus!
