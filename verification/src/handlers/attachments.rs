//! Photos, documents and voice notes → DocsGPT attachments / speech-to-text.

use crate::config::BotConfig;
use crate::handlers::groups;
use crate::storage;
use crate::telegram::types::{ChatKind, Message, PhotoSize};
use crate::text;
use crate::util;
use vstd::prelude::*;

verus! {

/// Whether a message carries a file of any kind.
pub open spec fn carries_media(msg: Message) -> bool {
    msg.photo is Some || msg.document is Some || msg.voice is Some || msg.audio is Some
        || msg.video_note || msg.video || msg.animation
}

/// Whether a message carries a file of any kind.
pub fn has_media(msg: &Message) -> (r: bool)
    ensures
        r == carries_media(*msg),
{
    msg.photo.is_some() || msg.document.is_some() || msg.voice.is_some() || msg.audio.is_some()
        || msg.video_note || msg.video || msg.animation
}

/// What is done about a message with media.
#[derive(Debug)]
pub enum MediaRoute {
    /// Nothing.
    Ignore,
    /// These words are sent back.
    Refuse(String),
    /// It belongs to the album of this id.
    Album(String),
    /// It is taken by itself.
    Single,
}

/// What is done about a message with media, as mathematical values.
pub ghost enum MediaRouteView {
    Ignore,
    Refuse(Seq<char>),
    Album(Seq<char>),
    Single,
}

impl View for MediaRoute {
    type V = MediaRouteView;

    open spec fn view(&self) -> MediaRouteView {
        match self {
            MediaRoute::Ignore => MediaRouteView::Ignore,
            MediaRoute::Refuse(s) => MediaRouteView::Refuse(s@),
            MediaRoute::Album(id) => MediaRouteView::Album(id@),
            MediaRoute::Single => MediaRouteView::Single,
        }
    }
}

/// What is done about a message with media.
pub open spec fn media_route(msg: Message, enabled: bool) -> MediaRouteView {
    if !enabled {
        if msg.chat.kind == ChatKind::Private {
            MediaRouteView::Refuse("Attachments are disabled for this bot."@)
        } else {
            MediaRouteView::Ignore
        }
    } else {
        match msg.media_group_id {
            Some(id) => MediaRouteView::Album(id@),
            None => MediaRouteView::Single,
        }
    }
}

/// Decides what is done about a message with media.
pub fn handle(msg: &Message, cfg: &BotConfig) -> (r: MediaRoute)
    ensures
        r@ == media_route(*msg, cfg.attachments),
{
    if !cfg.attachments {
        if groups::is_private(&msg.chat) {
            return MediaRoute::Refuse("Attachments are disabled for this bot.".to_string());
        }
        return MediaRoute::Ignore;
    }
    match &msg.media_group_id {
        Some(id) => MediaRoute::Album(id.as_str().to_string()),
        None => MediaRoute::Single,
    }
}

/// The time in which the messages of an album come in, in milliseconds.
pub const ALBUM_PAUSE: u64 = 1500;

/// The words of an album: the first caption from `i` on, without mentions, else
/// those of the message that started it.
pub open spec fn caption_from(
    batch: Seq<Message>,
    i: int,
    words: Seq<char>,
    username: Seq<char>,
) -> Seq<char>
    decreases batch.len() - i,
{
    if i < 0 || i >= batch.len() {
        words
    } else {
        match batch[i].caption {
            Some(c) => groups::unmentioned(c@, username),
            None => caption_from(batch, i + 1, words, username),
        }
    }
}

/// The words of an album.
pub fn album_caption(batch: &Vec<Message>, words: &str, username: &str) -> (r: String)
    ensures
        r@ == caption_from(batch@, 0, words@, username@),
{
    let mut i: usize = 0;
    while i < batch.len()
        invariant
            i <= batch@.len(),
            caption_from(batch@, 0, words@, username@) == caption_from(
                batch@,
                i as int,
                words@,
                username@,
            ),
        decreases batch@.len() - i,
    {
        match &batch[i].caption {
            Some(c) => {
                return groups::strip_mention(c.as_str(), username);
            },
            None => {},
        }
        i = i + 1;
    }
    words.to_string()
}

/// The most megabytes that can be counted in bytes.
pub const MOST_MEGABYTES: u64 = 17_592_186_044_415;

/// The most bytes of a file.
pub fn max_bytes(max_file_mb: u64) -> (r: u64)
    requires
        max_file_mb <= MOST_MEGABYTES,
    ensures
        r == max_file_mb * 1024 * 1024,
{
    max_file_mb * 1_048_576
}

/// The words for a message whose file cannot be used.
pub open spec fn description(m: Message) -> Seq<char> {
    if m.video {
        "video (not supported)"@
    } else if m.video_note {
        "video note (not supported)"@
    } else if m.animation {
        "animation (not supported)"@
    } else {
        "unsupported media"@
    }
}

/// The words for a message whose file cannot be used.
pub fn describe(m: &Message) -> (r: String)
    ensures
        r@ == description(*m),
{
    if m.video {
        "video (not supported)".to_string()
    } else if m.video_note {
        "video note (not supported)".to_string()
    } else if m.animation {
        "animation (not supported)".to_string()
    } else {
        "unsupported media".to_string()
    }
}

/// A file to fetch.
#[derive(Debug)]
pub struct FileRef {
    pub file_id: String,
    pub filename: String,
    pub mime: Option<String>,
}

/// A file to fetch, as mathematical values.
pub ghost struct FileView {
    pub file_id: Seq<char>,
    pub filename: Seq<char>,
    pub mime: Option<Seq<char>>,
}

impl View for FileRef {
    type V = FileView;

    open spec fn view(&self) -> FileView {
        FileView {
            file_id: self.file_id@,
            filename: self.filename@,
            mime: text::opt_view(self.mime),
        }
    }
}

/// The bytes of a photo size, as far as they are known.
pub open spec fn size_of(p: PhotoSize) -> u64 {
    match p.file_size {
        Some(n) => n,
        None => 0,
    }
}

/// Whether a photo size is at least as good as another: by its bytes, then by its
/// width.
pub open spec fn no_worse(p: PhotoSize, q: PhotoSize) -> bool {
    size_of(p) > size_of(q) || (size_of(p) == size_of(q) && p.width >= q.width)
}

/// The best of the first `n` photo sizes; of equals the last.
pub open spec fn best_of(sizes: Seq<PhotoSize>, n: int) -> int
    decreases n,
{
    if n <= 1 {
        0
    } else {
        let b = best_of(sizes, n - 1);
        if no_worse(sizes[n - 1], sizes[b]) {
            n - 1
        } else {
            b
        }
    }
}

/// The file of a photo or document.
pub open spec fn picked(m: Message) -> Option<FileView> {
    match m.photo {
        Some(sizes) => if sizes@.len() == 0 {
            None
        } else {
            let best = sizes@[best_of(sizes@, sizes@.len() as int)];
            Some(
                FileView {
                    file_id: best.file_id@,
                    filename: "photo_"@ + best.file_unique_id@ + ".jpg"@,
                    mime: Some("image/jpeg"@),
                },
            )
        },
        None => match m.document {
            Some(d) => Some(
                FileView {
                    file_id: d.file_id@,
                    filename: util::safe_name(
                        match d.file_name {
                            Some(n) => n@,
                            None => "document_"@ + d.file_unique_id@,
                        },
                        "document"@,
                    ),
                    mime: text::opt_view(d.mime_type),
                },
            ),
            None => None,
        },
    }
}

fn best_size(sizes: &Vec<PhotoSize>) -> (r: usize)
    requires
        sizes@.len() > 0,
    ensures
        r == best_of(sizes@, sizes@.len() as int),
        r < sizes@.len(),
{
    let mut best: usize = 0;
    let mut i: usize = 1;
    while i < sizes.len()
        invariant
            1 <= i <= sizes@.len(),
            best < i,
            best == best_of(sizes@, i as int),
        decreases sizes@.len() - i,
    {
        let p: u64 = match sizes[i].file_size {
            Some(n) => n,
            None => 0,
        };
        let q: u64 = match sizes[best].file_size {
            Some(n) => n,
            None => 0,
        };
        if p > q || (p == q && sizes[i].width >= sizes[best].width) {
            best = i;
        }
        i = i + 1;
    }
    best
}

/// The file of a photo or document.
pub fn pick_file(m: &Message) -> (r: Option<FileRef>)
    ensures
        (match r {
            Some(f) => Some(f@),
            None => None,
        }) == picked(*m),
{
    match &m.photo {
        Some(sizes) => {
            if sizes.len() == 0 {
                return None;
            }
            let best = &sizes[best_size(sizes)];
            let mut filename: String = "photo_".to_string();
            filename.append(best.file_unique_id.as_str());
            filename.append(".jpg");
            Some(
                FileRef {
                    file_id: best.file_id.as_str().to_string(),
                    filename,
                    mime: Some("image/jpeg".to_string()),
                },
            )
        },
        None => match &m.document {
            Some(d) => {
                let name: String = match &d.file_name {
                    Some(n) => n.as_str().to_string(),
                    None => {
                        let mut n: String = "document_".to_string();
                        n.append(d.file_unique_id.as_str());
                        n
                    },
                };
                Some(
                    FileRef {
                        file_id: d.file_id.as_str().to_string(),
                        filename: util::safe_filename(name.as_str(), "document"),
                        mime: text::copy_opt(&d.mime_type),
                    },
                )
            },
            None => None,
        },
    }
}

/// Whether a text can be the extension of a file name.
pub open spec fn is_extension(ext: Seq<char>) -> bool {
    0 < ext.len() <= 5 && forall|i: int| 0 <= i < ext.len() ==> text::is_ascii_word(#[trigger] ext[i])
}

/// A file name with an extension: its own, else that of the path it came from.
pub open spec fn with_extension(filename: Seq<char>, path: Seq<char>) -> Seq<char> {
    if filename.contains('.') {
        filename
    } else {
        match text::cut_at_last(path, '.') {
            Some((_, ext)) => if is_extension(ext) {
                filename + "."@ + ext
            } else {
                filename
            },
            None => filename,
        }
    }
}

fn looks_like_extension(ext: &str) -> (r: bool)
    ensures
        r == is_extension(ext@),
{
    let v = text::chars_of(ext);
    if v.len() == 0 || v.len() > 5 {
        return false;
    }
    let mut i: usize = 0;
    while i < v.len()
        invariant
            i <= v@.len(),
            v@ == ext@,
            forall|j: int| 0 <= j < i ==> text::is_ascii_word(#[trigger] ext@[j]),
        decreases v@.len() - i,
    {
        let c = v[i];
        if !(('A' <= c && c <= 'Z') || ('a' <= c && c <= 'z') || ('0' <= c && c <= '9')) {
            assert(!text::is_ascii_word(ext@[i as int]));
            return false;
        }
        i = i + 1;
    }
    true
}

/// A file name with an extension: its own, else that of the path it came from.
pub fn ensure_extension(filename: &str, tg_path: &str) -> (r: String)
    ensures
        r@ == with_extension(filename@, tg_path@),
{
    if text::contains_char(filename, '.') {
        return filename.to_string();
    }
    match text::rsplit_once(tg_path, '.') {
        Some((_, ext)) => {
            if looks_like_extension(ext.as_str()) {
                let mut r: String = filename.to_string();
                r.append(".");
                r.append(ext.as_str());
                return r;
            }
        },
        None => {},
    }
    filename.to_string()
}

/// The extension for audio of a media type.
pub open spec fn audio_extension(mime: Option<Seq<char>>) -> Seq<char> {
    if mime == Some("audio/mpeg"@) || mime == Some("audio/mp3"@) {
        "mp3"@
    } else if mime == Some("audio/mp4"@) || mime == Some("audio/x-m4a"@) {
        "m4a"@
    } else if mime == Some("audio/wav"@) || mime == Some("audio/x-wav"@) {
        "wav"@
    } else if mime == Some("audio/webm"@) || mime == Some("video/webm"@) {
        "webm"@
    } else {
        "ogg"@
    }
}

/// The name under which audio is sent: Opus as OGG, and never without an
/// extension.
pub open spec fn audio_name(name: Seq<char>, mime: Option<Seq<char>>) -> Seq<char> {
    let lower = text::lower(name);
    if ".oga"@.is_suffix_of(lower) || ".opus"@.is_suffix_of(lower) {
        name.take(text::last_index_of(name, '.')) + ".ogg"@
    } else if !name.contains('.') {
        name + "."@ + audio_extension(mime)
    } else {
        name
    }
}

fn extension_for(mime: Option<&str>) -> (r: String)
    ensures
        r@ == audio_extension(
            match mime {
                Some(m) => Some(m@),
                None => None,
            },
        ),
{
    match mime {
        Some(m) => {
            if text::same(m, "audio/mpeg") || text::same(m, "audio/mp3") {
                return "mp3".to_string();
            }
            if text::same(m, "audio/mp4") || text::same(m, "audio/x-m4a") {
                return "m4a".to_string();
            }
            if text::same(m, "audio/wav") || text::same(m, "audio/x-wav") {
                return "wav".to_string();
            }
            if text::same(m, "audio/webm") || text::same(m, "video/webm") {
                return "webm".to_string();
            }
        },
        None => {},
    }
    "ogg".to_string()
}

proof fn lemma_has_last(s: Seq<char>, c: char, k: int)
    requires
        0 <= k < s.len(),
        s[k] == c,
    ensures
        text::last_index_of(s, c) >= 0,
    decreases s.len(),
{
    if s.last() != c {
        lemma_has_last(s.drop_last(), c, k);
    }
}

proof fn lemma_dotted(name: Seq<char>, suffix: Seq<char>)
    requires
        suffix.len() > 0,
        suffix[0] == '.',
        suffix.is_suffix_of(text::lower(name)),
    ensures
        text::last_index_of(name, '.') >= 0,
{
    let k = name.len() - suffix.len();
    assert(text::lower(name)[k] == suffix[0]);
    assert(text::lower_char(name[k]) == '.');
    assert(text::is_upper(name[k]) ==> ((name[k] as u8) + 32) as u8 >= 97) by {
        if text::is_upper(name[k]) {
            assert(65 <= name[k] as u8 <= 90);
        }
    }
    lemma_has_last(name, '.', k);
}

/// DocsGPT accepts .wav .mp3 .m4a .ogg .webm; Telegram voice notes are Opus in OGG.
pub fn normalize_audio_name(name: &str, mime: Option<&str>) -> (r: String)
    ensures
        r@ == audio_name(
            name@,
            match mime {
                Some(m) => Some(m@),
                None => None,
            },
        ),
{
    let lower = text::lowered(name);
    if text::ends_with(lower.as_str(), ".oga") || text::ends_with(lower.as_str(), ".opus") {
        proof {
            reveal_strlit(".oga");
            reveal_strlit(".opus");
            if ".oga"@.is_suffix_of(lower@) {
                lemma_dotted(name@, ".oga"@);
            } else {
                lemma_dotted(name@, ".opus"@);
            }
        }
        let mut r: String = match text::rsplit_once(name, '.') {
            Some((a, _)) => a,
            None => name.to_string(),
        };
        r.append(".ogg");
        return r;
    }
    if !text::contains_char(name, '.') {
        let mut r: String = name.to_string();
        r.append(".");
        r.append(extension_for(mime).as_str());
        return r;
    }
    name.to_string()
}

/// Whether a message is a voice note or audio.
pub fn is_audio(msg: &Message) -> (r: bool)
    ensures
        r == (msg.voice is Some || msg.audio is Some),
{
    msg.voice.is_some() || msg.audio.is_some()
}

/// The file of a voice note or audio.
pub open spec fn audio_of(msg: Message) -> Option<FileView> {
    match msg.voice {
        Some(id) => Some(
            FileView { file_id: id@, filename: "voice.ogg"@, mime: Some("audio/ogg"@) },
        ),
        None => match msg.audio {
            Some(a) => Some(
                FileView {
                    file_id: a.file_id@,
                    filename: match a.file_name {
                        Some(n) => n@,
                        None => "audio.mp3"@,
                    },
                    mime: text::opt_view(a.mime_type),
                },
            ),
            None => None,
        },
    }
}

/// The file of a voice note or audio.
pub fn audio_file(msg: &Message) -> (r: Option<FileRef>)
    ensures
        (match r {
            Some(f) => Some(f@),
            None => None,
        }) == audio_of(*msg),
{
    match &msg.voice {
        Some(id) => Some(
            FileRef {
                file_id: id.as_str().to_string(),
                filename: "voice.ogg".to_string(),
                mime: Some("audio/ogg".to_string()),
            },
        ),
        None => match &msg.audio {
            Some(a) => Some(
                FileRef {
                    file_id: a.file_id.as_str().to_string(),
                    filename: match &a.file_name {
                        Some(n) => n.as_str().to_string(),
                        None => "audio.mp3".to_string(),
                    },
                    mime: text::copy_opt(&a.mime_type),
                },
            ),
            None => None,
        },
    }
}

}
