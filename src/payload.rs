//! Update requests for the remote note store, one per resolved sentence.
use vstd::prelude::*;
use crate::model::{Sentence, UserNoteFields};
use crate::text::{concat3, last_segment, url_into_file_name};

verus! {

/// An instruction to the remote store to fetch a file by URL and attach it
/// to the listed fields.
#[derive(Clone, Debug)]
pub struct Media {
    pub url: String,
    pub filename: String,
    pub skip_hash: Option<String>,
    pub fields: Vec<String>,
}

/// The note part of an update: its id, the field values that replace the
/// current ones, and the media to fetch.
#[derive(Clone, Debug)]
pub struct Note {
    pub id: u128,
    pub fields: Vec<(String, String)>,
    pub audio: Option<Vec<Media>>,
    pub picture: Option<Vec<Media>>,
}

/// Parameters of an `updateNoteFields` call.
#[derive(Clone, Debug)]
pub struct UpdateNoteParams {
    pub note: Note,
}

/// A request envelope for the remote store.
#[derive(Clone, Debug)]
pub struct Request {
    pub action: String,
    pub version: u8,
    pub params: UpdateNoteParams,
}

/// A sentence with what its audio becomes in a request: the file name
/// taken from its audio URL, and the local sound reference when its audio
/// bytes are already at hand.
#[derive(Clone, Debug)]
pub struct AnkiSentence {
    pub sentence_obj: Sentence,
    pub filename: Option<String>,
    pub local_audio_url: Option<String>,
}

/// Audio bytes to store in the media directory under `filename`.
#[derive(Clone, Debug)]
pub struct MediaFile {
    pub filename: String,
    pub bytes: Vec<u8>,
}

/// The field text that makes the remote store play a local media file.
pub open spec fn sound_marker(filename: Seq<char>) -> Seq<char> {
    "[sound:"@ + filename + "]"@
}

/// Whether the audio of `s` is cached: an audio URL and its bytes.
pub open spec fn has_cached_audio(s: Sentence) -> bool {
    s.audio_url is Some && s.audio_data is Some
}

/// Whether the audio of `s` is only remote: an audio URL without bytes.
pub open spec fn has_remote_audio(s: Sentence) -> bool {
    s.audio_url is Some && s.audio_data is None
}

/// What `into_anki_sentence` derives from a sentence.
pub open spec fn anki_sentence_of(a: AnkiSentence, s: Sentence) -> bool {
    &&& a.sentence_obj == s
    &&& s.audio_url is None ==> a.filename is None
    &&& s.audio_url matches Some(u) ==> (a.filename matches Some(f) && f@ == last_segment(u@))
    &&& !has_cached_audio(s) ==> a.local_audio_url is None
    &&& has_cached_audio(s) ==> (a.local_audio_url matches Some(m) && m@ == sound_marker(
        last_segment(s.audio_url->Some_0@),
    ))
}

/// A media descriptor for `url`, tagged to the single field `field`.
pub open spec fn media_for(m: Media, url: Seq<char>, field: Seq<char>) -> bool {
    &&& m.url@ == url
    &&& m.filename@ == last_segment(url)
    &&& m.skip_hash is None
    &&& m.fields@.len() == 1
    &&& m.fields@[0]@ == field
}

/// A list that holds exactly one media descriptor, for `url` and `field`.
pub open spec fn single_media(l: Option<Vec<Media>>, url: Seq<char>, field: Seq<char>) -> bool {
    l matches Some(v) && v@.len() == 1 && media_for(v@[0], url, field)
}

/// The `(name, value)` pairs of a field list, as text.
pub open spec fn field_pairs(fields: Seq<(String, String)>) -> Seq<(Seq<char>, Seq<char>)> {
    fields.map_values(|p: (String, String)| (p.0@, p.1@))
}

/// The fields that an update of `s` writes: the sentence field, and for
/// cached audio the audio field with a local sound reference (which takes
/// the sentence field's place when both names are the same).
pub open spec fn expected_fields(cfg: UserNoteFields, s: Sentence) -> Seq<(Seq<char>, Seq<char>)> {
    if has_cached_audio(s) {
        let marker = sound_marker(last_segment(s.audio_url->Some_0@));
        if cfg.sentence_audio@ == cfg.sentence@ {
            seq![(cfg.sentence_audio@, marker)]
        } else {
            seq![(cfg.sentence@, s.sentence@), (cfg.sentence_audio@, marker)]
        }
    } else {
        seq![(cfg.sentence@, s.sentence@)]
    }
}

/// The envelope of every update: the `updateNoteFields` action, version 6,
/// for the note `id`.
pub open spec fn is_update_envelope(r: Request, id: u128) -> bool {
    &&& r.action@ == "updateNoteFields"@
    &&& r.version == 6
    &&& r.params.note.id == id
}

/// Whether `r` is the update of note `id` with sentence `s`: the fields of
/// `expected_fields`, a download of the audio URL when the bytes are not
/// cached, and a download of the image URL when there is one.
pub open spec fn is_update_request(r: Request, id: u128, cfg: UserNoteFields, s: Sentence) -> bool {
    &&& is_update_envelope(r, id)
    &&& field_pairs(r.params.note.fields@) == expected_fields(cfg, s)
    &&& has_remote_audio(s) ==> single_media(
        r.params.note.audio,
        s.audio_url->Some_0@,
        cfg.sentence_audio@,
    )
    &&& !has_remote_audio(s) ==> r.params.note.audio is None
    &&& s.img_url matches Some(u) ==> single_media(r.params.note.picture, u@, cfg.image@)
    &&& s.img_url is None ==> r.params.note.picture is None
}

/// Whether `s` carries nothing but text: no audio and no image.
pub open spec fn is_text_only(s: Sentence) -> bool {
    s.audio_url is None && s.img_url is None
}

/// Derives the audio file name and, for cached audio, the local sound
/// reference of a sentence.
pub fn into_anki_sentence(sentence: Sentence) -> (r: AnkiSentence)
    ensures
        anki_sentence_of(r, sentence),
{
    let (filename, local_audio_url) = match &sentence.audio_url {
        Some(url) => {
            let name = url_into_file_name(url.as_str());
            let local = match &sentence.audio_data {
                Some(_) => Some(concat3("[sound:", name.as_str(), "]")),
                None => None,
            };
            (Some(name), local)
        },
        None => (None, None),
    };
    AnkiSentence { sentence_obj: sentence, filename, local_audio_url }
}

/// A media descriptor for `url` on the field `field`.
fn media_descriptor(url: &String, field: &String) -> (r: Media)
    ensures
        media_for(r, url@, field@),
{
    Media {
        url: url.clone(),
        filename: url_into_file_name(url.as_str()),
        skip_hash: None,
        fields: vec![field.clone()],
    }
}

/// The sentence-only request: the sentence field and nothing else.
pub fn into_update_only_sentence_req(
    id: u128,
    anki_fields: &UserNoteFields,
    sentence: &AnkiSentence,
) -> (r: Request)
    ensures
        is_update_envelope(r, id),
        field_pairs(r.params.note.fields@) == seq![
            (anki_fields.sentence@, sentence.sentence_obj.sentence@),
        ],
        r.params.note.audio is None,
        r.params.note.picture is None,
{
    let fields = vec![(anki_fields.sentence.clone(), sentence.sentence_obj.sentence.clone())];
    let r = Request {
        action: "updateNoteFields".to_string(),
        version: 6,
        params: UpdateNoteParams { note: Note { id, fields, audio: None, picture: None } },
    };
    assert(field_pairs(r.params.note.fields@) =~= seq![
        (anki_fields.sentence@, sentence.sentence_obj.sentence@),
    ]);
    r
}

/// The full request: the sentence field, the audio as a local reference or
/// a download, and the image as a download.
pub fn into_update_note_req(id: u128, anki_fields: &UserNoteFields, sentence: &AnkiSentence) -> (r:
    Request)
    requires
        anki_sentence_of(*sentence, sentence.sentence_obj),
    ensures
        is_update_request(r, id, *anki_fields, sentence.sentence_obj),
{
    let s = &sentence.sentence_obj;
    let mut fields = vec![(anki_fields.sentence.clone(), s.sentence.clone())];
    let picture = match &s.img_url {
        Some(img_url) => Some(vec![media_descriptor(img_url, &anki_fields.image)]),
        None => None,
    };
    let mut audio: Option<Vec<Media>> = None;
    match &sentence.local_audio_url {
        Some(local) => {
            if anki_fields.sentence_audio == anki_fields.sentence {
                fields = vec![(anki_fields.sentence_audio.clone(), local.clone())];
            } else {
                fields.push((anki_fields.sentence_audio.clone(), local.clone()));
            }
        },
        None => {
            if let Some(audio_url) = &s.audio_url {
                audio = Some(vec![media_descriptor(audio_url, &anki_fields.sentence_audio)]);
            }
        },
    }
    let r = Request {
        action: "updateNoteFields".to_string(),
        version: 6,
        params: UpdateNoteParams { note: Note { id, fields, audio, picture } },
    };
    assert(field_pairs(r.params.note.fields@) =~= expected_fields(*anki_fields, *s));
    r
}

/// The update of note `id` with `sentence`: sentence-only when it has no
/// audio and no image, full otherwise; with the audio bytes to store when
/// they are cached.
pub fn build_update_request(id: u128, anki_fields: &UserNoteFields, sentence: Sentence) -> (r: (
    Request,
    Option<MediaFile>,
))
    ensures
        is_update_request(r.0, id, *anki_fields, sentence),
        is_text_only(sentence) ==> field_pairs(r.0.params.note.fields@) == seq![
            (anki_fields.sentence@, sentence.sentence@),
        ],
        has_cached_audio(sentence) ==> (r.1 matches Some(f) && f.filename@ == last_segment(
            sentence.audio_url->Some_0@,
        ) && f.bytes == sentence.audio_data->Some_0),
        !has_cached_audio(sentence) ==> r.1 is None,
{
    let anki = into_anki_sentence(sentence);
    let request = if anki.sentence_obj.audio_url.is_none() && anki.sentence_obj.img_url.is_none() {
        into_update_only_sentence_req(id, anki_fields, &anki)
    } else {
        into_update_note_req(id, anki_fields, &anki)
    };
    let file = match (anki.filename, anki.sentence_obj.audio_data) {
        (Some(filename), Some(bytes)) => Some(MediaFile { filename, bytes }),
        _ => None,
    };
    (request, file)
}

} // verus!
