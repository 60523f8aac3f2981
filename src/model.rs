//! The data that the synchronisation works on: configuration, vocabulary
//! items and their example sentences.
use vstd::prelude::*;

verus! {

/// Names of the note fields that the synchronisation reads and writes.
#[derive(Clone, Debug, Default)]
pub struct UserNoteFields {
    pub expression: String,
    pub sentence: String,
    pub sentence_audio: String,
    pub image: String,
}

/// Behavioural switches of the configuration.
#[derive(Clone, Debug, Default)]
pub struct ConfigOptions {
    pub del_words: bool,
    pub tts: bool,
    pub auto_load_new_notes: bool,
}

/// The whole configuration: field mapping, media directory, provider
/// priority and switches.
#[derive(Clone, Debug, Default)]
pub struct ConfigJson {
    pub fields: UserNoteFields,
    pub media_path: String,
    pub priority: Vec<String>,
    pub options: ConfigOptions,
}

/// A vocabulary item under study.
#[derive(Clone, Debug)]
pub struct Expression {
    pub dict_word: String,
    pub readings: Vec<String>,
    pub sentences: Option<Vec<Sentence>>,
    pub selected_sentence: Option<usize>,
    pub definitions: Vec<String>,
    pub exact_search: bool,
    pub note_id: Option<u128>,
}

/// What a sentence keeps of the expression that it illustrates.
#[derive(Clone, Debug)]
pub struct ExpressionRef {
    pub dict_word: String,
    pub note_id: Option<u128>,
}

/// One example usage of an expression, as a sentence provider gave it.
#[derive(Clone, Debug)]
pub struct Sentence {
    pub sentence: String,
    pub audio_url: Option<String>,
    pub audio_data: Option<Vec<u8>>,
    pub img_url: Option<String>,
    pub media_title: String,
    pub wbst_link: String,
    pub parent_expression: ExpressionRef,
    pub note_id: Option<u128>,
}

impl Expression {
    /// A new expression with no readings, definitions or selection beyond
    /// its first sentence.
    pub fn from(
        dict_word: String,
        _reading: Option<Vec<String>>,
        sentences: Option<Vec<Sentence>>,
        note_id: Option<u128>,
    ) -> (r: Self)
        ensures
            r.dict_word == dict_word,
            r.readings@.len() == 0,
            r.sentences == sentences,
            r.selected_sentence == Some(0usize),
            r.definitions@.len() == 0,
            !r.exact_search,
            r.note_id == note_id,
    {
        Expression {
            dict_word,
            readings: Vec::new(),
            sentences,
            selected_sentence: Some(0),
            definitions: Vec::new(),
            exact_search: false,
            note_id,
        }
    }
}

impl Sentence {
    /// A new sentence of `parent_expression`, with no note id of its own.
    pub fn from(
        sentence: &str,
        audio_url: Option<String>,
        audio_data: Option<Vec<u8>>,
        img_url: Option<String>,
        media_title: &str,
        wbst_link: &str,
        parent_expression: &Expression,
    ) -> (r: Self)
        ensures
            r.sentence@ == sentence@,
            r.audio_url == audio_url,
            r.audio_data == audio_data,
            r.img_url == img_url,
            r.media_title@ == media_title@,
            r.wbst_link@ == wbst_link@,
            r.parent_expression.dict_word == parent_expression.dict_word,
            r.parent_expression.note_id == parent_expression.note_id,
            r.note_id is None,
    {
        Sentence {
            sentence: sentence.to_string(),
            audio_url,
            audio_data,
            img_url,
            media_title: media_title.to_string(),
            wbst_link: wbst_link.to_string(),
            parent_expression: ExpressionRef {
                dict_word: parent_expression.dict_word.clone(),
                note_id: parent_expression.note_id,
            },
            note_id: None,
        }
    }
}

} // verus!
