use anki_helper::batch::{explicit_note_id, finish_batch, plan_batch, UpdateNotesRes};
use anki_helper::dispatch::{dispatch_outcome, ReqResult};
use anki_helper::model::{Expression, Sentence, UserNoteFields};
use anki_helper::payload::{build_update_request, into_anki_sentence};
use anki_helper::resolve::ResolutionError;

fn mapping() -> UserNoteFields {
    UserNoteFields {
        expression: "Expression".to_string(),
        sentence: "Sentence".to_string(),
        sentence_audio: "SentenceAudio".to_string(),
        image: "Picture".to_string(),
    }
}

fn expression(word: &str) -> Expression {
    Expression::from(word.to_string(), None, None, None)
}

fn text_sentence(text: &str, word: &str) -> Sentence {
    Sentence::from(text, None, None, None, "title", "https://link", &expression(word))
}

fn field_pairs(fields: &[(String, String)]) -> Vec<(&str, &str)> {
    fields.iter().map(|(k, v)| (k.as_str(), v.as_str())).collect()
}

#[test]
fn text_only_payload_has_only_sentence_field() {
    let s = text_sentence("犬が走る。", "犬");
    let (req, file) = build_update_request(99, &mapping(), s);
    assert_eq!(req.action, "updateNoteFields");
    assert_eq!(req.version, 6);
    assert_eq!(req.params.note.id, 99);
    assert_eq!(field_pairs(&req.params.note.fields), vec![("Sentence", "犬が走る。")]);
    assert!(req.params.note.audio.is_none());
    assert!(req.params.note.picture.is_none());
    assert!(file.is_none());
}

#[test]
fn remote_audio_payload_downloads_by_url() {
    let url = "https://cdn.example/audio/dog_01.mp3".to_string();
    let s = Sentence::from("犬", Some(url.clone()), None, None, "t", "l", &expression("犬"));
    let (req, file) = build_update_request(5, &mapping(), s);
    assert_eq!(field_pairs(&req.params.note.fields), vec![("Sentence", "犬")]);
    let audio = req.params.note.audio.expect("an audio descriptor");
    assert_eq!(audio.len(), 1);
    assert_eq!(audio[0].url, url);
    assert_eq!(audio[0].filename, "dog_01.mp3");
    assert!(audio[0].skip_hash.is_none());
    assert_eq!(audio[0].fields, vec!["SentenceAudio".to_string()]);
    assert!(req.params.note.picture.is_none());
    assert!(file.is_none());
}

#[test]
fn cached_audio_payload_references_local_file() {
    let url = "https://cdn.example/a/cat.mp3".to_string();
    let img = "https://cdn.example/i/cat.jpg".to_string();
    let s = Sentence::from(
        "猫",
        Some(url),
        Some(vec![1, 2, 3]),
        Some(img.clone()),
        "t",
        "l",
        &expression("猫"),
    );
    let (req, file) = build_update_request(8, &mapping(), s);
    assert_eq!(
        field_pairs(&req.params.note.fields),
        vec![("Sentence", "猫"), ("SentenceAudio", "[sound:cat.mp3]")]
    );
    assert!(req.params.note.audio.is_none());
    let picture = req.params.note.picture.expect("a picture descriptor");
    assert_eq!(picture.len(), 1);
    assert_eq!(picture[0].url, img);
    assert_eq!(picture[0].filename, "cat.jpg");
    assert_eq!(picture[0].fields, vec!["Picture".to_string()]);
    let file = file.expect("a media file");
    assert_eq!(file.filename, "cat.mp3");
    assert_eq!(file.bytes, vec![1, 2, 3]);
}

#[test]
fn cached_audio_on_the_sentence_field_replaces_it() {
    let mut cfg = mapping();
    cfg.sentence_audio = "Sentence".to_string();
    let s = Sentence::from("猫", Some("u/c.mp3".to_string()), Some(vec![9]), None, "t", "l", &expression("猫"));
    let (req, _) = build_update_request(8, &cfg, s);
    assert_eq!(field_pairs(&req.params.note.fields), vec![("Sentence", "[sound:c.mp3]")]);
}

#[test]
fn image_without_audio_is_attached() {
    let s = Sentence::from("魚", None, None, Some("https://x/y/fish.png".to_string()), "t", "l", &expression("魚"));
    let (req, _) = build_update_request(3, &mapping(), s);
    assert_eq!(field_pairs(&req.params.note.fields), vec![("Sentence", "魚")]);
    assert!(req.params.note.audio.is_none());
    assert_eq!(req.params.note.picture.expect("picture")[0].filename, "fish.png");
}

#[test]
fn anki_sentence_names_audio_file() {
    let s = Sentence::from("a", Some("h/p/q.ogg".to_string()), Some(vec![0]), None, "t", "l", &expression("a"));
    let a = into_anki_sentence(s);
    assert_eq!(a.filename.as_deref(), Some("q.ogg"));
    assert_eq!(a.local_audio_url.as_deref(), Some("[sound:q.ogg]"));
    let b = into_anki_sentence(text_sentence("b", "b"));
    assert!(b.filename.is_none() && b.local_audio_url.is_none());
}

#[test]
fn batch_of_three_with_one_failure() {
    let sentences = vec![
        text_sentence("犬が走る。", "犬"),
        text_sentence("猫が寝る。", "猫"),
        text_sentence("魚が泳ぐ。", "魚"),
    ];
    let resolutions = vec![
        Ok(10),
        Err(ResolutionError::NotFound("猫".to_string())),
        Ok(30),
    ];
    let plan = plan_batch(sentences, resolutions, &mapping());
    assert_eq!(plan.summary.total_len, 3);
    assert_eq!(plan.summary.success_len, 2);
    assert_eq!(plan.summary.err_vec.len(), 1);
    assert_eq!(plan.summary.err_vec[0].0, "猫");
    assert_eq!(plan.summary.err_vec[0].1, "Can't find `猫` in any decks!");
    assert_eq!(plan.summary.dict_words_vec, vec!["犬".to_string(), "魚".to_string()]);
    assert_eq!(plan.requests.len(), 2);
    assert_eq!(plan.requests[0].params.note.id, 10);
    assert_eq!(plan.requests[1].params.note.id, 30);
    assert!(plan.media_files.is_empty());
}

#[test]
fn batch_words_are_distinct() {
    let sentences = vec![
        text_sentence("一", "犬"),
        text_sentence("二", "犬"),
        text_sentence("三", "猫"),
    ];
    let plan = plan_batch(sentences, vec![Ok(1), Ok(1), Ok(2)], &mapping());
    assert_eq!(plan.summary.dict_words_vec, vec!["犬".to_string(), "猫".to_string()]);
    assert_eq!(plan.summary.success_len, 3);
    assert!(plan.summary.err_vec.is_empty());
}

#[test]
fn batch_with_every_item_failing_still_summarises() {
    let plan = plan_batch(
        vec![text_sentence("x", "犬")],
        vec![Err(ResolutionError::Network("timeout".to_string()))],
        &mapping(),
    );
    assert!(plan.requests.is_empty());
    assert_eq!(plan.summary.total_len, 1);
    assert_eq!(plan.summary.success_len, 0);
    assert_eq!(plan.summary.err_vec[0].1, "timeout");
    assert!(plan.summary.dict_words_vec.is_empty());
}

#[test]
fn batch_collects_cached_audio_files() {
    let s = Sentence::from("猫", Some("u/c.mp3".to_string()), Some(vec![4, 5]), None, "t", "l", &expression("猫"));
    let failed = Sentence::from("犬", Some("u/d.mp3".to_string()), Some(vec![6]), None, "t", "l", &expression("犬"));
    let plan = plan_batch(
        vec![s, failed],
        vec![Ok(1), Err(ResolutionError::NotFound("犬".to_string()))],
        &mapping(),
    );
    assert_eq!(plan.media_files.len(), 1);
    assert_eq!(plan.media_files[0].filename, "c.mp3");
    assert_eq!(plan.media_files[0].bytes, vec![4, 5]);
}

#[test]
fn explicit_id_prefers_sentence_override() {
    let mut exp = expression("犬");
    exp.note_id = Some(4);
    let mut s = Sentence::from("x", None, None, None, "t", "l", &exp);
    assert_eq!(explicit_note_id(&s), Some(4));
    s.note_id = Some(123456);
    assert_eq!(explicit_note_id(&s), Some(123456));
    assert_eq!(explicit_note_id(&text_sentence("y", "猫")), None);
}

fn answer(result: Option<Vec<u128>>, error: Option<&str>) -> Result<ReqResult, String> {
    Ok(ReqResult { result, error: error.map(|e| e.to_string()) })
}

#[test]
fn one_rejection_fails_the_batch() {
    let answers = vec![
        answer(None, None),
        answer(None, Some("note not found")),
        answer(Some(vec![1]), Some("odd")),
    ];
    assert_eq!(dispatch_outcome(&answers), Err("note not found".to_string()));
    let reordered = vec![
        answer(Some(vec![1]), None),
        answer(Some(vec![2]), Some("ignored")),
        answer(None, Some("note not found")),
    ];
    assert_eq!(dispatch_outcome(&reordered), Err("note not found".to_string()));
}

#[test]
fn accepted_and_null_answers_succeed() {
    let answers = vec![answer(Some(vec![1]), None), answer(None, None), answer(Some(vec![]), None)];
    assert_eq!(dispatch_outcome(&answers), Ok(()));
    assert_eq!(dispatch_outcome(&vec![]), Ok(()));
}

#[test]
fn first_failure_wins() {
    let answers = vec![
        answer(None, None),
        Err("connection refused".to_string()),
        answer(None, Some("later")),
    ];
    assert_eq!(dispatch_outcome(&answers), Err("connection refused".to_string()));
}

#[test]
fn finishing_a_batch() {
    let res = UpdateNotesRes {
        dict_words_vec: vec!["犬".to_string()],
        err_vec: vec![],
        success_len: 1,
        total_len: 1,
    };
    match finish_batch(res.clone(), Ok(())) {
        Ok(r) => assert_eq!(r.dict_words_vec, vec!["犬".to_string()]),
        Err(e) => panic!("unexpected {}", e),
    }
    assert_eq!(finish_batch(res, Err("note not found".to_string())).err(), Some("note not found".to_string()));
}
