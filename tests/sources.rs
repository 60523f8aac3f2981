use anki_helper::model::Expression;
use anki_helper::query::{classify_query, confirm_query, parse_usize, remove_line_feeds, QueryAction};
use anki_helper::sources::{
    add_dictionary_entry, ik_search_url, massif_search_url, sentences_from_ik_examples,
    sentences_from_massif_hits, IkExample, MassifHit,
};

fn example(sentence: &str, image: &str, deck: &str) -> IkExample {
    IkExample {
        sentence: sentence.to_string(),
        sound_url: format!("https://audio/{}.mp3", deck),
        image_url: image.to_string(),
        deck_name: deck.to_string(),
    }
}

fn strings(list: &[&str]) -> Vec<String> {
    list.iter().map(|w| w.to_string()).collect()
}

#[test]
fn provider_query_urls() {
    assert_eq!(
        ik_search_url("犬"),
        "https://api.immersionkit.com/look_up_dictionary?keyword=犬&sort=shortness"
    );
    assert_eq!(massif_search_url("犬"), "https://massif.la/ja/search?q=犬&fmt=json");
}

#[test]
fn dictionary_examples_follow_priority() {
    let parent = Expression::from("犬".to_string(), None, None, Some(3));
    let examples = vec![
        example("一", "https://img/1.jpg", "Anime A"),
        example("二", "", "Drama B"),
        example("三", "", "Anime A"),
    ];
    let all = sentences_from_ik_examples(&examples, &vec![], &parent);
    assert_eq!(all.len(), 3);
    assert_eq!(all[0].img_url.as_deref(), Some("https://img/1.jpg"));
    assert!(all[1].img_url.is_none());
    assert_eq!(all[1].audio_url.as_deref(), Some("https://audio/Drama B.mp3"));
    assert_eq!(all[1].media_title, "Drama B");
    assert_eq!(all[1].wbst_link, "https://www.immersionkit.com/dictionary?keyword=二");
    assert_eq!(all[2].parent_expression.dict_word, "犬");
    assert_eq!(all[2].parent_expression.note_id, Some(3));

    let kept = sentences_from_ik_examples(&examples, &strings(&["Anime A"]), &parent);
    let texts: Vec<&str> = kept.iter().map(|s| s.sentence.as_str()).collect();
    assert_eq!(texts, vec!["一", "三"]);
}

#[test]
fn corpus_hits_have_no_media() {
    let parent = Expression::from("猫".to_string(), None, None, None);
    let hits = vec![MassifHit { text: "猫が寝る。".to_string(), title: "Novel".to_string() }];
    let s = sentences_from_massif_hits(&hits, &parent);
    assert_eq!(s.len(), 1);
    assert_eq!(s[0].sentence, "猫が寝る。");
    assert!(s[0].audio_url.is_none() && s[0].img_url.is_none() && s[0].audio_data.is_none());
    assert_eq!(s[0].media_title, "Novel");
    assert_eq!(s[0].wbst_link, "https://massif.la/ja/search?q=猫が寝る。");
}

#[test]
fn dictionary_entries_add_definitions_and_new_readings() {
    let mut e = Expression::from("食べる".to_string(), None, None, None);
    add_dictionary_entry(&mut e, &strings(&["to eat"]), &"たべる".to_string());
    add_dictionary_entry(&mut e, &strings(&["to live on"]), &"たべる".to_string());
    add_dictionary_entry(&mut e, &strings(&[]), &"食べる".to_string());
    assert_eq!(e.definitions, strings(&["to eat", "to live on"]));
    assert_eq!(e.readings, strings(&["たべる"]));
}

fn exps(list: &[&str]) -> Vec<Expression> {
    list.iter().map(|w| Expression::from(w.to_string(), None, None, None)).collect()
}

#[test]
fn confirming_queries() {
    let list = exps(&["犬", " Neko\n", "魚"]);
    assert!(matches!(confirm_query("   ", &list), QueryAction::Ignore));
    assert!(matches!(confirm_query(" 魚 ", &list), QueryAction::SelectExpression(2)));
    assert!(matches!(confirm_query("NEKO", &list), QueryAction::SelectExpression(1)));
    assert!(matches!(confirm_query("1", &list), QueryAction::SelectExpression(1)));
    assert!(matches!(confirm_query("+2", &list), QueryAction::SelectExpression(2)));
    assert!(matches!(confirm_query("7", &list), QueryAction::Ignore));
    assert!(matches!(confirm_query("1234567", &list), QueryAction::SetNoteId(1234567)));
    assert!(matches!(confirm_query("10000", &list), QueryAction::Ignore));
    match confirm_query(" Inu ", &list) {
        QueryAction::AddExpression(w) => assert_eq!(w, "inu"),
        other => panic!("unexpected {:?}", other),
    }
}

#[test]
fn classifying_normalized_queries() {
    let words = strings(&["a", "b", "a"]);
    assert!(matches!(classify_query("a", None, &words), QueryAction::SelectExpression(0)));
    assert!(matches!(classify_query("", Some(1), &words), QueryAction::Ignore));
    assert!(matches!(classify_query("10001", Some(10001), &words), QueryAction::SetNoteId(10001)));
    assert!(matches!(classify_query("c", None, &words), QueryAction::AddExpression(w) if w == "c"));
}

#[test]
fn line_feeds_are_dropped() {
    assert_eq!(remove_line_feeds("a\nb\n"), "ab");
    assert_eq!(remove_line_feeds("\r\n"), "\r");
}

#[test]
fn decimal_parsing() {
    assert_eq!(parse_usize("0"), Some(0));
    assert_eq!(parse_usize("007"), Some(7));
    assert_eq!(parse_usize("+42"), Some(42));
    assert_eq!(parse_usize(""), None);
    assert_eq!(parse_usize("+"), None);
    assert_eq!(parse_usize("-1"), None);
    assert_eq!(parse_usize("1 "), None);
    assert_eq!(parse_usize("１"), None);
    assert_eq!(parse_usize(&usize::MAX.to_string()), Some(usize::MAX));
    assert_eq!(parse_usize(&format!("{}0", usize::MAX)), None);
    assert_eq!(parse_usize("18446744073709551616"), "18446744073709551616".parse::<usize>().ok());
}
