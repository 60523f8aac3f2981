use anki_helper::model::Expression;
use anki_helper::resolve::{
    check_note_fields, expressions_from_notes, find_field, select_candidate, ResolutionError,
};
use anki_helper::ruby::{extract_ruby_text, field_matches_expression, plain_text_of};
use anki_helper::text::url_into_file_name;

fn fields(pairs: &[(&str, &str)]) -> Vec<(String, String)> {
    pairs.iter().map(|(k, v)| (k.to_string(), v.to_string())).collect()
}

#[test]
fn plain_text_without_markup_is_the_text() {
    assert_eq!(extract_ruby_text("食べる"), "食べる");
    assert_eq!(plain_text_of("食べる"), "食べる");
    assert_eq!(plain_text_of(&plain_text_of("食べる")), "食べる");
    assert_eq!(plain_text_of("  食べる \n"), "食べる");
    assert_eq!(extract_ruby_text("  食べる \n"), "  食べる \n");
}

#[test]
fn ruby_markup_keeps_base_text() {
    assert_eq!(extract_ruby_text("<ruby>食<rt>た</rt></ruby>べる"), "食べる");
    assert_eq!(plain_text_of("<ruby>食<rt>た</rt></ruby>べる"), "食べる");
    assert_eq!(
        extract_ruby_text("<ruby>食<rp>(</rp><rt>た</rt><rp>)</rp></ruby>べる"),
        "食べる"
    );
    assert_eq!(extract_ruby_text("<span>食べる</span>"), "食べる");
    assert_eq!(extract_ruby_text("<b>食</b><i>べる</i>"), "食べる");
    assert_eq!(extract_ruby_text("<span class=\"x\">犬</span><br>"), "犬");
    // An `<rt>` that is never closed is an ordinary tag.
    assert_eq!(extract_ruby_text("a<rt>b"), "ab");
    // Stray `>` and an unclosed `<` match nothing.
    assert_eq!(extract_ruby_text("a>b>c<d"), "abcd");
    assert_eq!(extract_ruby_text("<rt>た</rt>"), "");
    assert_eq!(plain_text_of("<rt>た</rt>"), "<rt>た</rt>");
    // The spaces around the reading are extracted text, which trims to nothing.
    assert_eq!(plain_text_of(" <rt>た</rt> "), "");
}

#[test]
fn resolution_against_ruby_field() {
    let note = fields(&[("Expression", "<ruby>食<rt>た</rt></ruby>べる")]);
    assert!(matches!(check_note_fields(7, &note, "Expression", "食べる"), Ok(7)));
    match check_note_fields(7, &note, "Expression", " 飲む ") {
        Err(e) => {
            assert!(matches!(&e, ResolutionError::NotFound(w) if w == "飲む"));
            assert_eq!(e.message(), "Can't find `飲む` in any decks!");
        }
        Ok(_) => panic!("expected no match"),
    }
    let closed = fields(&[("Expression", "<div>食べる</div>")]);
    assert!(matches!(check_note_fields(7, &closed, "Expression", " 食べる "), Ok(7)));
}

#[test]
fn resolution_matches_raw_or_plain_text() {
    let plain = fields(&[("Front", "x"), ("Expression", "  犬 ")]);
    assert!(matches!(check_note_fields(42, &plain, "Expression", "犬"), Ok(42)));
    assert!(field_matches_expression("<b>猫</b>", "猫"));
    assert!(!field_matches_expression("<b>猫</b>", "犬"));
    assert!(field_matches_expression(" 猫 ", "猫\t"));
}

#[test]
fn resolution_reports_missing_field() {
    let note = fields(&[("Front", "犬")]);
    match check_note_fields(1, &note, "Expression", "犬") {
        Err(e) => {
            assert!(matches!(&e, ResolutionError::ConfigMismatch(f) if f == "Expression"));
            assert_eq!(
                e.message(),
                "Incorrect Field: `Expression`; `expression` field in config has to match Anki Note!"
            );
        }
        Ok(_) => panic!("expected a configuration mismatch"),
    }
}

#[test]
fn resolution_error_messages() {
    assert_eq!(
        ResolutionError::NotFound("犬".to_string()).message(),
        "Can't find `犬` in any decks!"
    );
    assert_eq!(ResolutionError::Network("down".to_string()).message(), "down");
}

#[test]
fn candidate_is_the_last_id() {
    assert!(matches!(select_candidate(&vec![3, 9, 5], "犬"), Ok(5)));
    match select_candidate(&vec![], "犬") {
        Err(e) => {
            assert!(matches!(&e, ResolutionError::NoCandidates(w) if w == "犬"));
            assert_eq!(e.message(), "No notes found for: 犬");
        }
        Ok(_) => panic!("expected no candidates"),
    }
}

#[test]
fn field_lookup_takes_first_match() {
    let note = fields(&[("A", "1"), ("B", "2"), ("B", "3")]);
    assert_eq!(find_field(&note, "B").map(|s| s.as_str()), Some("2"));
    assert!(find_field(&note, "C").is_none());
}

#[test]
fn expressions_from_note_fields() {
    let notes = vec![
        (11u128, fields(&[("Expression", "<ruby>食<rt>た</rt></ruby>べる")])),
        (12u128, fields(&[("Expression", " 犬 ")])),
    ];
    let exps: Vec<Expression> = match expressions_from_notes(&notes, "Expression") {
        Ok(v) => v,
        Err(e) => panic!("unexpected {:?}", e),
    };
    assert_eq!(exps.len(), 2);
    assert_eq!(exps[0].dict_word, "食べる");
    assert_eq!(exps[0].note_id, Some(11));
    assert_eq!(exps[1].dict_word, "犬");
    assert_eq!(exps[1].note_id, Some(12));

    let broken = vec![(1u128, fields(&[("Expression", "a")])), (2u128, fields(&[("Word", "b")]))];
    assert!(matches!(
        expressions_from_notes(&broken, "Expression"),
        Err(ResolutionError::ConfigMismatch(f)) if f == "Expression"
    ));
}

#[test]
fn file_name_is_last_url_segment() {
    assert_eq!(url_into_file_name("https://host/a/b/sound_01.mp3"), "sound_01.mp3");
    assert_eq!(url_into_file_name("plain.mp3"), "plain.mp3");
    assert_eq!(url_into_file_name("https://host/dir/"), "");
}
