use anki_helper::batch::UpdateNotesRes;
use anki_helper::input::{InputBox, InputMode};
use anki_helper::model::{Expression, Sentence};
use anki_helper::pending::NotesToBeCreated;
use anki_helper::selection::{wrap_next, wrap_prev};
use anki_helper::wordlist::{
    expressions_from_word_list, join_words, remove_expressions, remove_words_from_line,
    split_words, tidy_word_list, words_to_delete,
};

fn words(list: &[&str]) -> Vec<String> {
    list.iter().map(|w| w.to_string()).collect()
}

fn exps(list: &[&str]) -> Vec<Expression> {
    list.iter().map(|w| Expression::from(w.to_string(), None, None, None)).collect()
}

#[test]
fn deleting_a_word_keeps_whitespace() {
    assert_eq!(remove_words_from_line("犬 猫 魚", &words(&["猫"])), "犬  魚");
    let mut list = exps(&["犬", "猫", "魚"]);
    let selected = remove_expressions(&mut list, &words(&["猫"]));
    let left: Vec<&str> = list.iter().map(|e| e.dict_word.as_str()).collect();
    assert_eq!(left, vec!["犬", "魚"]);
    assert_eq!(selected, Some(0));
}

#[test]
fn deletion_removes_whole_tokens_only() {
    assert_eq!(remove_words_from_line("猫舌 猫\t猫", &words(&["猫"])), "猫舌 \t");
    assert_eq!(remove_words_from_line("", &words(&["猫"])), "");
    assert_eq!(remove_words_from_line("a b", &words(&[])), "a b");
    assert_eq!(remove_words_from_line("  a  ", &words(&["a", "b"])), "    ");
}

#[test]
fn removal_selection() {
    let mut first = exps(&["犬", "猫"]);
    assert_eq!(remove_expressions(&mut first, &words(&["犬"])), None);
    assert_eq!(first.len(), 1);
    let mut none = exps(&["犬", "猫"]);
    assert_eq!(remove_expressions(&mut none, &words(&["魚"])), None);
    assert_eq!(none.len(), 2);
    let mut many = exps(&["a", "b", "c", "d", "c"]);
    assert_eq!(remove_expressions(&mut many, &words(&["c", "d"])), Some(1));
    let left: Vec<&str> = many.iter().map(|e| e.dict_word.as_str()).collect();
    assert_eq!(left, vec!["a", "b"]);
}

#[test]
fn word_list_splitting_and_joining() {
    assert_eq!(split_words(" 犬  猫\n魚\t"), words(&["犬", "猫", "魚"]));
    assert!(split_words("  \n ").is_empty());
    assert_eq!(join_words(&words(&["犬", "猫", "魚"])), "犬 猫 魚");
    assert_eq!(join_words(&words(&[])), "");
    assert_eq!(tidy_word_list("犬  魚\n\n 猫 "), "犬 魚 猫");
    // U+3000 is white space too.
    assert_eq!(split_words("犬\u{3000}猫"), words(&["犬", "猫"]));
}

#[test]
fn word_list_expressions() {
    let list = expressions_from_word_list("犬 猫\n魚");
    let names: Vec<&str> = list.iter().map(|e| e.dict_word.as_str()).collect();
    assert_eq!(names, vec!["犬", "猫", "魚"]);
    assert!(list.iter().all(|e| e.note_id.is_none() && e.sentences.is_none()));
}

#[test]
fn words_deleted_after_a_batch() {
    let res = UpdateNotesRes {
        dict_words_vec: words(&["魚", "犬"]),
        err_vec: vec![],
        success_len: 2,
        total_len: 3,
    };
    assert_eq!(words_to_delete(&exps(&["犬", "猫", "魚"]), &res), words(&["犬", "魚"]));
}

fn sentence(text: &str, word: &str) -> Sentence {
    let e = Expression::from(word.to_string(), None, None, None);
    Sentence::from(text, None, None, None, "t", "l", &e)
}

#[test]
fn pending_list_keeps_one_sentence_per_expression() {
    let mut pending = NotesToBeCreated::new();
    pending.check_notes_or_push(sentence("一", "犬"));
    pending.check_notes_or_push(sentence("二", "猫"));
    pending.check_notes_or_push(sentence("三", "犬"));
    let texts: Vec<&str> = pending.sentences.iter().map(|s| s.sentence.as_str()).collect();
    assert_eq!(texts, vec!["三", "二"]);
}

#[test]
fn pending_list_deletion_and_selection() {
    let mut pending = NotesToBeCreated::new();
    pending.check_notes_or_push(sentence("一", "a"));
    pending.check_notes_or_push(sentence("二", "b"));
    pending.check_notes_or_push(sentence("三", "c"));
    pending.select_prev_note();
    assert_eq!(pending.selected, Some(0));
    pending.select_prev_note();
    assert_eq!(pending.selected, Some(2));
    pending.select_next_note();
    assert_eq!(pending.selected, Some(0));
    pending.selected = Some(1);
    assert!(!pending.delete_note());
    assert_eq!(pending.selected, Some(0));
    let texts: Vec<&str> = pending.sentences.iter().map(|s| s.sentence.as_str()).collect();
    assert_eq!(texts, vec!["一", "三"]);
    assert!(!pending.delete_note());
    assert!(pending.delete_note());
    assert!(pending.sentences.is_empty());
    assert!(pending.delete_note());
}

#[test]
fn wrapping_selection() {
    assert_eq!(wrap_prev(Some(0), 7, 3), 2);
    assert_eq!(wrap_prev(Some(2), 7, 3), 1);
    assert_eq!(wrap_prev(None, 7, 3), 7);
    assert_eq!(wrap_next(Some(2), 7, 3), 0);
    assert_eq!(wrap_next(Some(0), 7, 3), 1);
    assert_eq!(wrap_next(None, 4, 3), 4);
}

#[test]
fn search_box_editing_counts_characters() {
    let mut input = InputBox::default();
    assert_eq!(input.mode, InputMode::Normal);
    input.enter_char('猫');
    input.enter_char('舌');
    assert_eq!(input.text, "猫舌");
    assert_eq!(input.char_index, 2);
    input.move_cursor_left();
    input.enter_char('x');
    assert_eq!(input.text, "猫x舌");
    assert_eq!(input.char_index, 2);
    input.delete_char();
    assert_eq!(input.text, "猫舌");
    assert_eq!(input.char_index, 1);
    input.move_cursor_left();
    input.move_cursor_left();
    assert_eq!(input.char_index, 0);
    input.delete_char();
    assert_eq!(input.text, "猫舌");
    input.move_cursor_right();
    input.move_cursor_right();
    input.move_cursor_right();
    assert_eq!(input.char_index, 2);
    assert_eq!(input.clamp_cursor(10), 2);
    input.reset_input();
    assert_eq!(input.text, "");
    assert_eq!(input.char_index, 0);
}
