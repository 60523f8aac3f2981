//! The word list: a plain text of whitespace-separated words, and the
//! expressions made from it.
use vstd::prelude::*;
use vstd::string::{StrSliceExecFns, StringExecFns};
use crate::batch::UpdateNotesRes;
use crate::model::Expression;
use crate::text::{char_is_white_space, contains_string, is_white_space, string_views};

verus! {

/// A finished token as it is written back: dropped when it is listed in
/// `del`, kept as it is otherwise.
pub open spec fn kept_token(tok: Seq<char>, del: Seq<Seq<char>>) -> Seq<char> {
    if del.contains(tok) {
        Seq::empty()
    } else {
        tok
    }
}

/// `s` with each listed token dropped, `tok` being the token read so far;
/// every white-space character stays where it was.
pub open spec fn removed_from(s: Seq<char>, tok: Seq<char>, del: Seq<Seq<char>>) -> Seq<char>
    decreases s.len(),
{
    if s.len() == 0 {
        kept_token(tok, del)
    } else if is_white_space(s[0]) {
        kept_token(tok, del) + seq![s[0]] + removed_from(s.drop_first(), Seq::empty(), del)
    } else {
        removed_from(s.drop_first(), tok.push(s[0]), del)
    }
}

/// `line` without the tokens listed in `del`.
pub open spec fn without_words(line: Seq<char>, del: Seq<Seq<char>>) -> Seq<char> {
    removed_from(line, Seq::empty(), del)
}

/// The token `tok` as a list: empty when the token is.
pub open spec fn token_list(tok: Seq<char>) -> Seq<Seq<char>> {
    if tok.len() == 0 {
        Seq::empty()
    } else {
        seq![tok]
    }
}

/// The whitespace-separated words of `s`, `tok` being the word read so far.
pub open spec fn words_from(s: Seq<char>, tok: Seq<char>) -> Seq<Seq<char>>
    decreases s.len(),
{
    if s.len() == 0 {
        token_list(tok)
    } else if is_white_space(s[0]) {
        token_list(tok) + words_from(s.drop_first(), Seq::empty())
    } else {
        words_from(s.drop_first(), tok.push(s[0]))
    }
}

/// The whitespace-separated words of `s`, in order.
pub open spec fn words_of(s: Seq<char>) -> Seq<Seq<char>> {
    words_from(s, Seq::empty())
}

/// The words written one after the other with a single space between.
pub open spec fn joined(words: Seq<Seq<char>>) -> Seq<char>
    decreases words.len(),
{
    if words.len() == 0 {
        Seq::empty()
    } else if words.len() == 1 {
        words[0]
    } else {
        joined(words.drop_last()) + " "@ + words.last()
    }
}

/// The white-space characters of `s`, in order.
pub open spec fn spaces_of(s: Seq<char>) -> Seq<char>
    decreases s.len(),
{
    if s.len() == 0 {
        s
    } else if is_white_space(s[0]) {
        seq![s[0]] + spaces_of(s.drop_first())
    } else {
        spaces_of(s.drop_first())
    }
}

/// The white space of two texts written one after the other.
pub proof fn lemma_spaces_of_concat(a: Seq<char>, b: Seq<char>)
    ensures
        spaces_of(a + b) == spaces_of(a) + spaces_of(b),
    decreases a.len(),
{
    if a.len() == 0 {
        assert(a + b =~= b);
        assert(spaces_of(a) + spaces_of(b) =~= spaces_of(b));
    } else {
        assert((a + b).drop_first() =~= a.drop_first() + b);
        assert((a + b)[0] == a[0]);
        lemma_spaces_of_concat(a.drop_first(), b);
        if is_white_space(a[0]) {
            assert(seq![a[0]] + (spaces_of(a.drop_first()) + spaces_of(b)) =~= (seq![a[0]]
                + spaces_of(a.drop_first())) + spaces_of(b));
        }
    }
}

/// A text without white space has none to give.
pub proof fn lemma_spaces_of_token(tok: Seq<char>)
    requires
        forall|i: int| 0 <= i < tok.len() ==> !is_white_space(#[trigger] tok[i]),
    ensures
        spaces_of(tok) == Seq::<char>::empty(),
    decreases tok.len(),
{
    if tok.len() > 0 {
        assert(!is_white_space(tok[0]));
        assert forall|i: int| 0 <= i < tok.drop_first().len() implies !is_white_space(
            #[trigger] tok.drop_first()[i],
        ) by {
            assert(tok.drop_first()[i] == tok[i + 1]);
        }
        lemma_spaces_of_token(tok.drop_first());
    }
}

/// The removal machine keeps every white-space character, whatever token
/// it has read so far.
proof fn lemma_removed_from_keeps_spaces(s: Seq<char>, tok: Seq<char>, del: Seq<Seq<char>>)
    requires
        forall|i: int| 0 <= i < tok.len() ==> !is_white_space(#[trigger] tok[i]),
    ensures
        spaces_of(removed_from(s, tok, del)) == spaces_of(s),
    decreases s.len(),
{
    let k = kept_token(tok, del);
    assert forall|i: int| 0 <= i < k.len() implies !is_white_space(#[trigger] k[i]) by {
        if !del.contains(tok) {
            assert(k[i] == tok[i]);
        }
    }
    lemma_spaces_of_token(k);
    if s.len() == 0 {
    } else if is_white_space(s[0]) {
        lemma_removed_from_keeps_spaces(s.drop_first(), Seq::empty(), del);
        let rest = removed_from(s.drop_first(), Seq::empty(), del);
        lemma_spaces_of_concat(k, seq![s[0]]);
        lemma_spaces_of_concat(k + seq![s[0]], rest);
        assert(spaces_of(seq![s[0]]) =~= seq![s[0]] + spaces_of(seq![s[0]].drop_first()));
        assert(spaces_of(seq![s[0]].drop_first()) =~= Seq::<char>::empty());
        assert(k + seq![s[0]] + rest == removed_from(s, tok, del));
        assert(spaces_of(k + seq![s[0]]) =~= seq![s[0]]);
    } else {
        let t = tok.push(s[0]);
        assert forall|i: int| 0 <= i < t.len() implies !is_white_space(#[trigger] t[i]) by {
            if i < tok.len() {
                assert(t[i] == tok[i]);
            }
        }
        lemma_removed_from_keeps_spaces(s.drop_first(), t, del);
    }
}

/// Removing words from a line of the word list leaves its white space as
/// it was: the same white-space characters, in the same order.
pub proof fn lemma_removal_keeps_white_space(line: Seq<char>, del: Seq<Seq<char>>)
    ensures
        spaces_of(without_words(line, del)) == spaces_of(line),
{
    lemma_removed_from_keeps_spaces(line, Seq::empty(), del);
}

/// The words of `words` that are not listed in `del`, in order.
pub open spec fn unlisted(words: Seq<Seq<char>>, del: Seq<Seq<char>>) -> Seq<Seq<char>>
    decreases words.len(),
{
    if words.len() == 0 {
        words
    } else if del.contains(words[0]) {
        unlisted(words.drop_first(), del)
    } else {
        seq![words[0]] + unlisted(words.drop_first(), del)
    }
}

proof fn lemma_unlisted_concat(a: Seq<Seq<char>>, b: Seq<Seq<char>>, del: Seq<Seq<char>>)
    ensures
        unlisted(a + b, del) == unlisted(a, del) + unlisted(b, del),
    decreases a.len(),
{
    if a.len() == 0 {
        assert(a + b =~= b);
        assert(unlisted(a, del) + unlisted(b, del) =~= unlisted(b, del));
    } else {
        assert((a + b).drop_first() =~= a.drop_first() + b);
        assert((a + b)[0] == a[0]);
        lemma_unlisted_concat(a.drop_first(), b, del);
        if !del.contains(a[0]) {
            assert(seq![a[0]] + (unlisted(a.drop_first(), del) + unlisted(b, del)) =~= (seq![a[0]]
                + unlisted(a.drop_first(), del)) + unlisted(b, del));
        }
    }
}

/// Reading a run without white space only extends the word being read.
proof fn lemma_words_from_run(t: Seq<char>, acc: Seq<char>, rest: Seq<char>)
    requires
        forall|i: int| 0 <= i < t.len() ==> !is_white_space(#[trigger] t[i]),
        rest.len() == 0 || is_white_space(rest[0]),
    ensures
        words_from(t + rest, acc) == words_from(rest, acc + t),
    decreases t.len(),
{
    if t.len() == 0 {
        assert(t + rest =~= rest);
        assert(acc + t =~= acc);
    } else {
        assert((t + rest)[0] == t[0]);
        assert((t + rest).drop_first() =~= t.drop_first() + rest);
        assert forall|i: int| 0 <= i < t.drop_first().len() implies !is_white_space(
            #[trigger] t.drop_first()[i],
        ) by {
            assert(t.drop_first()[i] == t[i + 1]);
        }
        lemma_words_from_run(t.drop_first(), acc.push(t[0]), rest);
        assert(acc.push(t[0]) + t.drop_first() =~= acc + t);
    }
}

/// The removal machine drops exactly the listed words.
proof fn lemma_removed_from_words(s: Seq<char>, tok: Seq<char>, del: Seq<Seq<char>>)
    requires
        forall|i: int| 0 <= i < tok.len() ==> !is_white_space(#[trigger] tok[i]),
    ensures
        words_of(removed_from(s, tok, del)) == unlisted(words_from(s, tok), del),
    decreases s.len(),
{
    let k = kept_token(tok, del);
    assert forall|i: int| 0 <= i < k.len() implies !is_white_space(#[trigger] k[i]) by {
        if !del.contains(tok) {
            assert(k[i] == tok[i]);
        }
    }
    let e = Seq::<char>::empty();
    assert(e + k =~= k);
    let tl = token_list(tok);
    if tok.len() == 0 {
        assert(unlisted(tl, del) =~= tl);
        assert(k =~= e);
    } else {
        assert(tl.drop_first() =~= Seq::<Seq<char>>::empty());
        assert(unlisted(tl.drop_first(), del) =~= Seq::<Seq<char>>::empty());
        assert(tl[0] == tok);
        if del.contains(tok) {
            assert(k =~= e);
        } else {
            assert(seq![tok] + Seq::<Seq<char>>::empty() =~= seq![tok]);
        }
    }
    assert(unlisted(tl, del) == token_list(k));
    if s.len() == 0 {
        lemma_words_from_run(k, e, e);
        assert(k + e =~= k);
    } else if is_white_space(s[0]) {
        let rest = removed_from(s.drop_first(), e, del);
        let tail = seq![s[0]] + rest;
        lemma_words_from_run(k, e, tail);
        assert(k + tail =~= k + seq![s[0]] + rest);
        assert(tail[0] == s[0]);
        assert(tail.drop_first() =~= rest);
        lemma_removed_from_words(s.drop_first(), e, del);
        lemma_unlisted_concat(tl, words_from(s.drop_first(), e), del);
    } else {
        let t = tok.push(s[0]);
        assert forall|i: int| 0 <= i < t.len() implies !is_white_space(#[trigger] t[i]) by {
            if i < tok.len() {
                assert(t[i] == tok[i]);
            }
        }
        lemma_removed_from_words(s.drop_first(), t, del);
    }
}

/// Removing words from a line of the word list drops exactly the listed
/// words: the words that remain are those of the line that are not listed,
/// in order.
pub proof fn lemma_removal_drops_listed_words(line: Seq<char>, del: Seq<Seq<char>>)
    ensures
        words_of(without_words(line, del)) == unlisted(words_of(line), del),
{
    lemma_removed_from_words(line, Seq::empty(), del);
}

/// Removes from a line of the word list every token equal to one of
/// `del`, leaving all white space in place.
pub fn remove_words_from_line(line: &str, del: &Vec<String>) -> (r: String)
    ensures
        r@ == without_words(line@, string_views(del@)),
{
    let ghost d = string_views(del@);
    let n = line.unicode_len();
    let mut out = String::new();
    let mut start: usize = 0;
    let mut i: usize = 0;
    assert(line@.skip(0) =~= line@);
    assert(line@.subrange(0, 0) =~= Seq::<char>::empty());
    while i < n
        invariant
            n == line@.len(),
            start <= i <= n,
            d == string_views(del@),
            out@ + removed_from(line@.skip(i as int), line@.subrange(start as int, i as int), d)
                == without_words(line@, d),
        decreases n - i,
    {
        let c = line.get_char(i);
        let ghost rest = line@.skip(i as int);
        let ghost tok = line@.subrange(start as int, i as int);
        assert(rest[0] == c);
        assert(rest.drop_first() =~= line@.skip(i as int + 1));
        if char_is_white_space(c) {
            let token = line.substring_char(start, i);
            if !contains_string(del, token) {
                out.append(token);
            }
            out.append(line.substring_char(i, i + 1));
            assert(line@.subrange(i as int, i as int + 1) =~= seq![c]);
            assert(line@.subrange(i as int + 1, i as int + 1) =~= Seq::<char>::empty());
            start = i + 1;
        } else {
            assert(tok.push(c) =~= line@.subrange(start as int, i as int + 1));
        }
        i = i + 1;
    }
    let token = line.substring_char(start, n);
    if !contains_string(del, token) {
        out.append(token);
    }
    assert(line@.skip(n as int) =~= Seq::<char>::empty());
    out
}

/// The whitespace-separated words of a text, in order.
pub fn split_words(text: &str) -> (r: Vec<String>)
    ensures
        string_views(r@) == words_of(text@),
{
    let n = text.unicode_len();
    let mut out: Vec<String> = Vec::new();
    let mut start: usize = 0;
    let mut i: usize = 0;
    assert(text@.skip(0) =~= text@);
    assert(text@.subrange(0, 0) =~= Seq::<char>::empty());
    assert(string_views(out@) =~= Seq::<Seq<char>>::empty());
    while i < n
        invariant
            n == text@.len(),
            start <= i <= n,
            string_views(out@) + words_from(text@.skip(i as int), text@.subrange(start as int, i as int))
                == words_of(text@),
        decreases n - i,
    {
        let c = text.get_char(i);
        let ghost rest = text@.skip(i as int);
        let ghost tok = text@.subrange(start as int, i as int);
        assert(rest[0] == c);
        assert(rest.drop_first() =~= text@.skip(i as int + 1));
        if char_is_white_space(c) {
            if start < i {
                let ghost before = string_views(out@);
                out.push(text.substring_char(start, i).to_string());
                assert(string_views(out@) =~= before + token_list(tok));
            } else {
                assert(token_list(tok) =~= Seq::<Seq<char>>::empty());
            }
            assert(text@.subrange(i as int + 1, i as int + 1) =~= Seq::<char>::empty());
            start = i + 1;
        } else {
            assert(tok.push(c) =~= text@.subrange(start as int, i as int + 1));
        }
        i = i + 1;
    }
    let ghost tok = text@.subrange(start as int, n as int);
    let ghost before = string_views(out@);
    if start < n {
        out.push(text.substring_char(start, n).to_string());
        assert(string_views(out@) =~= before + token_list(tok));
    } else {
        assert(token_list(tok) =~= Seq::<Seq<char>>::empty());
    }
    assert(text@.skip(n as int) =~= Seq::<char>::empty());
    out
}

/// The words written one after the other with a single space between.
pub fn join_words(words: &Vec<String>) -> (r: String)
    ensures
        r@ == joined(string_views(words@)),
{
    let mut out = String::new();
    let mut i: usize = 0;
    while i < words.len()
        invariant
            i <= words@.len(),
            out@ == joined(string_views(words@).take(i as int)),
        decreases words@.len() - i,
    {
        let ghost w = string_views(words@);
        assert(w.take(i as int + 1).drop_last() =~= w.take(i as int));
        assert(w.take(i as int + 1).last() == words@[i as int]@);
        if i > 0 {
            out.append(" ");
        } else {
            assert(w.take(1) =~= seq![words@[0]@]);
        }
        out.append(words[i].as_str());
        i = i + 1;
    }
    assert(string_views(words@).take(words@.len() as int) =~= string_views(words@));
    out
}

/// The word list rewritten with its words on one line, one space apart.
pub fn tidy_word_list(text: &str) -> (r: String)
    ensures
        r@ == joined(words_of(text@)),
{
    let words = split_words(text);
    join_words(&words)
}

/// Expressions for the words of a word list, in order, none of them tied
/// to a note yet.
pub fn expressions_from_word_list(text: &str) -> (r: Vec<Expression>)
    ensures
        r@.len() == words_of(text@).len(),
        forall|i: int|
            0 <= i < r@.len() ==> (#[trigger] r@[i]).dict_word@ == words_of(text@)[i]
                && r@[i].note_id is None && r@[i].sentences is None,
{
    let words = split_words(text);
    let mut out: Vec<Expression> = Vec::new();
    let mut i: usize = 0;
    while i < words.len()
        invariant
            i <= words@.len(),
            string_views(words@) == words_of(text@),
            out@.len() == i,
            forall|k: int|
                0 <= k < i ==> (#[trigger] out@[k]).dict_word@ == words@[k]@ && out@[k].note_id is None
                    && out@[k].sentences is None,
        decreases words@.len() - i,
    {
        out.push(Expression::from(words[i].clone(), None, None, None));
        i = i + 1;
    }
    proof {
        assert forall|k: int| 0 <= k < out@.len() implies (#[trigger] out@[k]).dict_word@
            == words_of(text@)[k] by {
            assert(string_views(words@)[k] == words@[k]@);
        }
    }
    out
}

/// Whether the expression `e` is one of the words `del`.
pub open spec fn is_listed(e: Expression, del: Seq<Seq<char>>) -> bool {
    del.contains(e.dict_word@)
}

/// The expressions of `s` that are not listed in `del`, in order.
pub open spec fn kept_expressions(s: Seq<Expression>, del: Seq<Seq<char>>) -> Seq<Expression>
    decreases s.len(),
{
    if s.len() == 0 {
        s
    } else if is_listed(s.last(), del) {
        kept_expressions(s.drop_last(), del)
    } else {
        kept_expressions(s.drop_last(), del).push(s.last())
    }
}

/// After a removal no listed expression is left, and every unlisted one
/// still is.
pub proof fn lemma_kept_expressions(s: Seq<Expression>, del: Seq<Seq<char>>)
    ensures
        forall|i: int|
            0 <= i < kept_expressions(s, del).len() ==> !is_listed(
                #[trigger] kept_expressions(s, del)[i],
                del,
            ),
        forall|i: int|
            0 <= i < s.len() && !is_listed(#[trigger] s[i], del) ==> kept_expressions(
                s,
                del,
            ).contains(s[i]),
    decreases s.len(),
{
    if s.len() > 0 {
        let p = s.drop_last();
        lemma_kept_expressions(p, del);
        let k = kept_expressions(p, del);
        assert forall|i: int| 0 <= i < s.len() && !is_listed(#[trigger] s[i], del) implies kept_expressions(
            s,
            del,
        ).contains(s[i]) by {
            if i < s.len() - 1 {
                assert(p[i] == s[i]);
                let j = choose|j: int| 0 <= j < k.len() && k[j] == p[i];
                if !is_listed(s.last(), del) {
                    assert(kept_expressions(s, del)[j] == k[j]);
                }
            } else {
                assert(kept_expressions(s, del)[k.len() as int] == s[i]);
            }
        }
        assert forall|i: int| 0 <= i < kept_expressions(s, del).len() implies !is_listed(
            #[trigger] kept_expressions(s, del)[i],
            del,
        ) by {
            if i < k.len() {
                assert(kept_expressions(s, del)[i] == k[i]);
            }
        }
    }
}

/// The position of the first expression of `s` listed in `del`.
pub open spec fn first_listed(s: Seq<Expression>, del: Seq<Seq<char>>) -> Option<int>
    decreases s.len(),
{
    if s.len() == 0 {
        None
    } else if first_listed(s.drop_last(), del) is Some {
        first_listed(s.drop_last(), del)
    } else if is_listed(s.last(), del) {
        Some(s.len() - 1)
    } else {
        None
    }
}

/// The selection after a removal: the expression just before the first
/// removed one, or none when nothing was removed or the first was removed.
pub open spec fn selection_after_removal(s: Seq<Expression>, del: Seq<Seq<char>>) -> Option<usize> {
    match first_listed(s, del) {
        Some(k) => if k > 0 {
            Some((k - 1) as usize)
        } else {
            None
        },
        None => None,
    }
}

/// Removes from the expression list every expression listed in `del`, and
/// returns the selection that follows: the nearest expression before the
/// first removed one.
pub fn remove_expressions(expressions: &mut Vec<Expression>, del: &Vec<String>) -> (r: Option<usize>)
    ensures
        final(expressions)@ == kept_expressions(old(expressions)@, string_views(del@)),
        r == selection_after_removal(old(expressions)@, string_views(del@)),
{
    let ghost s0 = old(expressions)@;
    let ghost d = string_views(del@);
    let mut rest: Vec<Expression> = Vec::new();
    std::mem::swap(expressions, &mut rest);
    let n = rest.len();
    let mut first: Option<usize> = None;
    let mut i: usize = 0;
    assert(s0.skip(0) =~= s0);
    assert(s0.take(0) =~= Seq::<Expression>::empty());
    while i < n
        invariant
            n == s0.len(),
            i <= n,
            d == string_views(del@),
            rest@ == s0.skip(i as int),
            expressions@ == kept_expressions(s0.take(i as int), d),
            first_listed(s0.take(i as int), d) is None ==> first is None,
            first_listed(s0.take(i as int), d) matches Some(k) ==> (first matches Some(f) && f as int == k),
            first matches Some(f) ==> f < i,
        decreases n - i,
    {
        let ghost pre = s0.take(i as int);
        let ghost post = s0.take(i as int + 1);
        assert(rest@[0] == s0[i as int]);
        let e = rest.remove(0);
        assert(rest@ =~= s0.skip(i as int + 1));
        assert(post.drop_last() =~= pre);
        assert(post.last() == e);
        if contains_string(del, e.dict_word.as_str()) {
            if first.is_none() {
                first = Some(i);
            }
        } else {
            expressions.push(e);
        }
        i = i + 1;
    }
    assert(s0.take(n as int) =~= s0);
    match first {
        Some(k) => if k > 0 {
            Some(k - 1)
        } else {
            None
        },
        None => None,
    }
}

/// The words of the expressions that a finished batch lets go: those whose
/// expression word is among the batch's resolved words.
pub open spec fn words_to_delete_spec(s: Seq<Expression>, done: Seq<Seq<char>>) -> Seq<Seq<char>>
    decreases s.len(),
{
    if s.len() == 0 {
        Seq::empty()
    } else if done.contains(s.last().dict_word@) {
        words_to_delete_spec(s.drop_last(), done).push(s.last().dict_word@)
    } else {
        words_to_delete_spec(s.drop_last(), done)
    }
}

/// The words of the listed expressions that the batch `res` resolved, in
/// the order of the list.
pub fn words_to_delete(expressions: &Vec<Expression>, res: &UpdateNotesRes) -> (r: Vec<String>)
    ensures
        string_views(r@) == words_to_delete_spec(expressions@, string_views(res.dict_words_vec@)),
{
    let ghost done = string_views(res.dict_words_vec@);
    let mut out: Vec<String> = Vec::new();
    let mut i: usize = 0;
    assert(expressions@.take(0) =~= Seq::<Expression>::empty());
    assert(string_views(out@) =~= Seq::<Seq<char>>::empty());
    while i < expressions.len()
        invariant
            i <= expressions@.len(),
            done == string_views(res.dict_words_vec@),
            string_views(out@) == words_to_delete_spec(expressions@.take(i as int), done),
        decreases expressions@.len() - i,
    {
        let ghost pre = expressions@.take(i as int);
        let ghost post = expressions@.take(i as int + 1);
        assert(post.drop_last() =~= pre);
        assert(post.last() == expressions@[i as int]);
        let word = &expressions[i].dict_word;
        if contains_string(&res.dict_words_vec, word.as_str()) {
            let ghost before = string_views(out@);
            out.push(word.clone());
            assert(string_views(out@) =~= before.push(word@));
        }
        i = i + 1;
    }
    assert(expressions@.take(expressions@.len() as int) =~= expressions@);
    out
}

} // verus!
