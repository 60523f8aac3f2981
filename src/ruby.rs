//! Plain text of a note field written with ruby (furigana) markup.
use vstd::prelude::*;
use vstd::string::StringExecFns;
use crate::text::{lemma_trimmed_bounds, lemma_trimmed_idempotent, trim_str, trimmed};

verus! {

/// The first position of `c` in `s`, or -1.
pub open spec fn index_of(s: Seq<char>, c: char) -> int
    decreases s.len(),
{
    if s.len() == 0 {
        -1
    } else if s[0] == c {
        0
    } else if index_of(s.drop_first(), c) < 0 {
        -1
    } else {
        index_of(s.drop_first(), c) + 1
    }
}

/// `<rt>`, which opens the reading of a ruby base.
pub open spec fn rt_open() -> Seq<char> {
    seq!['<', 'r', 't', '>']
}

/// `</rt>`, which closes it.
pub open spec fn rt_close() -> Seq<char> {
    seq!['<', '/', 'r', 't', '>']
}

/// `<rp>`, which opens the fallback parenthesis of a ruby annotation.
pub open spec fn rp_open() -> Seq<char> {
    seq!['<', 'r', 'p', '>']
}

/// `</rp>`, which closes it.
pub open spec fn rp_close() -> Seq<char> {
    seq!['<', '/', 'r', 'p', '>']
}

/// The length of `open [^<]* close` at the start of `s`, or 0 when `s`
/// does not start so: the element's text runs up to the first `<`, where
/// `close` must stand.
pub open spec fn dropped_len(s: Seq<char>, open: Seq<char>, close: Seq<char>) -> int {
    if s.len() >= open.len() && s.take(open.len() as int) == open {
        let rest = s.skip(open.len() as int);
        let j = index_of(rest, '<');
        if 0 <= j && j + close.len() <= rest.len() && rest.subrange(j, j + close.len()) == close {
            open.len() + j + close.len()
        } else {
            0
        }
    } else {
        0
    }
}

/// The length of a tag `<[^>]*>` at the start of `s`, or 0.
pub open spec fn tag_len(s: Seq<char>) -> int {
    let k = index_of(s, '>');
    if s.len() > 0 && s[0] == '<' && 0 < k < s.len() {
        k + 1
    } else {
        0
    }
}

/// The length of the run of text `[^<>]+` at the start of `s` (0 if none).
pub open spec fn text_len(s: Seq<char>) -> int
    decreases s.len(),
{
    if s.len() > 0 && s[0] != '<' && s[0] != '>' {
        1 + text_len(s.drop_first())
    } else {
        0
    }
}

/// The match of `<rt>[^<]*</rt>|<rp>[^<]*</rp>|<[^>]*>|([^<>]+)` at the
/// start of `s`, alternatives tried in order: its length (0 when none
/// matches there) and the text its group captures.
pub open spec fn match_at(s: Seq<char>) -> (int, Option<Seq<char>>) {
    if dropped_len(s, rt_open(), rt_close()) > 0 {
        (dropped_len(s, rt_open(), rt_close()), None)
    } else if dropped_len(s, rp_open(), rp_close()) > 0 {
        (dropped_len(s, rp_open(), rp_close()), None)
    } else if tag_len(s) > 0 {
        (tag_len(s), None)
    } else if text_len(s) > 0 {
        (text_len(s), Some(s.take(text_len(s))))
    } else {
        (0, None)
    }
}

/// The successive non-overlapping leftmost-first matches of that pattern
/// in `s`, each with its captured text: readings (`<rt>`), fallback
/// parentheses (`<rp>`) and tags capture nothing, a run of text captures
/// itself, and a position where nothing matches is passed over.
pub open spec fn ruby_matches(s: Seq<char>) -> Seq<Option<Seq<char>>>
    decreases s.len(),
{
    if s.len() == 0 {
        Seq::empty()
    } else {
        let m = match_at(s);
        if 0 < m.0 && m.0 <= s.len() {
            seq![m.1] + ruby_matches(s.skip(m.0))
        } else {
            ruby_matches(s.drop_first())
        }
    }
}

/// The captured texts joined end to end.
pub open spec fn texts_of(ms: Seq<Option<Seq<char>>>) -> Seq<char>
    decreases ms.len(),
{
    if ms.len() == 0 {
        Seq::empty()
    } else {
        match ms.last() {
            Some(t) => texts_of(ms.drop_last()) + t,
            None => texts_of(ms.drop_last()),
        }
    }
}

/// What the markup extraction yields: the base text of a field, without
/// its tags and ruby readings.
pub open spec fn extracted_text(raw: Seq<char>) -> Seq<char> {
    texts_of(ruby_matches(raw))
}

/// The plain text of a field: the extracted text, or the raw value when
/// the extraction yields nothing; trimmed either way.
pub open spec fn plain_text(raw: Seq<char>) -> Seq<char> {
    if extracted_text(raw).len() == 0 {
        trimmed(raw)
    } else {
        trimmed(extracted_text(raw))
    }
}

/// The text of an optional string.
pub open spec fn opt_view(o: Option<String>) -> Option<Seq<char>> {
    match o {
        Some(s) => Some(s@),
        None => None,
    }
}

/// Whether a field value names the expression: its trimmed plain text, or
/// its trimmed raw value, equals the trimmed expression.
pub open spec fn text_matches(raw: Seq<char>, expression: Seq<char>) -> bool {
    trimmed(plain_text(raw)) == trimmed(expression) || trimmed(raw) == trimmed(expression)
}

/// Relies on `regex::Regex::new` and `Regex::captures_iter`: for the
/// pattern `<rt>[^<]*</rt>|<rp>[^<]*</rp>|<[^>]*>|([^<>]+)`, each successive
/// non-overlapping leftmost-first match, in order, with its first group
/// when that group takes part.
#[verifier::external_body]
fn ruby_text_matches(pattern: &str, html: &str) -> (r: Vec<Option<String>>)
    requires
        pattern@ == "<rt>[^<]*</rt>|<rp>[^<]*</rp>|<[^>]*>|([^<>]+)"@,
    ensures
        r@.len() == ruby_matches(html@).len(),
        forall|i: int| 0 <= i < r@.len() ==> opt_view(#[trigger] r@[i]) == ruby_matches(html@)[i],
{
    let re = regex::Regex::new(pattern).unwrap();
    re.captures_iter(html).map(|c| c.get(1).map(|m| m.as_str().to_string())).collect()
}

/// The base text of a ruby-marked field: its text outside tags, in
/// document order, without the readings.
pub fn extract_ruby_text(html: &str) -> (r: String)
    ensures
        r@ == extracted_text(html@),
{
    let ms = ruby_text_matches("<rt>[^<]*</rt>|<rp>[^<]*</rp>|<[^>]*>|([^<>]+)", html);
    let ghost spec_ms = ruby_matches(html@);
    let mut out = String::new();
    let mut i: usize = 0;
    while i < ms.len()
        invariant
            i <= ms@.len(),
            ms@.len() == spec_ms.len(),
            spec_ms == ruby_matches(html@),
            forall|k: int| 0 <= k < ms@.len() ==> opt_view(#[trigger] ms@[k]) == spec_ms[k],
            out@ == texts_of(spec_ms.take(i as int)),
        decreases ms@.len() - i,
    {
        proof {
            assert(spec_ms.take(i as int + 1).drop_last() =~= spec_ms.take(i as int));
            assert(spec_ms.take(i as int + 1).last() == spec_ms[i as int]);
            assert(opt_view(ms@[i as int]) == spec_ms[i as int]);
        }
        if let Some(t) = &ms[i] {
            out.append(t.as_str());
        }
        i = i + 1;
    }
    proof {
        assert(spec_ms.take(i as int) =~= spec_ms);
    }
    out
}

/// The plain text of a field value: the extracted text, or the raw value
/// when there is none; trimmed either way.
pub fn plain_text_of(raw: &str) -> (r: String)
    ensures
        r@ == plain_text(raw@),
{
    let extracted = extract_ruby_text(raw);
    if extracted.as_str().is_empty() {
        trim_str(raw).to_string()
    } else {
        trim_str(extracted.as_str()).to_string()
    }
}

/// Whether the field value `raw` of a note names `expression`.
pub fn field_matches_expression(raw: &str, expression: &str) -> (r: bool)
    ensures
        r == text_matches(raw@, expression@),
{
    let plain = plain_text_of(raw);
    let expected = trim_str(expression);
    let plain_trimmed = trim_str(plain.as_str());
    let raw_trimmed = trim_str(raw);
    let a = plain_trimmed.to_string();
    let b = raw_trimmed.to_string();
    let e = expected.to_string();
    a == e || b == e
}

/// A run of text is no longer than the text, and covers all of a text
/// without markup characters.
pub proof fn lemma_text_len(s: Seq<char>)
    ensures
        0 <= text_len(s) <= s.len(),
        (forall|i: int| 0 <= i < s.len() ==> #[trigger] s[i] != '<' && s[i] != '>') ==> text_len(s)
            == s.len(),
    decreases s.len(),
{
    if s.len() > 0 {
        if forall|i: int| 0 <= i < s.len() ==> #[trigger] s[i] != '<' && s[i] != '>' {
            assert forall|i: int| 0 <= i < s.drop_first().len() implies #[trigger] s.drop_first()[i]
                != '<' && s.drop_first()[i] != '>' by {
                assert(s.drop_first()[i] == s[i + 1]);
            }
            assert(s[0] != '<' && s[0] != '>');
        }
        lemma_text_len(s.drop_first());
    }
}

/// Every match lies within the text.
pub proof fn lemma_match_in_range(s: Seq<char>)
    ensures
        0 <= match_at(s).0 <= s.len(),
{
    lemma_text_len(s);
}

/// Text without markup characters extracts to itself.
pub proof fn lemma_markup_free_extracts_itself(s: Seq<char>)
    requires
        !s.contains('<'),
        !s.contains('>'),
    ensures
        extracted_text(s) == s,
{
    if s.len() > 0 {
        assert forall|i: int| 0 <= i < s.len() implies #[trigger] s[i] != '<' && s[i] != '>' by {
            assert(s.contains(s[i]));
        }
        lemma_text_len(s);
        if s.len() >= 4 {
            assert(s.take(4)[0] == s[0]);
        }
        if s.len() >= 5 {
            assert(s.take(5)[0] == s[0]);
        }
        assert(rt_open()[0] == '<' && rp_open()[0] == '<');
        assert(dropped_len(s, rt_open(), rt_close()) == 0);
        assert(dropped_len(s, rp_open(), rp_close()) == 0);
        assert(tag_len(s) == 0);
        assert(s.take(s.len() as int) =~= s);
        assert(s.skip(s.len() as int) =~= Seq::<char>::empty());
        let ms = ruby_matches(s);
        assert(match_at(s) == (s.len() as int, Some(s)));
        assert(ruby_matches(s.skip(s.len() as int)) =~= Seq::<Option<Seq<char>>>::empty());
        assert(ms =~= seq![Some(s)]);
        assert(ms.drop_last() =~= Seq::<Option<Seq<char>>>::empty());
        assert(ms.last() == Some(s));
        assert(texts_of(ms.drop_last()) =~= Seq::<char>::empty());
        assert(Seq::<char>::empty() + s =~= s);
        assert(texts_of(ms) == texts_of(ms.drop_last()) + s);
    } else {
        assert(s =~= Seq::<char>::empty());
    }
}

/// Extraction on text without markup gives the text itself, trimmed, and
/// extracting again from that result changes nothing.
pub proof fn lemma_plain_text_idempotent_without_markup(s: Seq<char>)
    requires
        !s.contains('>'),
        !s.contains('<'),
    ensures
        plain_text(s) == trimmed(s),
        plain_text(plain_text(s)) == plain_text(s),
{
    lemma_markup_free_extracts_itself(s);
    let (a, b) = lemma_trimmed_bounds(s);
    let t = trimmed(s);
    assert forall|c: char| t.contains(c) implies s.contains(c) by {
        let k = choose|k: int| 0 <= k < t.len() && t[k] == c;
        assert(s[a + k] == c);
    }
    lemma_markup_free_extracts_itself(t);
    lemma_trimmed_idempotent(s);
}

/// A note resolves to an expression exactly when the trimmed plain text of
/// its field equals the trimmed expression, the plain text being the raw
/// value when the extraction yields nothing. Left out: fields whose raw
/// value equals the expression although their markup yields other text.
pub proof fn lemma_match_iff_plain_text_equal(raw: Seq<char>, expression: Seq<char>)
    requires
        extracted_text(raw).len() > 0 && trimmed(raw) == trimmed(expression)
            ==> trimmed(extracted_text(raw)) == trimmed(expression),
    ensures
        text_matches(raw, expression) <==> trimmed(plain_text(raw)) == trimmed(expression),
{
    lemma_trimmed_idempotent(raw);
    lemma_trimmed_idempotent(extracted_text(raw));
}

} // verus!
