//! What confirming the search box asks for.
use vstd::prelude::*;
use crate::model::Expression;
use crate::text::{push_char, string_views, trim_str, trimmed};
use vstd::string::StrSliceExecFns;

verus! {

/// Numbers above this are note ids rather than positions in the list.
pub const NOTE_ID_THRESHOLD: usize = 10000;

/// What a confirmed query asks for.
#[derive(Clone, Debug)]
pub enum QueryAction {
    /// Nothing: the query is empty, or names a position past the list.
    Ignore,
    /// Tie the selected pending sentence to this note id.
    SetNoteId(u128),
    /// Select the expression at this position.
    SelectExpression(usize),
    /// Add a new expression with this word and select it.
    AddExpression(String),
}

/// What `str::to_lowercase` gives for a text.
pub uninterp spec fn lower_of(s: Seq<char>) -> Seq<char>;

/// Relies on `str::to_lowercase`: the result depends on the text alone and
/// is empty for an empty text.
#[verifier::external_body]
fn lowercase(s: &str) -> (r: String)
    ensures
        r@ == lower_of(s@),
        s@.len() == 0 ==> r@.len() == 0,
{
    s.to_lowercase()
}

/// The value of a run of decimal digits.
pub open spec fn digits_value(s: Seq<char>) -> int
    decreases s.len(),
{
    if s.len() == 0 {
        0
    } else {
        digits_value(s.drop_last()) * 10 + (s.last() as u32 - 48)
    }
}

/// Whether `s` is one or more decimal digits.
pub open spec fn all_digits(s: Seq<char>) -> bool {
    s.len() > 0 && forall|i: int| 0 <= i < s.len() ==> '0' <= #[trigger] s[i] <= '9'
}

/// The number that `s` writes in decimal, with an optional `+` in front, if
/// it fits a `usize`.
pub open spec fn parsed_usize(s: Seq<char>) -> Option<usize> {
    let digits = if s.len() > 0 && s[0] == '+' {
        s.drop_first()
    } else {
        s
    };
    if all_digits(digits) && digits_value(digits) <= usize::MAX {
        Some(digits_value(digits) as usize)
    } else {
        None
    }
}

/// A run of digits is worth at least any of its prefixes.
pub proof fn lemma_digits_value_grows(s: Seq<char>, k: int)
    requires
        0 <= k <= s.len(),
        forall|i: int| 0 <= i < s.len() ==> '0' <= #[trigger] s[i] <= '9',
    ensures
        0 <= digits_value(s.take(k)) <= digits_value(s),
    decreases s.len(),
{
    if k == s.len() {
        assert(s.take(k) =~= s);
        if s.len() > 0 {
            lemma_digits_value_grows(s.drop_last(), k - 1);
        }
    } else {
        let p = s.drop_last();
        assert forall|i: int| 0 <= i < p.len() implies '0' <= #[trigger] p[i] <= '9' by {
            assert(p[i] == s[i]);
        }
        lemma_digits_value_grows(p, k);
        assert(p.take(k) =~= s.take(k));
        assert(s[s.len() - 1] == s.last());
    }
}

/// The number that `s` writes in decimal, with an optional `+` in front,
/// when it fits a `usize`; `None` otherwise.
pub fn parse_usize(s: &str) -> (r: Option<usize>)
    ensures
        r == parsed_usize(s@),
{
    let n = s.unicode_len();
    if n == 0 {
        return None;
    }
    let start: usize = if s.get_char(0) == '+' {
        1
    } else {
        0
    };
    let ghost digits = if s@.len() > 0 && s@[0] == '+' {
        s@.drop_first()
    } else {
        s@
    };
    assert(digits =~= s@.skip(start as int));
    if start == n {
        return None;
    }
    let mut value: usize = 0;
    let mut i: usize = start;
    assert(digits.take(0) =~= Seq::<char>::empty());
    while i < n
        invariant
            start <= i <= n,
            start < n,
            n == s@.len(),
            digits == s@.skip(start as int),
            digits == (if s@.len() > 0 && s@[0] == '+' {
                s@.drop_first()
            } else {
                s@
            }),
            value == digits_value(digits.take(i - start)),
            forall|j: int| 0 <= j < i - start ==> '0' <= #[trigger] digits[j] <= '9',
        decreases n - i,
    {
        let c = s.get_char(i);
        let k = i - start;
        assert(digits[k as int] == c);
        let u = c as u32;
        if u < 48 || u > 57 {
            assert(!all_digits(digits));
            assert(parsed_usize(s@) is None);
            return None;
        }
        let d = (u - 48) as usize;
        let ghost pre = digits.take(k as int);
        let ghost post = digits.take(k as int + 1);
        assert(post.drop_last() =~= pre);
        assert(post.last() == c);
        assert(digits_value(post) == value * 10 + d);
        if value > (usize::MAX - d) / 10 {
            proof {
                let m = usize::MAX as int;
                assert(value * 10 + d > m) by (nonlinear_arith)
                    requires
                        value > (m - d) / 10,
                        0 <= d <= 9,
                        m >= 9,
                ;
                if all_digits(digits) {
                    lemma_digits_value_grows(digits, k as int + 1);
                    assert(digits_value(digits) > m);
                }
                assert(parsed_usize(s@) is None);
            }
            return None;
        }
        proof {
            let m = usize::MAX as int;
            assert(value * 10 + d <= m) by (nonlinear_arith)
                requires
                    value <= (m - d) / 10,
                    0 <= d <= 9,
                    m >= 9,
            ;
        }
        value = value * 10 + d;
        i = i + 1;
    }
    assert(digits.take(n - start) =~= digits);
    Some(value)
}

/// `s` without its line feeds.
pub open spec fn without_line_feeds(s: Seq<char>) -> Seq<char>
    decreases s.len(),
{
    if s.len() == 0 {
        s
    } else if s.last() == '\n' {
        without_line_feeds(s.drop_last())
    } else {
        without_line_feeds(s.drop_last()).push(s.last())
    }
}

/// A text without its line feeds.
pub fn remove_line_feeds(s: &str) -> (r: String)
    ensures
        r@ == without_line_feeds(s@),
{
    let n = s.unicode_len();
    let mut out = String::new();
    let mut i: usize = 0;
    assert(s@.take(0) =~= Seq::<char>::empty());
    while i < n
        invariant
            n == s@.len(),
            i <= n,
            out@ == without_line_feeds(s@.take(i as int)),
        decreases n - i,
    {
        let c = s.get_char(i);
        assert(s@.take(i as int + 1).drop_last() =~= s@.take(i as int));
        assert(s@.take(i as int + 1).last() == c);
        if c != '\n' {
            push_char(&mut out, c);
        }
        i = i + 1;
    }
    assert(s@.take(n as int) =~= s@);
    out
}

/// How the search box compares a query: trimmed and lower-cased.
pub open spec fn normalized_query(text: Seq<char>) -> Seq<char> {
    lower_of(trimmed(text))
}

/// How an expression word is compared with a query: trimmed, lower-cased
/// and without line feeds.
pub open spec fn normalized_word(word: Seq<char>) -> Seq<char> {
    without_line_feeds(lower_of(trimmed(word)))
}

/// The position of the first word equal to `q`.
pub open spec fn first_equal(words: Seq<Seq<char>>, q: Seq<char>) -> Option<int>
    decreases words.len(),
{
    if words.len() == 0 {
        None
    } else if first_equal(words.drop_last(), q) is Some {
        first_equal(words.drop_last(), q)
    } else if words.last() == q {
        Some(words.len() - 1)
    } else {
        None
    }
}

/// The action for the normalized query `query`, its number `parsed` when
/// it is one, and the normalized words of the list.
pub open spec fn query_action_is(
    r: QueryAction,
    query: Seq<char>,
    parsed: Option<usize>,
    words: Seq<Seq<char>>,
) -> bool {
    if query.len() == 0 {
        r is Ignore
    } else {
        match parsed {
            Some(n) => if n > NOTE_ID_THRESHOLD {
                r == QueryAction::SetNoteId(n as u128)
            } else if n < words.len() {
                r == QueryAction::SelectExpression(n)
            } else {
                r is Ignore
            },
            None => match first_equal(words, query) {
                Some(i) => r == QueryAction::SelectExpression(i as usize),
                None => r matches QueryAction::AddExpression(w) && w@ == query,
            },
        }
    }
}

/// The action for a normalized query, given its number when it is one and
/// the normalized words of the expression list.
pub fn classify_query(query: &str, parsed: Option<usize>, words: &Vec<String>) -> (r: QueryAction)
    ensures
        query_action_is(r, query@, parsed, string_views(words@)),
{
    if query.is_empty() {
        return QueryAction::Ignore;
    }
    match parsed {
        Some(n) => {
            if n > NOTE_ID_THRESHOLD {
                QueryAction::SetNoteId(n as u128)
            } else if n < words.len() {
                QueryAction::SelectExpression(n)
            } else {
                QueryAction::Ignore
            }
        },
        None => {
            let ghost w = string_views(words@);
            let wanted = query.to_string();
            let mut i: usize = 0;
            assert(w.take(0) =~= Seq::<Seq<char>>::empty());
            while i < words.len()
                invariant
                    i <= words@.len(),
                    w == string_views(words@),
                    wanted@ == query@,
                    query@.len() > 0,
                    parsed is None,
                    first_equal(w.take(i as int), query@) is None,
                decreases words@.len() - i,
            {
                assert(w.take(i as int + 1).drop_last() =~= w.take(i as int));
                assert(w.take(i as int + 1).last() == words@[i as int]@);
                if words[i] == wanted {
                    proof {
                        assert(first_equal(w.take(i as int + 1), query@) == Some(i as int));
                        lemma_first_equal_extends(w, query@, i as int + 1);
                    }
                    return QueryAction::SelectExpression(i);
                }
                i = i + 1;
            }
            assert(w.take(words@.len() as int) =~= w);
            QueryAction::AddExpression(wanted)
        },
    }
}

/// The first equal word of a prefix is the first equal word of the whole.
pub proof fn lemma_first_equal_extends(words: Seq<Seq<char>>, q: Seq<char>, k: int)
    requires
        0 <= k <= words.len(),
        first_equal(words.take(k), q) is Some,
    ensures
        first_equal(words, q) == first_equal(words.take(k), q),
    decreases words.len() - k,
{
    if k < words.len() {
        assert(words.take(k + 1).drop_last() =~= words.take(k));
        lemma_first_equal_extends(words, q, k + 1);
    } else {
        assert(words.take(k) =~= words);
    }
}

/// What confirming the search box with `text` asks for, against the
/// expression list `expressions`.
pub fn confirm_query(text: &str, expressions: &Vec<Expression>) -> (r: QueryAction)
    ensures
        ({
            let q = normalized_query(text@);
            let words = expressions@.map_values(|e: Expression| normalized_word(e.dict_word@));
            query_action_is(r, q, parsed_usize(q), words)
        }),
{
    let query = lowercase(trim_str(text));
    let parsed = parse_usize(query.as_str());
    let mut words: Vec<String> = Vec::new();
    let mut i: usize = 0;
    while i < expressions.len()
        invariant
            i <= expressions@.len(),
            words@.len() == i,
            forall|k: int|
                0 <= k < i ==> (#[trigger] words@[k])@ == normalized_word(expressions@[k].dict_word@),
        decreases expressions@.len() - i,
    {
        let lowered = lowercase(trim_str(expressions[i].dict_word.as_str()));
        words.push(remove_line_feeds(lowered.as_str()));
        i = i + 1;
    }
    let ghost expected = expressions@.map_values(|e: Expression| normalized_word(e.dict_word@));
    assert(string_views(words@) =~= expected);
    classify_query(query.as_str(), parsed, &words)
}

} // verus!
