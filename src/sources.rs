//! Sentences from the two sentence-search providers, once their answers
//! are decoded.
use vstd::prelude::*;
use vstd::string::StringExecFns;
use crate::model::{Expression, Sentence};
use crate::text::{concat3, contains_string, string_views};

verus! {

/// One example of the dictionary provider.
#[derive(Clone, Debug)]
pub struct IkExample {
    pub sentence: String,
    pub sound_url: String,
    pub image_url: String,
    pub deck_name: String,
}

/// One hit of the corpus provider.
#[derive(Clone, Debug)]
pub struct MassifHit {
    pub text: String,
    pub title: String,
}

/// The dictionary provider's page for a sentence.
pub open spec fn ik_link(sentence: Seq<char>) -> Seq<char> {
    "https://www.immersionkit.com/dictionary?keyword="@ + sentence
}

/// The corpus provider's page for a sentence.
pub open spec fn massif_link(text: Seq<char>) -> Seq<char> {
    "https://massif.la/ja/search?q="@ + text
}

/// The dictionary provider's query for a word.
pub fn ik_search_url(word: &str) -> (r: String)
    ensures
        r@ == "https://api.immersionkit.com/look_up_dictionary?keyword="@ + word@ + "&sort=shortness"@,
{
    concat3("https://api.immersionkit.com/look_up_dictionary?keyword=", word, "&sort=shortness")
}

/// The corpus provider's query for a word.
pub fn massif_search_url(word: &str) -> (r: String)
    ensures
        r@ == "https://massif.la/ja/search?q="@ + word@ + "&fmt=json"@,
{
    concat3("https://massif.la/ja/search?q=", word, "&fmt=json")
}

/// Whether an example's deck passes the priority list: every deck when the
/// list is empty, the listed decks otherwise.
pub open spec fn deck_allowed(ex: IkExample, priority: Seq<Seq<char>>) -> bool {
    priority.len() == 0 || priority.contains(ex.deck_name@)
}

/// The examples that pass the priority list, in order.
pub open spec fn allowed_examples(examples: Seq<IkExample>, priority: Seq<Seq<char>>) -> Seq<IkExample>
    decreases examples.len(),
{
    if examples.len() == 0 {
        examples
    } else if deck_allowed(examples.last(), priority) {
        allowed_examples(examples.drop_last(), priority).push(examples.last())
    } else {
        allowed_examples(examples.drop_last(), priority)
    }
}

/// Whether `s` is the sentence made from the example `ex` for `parent`.
pub open spec fn is_ik_sentence(s: Sentence, ex: IkExample, parent: Expression) -> bool {
    &&& s.sentence@ == ex.sentence@
    &&& s.audio_url matches Some(u) && u@ == ex.sound_url@
    &&& s.audio_data is None
    &&& ex.image_url@.len() == 0 ==> s.img_url is None
    &&& ex.image_url@.len() > 0 ==> (s.img_url matches Some(u) && u@ == ex.image_url@)
    &&& s.media_title@ == ex.deck_name@
    &&& s.wbst_link@ == ik_link(ex.sentence@)
    &&& s.parent_expression.dict_word == parent.dict_word
    &&& s.parent_expression.note_id == parent.note_id
    &&& s.note_id is None
}

/// Whether `s` is the sentence made from the hit `hit` for `parent`.
pub open spec fn is_massif_sentence(s: Sentence, hit: MassifHit, parent: Expression) -> bool {
    &&& s.sentence@ == hit.text@
    &&& s.audio_url is None
    &&& s.audio_data is None
    &&& s.img_url is None
    &&& s.media_title@ == hit.title@
    &&& s.wbst_link@ == massif_link(hit.text@)
    &&& s.parent_expression.dict_word == parent.dict_word
    &&& s.parent_expression.note_id == parent.note_id
    &&& s.note_id is None
}

/// Sentences for `parent` from the dictionary provider's examples, keeping
/// the decks of the priority list (all of them when it is empty).
pub fn sentences_from_ik_examples(
    examples: &Vec<IkExample>,
    priority: &Vec<String>,
    parent: &Expression,
) -> (r: Vec<Sentence>)
    ensures
        r@.len() == allowed_examples(examples@, string_views(priority@)).len(),
        forall|i: int|
            0 <= i < r@.len() ==> is_ik_sentence(
                #[trigger] r@[i],
                allowed_examples(examples@, string_views(priority@))[i],
                *parent,
            ),
{
    let ghost p = string_views(priority@);
    let mut out: Vec<Sentence> = Vec::new();
    let mut i: usize = 0;
    assert(examples@.take(0) =~= Seq::<IkExample>::empty());
    while i < examples.len()
        invariant
            i <= examples@.len(),
            p == string_views(priority@),
            out@.len() == allowed_examples(examples@.take(i as int), p).len(),
            forall|k: int|
                0 <= k < out@.len() ==> is_ik_sentence(
                    #[trigger] out@[k],
                    allowed_examples(examples@.take(i as int), p)[k],
                    *parent,
                ),
        decreases examples@.len() - i,
    {
        let ghost pre = examples@.take(i as int);
        let ghost post = examples@.take(i as int + 1);
        assert(post.drop_last() =~= pre);
        assert(post.last() == examples@[i as int]);
        let ex = &examples[i];
        if priority.len() == 0 || contains_string(priority, ex.deck_name.as_str()) {
            let image = if ex.image_url.as_str().is_empty() {
                None
            } else {
                Some(ex.image_url.clone())
            };
            let mut link = "https://www.immersionkit.com/dictionary?keyword=".to_string();
            link.append(ex.sentence.as_str());
            let s = Sentence::from(
                ex.sentence.as_str(),
                Some(ex.sound_url.clone()),
                None,
                image,
                ex.deck_name.as_str(),
                link.as_str(),
                parent,
            );
            out.push(s);
        }
        i = i + 1;
    }
    assert(examples@.take(examples@.len() as int) =~= examples@);
    out
}

/// Sentences for `parent` from the corpus provider's hits, in order.
pub fn sentences_from_massif_hits(hits: &Vec<MassifHit>, parent: &Expression) -> (r: Vec<Sentence>)
    ensures
        r@.len() == hits@.len(),
        forall|i: int| 0 <= i < r@.len() ==> is_massif_sentence(#[trigger] r@[i], hits@[i], *parent),
{
    let mut out: Vec<Sentence> = Vec::new();
    let mut i: usize = 0;
    while i < hits.len()
        invariant
            i <= hits@.len(),
            out@.len() == i,
            forall|k: int| 0 <= k < i ==> is_massif_sentence(#[trigger] out@[k], hits@[k], *parent),
        decreases hits@.len() - i,
    {
        let hit = &hits[i];
        let mut link = "https://massif.la/ja/search?q=".to_string();
        link.append(hit.text.as_str());
        out.push(
            Sentence::from(hit.text.as_str(), None, None, None, hit.title.as_str(), link.as_str(), parent),
        );
        i = i + 1;
    }
    out
}

/// Records one dictionary entry on an expression: its glosses join the
/// definitions, and its reading joins the readings unless the expression
/// already has it or is written that way.
pub fn add_dictionary_entry(expression: &mut Expression, glossary: &Vec<String>, reading: &String)
    ensures
        final(expression).dict_word == old(expression).dict_word,
        final(expression).note_id == old(expression).note_id,
        final(expression).sentences == old(expression).sentences,
        string_views(final(expression).definitions@) == string_views(old(expression).definitions@)
            + string_views(glossary@),
        (string_views(old(expression).readings@).contains(reading@) || old(expression).dict_word@
            == reading@) ==> final(expression).readings@ == old(expression).readings@,
        !(string_views(old(expression).readings@).contains(reading@) || old(expression).dict_word@
            == reading@) ==> final(expression).readings@ == old(expression).readings@.push(*reading),
{
    let ghost d0 = string_views(expression.definitions@);
    let mut i: usize = 0;
    while i < glossary.len()
        invariant
            i <= glossary@.len(),
            expression.dict_word == old(expression).dict_word,
            expression.note_id == old(expression).note_id,
            expression.sentences == old(expression).sentences,
            expression.readings == old(expression).readings,
            d0 == string_views(old(expression).definitions@),
            string_views(expression.definitions@) == d0 + string_views(glossary@).take(i as int),
        decreases glossary@.len() - i,
    {
        let ghost before = string_views(expression.definitions@);
        expression.definitions.push(glossary[i].clone());
        assert(string_views(expression.definitions@) =~= before.push(glossary@[i as int]@));
        assert(string_views(glossary@).take(i as int + 1) =~= string_views(glossary@).take(i as int).push(
            glossary@[i as int]@,
        ));
        i = i + 1;
    }
    assert(string_views(glossary@).take(glossary@.len() as int) =~= string_views(glossary@));
    if !contains_string(&expression.readings, reading.as_str()) && expression.dict_word != *reading {
        expression.readings.push(reading.clone());
    }
}

} // verus!
