//! The pending list: sentences chosen for the next batch, at most one per
//! expression.
use vstd::prelude::*;
use crate::model::Sentence;
use crate::selection::{wrap_next, wrap_prev};

verus! {

/// The sentences waiting for the next batch, and the selected one.
#[derive(Clone, Debug)]
pub struct NotesToBeCreated {
    pub sentences: Vec<Sentence>,
    pub selected: Option<usize>,
}

/// The expression word of a sentence.
pub open spec fn word_of(s: Sentence) -> Seq<char> {
    s.parent_expression.dict_word@
}

/// Whether some pending sentence belongs to the expression `word`.
pub open spec fn has_word(s: Seq<Sentence>, word: Seq<char>) -> bool {
    exists|i: int| 0 <= i < s.len() && word_of(#[trigger] s[i]) == word
}

impl NotesToBeCreated {
    /// No two pending sentences belong to the same expression.
    pub open spec fn wf(&self) -> bool {
        forall|i: int, j: int|
            0 <= i < j < self.sentences@.len() ==> word_of(#[trigger] self.sentences@[i]) != word_of(
                #[trigger] self.sentences@[j],
            )
    }

    /// An empty pending list with nothing selected.
    pub fn new() -> (r: Self)
        ensures
            r.wf(),
            r.sentences@.len() == 0,
            r.selected is None,
    {
        NotesToBeCreated { sentences: Vec::new(), selected: None }
    }

    /// Queues `sentence`: it takes the place of the pending sentence of the
    /// same expression, or joins the end of the list when there is none.
    pub fn check_notes_or_push(&mut self, sentence: Sentence)
        requires
            old(self).wf(),
        ensures
            final(self).wf(),
            final(self).selected == old(self).selected,
            has_word(old(self).sentences@, word_of(sentence)) ==> exists|i: int|
                0 <= i < old(self).sentences@.len() && word_of(old(self).sentences@[i]) == word_of(
                    sentence,
                ) && final(self).sentences@ == old(self).sentences@.update(i, sentence),
            !has_word(old(self).sentences@, word_of(sentence)) ==> final(self).sentences@ == old(
                self,
            ).sentences@.push(sentence),
    {
        let ghost s0 = self.sentences@;
        let mut i: usize = 0;
        while i < self.sentences.len()
            invariant
                self.sentences@ == s0,
                old(self).sentences@ == s0,
                self.selected == old(self).selected,
                old(self).wf(),
                i <= s0.len(),
                forall|k: int| 0 <= k < i ==> word_of(#[trigger] s0[k]) != word_of(sentence),
            decreases s0.len() - i,
        {
            if self.sentences[i].parent_expression.dict_word == sentence.parent_expression.dict_word {
                self.sentences.set(i, sentence);
                proof {
                    assert forall|a: int, b: int|
                        0 <= a < b < self.sentences@.len() implies word_of(
                            #[trigger] self.sentences@[a],
                        ) != word_of(#[trigger] self.sentences@[b]) by {
                        if a != i as int && b != i as int {
                            assert(self.sentences@[a] == s0[a] && self.sentences@[b] == s0[b]);
                        } else if a == i as int {
                            assert(self.sentences@[b] == s0[b]);
                        } else {
                            assert(self.sentences@[a] == s0[a]);
                        }
                    }
                }
                return;
            }
            i = i + 1;
        }
        self.sentences.push(sentence);
        proof {
            assert forall|a: int, b: int|
                0 <= a < b < self.sentences@.len() implies word_of(#[trigger] self.sentences@[a])
                != word_of(#[trigger] self.sentences@[b]) by {
                if b < s0.len() {
                    assert(self.sentences@[a] == s0[a] && self.sentences@[b] == s0[b]);
                } else {
                    assert(self.sentences@[a] == s0[a]);
                }
            }
        }
    }

    /// Removes the selected pending sentence (the first when none is
    /// selected) and selects the one before it. Returns whether the list is
    /// empty afterwards.
    pub fn delete_note(&mut self) -> (r: bool)
        requires
            old(self).wf(),
        ensures
            final(self).wf(),
            r == (final(self).sentences@.len() == 0),
            ({
                let i = match old(self).selected {
                    Some(k) => k as int,
                    None => 0,
                };
                if 0 <= i < old(self).sentences@.len() {
                    &&& final(self).sentences@ == old(self).sentences@.remove(i)
                    &&& final(self).selected == (if i > 0 && final(self).sentences@.len() > 0 {
                        Some((i - 1) as usize)
                    } else {
                        old(self).selected
                    })
                } else {
                    final(self).sentences@ == old(self).sentences@ && final(self).selected == old(
                        self,
                    ).selected
                }
            }),
    {
        let i = match self.selected {
            Some(k) => k,
            None => 0,
        };
        if i >= self.sentences.len() {
            return self.sentences.len() == 0;
        }
        let ghost s0 = self.sentences@;
        self.sentences.remove(i);
        proof {
            assert forall|a: int, b: int|
                0 <= a < b < self.sentences@.len() implies word_of(#[trigger] self.sentences@[a])
                != word_of(#[trigger] self.sentences@[b]) by {
                let a0 = if a < i { a } else { a + 1 };
                let b0 = if b < i { b } else { b + 1 };
                assert(self.sentences@[a] == s0[a0] && self.sentences@[b] == s0[b0]);
            }
        }
        if self.sentences.len() == 0 {
            return true;
        }
        if i > 0 {
            self.selected = Some(i - 1);
        }
        false
    }

    /// Selects the pending sentence before the selected one, wrapping to
    /// the last; the first when none is selected.
    pub fn select_prev_note(&mut self)
        ensures
            final(self).sentences == old(self).sentences,
            old(self).sentences@.len() == 0 ==> final(self).selected == old(self).selected,
            old(self).sentences@.len() > 0 ==> final(self).selected == Some(
                (match old(self).selected {
                    Some(i) => if i == 0 { (old(self).sentences@.len() - 1) as usize } else { (i - 1) as usize },
                    None => 0usize,
                }),
            ),
    {
        let len = self.sentences.len();
        if len == 0 {
            return;
        }
        self.selected = Some(wrap_prev(self.selected, 0, len));
    }

    /// Selects the pending sentence after the selected one, wrapping to the
    /// first; the first when none is selected.
    pub fn select_next_note(&mut self)
        ensures
            final(self).sentences == old(self).sentences,
            old(self).sentences@.len() == 0 ==> final(self).selected == old(self).selected,
            old(self).sentences@.len() > 0 ==> final(self).selected == Some(
                (match old(self).selected {
                    Some(i) => if i >= old(self).sentences@.len() - 1 { 0usize } else { (i + 1) as usize },
                    None => 0usize,
                }),
            ),
    {
        let len = self.sentences.len();
        if len == 0 {
            return;
        }
        self.selected = Some(wrap_next(self.selected, 0, len));
    }
}

} // verus!
