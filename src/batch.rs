//! One synchronisation batch: from resolved sentences to update requests,
//! and from the remote answers to the batch summary.
use vstd::prelude::*;
use crate::model::{Sentence, UserNoteFields};
use crate::payload::{build_update_request, has_cached_audio, is_update_request, MediaFile, Request};
use crate::resolve::{resolution_message, ResolutionError};
use crate::text::{contains_string, last_segment, string_views};

verus! {

/// The summary of a batch: the distinct words whose sentences resolved,
/// the `(word, message)` of each resolution failure, the number of
/// resolved items and the number of submitted items.
#[derive(Clone, Debug)]
pub struct UpdateNotesRes {
    pub dict_words_vec: Vec<String>,
    pub err_vec: Vec<(String, String)>,
    pub success_len: usize,
    pub total_len: usize,
}

/// What a batch sends and stores before any answer comes back.
#[derive(Clone, Debug)]
pub struct BatchPlan {
    pub requests: Vec<Request>,
    pub media_files: Vec<MediaFile>,
    pub summary: UpdateNotesRes,
}

/// The note id that a sentence brings with it: its own override, else its
/// expression's.
pub open spec fn known_note_id(s: Sentence) -> Option<u128> {
    if s.note_id is Some {
        s.note_id
    } else {
        s.parent_expression.note_id
    }
}

/// The note id that needs no search for a sentence: the one supplied for
/// the sentence itself, else the one its expression was resolved to.
pub fn explicit_note_id(sentence: &Sentence) -> (r: Option<u128>)
    ensures
        r == known_note_id(*sentence),
{
    match sentence.note_id {
        Some(id) => Some(id),
        None => sentence.parent_expression.note_id,
    }
}

/// Positions of the resolved items, in order.
pub open spec fn resolved_positions(res: Seq<Result<u128, ResolutionError>>) -> Seq<int>
    decreases res.len(),
{
    if res.len() == 0 {
        Seq::empty()
    } else if res.last() is Ok {
        resolved_positions(res.drop_last()).push(res.len() - 1)
    } else {
        resolved_positions(res.drop_last())
    }
}

/// Positions of the items whose resolution failed, in order.
pub open spec fn failed_positions(res: Seq<Result<u128, ResolutionError>>) -> Seq<int>
    decreases res.len(),
{
    if res.len() == 0 {
        Seq::empty()
    } else if res.last() is Err {
        failed_positions(res.drop_last()).push(res.len() - 1)
    } else {
        failed_positions(res.drop_last())
    }
}

/// Positions of the resolved items whose audio bytes are cached.
pub open spec fn cached_positions(s: Seq<Sentence>, res: Seq<Result<u128, ResolutionError>>) -> Seq<
    int,
>
    decreases res.len(),
{
    if res.len() == 0 {
        Seq::empty()
    } else if res.last() is Ok && has_cached_audio(s[res.len() - 1]) {
        cached_positions(s, res.drop_last()).push(res.len() - 1)
    } else {
        cached_positions(s, res.drop_last())
    }
}

/// The expression words of the resolved items, repeats included.
pub open spec fn resolved_words(s: Seq<Sentence>, res: Seq<Result<u128, ResolutionError>>) -> Seq<
    Seq<char>,
> {
    resolved_positions(res).map_values(|i: int| s[i].parent_expression.dict_word@)
}

/// `s` with every repeat after the first occurrence left out.
pub open spec fn distinct_seq(s: Seq<Seq<char>>) -> Seq<Seq<char>>
    decreases s.len(),
{
    if s.len() == 0 {
        s
    } else {
        let d = distinct_seq(s.drop_last());
        if d.contains(s.last()) {
            d
        } else {
            d.push(s.last())
        }
    }
}

/// The requests of a batch: one per resolved item, in order, each the
/// update of its note with its sentence.
pub open spec fn requests_of(
    requests: Seq<Request>,
    s: Seq<Sentence>,
    res: Seq<Result<u128, ResolutionError>>,
    cfg: UserNoteFields,
) -> bool {
    let rp = resolved_positions(res);
    &&& requests.len() == rp.len()
    &&& forall|k: int|
        0 <= k < rp.len() ==> is_update_request(
            #[trigger] requests[k],
            res[rp[k]]->Ok_0,
            cfg,
            s[rp[k]],
        )
}

/// The failure list of a batch: the word and message of each failed item.
pub open spec fn failures_of(
    errs: Seq<(String, String)>,
    s: Seq<Sentence>,
    res: Seq<Result<u128, ResolutionError>>,
) -> bool {
    let fp = failed_positions(res);
    &&& errs.len() == fp.len()
    &&& forall|k: int|
        0 <= k < fp.len() ==> {
            &&& (#[trigger] errs[k]).0@ == s[fp[k]].parent_expression.dict_word@
            &&& errs[k].1@ == resolution_message(res[fp[k]]->Err_0)
        }
}

/// The files of a batch: the cached audio of each resolved item that has
/// some, under the name taken from its audio URL.
pub open spec fn media_files_of(
    files: Seq<MediaFile>,
    s: Seq<Sentence>,
    res: Seq<Result<u128, ResolutionError>>,
) -> bool {
    let cp = cached_positions(s, res);
    &&& files.len() == cp.len()
    &&& forall|k: int|
        0 <= k < cp.len() ==> {
            &&& (#[trigger] files[k]).filename@ == last_segment(s[cp[k]].audio_url->Some_0@)
            &&& files[k].bytes == s[cp[k]].audio_data->Some_0
        }
}

/// Whether `p` is the plan of the batch `s` with resolutions `res`.
pub open spec fn is_batch_plan(
    p: BatchPlan,
    s: Seq<Sentence>,
    res: Seq<Result<u128, ResolutionError>>,
    cfg: UserNoteFields,
) -> bool {
    &&& requests_of(p.requests@, s, res, cfg)
    &&& media_files_of(p.media_files@, s, res)
    &&& failures_of(p.summary.err_vec@, s, res)
    &&& string_views(p.summary.dict_words_vec@) == distinct_seq(resolved_words(s, res))
    &&& p.summary.success_len == resolved_positions(res).len()
    &&& p.summary.total_len == s.len()
}

/// Every item either resolved or failed.
pub proof fn lemma_positions_partition(res: Seq<Result<u128, ResolutionError>>)
    ensures
        resolved_positions(res).len() + failed_positions(res).len() == res.len(),
    decreases res.len(),
{
    if res.len() > 0 {
        lemma_positions_partition(res.drop_last());
    }
}

/// Positions lie within the batch.
pub proof fn lemma_positions_in_range(s: Seq<Sentence>, res: Seq<Result<u128, ResolutionError>>)
    ensures
        forall|k: int|
            0 <= k < resolved_positions(res).len() ==> 0 <= #[trigger] resolved_positions(res)[k]
                < res.len(),
        forall|k: int|
            0 <= k < failed_positions(res).len() ==> 0 <= #[trigger] failed_positions(res)[k]
                < res.len(),
        forall|k: int|
            0 <= k < cached_positions(s, res).len() ==> 0 <= #[trigger] cached_positions(s, res)[k]
                < res.len(),
    decreases res.len(),
{
    if res.len() > 0 {
        let p = res.drop_last();
        lemma_positions_in_range(s, p);
        assert forall|k: int| 0 <= k < resolved_positions(res).len() implies 0
            <= #[trigger] resolved_positions(res)[k] < res.len() by {
            if k < resolved_positions(p).len() {
                assert(resolved_positions(res)[k] == resolved_positions(p)[k]);
            }
        }
        assert forall|k: int| 0 <= k < failed_positions(res).len() implies 0
            <= #[trigger] failed_positions(res)[k] < res.len() by {
            if k < failed_positions(p).len() {
                assert(failed_positions(res)[k] == failed_positions(p)[k]);
            }
        }
        assert forall|k: int| 0 <= k < cached_positions(s, res).len() implies 0
            <= #[trigger] cached_positions(s, res)[k] < res.len() by {
            if k < cached_positions(s, p).len() {
                assert(cached_positions(s, res)[k] == cached_positions(s, p)[k]);
            }
        }
    }
}

/// Builds the requests of a batch from its sentences and their resolutions
/// (`resolutions[i]` for `sentences[i]`), and summarises the resolution.
pub fn plan_batch(
    sentences: Vec<Sentence>,
    resolutions: Vec<Result<u128, ResolutionError>>,
    anki_fields: &UserNoteFields,
) -> (r: BatchPlan)
    requires
        sentences@.len() == resolutions@.len(),
    ensures
        is_batch_plan(r, sentences@, resolutions@, *anki_fields),
{
    let ghost s0 = sentences@;
    let ghost r0 = resolutions@;
    let n = sentences.len();
    let mut sentences = sentences;
    let mut resolutions = resolutions;
    let mut requests: Vec<Request> = Vec::new();
    let mut media_files: Vec<MediaFile> = Vec::new();
    let mut words: Vec<String> = Vec::new();
    let mut errs: Vec<(String, String)> = Vec::new();
    let mut resolved: usize = 0;
    let mut i: usize = 0;
    proof {
        assert(s0.skip(0) =~= s0);
        assert(r0.skip(0) =~= r0);
        assert(r0.take(0) =~= Seq::<Result<u128, ResolutionError>>::empty());
        assert(string_views(words@) =~= Seq::<Seq<char>>::empty());
    }
    while i < n
        invariant
            n == s0.len(),
            s0.len() == r0.len(),
            i <= n,
            sentences@ == s0.skip(i as int),
            resolutions@ == r0.skip(i as int),
            requests_of(requests@, s0, r0.take(i as int), *anki_fields),
            media_files_of(media_files@, s0, r0.take(i as int)),
            failures_of(errs@, s0, r0.take(i as int)),
            string_views(words@) == distinct_seq(resolved_words(s0, r0.take(i as int))),
            resolved == resolved_positions(r0.take(i as int)).len(),
            resolved <= i,
        decreases n - i,
    {
        let ghost pre = r0.take(i as int);
        let ghost post = r0.take(i as int + 1);
        let ghost old_words = words@;
        let ghost old_requests = requests@;
        let ghost old_files = media_files@;
        let ghost old_errs = errs@;
        assert(sentences@[0] == s0[i as int]);
        assert(resolutions@[0] == r0[i as int]);
        let sentence = sentences.remove(0);
        let resolution = resolutions.remove(0);
        proof {
            lemma_positions_in_range(s0, pre);
            assert(post.drop_last() =~= pre);
            assert(post.last() == r0[i as int]);
            assert(sentences@ =~= s0.skip(i as int + 1));
            assert(resolutions@ =~= r0.skip(i as int + 1));
        }
        match resolution {
            Ok(id) => {
                let word = sentence.parent_expression.dict_word.clone();
                let (request, file) = build_update_request(id, anki_fields, sentence);
                requests.push(request);
                if let Some(f) = file {
                    media_files.push(f);
                }
                let seen = contains_string(&words, word.as_str());
                if !seen {
                    words.push(word);
                }
                resolved = resolved + 1;
                proof {
                    let rp = resolved_positions(pre);
                    assert(resolved_positions(post) == rp.push(i as int));
                    assert(requests@ == old_requests.push(request));
                    assert forall|k: int| 0 <= k < resolved_positions(post).len() implies is_update_request(
                        #[trigger] requests@[k],
                        post[resolved_positions(post)[k]]->Ok_0,
                        *anki_fields,
                        s0[resolved_positions(post)[k]],
                    ) by {
                        if k < rp.len() {
                            assert(requests@[k] == old_requests[k]);
                            assert(post[rp[k]] == pre[rp[k]]);
                        }
                    }
                    let f = |j: int| s0[j].parent_expression.dict_word@;
                    assert(resolved_positions(post).map_values(f) =~= rp.map_values(f).push(
                        word@,
                    ));
                    let w = rp.map_values(f).push(word@);
                    assert(w.drop_last() =~= rp.map_values(f));
                    if seen {
                        assert(words@ == old_words);
                    } else {
                        assert(string_views(words@) =~= string_views(old_words).push(word@));
                    }
                    if has_cached_audio(s0[i as int]) {
                        assert(cached_positions(s0, post) == cached_positions(s0, pre).push(
                            i as int,
                        ));
                    } else {
                        assert(cached_positions(s0, post) == cached_positions(s0, pre));
                    }
                    assert(failed_positions(post) == failed_positions(pre));
                }
            },
            Err(e) => {
                let msg = e.message();
                errs.push((sentence.parent_expression.dict_word, msg));
                proof {
                    assert(resolved_positions(post) == resolved_positions(pre));
                    assert(resolved_words(s0, post) == resolved_words(s0, pre));
                    assert(cached_positions(s0, post) == cached_positions(s0, pre));
                    let fp = failed_positions(pre);
                    assert(failed_positions(post) == fp.push(i as int));
                    assert forall|k: int| 0 <= k < failed_positions(post).len() implies {
                        &&& (#[trigger] errs@[k]).0@ == s0[failed_positions(
                            post,
                        )[k]].parent_expression.dict_word@
                        &&& errs@[k].1@ == resolution_message(post[failed_positions(post)[k]]->Err_0)
                    } by {
                        if k < fp.len() {
                            assert(errs@[k] == old_errs[k]);
                            assert(post[fp[k]] == pre[fp[k]]);
                        }
                    }
                }
            },
        }
        i = i + 1;
    }
    proof {
        assert(r0.take(n as int) =~= r0);
    }
    BatchPlan {
        requests,
        media_files,
        summary: UpdateNotesRes {
            dict_words_vec: words,
            err_vec: errs,
            success_len: resolved,
            total_len: n,
        },
    }
}

/// Every submitted item is counted once: as resolved, or as a failure.
pub proof fn lemma_batch_counts(
    p: BatchPlan,
    s: Seq<Sentence>,
    res: Seq<Result<u128, ResolutionError>>,
    cfg: UserNoteFields,
)
    requires
        s.len() == res.len(),
        is_batch_plan(p, s, res, cfg),
    ensures
        p.summary.total_len == p.summary.success_len + p.summary.err_vec@.len(),
        p.requests@.len() == p.summary.success_len,
{
    lemma_positions_partition(res);
}

/// The word list holds each word once, and exactly the words it was made of.
pub proof fn lemma_distinct_seq(s: Seq<Seq<char>>)
    ensures
        distinct_seq(s).no_duplicates(),
        forall|x: Seq<char>| distinct_seq(s).contains(x) <==> s.contains(x),
    decreases s.len(),
{
    if s.len() > 0 {
        let p = s.drop_last();
        lemma_distinct_seq(p);
        assert forall|x: Seq<char>| s.contains(x) <==> (p.contains(x) || x == s.last()) by {
            if s.contains(x) {
                let j = choose|j: int| 0 <= j < s.len() && s[j] == x;
                if j < s.len() - 1 {
                    assert(p[j] == x);
                }
            }
            if p.contains(x) {
                let j = choose|j: int| 0 <= j < p.len() && p[j] == x;
                assert(s[j] == x);
            }
            if x == s.last() {
                assert(s[s.len() - 1] == x);
            }
        }
        let d = distinct_seq(p);
        if !d.contains(s.last()) {
            let e = d.push(s.last());
            assert forall|x: Seq<char>| e.contains(x) <==> (d.contains(x) || x == s.last()) by {
                if e.contains(x) {
                    let j = choose|j: int| 0 <= j < e.len() && e[j] == x;
                    if j < d.len() {
                        assert(d[j] == x);
                    }
                }
                if d.contains(x) {
                    let j = choose|j: int| 0 <= j < d.len() && d[j] == x;
                    assert(e[j] == x);
                }
                if x == s.last() {
                    assert(e[d.len() as int] == x);
                }
            }
            assert forall|i: int, j: int| 0 <= i < e.len() && 0 <= j < e.len() && i != j implies e[i]
                != e[j] by {
                if i < d.len() && j < d.len() {
                    assert(e[i] == d[i] && e[j] == d[j]);
                } else if i < d.len() {
                    assert(e[i] == d[i]);
                    assert(d.contains(d[i]));
                } else if j < d.len() {
                    assert(e[j] == d[j]);
                    assert(d.contains(d[j]));
                }
            }
        }
    }
}

/// The summary of a batch once its answers are in: the plan's summary when
/// every update was accepted, the first failure's message otherwise.
pub fn finish_batch(summary: UpdateNotesRes, outcome: Result<(), String>) -> (r: Result<
    UpdateNotesRes,
    String,
>)
    ensures
        outcome is Ok ==> r == Ok::<UpdateNotesRes, String>(summary),
        outcome matches Err(m) ==> r == Err::<UpdateNotesRes, String>(m),
{
    match outcome {
        Ok(()) => Ok(summary),
        Err(m) => Err(m),
    }
}

} // verus!
