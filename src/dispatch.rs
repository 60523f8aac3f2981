//! Classification of the remote store's answers to a batch of updates.
use vstd::prelude::*;

verus! {

/// The response envelope of the remote store: a result, an error, both or
/// neither.
#[derive(Clone, Debug)]
pub struct ReqResult {
    pub result: Option<Vec<u128>>,
    pub error: Option<String>,
}

/// The message of a response that rejects its update: no result and an
/// error. Every other envelope, the one with neither included, accepts it.
pub open spec fn rejection(r: ReqResult) -> Option<Seq<char>> {
    if r.result is None && r.error is Some {
        Some(r.error->Some_0@)
    } else {
        None
    }
}

/// Why one answer fails the batch: the transport failed (`Err`), or the
/// envelope rejects the update.
pub open spec fn answer_failure(a: Result<ReqResult, String>) -> Option<Seq<char>> {
    match a {
        Err(e) => Some(e@),
        Ok(r) => rejection(r),
    }
}

/// The first failure among the answers, in the order they are collected.
pub open spec fn first_failure(answers: Seq<Result<ReqResult, String>>) -> Option<Seq<char>>
    decreases answers.len(),
{
    if answers.len() == 0 {
        None
    } else if answer_failure(answers[0]) is Some {
        answer_failure(answers[0])
    } else {
        first_failure(answers.drop_first())
    }
}

/// Whether a response rejects its update.
pub fn rejection_message(r: &ReqResult) -> (m: Option<&String>)
    ensures
        m is None <==> rejection(*r) is None,
        m matches Some(s) ==> rejection(*r) == Some(s@),
{
    match (&r.result, &r.error) {
        (None, Some(e)) => Some(e),
        _ => None,
    }
}

/// The outcome of a whole batch: the first failure among the answers, or
/// success when every update was accepted.
pub fn dispatch_outcome(answers: &Vec<Result<ReqResult, String>>) -> (r: Result<(), String>)
    ensures
        first_failure(answers@) is None ==> r is Ok,
        first_failure(answers@) matches Some(m) ==> (r matches Err(e) && e@ == m),
{
    let mut i: usize = 0;
    assert(answers@.skip(0) =~= answers@);
    while i < answers.len()
        invariant
            i <= answers@.len(),
            first_failure(answers@) == first_failure(answers@.skip(i as int)),
        decreases answers@.len() - i,
    {
        assert(answers@.skip(i as int).drop_first() =~= answers@.skip(i as int + 1));
        assert(answers@.skip(i as int)[0] == answers@[i as int]);
        match &answers[i] {
            Err(e) => {
                return Err(e.clone());
            },
            Ok(res) => {
                if let Some(m) = rejection_message(res) {
                    return Err(m.clone());
                }
            },
        }
        i = i + 1;
    }
    Ok(())
}

/// One rejected answer decides the batch, whatever the other answers hold
/// as long as they do not fail it themselves: the batch fails with that
/// answer's message.
pub proof fn lemma_single_rejection_decides(answers: Seq<Result<ReqResult, String>>, k: int)
    requires
        0 <= k < answers.len(),
        answers[k] matches Ok(r) && r.result is None && r.error is Some,
        forall|j: int| 0 <= j < answers.len() && j != k ==> answer_failure(#[trigger] answers[j]) is None,
    ensures
        first_failure(answers) == Some(answers[k]->Ok_0.error->Some_0@),
    decreases answers.len(),
{
    if k > 0 {
        assert(answer_failure(answers[0]) is None);
        let rest = answers.drop_first();
        assert forall|j: int| 0 <= j < rest.len() && j != k - 1 implies answer_failure(
            #[trigger] rest[j],
        ) is None by {
            assert(rest[j] == answers[j + 1]);
        }
        lemma_single_rejection_decides(rest, k - 1);
    }
}

} // verus!
