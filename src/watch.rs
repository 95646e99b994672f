use vstd::prelude::*;

verus! {

/// Where a watch stands: the index of the last answer, or none before the first.
#[derive(Debug)]
pub struct WatchState {
    pub index: Option<u64>,
}

/// The index that a watch holds after the answers `responses`, in order.
pub open spec fn index_after(responses: Seq<u64>) -> Option<u64> {
    if responses.len() == 0 {
        None
    } else {
        Some(responses.last())
    }
}

/// The index that each request of a watch carries, when the answers are `responses`: the
/// request that follows the answers `responses[..k]` carries `index_after(responses[..k])`.
pub open spec fn request_indexes(responses: Seq<u64>) -> Seq<Option<u64>> {
    Seq::new(responses.len() + 1, |k: int| index_after(responses.subrange(0, k)))
}

impl WatchState {
    /// A watch that has no answer yet.
    pub fn new() -> (r: WatchState)
        ensures
            r.index == index_after(seq![]),
    {
        WatchState { index: None }
    }

    /// The index that the next request carries: the one the last answer gave.
    pub fn next_request(&self) -> (r: Option<u64>)
        ensures
            r == self.index,
    {
        self.index
    }

    /// Takes in an answer, whatever it held: the watch moves on to the answer's index.
    pub fn advance(&mut self, index: u64)
        ensures
            final(self).index == Some(index),
    {
        self.index = Some(index);
    }
}

/// After the answers `responses[..k]` a watch holds `index_after(responses[..k])`: taking in one
/// more answer moves it on to that answer's index.
pub proof fn lemma_advance(responses: Seq<u64>, k: int)
    requires
        0 <= k < responses.len(),
    ensures
        index_after(responses.subrange(0, k + 1)) == Some(responses[k]),
{
}

/// The first request of a watch carries no index, and each later one carries the index of
/// the answer just before it.
pub proof fn lemma_requests_carry_prior_index(responses: Seq<u64>)
    ensures
        request_indexes(responses).len() == responses.len() + 1,
        request_indexes(responses)[0] is None,
        forall|k: int|
            0 <= k < responses.len() ==> #[trigger] request_indexes(responses)[k + 1] == Some(
                responses[k],
            ),
{
    assert forall|k: int| 0 <= k < responses.len() implies #[trigger] request_indexes(responses)[k
        + 1] == Some(responses[k]) by {
        lemma_advance(responses, k);
    }
}

/// Drives a watch over the answers `responses` and returns the index of every request it
/// made, the one after the last answer included.
pub fn replay(responses: &Vec<u64>) -> (r: Vec<Option<u64>>)
    ensures
        r@ == request_indexes(responses@),
{
    let mut state = WatchState::new();
    let mut out: Vec<Option<u64>> = Vec::new();
    out.push(state.next_request());
    let mut i: usize = 0;
    while i < responses.len()
        invariant
            i <= responses@.len(),
            state.index == index_after(responses@.subrange(0, i as int)),
            out@ == request_indexes(responses@.subrange(0, i as int)),
        decreases responses@.len() - i,
    {
        proof {
            lemma_advance(responses@, i as int);
        }
        state.advance(responses[i]);
        out.push(state.next_request());
        assert(out@ =~= request_indexes(responses@.subrange(0, i + 1)));
        i = i + 1;
    }
    assert(responses@.subrange(0, responses@.len() as int) =~= responses@);
    out
}

} // verus!
