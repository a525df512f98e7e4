use vstd::prelude::*;

verus! {

/// One message from the producer to its single consumer.
pub enum SearchEvent<I, F> {
    /// Partial progress, safe to drop.
    Interim(I),
    /// The authoritative terminal result of the run.
    Final(F),
    /// A non-empty batch of non-fatal error descriptions.
    Errors(Vec<String>),
}

/// The text of each string, in order.
pub open spec fn texts(v: Seq<String>) -> Seq<Seq<char>> {
    v.map_values(|s: String| s@)
}

/// The error descriptions that one event carries (none unless it is an error batch).
pub open spec fn batch_of<I, F>(e: SearchEvent<I, F>) -> Seq<Seq<char>> {
    match e {
        SearchEvent::Errors(b) => texts(b@),
        _ => Seq::empty(),
    }
}

/// The payload of a final event.
pub open spec fn final_of<I, F>(e: SearchEvent<I, F>) -> Option<F> {
    match e {
        SearchEvent::Final(f) => Some(f),
        _ => None,
    }
}

/// The outcome of folding events in arrival order: the payload of the first final
/// event, or else every error batch seen, in order. A run that ends with no final
/// event and no error fails with an empty list.
pub open spec fn outcome<I, F>(evs: Seq<SearchEvent<I, F>>) -> Result<F, Seq<Seq<char>>>
    decreases evs.len(),
{
    if evs.len() == 0 {
        Err(Seq::empty())
    } else {
        match outcome(evs.drop_last()) {
            Ok(f) => Ok(f),
            Err(errs) => match evs.last() {
                SearchEvent::Final(f) => Ok(f),
                SearchEvent::Errors(b) => Err(errs + texts(b@)),
                SearchEvent::Interim(_) => Err(errs),
            },
        }
    }
}

/// Once a final event has been folded in, later events do not change the outcome.
pub proof fn lemma_outcome_settled<I, F>(evs: Seq<SearchEvent<I, F>>, k: int)
    requires
        0 <= k <= evs.len(),
        outcome(evs.take(k)) is Ok,
    ensures
        outcome(evs) == outcome(evs.take(k)),
    decreases evs.len() - k,
{
    if k < evs.len() {
        assert(evs.take(k + 1).drop_last() =~= evs.take(k));
        lemma_outcome_settled(evs, k + 1);
    } else {
        assert(evs.take(k) =~= evs);
    }
}

/// A final event wins over every error batch that came before it: the outcome is
/// its payload.
pub proof fn lemma_final_wins<I, F>(evs: Seq<SearchEvent<I, F>>, i: int)
    requires
        0 <= i < evs.len(),
        final_of(evs[i]) is Some,
        forall|j: int| 0 <= j < i ==> #[trigger] final_of(evs[j]) is None,
    ensures
        outcome(evs) == Ok::<F, Seq<Seq<char>>>(final_of(evs[i])->0),
{
    lemma_no_final_errors(evs.take(i));
    assert(evs.take(i + 1).drop_last() =~= evs.take(i));
    lemma_outcome_settled(evs, i + 1);
}

/// Without a final event, the outcome is the failure that carries all error batches,
/// concatenated in arrival order.
pub proof fn lemma_no_final_errors<I, F>(evs: Seq<SearchEvent<I, F>>)
    requires
        forall|j: int| 0 <= j < evs.len() ==> #[trigger] final_of(evs[j]) is None,
    ensures
        outcome(evs) == Err::<F, Seq<Seq<char>>>(evs.map_values(|e: SearchEvent<I, F>| batch_of(e)).flatten()),
    decreases evs.len(),
{
    broadcast use Seq::lemma_flatten_push;

    if evs.len() > 0 {
        let pre = evs.drop_last();
        assert forall|j: int| 0 <= j < pre.len() implies #[trigger] final_of(pre[j]) is None by {
            assert(pre[j] == evs[j]);
        }
        lemma_no_final_errors(pre);
        assert(final_of(evs[evs.len() - 1]) is None);
        assert(evs.map_values(|e: SearchEvent<I, F>| batch_of(e)) =~= pre.map_values(
            |e: SearchEvent<I, F>| batch_of(e),
        ).push(batch_of(evs.last())));
    } else {
        assert(evs.map_values(|e: SearchEvent<I, F>| batch_of(e)) =~= Seq::<Seq<Seq<char>>>::empty());
    }
}

} // verus!
