use vstd::prelude::*;
use crate::event::SearchEvent;

verus! {

/// The names under which the streaming path publishes events.
#[derive(Clone, Copy, Debug, PartialEq, Eq, Structural)]
pub enum Topic {
    Final,
    Error,
    /// Reserved: interim events are not published yet.
    Interim,
}

impl Topic {
    pub fn name(&self) -> (r: &'static str)
        ensures
            *self == Topic::Final ==> r@ == "search_channel_final"@,
            *self == Topic::Error ==> r@ == "search_channel_error"@,
            *self == Topic::Interim ==> r@ == "search_channel_unit"@,
    {
        match self {
            Topic::Final => "search_channel_final",
            Topic::Error => "search_channel_error",
            Topic::Interim => "search_channel_unit",
        }
    }
}

/// One message for the observers of the streaming path.
pub enum Forwarding<F> {
    /// The final result, published under `Topic::Final`.
    Final(F),
    /// One error batch as received, published under `Topic::Error`.
    Errors(Vec<String>),
}

impl<F> Forwarding<F> {
    pub fn topic(&self) -> (r: Topic)
        ensures
            r == (match self {
                Forwarding::Final(_) => Topic::Final,
                Forwarding::Errors(_) => Topic::Error,
            }),
    {
        match self {
            Forwarding::Final(_) => Topic::Final,
            Forwarding::Errors(_) => Topic::Error,
        }
    }
}

/// What the streaming path publishes for one event: final results and error
/// batches go out unchanged, interim events are not published.
pub open spec fn forwarding_of<I, F>(e: SearchEvent<I, F>) -> Option<Forwarding<F>> {
    match e {
        SearchEvent::Final(f) => Some(Forwarding::Final(f)),
        SearchEvent::Errors(b) => Some(Forwarding::Errors(b)),
        SearchEvent::Interim(_) => None,
    }
}

/// Everything the streaming path publishes for a run, in arrival order.
pub open spec fn forwardings<I, F>(evs: Seq<SearchEvent<I, F>>) -> Seq<Forwarding<F>>
    decreases evs.len(),
{
    if evs.len() == 0 {
        Seq::empty()
    } else {
        let pre = forwardings(evs.drop_last());
        match forwarding_of(evs.last()) {
            Some(x) => pre.push(x),
            None => pre,
        }
    }
}

pub fn forward<I, F>(ev: SearchEvent<I, F>) -> (r: Option<Forwarding<F>>)
    ensures
        r == forwarding_of(ev),
{
    match ev {
        SearchEvent::Final(f) => Some(Forwarding::Final(f)),
        SearchEvent::Errors(b) => Some(Forwarding::Errors(b)),
        SearchEvent::Interim(_) => None,
    }
}

/// Forwards a whole run's events in arrival order, without aggregating.
pub fn forward_all<I, F>(events: Vec<SearchEvent<I, F>>) -> (r: Vec<Forwarding<F>>)
    ensures
        r@ == forwardings(events@),
{
    let ghost all = events@;
    let mut rest = events;
    let mut out: Vec<Forwarding<F>> = Vec::new();
    let mut k: usize = 0;
    let n = rest.len();
    while rest.len() > 0
        invariant
            n == all.len(),
            k + rest@.len() == n,
            rest@ == all.skip(k as int),
            out@ == forwardings(all.take(k as int)),
        decreases rest@.len(),
    {
        let ev = rest.remove(0);
        proof {
            assert(all.take(k as int + 1).drop_last() =~= all.take(k as int));
            assert(ev == all[k as int]);
            assert(all.take(k as int + 1).last() == all[k as int]);
        }
        if let Some(x) = forward(ev) {
            out.push(x);
        }
        k = k + 1;
        proof {
            assert(rest@ =~= all.skip(k as int));
        }
    }
    assert(all.take(k as int) =~= all);
    out
}

/// The number of final events in a run.
pub open spec fn count_finals<I, F>(evs: Seq<SearchEvent<I, F>>) -> nat
    decreases evs.len(),
{
    if evs.len() == 0 {
        0
    } else {
        count_finals(evs.drop_last()) + if evs.last() is Final { 1nat } else { 0nat }
    }
}

/// The number of final forwardings in a published sequence.
pub open spec fn count_final_forwardings<F>(fs: Seq<Forwarding<F>>) -> nat
    decreases fs.len(),
{
    if fs.len() == 0 {
        0
    } else {
        count_final_forwardings(fs.drop_last()) + if fs.last() is Final { 1nat } else { 0nat }
    }
}

/// The streaming path publishes exactly one final forwarding per final event.
pub proof fn lemma_finals_forwarded_once<I, F>(evs: Seq<SearchEvent<I, F>>)
    ensures
        count_final_forwardings(forwardings(evs)) == count_finals(evs),
    decreases evs.len(),
{
    if evs.len() > 0 {
        lemma_finals_forwarded_once(evs.drop_last());
        let pre = forwardings(evs.drop_last());
        match forwarding_of(evs.last()) {
            Some(x) => {
                assert(pre.push(x).drop_last() =~= pre);
            },
            None => {},
        }
    }
}

} // verus!
