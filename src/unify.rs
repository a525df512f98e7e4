use vstd::prelude::*;
use crate::event::{outcome, texts, SearchEvent};
use crate::task::{ExecStatus, SearchError, TaskOutput};

verus! {

/// Drains a producer's events inside a run and folds them into one outcome.
pub struct Aggregator {
    errors: Vec<String>,
}

impl Aggregator {
    /// The error descriptions gathered so far, in arrival order.
    pub closed spec fn errors(&self) -> Seq<Seq<char>> {
        texts(self.errors@)
    }

    pub fn new() -> (r: Aggregator)
        ensures
            r.errors() == Seq::<Seq<char>>::empty(),
    {
        Aggregator { errors: Vec::new() }
    }

    /// Takes one event: a final event yields its payload; an error batch is
    /// appended; an interim event is dropped.
    pub fn feed<I, F>(&mut self, ev: SearchEvent<I, F>) -> (r: Option<F>)
        ensures
            match ev {
                SearchEvent::Final(f) => r == Some(f) && final(self).errors() == old(self).errors(),
                SearchEvent::Errors(b) => r is None && final(self).errors() == old(self).errors()
                    + texts(b@),
                SearchEvent::Interim(_) => r is None && final(self).errors() == old(self).errors(),
            },
    {
        match ev {
            SearchEvent::Final(f) => Some(f),
            SearchEvent::Errors(b) => {
                let mut b = b;
                let mut i: usize = 0;
                let ghost start = self.errors@;
                while i < b.len()
                    invariant
                        i <= b.len(),
                        self.errors@ == start + b@.take(i as int),
                    decreases b.len() - i,
                {
                    let s = b[i].clone();
                    self.errors.push(s);
                    assert(b@.take(i as int + 1) =~= b@.take(i as int).push(b@[i as int]));
                    i = i + 1;
                }
                assert(b@.take(i as int) =~= b@);
                assert(texts(start + b@) =~= texts(start) + texts(b@));
                None
            },
            SearchEvent::Interim(_) => None,
        }
    }

    /// One step of a run: an interrupt cancels it and drops the gathered errors; a
    /// closed channel fails it with the gathered errors; a final event completes it.
    /// `None` means the run goes on.
    pub fn step<I, F>(&mut self, interrupted: bool, next: Option<SearchEvent<I, F>>) -> (r: Option<
        Result<ExecStatus<F>, SearchError>,
    >)
        ensures
            interrupted ==> r == Some(Ok::<ExecStatus<F>, SearchError>(ExecStatus::Canceled)),
            !interrupted && next is None ==> (match r {
                Some(Err(SearchError::Search(v))) => texts(v@) == old(self).errors(),
                _ => false,
            }),
            !interrupted && next is Some ==> match next->0 {
                SearchEvent::Final(f) => r == Some(
                    Ok::<ExecStatus<F>, SearchError>(ExecStatus::Done(TaskOutput::Out(f))),
                ),
                SearchEvent::Errors(b) => r is None && final(self).errors() == old(self).errors()
                    + texts(b@),
                SearchEvent::Interim(_) => r is None && final(self).errors() == old(self).errors(),
            },
    {
        if interrupted {
            return Some(Ok(ExecStatus::Canceled));
        }
        match next {
            None => {
                let mut errs: Vec<String> = Vec::new();
                core::mem::swap(&mut self.errors, &mut errs);
                Some(Err(SearchError::Search(errs)))
            },
            Some(ev) => match self.feed(ev) {
                Some(f) => Some(Ok(ExecStatus::Done(TaskOutput::Out(f)))),
                None => None,
            },
        }
    }
}

/// Folds a whole run's events in arrival order: the payload of the first final
/// event, or else every error description, batch by batch (an empty list when the
/// run sent none).
pub fn unify<I, F>(events: Vec<SearchEvent<I, F>>) -> (r: Result<F, Vec<String>>)
    ensures
        r is Ok <==> outcome(events@) is Ok,
        r is Ok ==> r->Ok_0 == outcome(events@)->Ok_0,
        r is Err ==> texts(r->Err_0@) == outcome(events@)->Err_0,
{
    let ghost all = events@;
    let mut rest = events;
    let mut agg = Aggregator::new();
    let mut k: usize = 0;
    let n = rest.len();
    while rest.len() > 0
        invariant
            n == all.len(),
            all == events@,
            k + rest@.len() == n,
            rest@ == all.skip(k as int),
            outcome(all.take(k as int)) == Err::<F, Seq<Seq<char>>>(agg.errors()),
        decreases rest@.len(),
    {
        let ev = rest.remove(0);
        proof {
            assert(all.take(k as int + 1).drop_last() =~= all.take(k as int));
            assert(ev == all[k as int]);
            assert(all.take(k as int + 1).last() == all[k as int]);
        }
        let ghost seen = ev;
        let got = agg.feed(ev);
        k = k + 1;
        proof {
            assert(rest@ =~= all.skip(k as int));
        }
        if let Some(f) = got {
            proof {
                assert(all.take(k as int).last() == seen);
                assert(outcome(all.take(k as int)) == Ok::<F, Seq<Seq<char>>>(f));
                crate::event::lemma_outcome_settled(all, k as int);
            }
            return Ok(f);
        }
    }
    assert(all.take(k as int) =~= all);
    Err(agg.errors)
}

} // verus!
