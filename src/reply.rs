use vstd::prelude::*;
use crate::event::texts;
use crate::task::{SearchError, SystemError, TaskOutput, TaskStatus};

verus! {

/// The ways a search request can end without results, apart from the producer's
/// own errors, which reach the caller unchanged.
#[derive(Clone, Copy, Debug, PartialEq, Eq, Structural)]
pub enum Failure {
    DispatchRejected,
    EmptyOutput,
    SystemFault,
    Canceled,
    ForcedAbortion,
    Shutdown,
    JoinFailed,
}

/// The description the caller receives for each failure.
pub open spec fn failure_text(f: Failure) -> Seq<char> {
    match f {
        Failure::DispatchRejected => "search task dispatch error"@,
        Failure::EmptyOutput => "search task returned empty result"@,
        Failure::SystemFault => "search task system error"@,
        Failure::Canceled => "search task was canceled"@,
        Failure::ForcedAbortion => "search task was forcibly aborted"@,
        Failure::Shutdown => "search task was shutdown"@,
        Failure::JoinFailed => "search task join error"@,
    }
}

impl Failure {
    pub fn message(&self) -> (r: String)
        ensures
            r@ == failure_text(*self),
    {
        match self {
            Failure::DispatchRejected => "search task dispatch error".to_owned(),
            Failure::EmptyOutput => "search task returned empty result".to_owned(),
            Failure::SystemFault => "search task system error".to_owned(),
            Failure::Canceled => "search task was canceled".to_owned(),
            Failure::ForcedAbortion => "search task was forcibly aborted".to_owned(),
            Failure::Shutdown => "search task was shutdown".to_owned(),
            Failure::JoinFailed => "search task join error".to_owned(),
        }
    }
}

/// How the request ended: the payload, the producer's errors, or one failure.
pub open spec fn reply_of<F, T>(res: Result<TaskStatus<F, SearchError, T>, SystemError>) -> Result<
    F,
    Seq<Seq<char>>,
> {
    match res {
        Err(SystemError::DispatchRejected) => Err(seq![failure_text(Failure::DispatchRejected)]),
        Err(SystemError::JoinFailed) => Err(seq![failure_text(Failure::JoinFailed)]),
        Ok(TaskStatus::Done(_, TaskOutput::Out(f))) => Ok(f),
        Ok(TaskStatus::Done(_, TaskOutput::Empty)) => Err(seq![failure_text(Failure::EmptyOutput)]),
        Ok(TaskStatus::Error(SearchError::Search(errs))) => Err(texts(errs@)),
        Ok(TaskStatus::Error(SearchError::System(_))) => Err(seq![failure_text(Failure::SystemFault)]),
        Ok(TaskStatus::Canceled) => Err(seq![failure_text(Failure::Canceled)]),
        Ok(TaskStatus::ForcedAbortion) => Err(seq![failure_text(Failure::ForcedAbortion)]),
        Ok(TaskStatus::Shutdown(_)) => Err(seq![failure_text(Failure::Shutdown)]),
    }
}

fn fail<F>(f: Failure) -> (r: Result<F, Vec<String>>)
    ensures
        r is Err,
        texts(r->Err_0@) == seq![failure_text(f)],
{
    let v = vec![f.message()];
    assert(texts(v@) =~= seq![failure_text(f)]);
    Err(v)
}

/// Turns how a dispatched search ended into what the caller receives: the final
/// results, or a list of error descriptions.
pub fn reply<F, T>(res: Result<TaskStatus<F, SearchError, T>, SystemError>) -> (r: Result<
    F,
    Vec<String>,
>)
    ensures
        r is Ok <==> reply_of(res) is Ok,
        r is Ok ==> r->Ok_0 == reply_of(res)->Ok_0,
        r is Err ==> texts(r->Err_0@) == reply_of(res)->Err_0,
{
    match res {
        Err(SystemError::DispatchRejected) => fail(Failure::DispatchRejected),
        Err(SystemError::JoinFailed) => fail(Failure::JoinFailed),
        Ok(TaskStatus::Done(_, TaskOutput::Out(f))) => Ok(f),
        Ok(TaskStatus::Done(_, TaskOutput::Empty)) => fail(Failure::EmptyOutput),
        Ok(TaskStatus::Error(SearchError::Search(errs))) => Err(errs),
        Ok(TaskStatus::Error(SearchError::System(_))) => fail(Failure::SystemFault),
        Ok(TaskStatus::Canceled) => fail(Failure::Canceled),
        Ok(TaskStatus::ForcedAbortion) => fail(Failure::ForcedAbortion),
        Ok(TaskStatus::Shutdown(_)) => fail(Failure::Shutdown),
    }
}

} // verus!
