use search_bridge::{
    forward, forward_all, reply, unify, Aggregator, ExecStatus, Executor, Failure, Forwarding, Phase,
    SearchError, SearchEvent, SearchOptions, SearchTask, SystemError, TaskId, TaskOutput,
    TaskStatus, Topic,
};

type Ev = SearchEvent<u32, String>;

fn errs(v: &[&str]) -> Vec<String> {
    v.iter().map(|s| s.to_string()).collect()
}

fn mixed_run() -> Vec<Ev> {
    vec![
        SearchEvent::Errors(errs(&["e1"])),
        SearchEvent::Interim(7),
        SearchEvent::Final("y".to_string()),
    ]
}

#[test]
fn streaming_forwards_error_and_final_once() {
    let out = forward_all(mixed_run());
    assert_eq!(out.len(), 2);
    match &out[0] {
        Forwarding::Errors(b) => assert_eq!(b, &errs(&["e1"])),
        _ => panic!("expected an error forwarding first"),
    }
    match &out[1] {
        Forwarding::Final(y) => assert_eq!(y, "y"),
        _ => panic!("expected a final forwarding second"),
    }
    assert_eq!(out[0].topic(), Topic::Error);
    assert_eq!(out[1].topic(), Topic::Final);
}

#[test]
fn streaming_drops_interim() {
    let ev: Ev = SearchEvent::Interim(3);
    assert!(forward(ev).is_none());
}

#[test]
fn streaming_keeps_batches_apart() {
    let run: Vec<Ev> = vec![
        SearchEvent::Errors(errs(&["a", "b"])),
        SearchEvent::Errors(errs(&["c"])),
    ];
    let out = forward_all(run);
    assert_eq!(out.len(), 2);
    assert!(matches!(&out[0], Forwarding::Errors(b) if b == &errs(&["a", "b"])));
    assert!(matches!(&out[1], Forwarding::Errors(b) if b == &errs(&["c"])));
}

#[test]
fn topic_names() {
    assert_eq!(Topic::Final.name(), "search_channel_final");
    assert_eq!(Topic::Error.name(), "search_channel_error");
    assert_eq!(Topic::Interim.name(), "search_channel_unit");
}

#[test]
fn aggregation_final_wins_over_prior_errors() {
    assert_eq!(unify(mixed_run()), Ok("y".to_string()));
}

#[test]
fn aggregation_ignores_events_after_final() {
    let run: Vec<Ev> = vec![
        SearchEvent::Errors(errs(&["x"])),
        SearchEvent::Final("first".to_string()),
        SearchEvent::Errors(errs(&["late"])),
        SearchEvent::Final("second".to_string()),
    ];
    assert_eq!(unify(run), Ok("first".to_string()));
}

#[test]
fn aggregation_concatenates_errors_in_order() {
    let run: Vec<Ev> = vec![SearchEvent::Errors(errs(&["a"])), SearchEvent::Errors(errs(&["b"]))];
    assert_eq!(unify(run), Err(errs(&["a", "b"])));
}

#[test]
fn aggregation_errors_around_interim() {
    let run: Vec<Ev> = vec![
        SearchEvent::Errors(errs(&["a", "b"])),
        SearchEvent::Interim(1),
        SearchEvent::Errors(errs(&["c"])),
        SearchEvent::Interim(2),
    ];
    assert_eq!(unify(run), Err(errs(&["a", "b", "c"])));
}

#[test]
fn aggregation_empty_run_fails_without_errors() {
    let run: Vec<Ev> = Vec::new();
    assert_eq!(unify(run), Err(Vec::new()));
}

#[test]
fn step_cancel_drops_partial_errors() {
    let mut agg = Aggregator::new();
    let r = agg.step::<u32, String>(false, Some(SearchEvent::Errors(errs(&["e1"]))));
    assert!(r.is_none());
    let r = agg.step::<u32, String>(true, Some(SearchEvent::Final("y".to_string())));
    assert!(matches!(r, Some(Ok(ExecStatus::Canceled))));
}

#[test]
fn step_close_fails_with_gathered_errors() {
    let mut agg = Aggregator::new();
    assert!(agg.step::<u32, String>(false, Some(SearchEvent::Errors(errs(&["a"])))).is_none());
    assert!(agg.step::<u32, String>(false, Some(SearchEvent::Interim(4))).is_none());
    assert!(agg.step::<u32, String>(false, Some(SearchEvent::Errors(errs(&["b"])))).is_none());
    match agg.step::<u32, String>(false, None) {
        Some(Err(SearchError::Search(v))) => assert_eq!(v, errs(&["a", "b"])),
        _ => panic!("expected the gathered errors"),
    }
}

#[test]
fn step_final_completes() {
    let mut agg = Aggregator::new();
    assert!(agg.step::<u32, String>(false, Some(SearchEvent::Errors(errs(&["a"])))).is_none());
    match agg.step::<u32, String>(false, Some(SearchEvent::Final("done".to_string()))) {
        Some(Ok(ExecStatus::Done(TaskOutput::Out(s)))) => assert_eq!(s, "done"),
        _ => panic!("expected the final payload"),
    }
}

#[test]
fn dispatch_after_shutdown_is_rejected() {
    let mut ex: Executor<&str> = Executor::new();
    let left = ex.shutdown::<String, SearchError>();
    assert!(left.is_empty());
    assert_eq!(ex.dispatch("task", true), Err(SystemError::DispatchRejected));
    let r = reply::<String, &str>(Err(SystemError::DispatchRejected));
    assert_eq!(r, Err(errs(&["search task dispatch error"])));
    let task_level = reply::<String, &str>(Ok(TaskStatus::Error(SearchError::Search(errs(&["x"])))));
    assert_ne!(r, task_level);
}

#[test]
fn executor_schedules_priority_first() {
    let mut ex: Executor<&str> = Executor::new();
    let a = ex.dispatch("a", false).unwrap();
    let b = ex.dispatch("b", true).unwrap();
    let c = ex.dispatch("c", false).unwrap();
    assert_eq!((a.value, b.value, c.value), (0, 1, 2));
    assert_eq!(ex.next(), Some((b, "b")));
    assert_eq!(ex.next(), Some((a, "a")));
    assert_eq!(ex.next(), Some((c, "c")));
    assert_eq!(ex.next(), None);
}

#[test]
fn executor_resolves_each_task_once() {
    let mut ex: Executor<&str> = Executor::new();
    let a = ex.dispatch("a", true).unwrap();
    assert_eq!(ex.next(), Some((a, "a")));
    let st = ex.finish::<String, SearchError>(a, Ok(ExecStatus::Done(TaskOutput::Out("r".to_string()))));
    assert!(matches!(st, Some(TaskStatus::Done(id, TaskOutput::Out(ref s))) if id == a && s == "r"));
    let again = ex.finish::<String, SearchError>(a, Ok(ExecStatus::Canceled));
    assert!(again.is_none());
    assert!(ex.abort::<String, SearchError>(a).is_none());
    assert!(ex.cancel::<String, SearchError>(a).is_none());
}

#[test]
fn executor_cancel_and_abort() {
    let mut ex: Executor<u8> = Executor::new();
    let a = ex.dispatch(1, false).unwrap();
    let b = ex.dispatch(2, false).unwrap();
    assert!(matches!(ex.cancel::<(), ()>(b), Some(TaskStatus::Canceled)));
    assert_eq!(ex.next(), Some((a, 1)));
    assert!(ex.cancel::<(), ()>(a).is_none());
    assert!(matches!(ex.abort::<(), ()>(a), Some(TaskStatus::ForcedAbortion)));
    assert!(ex.next().is_none());
}

#[test]
fn executor_shutdown_resolves_pending() {
    let mut ex: Executor<u8> = Executor::new();
    let a = ex.dispatch(1, false).unwrap();
    let b = ex.dispatch(2, false).unwrap();
    let c = ex.dispatch(3, true).unwrap();
    assert_eq!(ex.next(), Some((c, 3)));
    let out = ex.shutdown::<(), ()>();
    assert_eq!(out.len(), 3);
    assert!(matches!(out[0], (id, TaskStatus::Shutdown(1)) if id == a));
    assert!(matches!(out[1], (id, TaskStatus::Shutdown(2)) if id == b));
    assert!(matches!(out[2], (id, TaskStatus::ForcedAbortion) if id == c));
    assert!(ex.finish::<(), ()>(c, Ok(ExecStatus::Canceled)).is_none());
    assert_eq!(ex.dispatch(4, false), Err(SystemError::DispatchRejected));
}

#[test]
fn executor_unknown_id_is_ignored() {
    let mut ex: Executor<u8> = Executor::new();
    let ghost_id = TaskId { value: 9 };
    assert!(ex.finish::<(), ()>(ghost_id, Ok(ExecStatus::Canceled)).is_none());
    assert!(ex.cancel::<(), ()>(ghost_id).is_none());
}

#[test]
fn reply_for_each_outcome() {
    let id = TaskId { value: 0 };
    type St = TaskStatus<String, SearchError, u8>;
    let ok: Result<St, SystemError> = Ok(TaskStatus::Done(id, TaskOutput::Out("r".to_string())));
    assert_eq!(reply(ok), Ok("r".to_string()));
    let cases: Vec<(Result<St, SystemError>, &str)> = vec![
        (Err(SystemError::JoinFailed), "search task join error"),
        (Ok(TaskStatus::Done(id, TaskOutput::Empty)), "search task returned empty result"),
        (Ok(TaskStatus::Error(SearchError::System(SystemError::JoinFailed))), "search task system error"),
        (Ok(TaskStatus::Canceled), "search task was canceled"),
        (Ok(TaskStatus::ForcedAbortion), "search task was forcibly aborted"),
        (Ok(TaskStatus::Shutdown(5)), "search task was shutdown"),
    ];
    for (res, text) in cases {
        assert_eq!(reply(res), Err(errs(&[text])));
    }
    let run_err: Result<St, SystemError> = Ok(TaskStatus::Error(SearchError::Search(errs(&["a", "b"]))));
    assert_eq!(reply(run_err), Err(errs(&["a", "b"])));
}

#[test]
fn failure_messages() {
    assert_eq!(Failure::DispatchRejected.message(), "search task dispatch error");
    assert_eq!(Failure::Shutdown.message(), "search task was shutdown");
}

#[test]
fn options_default_and_new() {
    assert!(!SearchOptions::default().content_case_sensitive());
    assert!(SearchOptions::new(true).content_case_sensitive());
    let task = SearchTask::new("needle", SearchOptions::new(true));
    assert!(task.with_priority());
    assert_eq!(task.query, "needle");
    assert_eq!(task.options, SearchOptions::new(true));
}

#[test]
fn executor_reports_phases() {
    let mut ex: Executor<u8> = Executor::new();
    let a = ex.dispatch(1, false).unwrap();
    let b = ex.dispatch(2, false).unwrap();
    assert_eq!(ex.next(), Some((a, 1)));
    assert_eq!(ex.phase(a), Some(Phase::Running));
    assert_eq!(ex.phase(b), Some(Phase::Queued));
    assert!(ex.finish::<(), ()>(a, Ok(ExecStatus::Done(TaskOutput::Empty))).is_some());
    assert_eq!(ex.phase(a), Some(Phase::Resolved));
    assert_eq!(ex.phase(TaskId { value: 5 }), None);
}
