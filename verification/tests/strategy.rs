use dns_hearth::strategy::{
    after_failover, chosen_server_step, failover_exhausted_message, failover_step, spawn_decision,
    AttemptOutcome, ChosenStep, FailoverStep, SpawnDecision,
    concurrent_health_update, failover_candidates, fastest_or_err, select_completed_result,
    single_health_update, ConcurrentRace, HealthUpdate, ProxyError, ProxyManager, QueryPlan,
    QueryResult, QueryStrategy, ResponseCode, UpstreamFailure,
};

fn stub_result(server_id: i64, code: ResponseCode, response_time_ms: u64) -> QueryResult<()> {
    QueryResult {
        response: (),
        response_code: code,
        response_time_ms,
        server_id,
        server_name: format!("Server {server_id}"),
    }
}

#[test]
fn concurrent_prefers_noerror_then_nxdomain() {
    let noerror = select_completed_result(vec![
        Ok(stub_result(1, ResponseCode::NxDomain, 1)),
        Ok(stub_result(2, ResponseCode::NoError, 30)),
        Ok(stub_result(3, ResponseCode::NoError, 10)),
    ])
    .ok()
    .expect("NOERROR should win");
    assert_eq!(noerror.server_id, 3);

    let nxdomain = select_completed_result(vec![
        Ok(stub_result(1, ResponseCode::ServFail, 1)),
        Ok(stub_result(2, ResponseCode::NxDomain, 30)),
        Ok(stub_result(3, ResponseCode::NxDomain, 10)),
    ])
    .ok()
    .expect("NXDOMAIN should be the fallback");
    assert_eq!(nxdomain.server_id, 3);
}

#[test]
fn concurrent_errors_without_noerror_or_nxdomain() {
    let result = select_completed_result(vec![
        Ok(stub_result(1, ResponseCode::ServFail, 1)),
        Ok(stub_result(2, ResponseCode::Refused, 2)),
    ]);
    assert!(result.is_err());
}

#[test]
fn selection_keeps_the_earliest_of_equally_fast_answers() {
    let r = select_completed_result(vec![
        Ok(stub_result(7, ResponseCode::NoError, 10)),
        Ok(stub_result(8, ResponseCode::NoError, 10)),
    ])
    .ok()
    .unwrap();
    assert_eq!(r.server_id, 7);
}

#[test]
fn selection_failure_names_the_last_failure() {
    let err = match select_completed_result(vec![
        Err::<QueryResult<()>, String>("timeout".to_string()),
        Ok(stub_result(2, ResponseCode::Refused, 2)),
    ]) {
        Err(e) => e,
        Ok(_) => panic!("no usable answer was given"),
    };
    let failure = ProxyError::AllFailed(err);
    assert_eq!(failure.message(), "All upstream servers failed: Server 2 returned REFUSED");

    let err = match select_completed_result(Vec::<Result<QueryResult<()>, String>>::new()) {
        Err(e) => e,
        Ok(_) => panic!("nothing completed"),
    };
    assert!(err.last_error.is_none());
    assert_eq!(
        ProxyError::AllFailed(err).message(),
        "All upstream servers failed: no NOERROR or NXDOMAIN response"
    );
}

#[test]
fn race_returns_first_noerror_and_otherwise_fastest_nxdomain() {
    let mut race = ConcurrentRace::new();
    assert!(race.observe(Ok(stub_result(1, ResponseCode::NxDomain, 30))).is_none());
    assert!(race.observe(Ok(stub_result(2, ResponseCode::NxDomain, 10))).is_none());
    assert!(race.observe(Err("connection refused".to_string())).is_none());
    let winner = race.observe(Ok(stub_result(3, ResponseCode::NoError, 50)));
    assert_eq!(winner.map(|w| w.server_id), Some(3));

    let mut race = ConcurrentRace::new();
    race.observe(Ok(stub_result(1, ResponseCode::NxDomain, 30)));
    race.observe(Ok(stub_result(2, ResponseCode::NxDomain, 10)));
    race.observe(Ok(stub_result(3, ResponseCode::ServFail, 1)));
    assert_eq!(race.finish().ok().map(|r| r.server_id), Some(2));

    let mut race: ConcurrentRace<()> = ConcurrentRace::new();
    race.observe(Ok(stub_result(1, ResponseCode::ServFail, 1)));
    race.observe(Err("Task panicked: boom".to_string()));
    match race.finish() {
        Err(e) => match e.last_error {
            Some(UpstreamFailure::Failed { message }) => assert_eq!(message, "Task panicked: boom"),
            _ => panic!("the last failure is the panicked task"),
        },
        Ok(_) => panic!("no usable answer"),
    }
}

#[test]
fn test_strategy_from_str() {
    assert_eq!(QueryStrategy::from_str("concurrent"), Some(QueryStrategy::Concurrent));
    assert_eq!(QueryStrategy::from_str("CONCURRENT"), Some(QueryStrategy::Concurrent));
    assert_eq!(QueryStrategy::from_str("fastest"), Some(QueryStrategy::Fastest));
    assert_eq!(QueryStrategy::from_str("fastest_first"), Some(QueryStrategy::Fastest));
    assert_eq!(QueryStrategy::from_str("round_robin"), Some(QueryStrategy::RoundRobin));
    assert_eq!(QueryStrategy::from_str("roundrobin"), Some(QueryStrategy::RoundRobin));
    assert_eq!(QueryStrategy::from_str("random"), Some(QueryStrategy::Random));
    assert_eq!(QueryStrategy::from_str("invalid"), None);
}

#[test]
fn test_strategy_as_str() {
    assert_eq!(QueryStrategy::Concurrent.as_str(), "concurrent");
    assert_eq!(QueryStrategy::Fastest.as_str(), "fastest");
    assert_eq!(QueryStrategy::RoundRobin.as_str(), "round_robin");
    assert_eq!(QueryStrategy::Random.as_str(), "random");
}

#[test]
fn test_strategy_default() {
    assert_eq!(QueryStrategy::default(), QueryStrategy::Concurrent);
}

#[test]
fn strategy_names_read_back() {
    for s in [
        QueryStrategy::Concurrent,
        QueryStrategy::Fastest,
        QueryStrategy::RoundRobin,
        QueryStrategy::Random,
    ] {
        assert_eq!(QueryStrategy::from_str(s.as_str()), Some(s));
        assert_eq!(QueryStrategy::from_lowercase(s.as_str()), Some(s));
    }
    assert_eq!(QueryStrategy::from_lowercase("RANDOM"), None);
    assert_eq!(QueryStrategy::from_str("Round_Robin"), Some(QueryStrategy::RoundRobin));
}

#[test]
fn test_proxy_manager_strategy() {
    let mut proxy_manager = ProxyManager::new(());
    assert_eq!(proxy_manager.get_strategy(), QueryStrategy::Concurrent);
    proxy_manager.set_strategy(QueryStrategy::RoundRobin);
    assert_eq!(proxy_manager.get_strategy(), QueryStrategy::RoundRobin);
}

#[test]
fn test_proxy_manager_no_servers() {
    let mut proxy_manager = ProxyManager::new(());
    let result = proxy_manager.plan(0);
    assert!(matches!(result, Err(ProxyError::NoHealthyUpstreams)));
    assert_eq!(
        ProxyError::NoHealthyUpstreams.message(),
        "No healthy upstream servers available"
    );
}

#[test]
fn test_round_robin_counter() {
    let mut proxy_manager = ProxyManager::new(vec![1, 2, 3]);
    proxy_manager.set_strategy(QueryStrategy::RoundRobin);
    assert_eq!(proxy_manager.upstream_manager().len(), 3);
    // The counter starts at zero and advances once per planned query.
    assert!(matches!(proxy_manager.plan(3), Ok(QueryPlan::Single(0))));
    assert!(matches!(proxy_manager.plan(3), Ok(QueryPlan::Single(1))));
    assert!(matches!(proxy_manager.plan(3), Ok(QueryPlan::Single(2))));
    assert!(matches!(proxy_manager.plan(3), Ok(QueryPlan::Single(0))));
    // No healthy server: nothing is consumed.
    assert!(proxy_manager.plan(0).is_err());
    assert!(matches!(proxy_manager.plan(3), Ok(QueryPlan::Single(1))));
}

#[test]
fn plans_follow_the_strategy() {
    let mut m = ProxyManager::new(());
    assert!(matches!(m.plan(2), Ok(QueryPlan::Concurrent)));
    m.set_strategy(QueryStrategy::Fastest);
    assert!(matches!(m.plan(0), Ok(QueryPlan::AskFastest)));
    m.set_strategy(QueryStrategy::Random);
    for _ in 0..50 {
        match m.plan(3) {
            Ok(QueryPlan::Single(i)) => assert!(i < 3),
            _ => panic!("random picks one healthy server"),
        }
    }
    assert!(matches!(fastest_or_err(Some(4)), Ok(4)));
    assert!(matches!(fastest_or_err::<u8>(None), Err(ProxyError::NoHealthyUpstreams)));
}

#[test]
fn query_ids_count_up() {
    let shared = ProxyManager::<()>::new_shared(());
    assert_eq!(shared.get_strategy(), QueryStrategy::Concurrent);
    let mut m = ProxyManager::new(());
    assert_eq!(m.next_query_id(), 1);
    assert_eq!(m.next_query_id(), 2);
}

#[test]
fn health_updates_follow_the_answer() {
    let ok = Ok::<_, String>(stub_result(5, ResponseCode::NxDomain, 12));
    assert_eq!(
        concurrent_health_update(9, &ok),
        HealthUpdate::Success { server_id: 5, response_time_ms: 12 }
    );
    let refused = Ok::<_, String>(stub_result(5, ResponseCode::Refused, 12));
    assert_eq!(concurrent_health_update(9, &refused), HealthUpdate::Failure { server_id: 5 });
    assert_eq!(
        single_health_update(9, &refused),
        HealthUpdate::Success { server_id: 5, response_time_ms: 12 }
    );
    let err = Err::<QueryResult<()>, String>("timed out".to_string());
    assert_eq!(concurrent_health_update(9, &err), HealthUpdate::Failure { server_id: 9 });
    assert_eq!(single_health_update(9, &err), HealthUpdate::Failure { server_id: 9 });
}

#[test]
fn failover_skips_the_failed_server() {
    assert_eq!(failover_candidates(&vec![4, 7, 4, 9], 4), vec![1, 3]);
    assert_eq!(failover_candidates(&vec![], 4), Vec::<usize>::new());
    assert_eq!(
        ProxyError::FailoverExhausted { cause: "timed out".to_string() }.message(),
        "Query failed and failover exhausted: timed out"
    );
}

#[test]
fn response_codes_have_mnemonics() {
    let mut s = String::new();
    ResponseCode::Other(11).push_text(&mut s);
    assert_eq!(s, "RCODE11");
    let f = UpstreamFailure::Rejected { server_name: "A".to_string(), response_code: ResponseCode::ServFail };
    assert_eq!(f.message(), "A returned SERVFAIL");
}

#[test]
fn a_chosen_server_answers_or_fails_over() {
    match chosen_server_step(4, AttemptOutcome::Answered(stub_result(4, ResponseCode::ServFail, 12))) {
        ChosenStep::Answer { health, answer } => {
            assert_eq!(health, HealthUpdate::Success { server_id: 4, response_time_ms: 12 });
            assert_eq!(answer.server_id, 4);
        }
        _ => panic!("an answer is returned whatever its code"),
    }
    match chosen_server_step::<()>(4, AttemptOutcome::Failed("timeout".to_string())) {
        ChosenStep::FailOver { health, cause } => {
            assert_eq!(health, HealthUpdate::Failure { server_id: 4 });
            assert_eq!(cause, "timeout");
        }
        _ => panic!("a failure fails over"),
    }
    assert!(matches!(chosen_server_step::<()>(4, AttemptOutcome::NoClient("bad".to_string())), ChosenStep::Refuse(m) if m == "bad"));
    let exhausted = after_failover::<()>("timeout".to_string(), None);
    match exhausted {
        Err(e) => assert_eq!(e.message(), "Query failed and failover exhausted: timeout"),
        Ok(_) => panic!("nothing answered"),
    }
    assert_eq!(after_failover("timeout".to_string(), Some(stub_result(5, ResponseCode::NoError, 3))).ok().unwrap().server_id, 5);
}

#[test]
fn failover_skips_unbuildable_clients_and_stops_at_the_first_answer() {
    assert!(matches!(failover_step::<()>(2, AttemptOutcome::NoClient("bad".to_string())), FailoverStep::Skip));
    assert!(matches!(
        failover_step::<()>(2, AttemptOutcome::Failed("refused".to_string())),
        FailoverStep::Next { health: HealthUpdate::Failure { server_id: 2 } }
    ));
    match failover_step(3, AttemptOutcome::Answered(stub_result(3, ResponseCode::NxDomain, 9))) {
        FailoverStep::Answer { health, answer } => {
            assert_eq!(health, HealthUpdate::Success { server_id: 3, response_time_ms: 9 });
            assert_eq!(answer.response_code, ResponseCode::NxDomain);
        }
        _ => panic!("an answer ends the failover"),
    }
    assert_eq!(failover_exhausted_message(), "All failover servers exhausted");
    assert_eq!(spawn_decision(6, true), SpawnDecision::Spawn);
    assert_eq!(spawn_decision(6, false), SpawnDecision::Skip { health: HealthUpdate::Failure { server_id: 6 } });
}

#[test]
fn strategy_names_ignore_ascii_case() {
    assert_eq!(QueryStrategy::from_str("CONCURRENT"), Some(QueryStrategy::Concurrent));
    assert_eq!(QueryStrategy::from_str("Round_Robin"), Some(QueryStrategy::RoundRobin));
}
