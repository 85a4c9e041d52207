use dns_hearth::commands::{
    after_home_step, available_strategies, available_strategy_views, export_format, first_home_step,
    log_csv_row, HomeAction, HomeStep, requested_strategy, strategy_view, page_or_default, parse_id, rewrite_page,
    strategy_description, url_decode, CommandFailure, ExportFormat, LogsPayload, PagingError, Route,
    RouteKind, UtcInstant,
};
use dns_hearth::rewrite_business::{after_reload, delete_outcome, reload_outcome, update_outcome, RewriteBusiness, RewriteError};
use dns_hearth::runtime::{initial_strategy, numeric_setting};
use dns_hearth::strategy::QueryStrategy;

#[test]
fn routes_are_resolved_in_order() {
    let r = Route::resolve("get", "/api/records/");
    assert_eq!(r.kind, RouteKind::ListRecords);
    assert_eq!(r.method, "GET");
    assert_eq!(r.path, "/api/records");
    let r = Route::resolve("DELETE", "/api/records/42");
    assert_eq!(r.kind, RouteKind::DeleteRecord);
    assert_eq!(parse_id(&r.argument), Ok(42));
    assert_eq!(Route::resolve("POST", "/api/rewrite/batch").kind, RouteKind::BatchCreateRewriteRules);
    assert_eq!(Route::resolve("PUT", "/api/upstreams/3/reset-health").kind, RouteKind::Unsupported);
    let r = Route::resolve("POST", "/api/upstreams/3/reset-health/");
    assert_eq!(r.kind, RouteKind::ResetUpstreamHealth);
    assert_eq!(r.argument, "/api/upstreams/3");
    assert_eq!(parse_id(&r.argument), Ok(3));
    let r = Route::resolve("POST", "/api/cache/clear/example%2Ecom");
    assert_eq!(r.kind, RouteKind::ClearCacheDomain);
    assert_eq!(url_decode(&r.argument), Ok("example.com".to_string()));
    let r = Route::resolve("GET", "/api/listeners/dot/cert");
    assert_eq!(r.kind, RouteKind::ListenerCertificate);
    assert_eq!(r.argument, "/api/listeners/dot");
    let r = Route::resolve("put", "/api/listeners/udp");
    assert_eq!(r.kind, RouteKind::UpdateListener);
    assert_eq!(r.argument, "udp");
    assert_eq!(Route::resolve("GET", "/api/strategy/available").kind, RouteKind::AvailableStrategies);
    assert_eq!(Route::resolve("DELETE", "/api/logs/cleanup/before").kind, RouteKind::CleanupLogsBefore);
    let r = Route::resolve("PATCH", "/api/x//");
    assert_eq!(r.kind, RouteKind::Unsupported);
    assert_eq!(r.unsupported_message(), "Unsupported Tauri bridge operation: PATCH /api/x");
}

#[test]
fn ids_and_paging() {
    assert_eq!(parse_id("/api/records/-7"), Ok(-7));
    assert_eq!(parse_id("/api/records/x"), Err("x".parse::<i64>().unwrap_err().to_string()));
    assert_eq!(parse_id("/api/records/x"), Err("invalid digit found in string".to_string()));
    assert_eq!(parse_id("/api/records/"), Err("cannot parse integer from empty string".to_string()));
    assert_eq!(parse_id("/api/records/+"), Err("invalid digit found in string".to_string()));
    assert_eq!(parse_id("/api/records/9223372036854775808"), Err("number too large to fit in target type".to_string()));
    assert_eq!(parse_id("/api/records/-9223372036854775809"), Err("number too small to fit in target type".to_string()));
    assert_eq!(parse_id("/api/records/99999999999999999999x"), Err("99999999999999999999x".parse::<i64>().unwrap_err().to_string()));
    assert_eq!(parse_id("/api/records/+42"), Ok(42));
    assert_eq!(parse_id("/api/records/-9223372036854775808"), Ok(i64::MIN));
    assert_eq!(page_or_default(None, Some(5)), (1, 5));
    assert_eq!(rewrite_page(None, None), Ok((1, 20)));
    assert_eq!(rewrite_page(Some(0), None), Err(PagingError::PageTooSmall));
    assert_eq!(rewrite_page(Some(2), Some(101)), Err(PagingError::PageSizeOutOfRange));
    assert_eq!(rewrite_page(Some(2), Some(100)), Ok((2, 100)));
    assert_eq!(PagingError::PageTooSmall.message(), "rewrite page must be at least 1");
    assert_eq!(url_decode("%FF"), Err(String::from_utf8(vec![0xFF]).unwrap_err().to_string()));
    assert_eq!(url_decode("a%20b"), Ok("a b".to_string()));
    assert_eq!(url_decode("plain+text"), Ok("plain+text".to_string()));
}

#[test]
fn strategies_are_described() {
    assert_eq!(available_strategies(), vec![QueryStrategy::Concurrent, QueryStrategy::Fastest, QueryStrategy::RoundRobin, QueryStrategy::Random]);
    assert_eq!(strategy_description(QueryStrategy::Random), "每次随机选择一个健康上游进行查询。");
    assert_eq!(export_format(None), Ok(ExportFormat::Json));
    assert_eq!(export_format(Some("csv")), Ok(ExportFormat::Csv));
    assert_eq!(export_format(Some("xml")), Err("Unsupported export format: xml".to_string()));
    assert_eq!(CommandFailure::new("x".to_string()).message, "x");
}

#[test]
fn rewrite_changes_report_missing_rules_and_reload_failures() {
    let business = RewriteBusiness::new(1u8, 2u8);
    assert_eq!((*business.db(), *business.engine()), (1, 2));
    assert!(matches!(update_outcome(5, Some("rule")), Ok("rule")));
    match update_outcome::<u8>(5, None) {
        Err(RewriteError::NotFound(m)) => assert_eq!(m, "Rewrite rule with id 5 not found"),
        _ => panic!("missing rule"),
    }
    assert!(delete_outcome(5, true).is_ok());
    match delete_outcome(-2, false) {
        Err(e) => assert_eq!(e.message(), "Rewrite rule with id -2 not found"),
        Ok(()) => panic!("nothing deleted"),
    }
    match reload_outcome(Err("db locked".to_string())) {
        Err(RewriteError::Internal(m)) => assert_eq!(m, "Failed to reload rewrite rules: db locked"),
        _ => panic!("reload failed"),
    }
    assert!(reload_outcome(Ok(())).is_ok());
}

#[test]
fn numeric_settings_parse_or_default() {
    assert_eq!(numeric_setting("cache_default_ttl", None, 60), Ok(60));
    assert_eq!(numeric_setting("cache_default_ttl", Some("300".to_string()), 60), Ok(300));
    assert_eq!(numeric_setting("cache_max_entries", Some("lots".to_string()), 10), Err("Invalid cache_max_entries: lots".to_string()));
}

#[test]
fn start_up_keeps_a_saved_strategy_or_defaults_to_concurrent() {
    assert_eq!(initial_strategy(None), QueryStrategy::Concurrent);
    assert_eq!(initial_strategy(Some("nonsense".to_string())), QueryStrategy::Concurrent);
    assert_eq!(initial_strategy(Some("Fastest_First".to_string())), QueryStrategy::Fastest);
    for strategy in [QueryStrategy::Concurrent, QueryStrategy::Fastest, QueryStrategy::RoundRobin, QueryStrategy::Random] {
        assert_eq!(initial_strategy(Some(strategy.as_str().to_string())), strategy);
    }
}

#[test]
fn log_searches_read_their_time_bounds_as_rfc3339() {
    let payload = LogsPayload {
        query_name: Some("example.com".to_string()),
        query_type: None,
        client_ip: Some("127.0.0.1".to_string()),
        cache_hit: Some(true),
        start_time: Some("2024-01-02T11:04:05.25+08:00".to_string()),
        end_time: Some("yesterday".to_string()),
        limit: Some(50),
        offset: None,
    };
    let filter = payload.into_filter();
    assert_eq!(filter.start_time, Some(UtcInstant { seconds: 1_704_164_645, nanos: 250_000_000 }));
    assert_eq!(filter.end_time, None);
    assert_eq!(filter.query_name.as_deref(), Some("example.com"));
    assert_eq!(filter.client_ip.as_deref(), Some("127.0.0.1"));
    assert_eq!(filter.cache_hit, Some(true));
    assert_eq!(filter.limit, Some(50));
    assert_eq!(filter.offset, None);
    let utc = LogsPayload {
        query_name: None,
        query_type: Some("AAAA".to_string()),
        client_ip: None,
        cache_hit: None,
        start_time: None,
        end_time: Some("2024-01-02T03:04:05Z".to_string()),
        limit: None,
        offset: Some(10),
    }
    .into_filter();
    assert_eq!(utc.start_time, None);
    assert_eq!(utc.end_time, Some(UtcInstant { seconds: 1_704_164_645, nanos: 0 }));
    assert_eq!(utc.query_type.as_deref(), Some("AAAA"));
    assert_eq!(utc.offset, Some(10));
}

#[test]
fn strategies_are_shown_with_name_and_description() {
    let views = available_strategy_views();
    let names: Vec<&str> = views.iter().map(|v| v.name).collect();
    assert_eq!(names, vec!["concurrent", "fastest", "round_robin", "random"]);
    assert_eq!(views[1].description, "根据历史成功查询延迟选择最低延迟的健康上游，只向该上游发送查询。");
    let view = strategy_view(QueryStrategy::RoundRobin);
    assert_eq!(view.name, "round_robin");
    assert_eq!(view.description, "按顺序轮换使用健康上游，均衡分配查询。");
}

#[test]
fn strategy_changes_name_a_known_strategy() {
    assert_eq!(requested_strategy("RoundRobin"), Ok(QueryStrategy::RoundRobin));
    assert_eq!(requested_strategy("fastest_first"), Ok(QueryStrategy::Fastest));
    assert_eq!(requested_strategy("slowest"), Err("Invalid strategy".to_string()));
}

#[test]
fn home_configuration_steps_run_in_order_and_stop_at_a_failure() {
    let mut step = first_home_step();
    let mut taken = vec![step];
    loop {
        match after_home_step(step, true) {
            HomeAction::Next(next) => {
                taken.push(next);
                step = next;
            }
            HomeAction::Finish => break,
            HomeAction::Stop => panic!("nothing failed"),
        }
    }
    assert_eq!(
        taken,
        vec![
            HomeStep::ValidateBindings,
            HomeStep::SerializeBindings,
            HomeStep::UpdateListener,
            HomeStep::StoreBindings,
            HomeStep::PublishBindings,
            HomeStep::EnforceBindings
        ]
    );
    assert_eq!(after_home_step(HomeStep::UpdateListener, false), HomeAction::Stop);
    assert_eq!(Route::resolve("GET", "/api/records").method, "GET");
}

#[test]
fn log_rows_are_written_in_header_order() {
    assert_eq!(
        log_csv_row(7, "127.0.0.1", "example.com", "A", Some("NOERROR"), Some(12), true, Some("Cloudflare"), "2024-01-02 03:04:05"),
        "7,127.0.0.1,example.com,A,NOERROR,12,true,Cloudflare,2024-01-02 03:04:05\n"
    );
    assert_eq!(
        log_csv_row(-1, "::1", "x.test", "AAAA", None, None, false, None, "t"),
        "-1,::1,x.test,AAAA,,,false,,t\n"
    );
}

#[test]
fn a_rule_change_is_reported_only_after_the_reload() {
    assert_eq!(after_reload(5, Ok(())).ok(), Some(5));
    match after_reload(5, Err("bad rule".to_string())) {
        Err(e) => assert_eq!(e.message(), "Failed to reload rewrite rules: bad rule"),
        Ok(_) => panic!("reload failed"),
    }
    assert_eq!(Route::resolve("get", "/api/status").method, "GET");
}
