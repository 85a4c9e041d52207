use vstd::prelude::*;

use crate::strategy::{lowercase, strategy_from_name, strategy_name, QueryStrategy};
use crate::text::{
    ascii_uppercase, is_ascii_text, append_str, push_signed_decimal, signed_decimal, chars_of, ends_with, last_segment, last_segment_str, parse_i64_detailed, parse_i64_result, int_error_text,
    starts_with, str_ends_with, str_eq, str_starts_with, trim_end_char,
    trim_end_char_str, trim_end_seq, trim_end_str, trim_start_seq, trim_start_str,
};

verus! {

/// A failed management command, as the user interface receives it.
#[derive(Debug)]
pub struct CommandFailure {
    pub message: String,
}

impl CommandFailure {
    pub fn new(message: String) -> (f: CommandFailure)
        ensures
            f.message == message,
    {
        CommandFailure { message }
    }
}

/// The operations that the management bridge serves.
#[derive(Debug, Clone, Copy, PartialEq, Eq, Structural)]
pub enum RouteKind {
    ListRecords,
    CreateRecord,
    GetRecord,
    UpdateRecord,
    DeleteRecord,
    ListRewriteRules,
    CreateRewriteRule,
    BatchCreateRewriteRules,
    UpdateRewriteRule,
    DeleteRewriteRule,
    ListUpstreams,
    CreateUpstream,
    UpdateUpstream,
    DeleteUpstream,
    UpstreamStatus,
    ResetUpstreamHealth,
    CacheStats,
    CacheConfig,
    UpdateCacheConfig,
    ClearCache,
    ClearCacheDomain,
    CleanupCache,
    DnsQuery,
    ListListeners,
    ListenerCertificate,
    UpdateListener,
    GetSettings,
    UpdateSettings,
    SendTestAlert,
    GetStrategy,
    AvailableStrategies,
    UpdateStrategy,
    Status,
    Health,
    ListLogs,
    ExportLogs,
    LogStats,
    GetLogRetention,
    UpdateLogRetention,
    CleanupAllLogs,
    CleanupLogsBefore,
    Unsupported,
}

/// The operation that a method (upper-cased) and a path (without trailing `/`) select; the
/// first matching rule wins.
pub open spec fn route_kind_of(m: Seq<char>, p: Seq<char>) -> RouteKind {
    if m == "GET"@ && p == "/api/records"@ {
        RouteKind::ListRecords
    } else if m == "POST"@ && p == "/api/records"@ {
        RouteKind::CreateRecord
    } else if m == "GET"@ && starts_with(p, "/api/records/"@) {
        RouteKind::GetRecord
    } else if m == "PUT"@ && starts_with(p, "/api/records/"@) {
        RouteKind::UpdateRecord
    } else if m == "DELETE"@ && starts_with(p, "/api/records/"@) {
        RouteKind::DeleteRecord
    } else if m == "GET"@ && p == "/api/rewrite"@ {
        RouteKind::ListRewriteRules
    } else if m == "POST"@ && p == "/api/rewrite"@ {
        RouteKind::CreateRewriteRule
    } else if m == "POST"@ && p == "/api/rewrite/batch"@ {
        RouteKind::BatchCreateRewriteRules
    } else if m == "PUT"@ && starts_with(p, "/api/rewrite/"@) {
        RouteKind::UpdateRewriteRule
    } else if m == "DELETE"@ && starts_with(p, "/api/rewrite/"@) {
        RouteKind::DeleteRewriteRule
    } else if m == "GET"@ && p == "/api/upstreams"@ {
        RouteKind::ListUpstreams
    } else if m == "POST"@ && p == "/api/upstreams"@ {
        RouteKind::CreateUpstream
    } else if m == "PUT"@ && starts_with(p, "/api/upstreams/"@) && !ends_with(p, "reset-health"@) {
        RouteKind::UpdateUpstream
    } else if m == "DELETE"@ && starts_with(p, "/api/upstreams/"@) {
        RouteKind::DeleteUpstream
    } else if m == "GET"@ && p == "/api/upstreams/status"@ {
        RouteKind::UpstreamStatus
    } else if m == "POST"@ && ends_with(p, "/reset-health"@) {
        RouteKind::ResetUpstreamHealth
    } else if m == "GET"@ && p == "/api/cache/stats"@ {
        RouteKind::CacheStats
    } else if m == "GET"@ && p == "/api/cache/config"@ {
        RouteKind::CacheConfig
    } else if m == "PUT"@ && p == "/api/cache/config"@ {
        RouteKind::UpdateCacheConfig
    } else if m == "POST"@ && p == "/api/cache/clear"@ {
        RouteKind::ClearCache
    } else if m == "POST"@ && starts_with(p, "/api/cache/clear/"@) {
        RouteKind::ClearCacheDomain
    } else if m == "POST"@ && p == "/api/cache/cleanup"@ {
        RouteKind::CleanupCache
    } else if m == "POST"@ && p == "/api/dns/query"@ {
        RouteKind::DnsQuery
    } else if m == "GET"@ && p == "/api/listeners"@ {
        RouteKind::ListListeners
    } else if m == "GET"@ && ends_with(p, "/cert"@) {
        RouteKind::ListenerCertificate
    } else if m == "PUT"@ && starts_with(p, "/api/listeners/"@) {
        RouteKind::UpdateListener
    } else if m == "GET"@ && p == "/api/settings"@ {
        RouteKind::GetSettings
    } else if m == "PUT"@ && p == "/api/settings"@ {
        RouteKind::UpdateSettings
    } else if m == "POST"@ && p == "/api/settings/test-alert"@ {
        RouteKind::SendTestAlert
    } else if m == "GET"@ && p == "/api/strategy"@ {
        RouteKind::GetStrategy
    } else if m == "GET"@ && p == "/api/strategy/available"@ {
        RouteKind::AvailableStrategies
    } else if m == "PUT"@ && p == "/api/strategy"@ {
        RouteKind::UpdateStrategy
    } else if m == "GET"@ && p == "/api/status"@ {
        RouteKind::Status
    } else if m == "GET"@ && p == "/api/status/health"@ {
        RouteKind::Health
    } else if m == "GET"@ && p == "/api/logs"@ {
        RouteKind::ListLogs
    } else if m == "GET"@ && p == "/api/logs/export"@ {
        RouteKind::ExportLogs
    } else if m == "GET"@ && p == "/api/logs/stats"@ {
        RouteKind::LogStats
    } else if m == "GET"@ && p == "/api/logs/retention"@ {
        RouteKind::GetLogRetention
    } else if m == "PUT"@ && p == "/api/logs/retention"@ {
        RouteKind::UpdateLogRetention
    } else if m == "DELETE"@ && p == "/api/logs/cleanup/all"@ {
        RouteKind::CleanupAllLogs
    } else if m == "DELETE"@ && p == "/api/logs/cleanup/before"@ {
        RouteKind::CleanupLogsBefore
    } else {
        RouteKind::Unsupported
    }
}

/// Each operation is selected only by its own rule of the table: its method, and its exact
/// path or the path prefix or suffix it serves.
pub proof fn law_each_operation_has_its_own_rule(m: Seq<char>, p: Seq<char>)
    ensures
        route_kind_of(m, p) == RouteKind::ListRecords ==> (m == "GET"@ && p == "/api/records"@),
        route_kind_of(m, p) == RouteKind::CreateRecord ==> (m == "POST"@ && p == "/api/records"@),
        route_kind_of(m, p) == RouteKind::GetRecord ==> (m == "GET"@ && starts_with(p, "/api/records/"@)),
        route_kind_of(m, p) == RouteKind::UpdateRecord ==> (m == "PUT"@ && starts_with(p, "/api/records/"@)),
        route_kind_of(m, p) == RouteKind::DeleteRecord ==> (m == "DELETE"@ && starts_with(p, "/api/records/"@)),
        route_kind_of(m, p) == RouteKind::ListRewriteRules ==> (m == "GET"@ && p == "/api/rewrite"@),
        route_kind_of(m, p) == RouteKind::CreateRewriteRule ==> (m == "POST"@ && p == "/api/rewrite"@),
        route_kind_of(m, p) == RouteKind::BatchCreateRewriteRules ==> (m == "POST"@ && p == "/api/rewrite/batch"@),
        route_kind_of(m, p) == RouteKind::UpdateRewriteRule ==> (m == "PUT"@ && starts_with(p, "/api/rewrite/"@)),
        route_kind_of(m, p) == RouteKind::DeleteRewriteRule ==> (m == "DELETE"@ && starts_with(p, "/api/rewrite/"@)),
        route_kind_of(m, p) == RouteKind::ListUpstreams ==> (m == "GET"@ && p == "/api/upstreams"@),
        route_kind_of(m, p) == RouteKind::CreateUpstream ==> (m == "POST"@ && p == "/api/upstreams"@),
        route_kind_of(m, p) == RouteKind::UpdateUpstream ==> (m == "PUT"@ && starts_with(p, "/api/upstreams/"@) && !ends_with(p, "reset-health"@)),
        route_kind_of(m, p) == RouteKind::DeleteUpstream ==> (m == "DELETE"@ && starts_with(p, "/api/upstreams/"@)),
        route_kind_of(m, p) == RouteKind::UpstreamStatus ==> (m == "GET"@ && p == "/api/upstreams/status"@),
        route_kind_of(m, p) == RouteKind::ResetUpstreamHealth ==> (m == "POST"@ && ends_with(p, "/reset-health"@)),
        route_kind_of(m, p) == RouteKind::CacheStats ==> (m == "GET"@ && p == "/api/cache/stats"@),
        route_kind_of(m, p) == RouteKind::CacheConfig ==> (m == "GET"@ && p == "/api/cache/config"@),
        route_kind_of(m, p) == RouteKind::UpdateCacheConfig ==> (m == "PUT"@ && p == "/api/cache/config"@),
        route_kind_of(m, p) == RouteKind::ClearCache ==> (m == "POST"@ && p == "/api/cache/clear"@),
        route_kind_of(m, p) == RouteKind::ClearCacheDomain ==> (m == "POST"@ && starts_with(p, "/api/cache/clear/"@)),
        route_kind_of(m, p) == RouteKind::CleanupCache ==> (m == "POST"@ && p == "/api/cache/cleanup"@),
        route_kind_of(m, p) == RouteKind::DnsQuery ==> (m == "POST"@ && p == "/api/dns/query"@),
        route_kind_of(m, p) == RouteKind::ListListeners ==> (m == "GET"@ && p == "/api/listeners"@),
        route_kind_of(m, p) == RouteKind::ListenerCertificate ==> (m == "GET"@ && ends_with(p, "/cert"@)),
        route_kind_of(m, p) == RouteKind::UpdateListener ==> (m == "PUT"@ && starts_with(p, "/api/listeners/"@)),
        route_kind_of(m, p) == RouteKind::GetSettings ==> (m == "GET"@ && p == "/api/settings"@),
        route_kind_of(m, p) == RouteKind::UpdateSettings ==> (m == "PUT"@ && p == "/api/settings"@),
        route_kind_of(m, p) == RouteKind::SendTestAlert ==> (m == "POST"@ && p == "/api/settings/test-alert"@),
        route_kind_of(m, p) == RouteKind::GetStrategy ==> (m == "GET"@ && p == "/api/strategy"@),
        route_kind_of(m, p) == RouteKind::AvailableStrategies ==> (m == "GET"@ && p == "/api/strategy/available"@),
        route_kind_of(m, p) == RouteKind::UpdateStrategy ==> (m == "PUT"@ && p == "/api/strategy"@),
        route_kind_of(m, p) == RouteKind::Status ==> (m == "GET"@ && p == "/api/status"@),
        route_kind_of(m, p) == RouteKind::Health ==> (m == "GET"@ && p == "/api/status/health"@),
        route_kind_of(m, p) == RouteKind::ListLogs ==> (m == "GET"@ && p == "/api/logs"@),
        route_kind_of(m, p) == RouteKind::ExportLogs ==> (m == "GET"@ && p == "/api/logs/export"@),
        route_kind_of(m, p) == RouteKind::LogStats ==> (m == "GET"@ && p == "/api/logs/stats"@),
        route_kind_of(m, p) == RouteKind::GetLogRetention ==> (m == "GET"@ && p == "/api/logs/retention"@),
        route_kind_of(m, p) == RouteKind::UpdateLogRetention ==> (m == "PUT"@ && p == "/api/logs/retention"@),
        route_kind_of(m, p) == RouteKind::CleanupAllLogs ==> (m == "DELETE"@ && p == "/api/logs/cleanup/all"@),
        route_kind_of(m, p) == RouteKind::CleanupLogsBefore ==> (m == "DELETE"@ && p == "/api/logs/cleanup/before"@),
{
}

/// Every exact rule of the table resolves its own method and path to its own operation.
pub proof fn law_exact_rules_resolve_to_their_operations()
    ensures
        route_kind_of("GET"@, "/api/records"@) == RouteKind::ListRecords,
        route_kind_of("POST"@, "/api/records"@) == RouteKind::CreateRecord,
        route_kind_of("GET"@, "/api/rewrite"@) == RouteKind::ListRewriteRules,
        route_kind_of("POST"@, "/api/rewrite"@) == RouteKind::CreateRewriteRule,
        route_kind_of("POST"@, "/api/rewrite/batch"@) == RouteKind::BatchCreateRewriteRules,
        route_kind_of("GET"@, "/api/upstreams"@) == RouteKind::ListUpstreams,
        route_kind_of("POST"@, "/api/upstreams"@) == RouteKind::CreateUpstream,
        route_kind_of("GET"@, "/api/upstreams/status"@) == RouteKind::UpstreamStatus,
        route_kind_of("GET"@, "/api/cache/stats"@) == RouteKind::CacheStats,
        route_kind_of("GET"@, "/api/cache/config"@) == RouteKind::CacheConfig,
        route_kind_of("PUT"@, "/api/cache/config"@) == RouteKind::UpdateCacheConfig,
        route_kind_of("POST"@, "/api/cache/clear"@) == RouteKind::ClearCache,
        route_kind_of("POST"@, "/api/cache/cleanup"@) == RouteKind::CleanupCache,
        route_kind_of("POST"@, "/api/dns/query"@) == RouteKind::DnsQuery,
        route_kind_of("GET"@, "/api/listeners"@) == RouteKind::ListListeners,
        route_kind_of("GET"@, "/api/settings"@) == RouteKind::GetSettings,
        route_kind_of("PUT"@, "/api/settings"@) == RouteKind::UpdateSettings,
        route_kind_of("POST"@, "/api/settings/test-alert"@) == RouteKind::SendTestAlert,
        route_kind_of("GET"@, "/api/strategy"@) == RouteKind::GetStrategy,
        route_kind_of("GET"@, "/api/strategy/available"@) == RouteKind::AvailableStrategies,
        route_kind_of("PUT"@, "/api/strategy"@) == RouteKind::UpdateStrategy,
        route_kind_of("GET"@, "/api/status"@) == RouteKind::Status,
        route_kind_of("GET"@, "/api/status/health"@) == RouteKind::Health,
        route_kind_of("GET"@, "/api/logs"@) == RouteKind::ListLogs,
        route_kind_of("GET"@, "/api/logs/export"@) == RouteKind::ExportLogs,
        route_kind_of("GET"@, "/api/logs/stats"@) == RouteKind::LogStats,
        route_kind_of("GET"@, "/api/logs/retention"@) == RouteKind::GetLogRetention,
        route_kind_of("PUT"@, "/api/logs/retention"@) == RouteKind::UpdateLogRetention,
        route_kind_of("DELETE"@, "/api/logs/cleanup/all"@) == RouteKind::CleanupAllLogs,
        route_kind_of("DELETE"@, "/api/logs/cleanup/before"@) == RouteKind::CleanupLogsBefore,
{
    reveal_strlit("/api/cache/cleanup");
    reveal_strlit("/api/cache/clear");
    reveal_strlit("/api/cache/clear/");
    reveal_strlit("/api/cache/config");
    reveal_strlit("/api/cache/stats");
    reveal_strlit("/api/dns/query");
    reveal_strlit("/api/listeners");
    reveal_strlit("/api/listeners/");
    reveal_strlit("/api/logs");
    reveal_strlit("/api/logs/cleanup/all");
    reveal_strlit("/api/logs/cleanup/before");
    reveal_strlit("/api/logs/export");
    reveal_strlit("/api/logs/retention");
    reveal_strlit("/api/logs/stats");
    reveal_strlit("/api/records");
    reveal_strlit("/api/records/");
    reveal_strlit("/api/rewrite");
    reveal_strlit("/api/rewrite/");
    reveal_strlit("/api/rewrite/batch");
    reveal_strlit("/api/settings");
    reveal_strlit("/api/settings/test-alert");
    reveal_strlit("/api/status");
    reveal_strlit("/api/status/health");
    reveal_strlit("/api/strategy");
    reveal_strlit("/api/strategy/available");
    reveal_strlit("/api/upstreams");
    reveal_strlit("/api/upstreams/");
    reveal_strlit("/api/upstreams/status");
    reveal_strlit("/cert");
    reveal_strlit("/reset-health");
    reveal_strlit("DELETE");
    reveal_strlit("GET");
    reveal_strlit("POST");
    reveal_strlit("PUT");
    assert(route_kind_of("GET"@, "/api/records"@) == RouteKind::ListRecords) by {

    }
    assert(route_kind_of("POST"@, "/api/records"@) == RouteKind::CreateRecord) by {
        assert("POST"@.len() != "GET"@.len());
    }
    assert(route_kind_of("GET"@, "/api/rewrite"@) == RouteKind::ListRewriteRules) by {
        assert("/api/rewrite"@[7] != "/api/records"@[7]);
        assert("GET"@.len() != "POST"@.len());
        assert("/api/records/"@.len() > "/api/rewrite"@.len());
        assert("GET"@[0] != "PUT"@[0]);
        assert("GET"@.len() != "DELETE"@.len());
    }
    assert(route_kind_of("POST"@, "/api/rewrite"@) == RouteKind::CreateRewriteRule) by {
        assert("POST"@.len() != "GET"@.len());
        assert("/api/rewrite"@[7] != "/api/records"@[7]);
        assert("POST"@.len() != "GET"@.len());
        assert("POST"@.len() != "PUT"@.len());
        assert("POST"@.len() != "DELETE"@.len());
        assert("POST"@.len() != "GET"@.len());
    }
    assert(route_kind_of("POST"@, "/api/rewrite/batch"@) == RouteKind::BatchCreateRewriteRules) by {
        assert("POST"@.len() != "GET"@.len());
        assert("/api/rewrite/batch"@.len() != "/api/records"@.len());
        assert("POST"@.len() != "GET"@.len());
        assert("POST"@.len() != "PUT"@.len());
        assert("POST"@.len() != "DELETE"@.len());
        assert("POST"@.len() != "GET"@.len());
        assert("/api/rewrite/batch"@.len() != "/api/rewrite"@.len());
    }
    assert(route_kind_of("GET"@, "/api/upstreams"@) == RouteKind::ListUpstreams) by {
        assert("/api/upstreams"@.len() != "/api/records"@.len());
        assert("GET"@.len() != "POST"@.len());
        assert("/api/upstreams"@.subrange(0, 13)[5] != "/api/records/"@[5]);
        assert("GET"@[0] != "PUT"@[0]);
        assert("GET"@.len() != "DELETE"@.len());
        assert("/api/upstreams"@.len() != "/api/rewrite"@.len());
        assert("GET"@.len() != "POST"@.len());
        assert("GET"@.len() != "POST"@.len());
        assert("GET"@[0] != "PUT"@[0]);
        assert("GET"@.len() != "DELETE"@.len());
    }
    assert(route_kind_of("POST"@, "/api/upstreams"@) == RouteKind::CreateUpstream) by {
        assert("POST"@.len() != "GET"@.len());
        assert("/api/upstreams"@.len() != "/api/records"@.len());
        assert("POST"@.len() != "GET"@.len());
        assert("POST"@.len() != "PUT"@.len());
        assert("POST"@.len() != "DELETE"@.len());
        assert("POST"@.len() != "GET"@.len());
        assert("/api/upstreams"@.len() != "/api/rewrite"@.len());
        assert("/api/upstreams"@.len() != "/api/rewrite/batch"@.len());
        assert("POST"@.len() != "PUT"@.len());
        assert("POST"@.len() != "DELETE"@.len());
        assert("POST"@.len() != "GET"@.len());
    }
    assert(route_kind_of("GET"@, "/api/upstreams/status"@) == RouteKind::UpstreamStatus) by {
        assert("/api/upstreams/status"@.len() != "/api/records"@.len());
        assert("GET"@.len() != "POST"@.len());
        assert("/api/upstreams/status"@.subrange(0, 13)[5] != "/api/records/"@[5]);
        assert("GET"@[0] != "PUT"@[0]);
        assert("GET"@.len() != "DELETE"@.len());
        assert("/api/upstreams/status"@.len() != "/api/rewrite"@.len());
        assert("GET"@.len() != "POST"@.len());
        assert("GET"@.len() != "POST"@.len());
        assert("GET"@[0] != "PUT"@[0]);
        assert("GET"@.len() != "DELETE"@.len());
        assert("/api/upstreams/status"@.len() != "/api/upstreams"@.len());
        assert("GET"@.len() != "POST"@.len());
        assert("GET"@[0] != "PUT"@[0]);
        assert("GET"@.len() != "DELETE"@.len());
    }
    assert(route_kind_of("GET"@, "/api/cache/stats"@) == RouteKind::CacheStats) by {
        assert("/api/cache/stats"@.len() != "/api/records"@.len());
        assert("GET"@.len() != "POST"@.len());
        assert("/api/cache/stats"@.subrange(0, 13)[5] != "/api/records/"@[5]);
        assert("GET"@[0] != "PUT"@[0]);
        assert("GET"@.len() != "DELETE"@.len());
        assert("/api/cache/stats"@.len() != "/api/rewrite"@.len());
        assert("GET"@.len() != "POST"@.len());
        assert("GET"@.len() != "POST"@.len());
        assert("GET"@[0] != "PUT"@[0]);
        assert("GET"@.len() != "DELETE"@.len());
        assert("/api/cache/stats"@.len() != "/api/upstreams"@.len());
        assert("GET"@.len() != "POST"@.len());
        assert("GET"@[0] != "PUT"@[0]);
        assert("GET"@.len() != "DELETE"@.len());
        assert("/api/cache/stats"@.len() != "/api/upstreams/status"@.len());
        assert("GET"@.len() != "POST"@.len());
    }
    assert(route_kind_of("GET"@, "/api/cache/config"@) == RouteKind::CacheConfig) by {
        assert("/api/cache/config"@.len() != "/api/records"@.len());
        assert("GET"@.len() != "POST"@.len());
        assert("/api/cache/config"@.subrange(0, 13)[5] != "/api/records/"@[5]);
        assert("GET"@[0] != "PUT"@[0]);
        assert("GET"@.len() != "DELETE"@.len());
        assert("/api/cache/config"@.len() != "/api/rewrite"@.len());
        assert("GET"@.len() != "POST"@.len());
        assert("GET"@.len() != "POST"@.len());
        assert("GET"@[0] != "PUT"@[0]);
        assert("GET"@.len() != "DELETE"@.len());
        assert("/api/cache/config"@.len() != "/api/upstreams"@.len());
        assert("GET"@.len() != "POST"@.len());
        assert("GET"@[0] != "PUT"@[0]);
        assert("GET"@.len() != "DELETE"@.len());
        assert("/api/cache/config"@.len() != "/api/upstreams/status"@.len());
        assert("GET"@.len() != "POST"@.len());
        assert("/api/cache/config"@.len() != "/api/cache/stats"@.len());
    }
    assert(route_kind_of("PUT"@, "/api/cache/config"@) == RouteKind::UpdateCacheConfig) by {
        assert("PUT"@[0] != "GET"@[0]);
        assert("PUT"@.len() != "POST"@.len());
        assert("PUT"@[0] != "GET"@[0]);
        assert("/api/cache/config"@.subrange(0, 13)[5] != "/api/records/"@[5]);
        assert("PUT"@.len() != "DELETE"@.len());
        assert("PUT"@[0] != "GET"@[0]);
        assert("PUT"@.len() != "POST"@.len());
        assert("PUT"@.len() != "POST"@.len());
        assert("/api/cache/config"@.subrange(0, 13)[5] != "/api/rewrite/"@[5]);
        assert("PUT"@.len() != "DELETE"@.len());
        assert("PUT"@[0] != "GET"@[0]);
        assert("PUT"@.len() != "POST"@.len());
        assert("/api/cache/config"@.subrange(0, 15)[5] != "/api/upstreams/"@[5]);
        assert("PUT"@.len() != "DELETE"@.len());
        assert("PUT"@[0] != "GET"@[0]);
        assert("PUT"@.len() != "POST"@.len());
        assert("PUT"@[0] != "GET"@[0]);
        assert("PUT"@[0] != "GET"@[0]);
    }
    assert(route_kind_of("POST"@, "/api/cache/clear"@) == RouteKind::ClearCache) by {
        assert("POST"@.len() != "GET"@.len());
        assert("/api/cache/clear"@.len() != "/api/records"@.len());
        assert("POST"@.len() != "GET"@.len());
        assert("POST"@.len() != "PUT"@.len());
        assert("POST"@.len() != "DELETE"@.len());
        assert("POST"@.len() != "GET"@.len());
        assert("/api/cache/clear"@.len() != "/api/rewrite"@.len());
        assert("/api/cache/clear"@.len() != "/api/rewrite/batch"@.len());
        assert("POST"@.len() != "PUT"@.len());
        assert("POST"@.len() != "DELETE"@.len());
        assert("POST"@.len() != "GET"@.len());
        assert("/api/cache/clear"@.len() != "/api/upstreams"@.len());
        assert("POST"@.len() != "PUT"@.len());
        assert("POST"@.len() != "DELETE"@.len());
        assert("POST"@.len() != "GET"@.len());
        assert("/api/cache/clear"@.subrange(3, 16)[0] != "/reset-health"@[0]);
        assert("POST"@.len() != "GET"@.len());
        assert("POST"@.len() != "GET"@.len());
        assert("POST"@.len() != "PUT"@.len());
    }
    assert(route_kind_of("POST"@, "/api/cache/cleanup"@) == RouteKind::CleanupCache) by {
        assert("POST"@.len() != "GET"@.len());
        assert("/api/cache/cleanup"@.len() != "/api/records"@.len());
        assert("POST"@.len() != "GET"@.len());
        assert("POST"@.len() != "PUT"@.len());
        assert("POST"@.len() != "DELETE"@.len());
        assert("POST"@.len() != "GET"@.len());
        assert("/api/cache/cleanup"@.len() != "/api/rewrite"@.len());
        assert("/api/cache/cleanup"@[5] != "/api/rewrite/batch"@[5]);
        assert("POST"@.len() != "PUT"@.len());
        assert("POST"@.len() != "DELETE"@.len());
        assert("POST"@.len() != "GET"@.len());
        assert("/api/cache/cleanup"@.len() != "/api/upstreams"@.len());
        assert("POST"@.len() != "PUT"@.len());
        assert("POST"@.len() != "DELETE"@.len());
        assert("POST"@.len() != "GET"@.len());
        assert("/api/cache/cleanup"@.subrange(5, 18)[0] != "/reset-health"@[0]);
        assert("POST"@.len() != "GET"@.len());
        assert("POST"@.len() != "GET"@.len());
        assert("POST"@.len() != "PUT"@.len());
        assert("/api/cache/cleanup"@.len() != "/api/cache/clear"@.len());
        assert("/api/cache/cleanup"@.subrange(0, 17)[15] != "/api/cache/clear/"@[15]);
    }
    assert(route_kind_of("POST"@, "/api/dns/query"@) == RouteKind::DnsQuery) by {
        assert("POST"@.len() != "GET"@.len());
        assert("/api/dns/query"@.len() != "/api/records"@.len());
        assert("POST"@.len() != "GET"@.len());
        assert("POST"@.len() != "PUT"@.len());
        assert("POST"@.len() != "DELETE"@.len());
        assert("POST"@.len() != "GET"@.len());
        assert("/api/dns/query"@.len() != "/api/rewrite"@.len());
        assert("/api/dns/query"@.len() != "/api/rewrite/batch"@.len());
        assert("POST"@.len() != "PUT"@.len());
        assert("POST"@.len() != "DELETE"@.len());
        assert("POST"@.len() != "GET"@.len());
        assert("/api/dns/query"@[5] != "/api/upstreams"@[5]);
        assert("POST"@.len() != "PUT"@.len());
        assert("POST"@.len() != "DELETE"@.len());
        assert("POST"@.len() != "GET"@.len());
        assert("/api/dns/query"@.subrange(1, 14)[0] != "/reset-health"@[0]);
        assert("POST"@.len() != "GET"@.len());
        assert("POST"@.len() != "GET"@.len());
        assert("POST"@.len() != "PUT"@.len());
        assert("/api/dns/query"@.len() != "/api/cache/clear"@.len());
        assert("/api/cache/clear/"@.len() > "/api/dns/query"@.len());
        assert("/api/dns/query"@.len() != "/api/cache/cleanup"@.len());
    }
    assert(route_kind_of("GET"@, "/api/listeners"@) == RouteKind::ListListeners) by {
        assert("/api/listeners"@.len() != "/api/records"@.len());
        assert("GET"@.len() != "POST"@.len());
        assert("/api/listeners"@.subrange(0, 13)[5] != "/api/records/"@[5]);
        assert("GET"@[0] != "PUT"@[0]);
        assert("GET"@.len() != "DELETE"@.len());
        assert("/api/listeners"@.len() != "/api/rewrite"@.len());
        assert("GET"@.len() != "POST"@.len());
        assert("GET"@.len() != "POST"@.len());
        assert("GET"@[0] != "PUT"@[0]);
        assert("GET"@.len() != "DELETE"@.len());
        assert("/api/listeners"@[5] != "/api/upstreams"@[5]);
        assert("GET"@.len() != "POST"@.len());
        assert("GET"@[0] != "PUT"@[0]);
        assert("GET"@.len() != "DELETE"@.len());
        assert("/api/listeners"@.len() != "/api/upstreams/status"@.len());
        assert("GET"@.len() != "POST"@.len());
        assert("/api/listeners"@.len() != "/api/cache/stats"@.len());
        assert("/api/listeners"@.len() != "/api/cache/config"@.len());
        assert("GET"@[0] != "PUT"@[0]);
        assert("GET"@.len() != "POST"@.len());
        assert("GET"@.len() != "POST"@.len());
        assert("GET"@.len() != "POST"@.len());
        assert("GET"@.len() != "POST"@.len());
    }
    assert(route_kind_of("GET"@, "/api/settings"@) == RouteKind::GetSettings) by {
        assert("/api/settings"@.len() != "/api/records"@.len());
        assert("GET"@.len() != "POST"@.len());
        assert("/api/settings"@.subrange(0, 13)[5] != "/api/records/"@[5]);
        assert("GET"@[0] != "PUT"@[0]);
        assert("GET"@.len() != "DELETE"@.len());
        assert("/api/settings"@.len() != "/api/rewrite"@.len());
        assert("GET"@.len() != "POST"@.len());
        assert("GET"@.len() != "POST"@.len());
        assert("GET"@[0] != "PUT"@[0]);
        assert("GET"@.len() != "DELETE"@.len());
        assert("/api/settings"@.len() != "/api/upstreams"@.len());
        assert("GET"@.len() != "POST"@.len());
        assert("GET"@[0] != "PUT"@[0]);
        assert("GET"@.len() != "DELETE"@.len());
        assert("/api/settings"@.len() != "/api/upstreams/status"@.len());
        assert("GET"@.len() != "POST"@.len());
        assert("/api/settings"@.len() != "/api/cache/stats"@.len());
        assert("/api/settings"@.len() != "/api/cache/config"@.len());
        assert("GET"@[0] != "PUT"@[0]);
        assert("GET"@.len() != "POST"@.len());
        assert("GET"@.len() != "POST"@.len());
        assert("GET"@.len() != "POST"@.len());
        assert("GET"@.len() != "POST"@.len());
        assert("/api/settings"@.len() != "/api/listeners"@.len());
        assert("/api/settings"@.subrange(8, 13)[0] != "/cert"@[0]);
        assert("GET"@[0] != "PUT"@[0]);
    }
    assert(route_kind_of("PUT"@, "/api/settings"@) == RouteKind::UpdateSettings) by {
        assert("PUT"@[0] != "GET"@[0]);
        assert("PUT"@.len() != "POST"@.len());
        assert("PUT"@[0] != "GET"@[0]);
        assert("/api/settings"@.subrange(0, 13)[5] != "/api/records/"@[5]);
        assert("PUT"@.len() != "DELETE"@.len());
        assert("PUT"@[0] != "GET"@[0]);
        assert("PUT"@.len() != "POST"@.len());
        assert("PUT"@.len() != "POST"@.len());
        assert("/api/settings"@.subrange(0, 13)[5] != "/api/rewrite/"@[5]);
        assert("PUT"@.len() != "DELETE"@.len());
        assert("PUT"@[0] != "GET"@[0]);
        assert("PUT"@.len() != "POST"@.len());
        assert("/api/upstreams/"@.len() > "/api/settings"@.len());
        assert("PUT"@.len() != "DELETE"@.len());
        assert("PUT"@[0] != "GET"@[0]);
        assert("PUT"@.len() != "POST"@.len());
        assert("PUT"@[0] != "GET"@[0]);
        assert("PUT"@[0] != "GET"@[0]);
        assert("/api/settings"@.len() != "/api/cache/config"@.len());
        assert("PUT"@.len() != "POST"@.len());
        assert("PUT"@.len() != "POST"@.len());
        assert("PUT"@.len() != "POST"@.len());
        assert("PUT"@.len() != "POST"@.len());
        assert("PUT"@[0] != "GET"@[0]);
        assert("PUT"@[0] != "GET"@[0]);
        assert("/api/listeners/"@.len() > "/api/settings"@.len());
        assert("PUT"@[0] != "GET"@[0]);
    }
    assert(route_kind_of("POST"@, "/api/settings/test-alert"@) == RouteKind::SendTestAlert) by {
        assert("POST"@.len() != "GET"@.len());
        assert("/api/settings/test-alert"@.len() != "/api/records"@.len());
        assert("POST"@.len() != "GET"@.len());
        assert("POST"@.len() != "PUT"@.len());
        assert("POST"@.len() != "DELETE"@.len());
        assert("POST"@.len() != "GET"@.len());
        assert("/api/settings/test-alert"@.len() != "/api/rewrite"@.len());
        assert("/api/settings/test-alert"@.len() != "/api/rewrite/batch"@.len());
        assert("POST"@.len() != "PUT"@.len());
        assert("POST"@.len() != "DELETE"@.len());
        assert("POST"@.len() != "GET"@.len());
        assert("/api/settings/test-alert"@.len() != "/api/upstreams"@.len());
        assert("POST"@.len() != "PUT"@.len());
        assert("POST"@.len() != "DELETE"@.len());
        assert("POST"@.len() != "GET"@.len());
        assert("/api/settings/test-alert"@.subrange(11, 24)[0] != "/reset-health"@[0]);
        assert("POST"@.len() != "GET"@.len());
        assert("POST"@.len() != "GET"@.len());
        assert("POST"@.len() != "PUT"@.len());
        assert("/api/settings/test-alert"@.len() != "/api/cache/clear"@.len());
        assert("/api/settings/test-alert"@.subrange(0, 17)[5] != "/api/cache/clear/"@[5]);
        assert("/api/settings/test-alert"@.len() != "/api/cache/cleanup"@.len());
        assert("/api/settings/test-alert"@.len() != "/api/dns/query"@.len());
        assert("POST"@.len() != "GET"@.len());
        assert("POST"@.len() != "GET"@.len());
        assert("POST"@.len() != "PUT"@.len());
        assert("POST"@.len() != "GET"@.len());
        assert("POST"@.len() != "PUT"@.len());
    }
    assert(route_kind_of("GET"@, "/api/strategy"@) == RouteKind::GetStrategy) by {
        assert("/api/strategy"@.len() != "/api/records"@.len());
        assert("GET"@.len() != "POST"@.len());
        assert("/api/strategy"@.subrange(0, 13)[5] != "/api/records/"@[5]);
        assert("GET"@[0] != "PUT"@[0]);
        assert("GET"@.len() != "DELETE"@.len());
        assert("/api/strategy"@.len() != "/api/rewrite"@.len());
        assert("GET"@.len() != "POST"@.len());
        assert("GET"@.len() != "POST"@.len());
        assert("GET"@[0] != "PUT"@[0]);
        assert("GET"@.len() != "DELETE"@.len());
        assert("/api/strategy"@.len() != "/api/upstreams"@.len());
        assert("GET"@.len() != "POST"@.len());
        assert("GET"@[0] != "PUT"@[0]);
        assert("GET"@.len() != "DELETE"@.len());
        assert("/api/strategy"@.len() != "/api/upstreams/status"@.len());
        assert("GET"@.len() != "POST"@.len());
        assert("/api/strategy"@.len() != "/api/cache/stats"@.len());
        assert("/api/strategy"@.len() != "/api/cache/config"@.len());
        assert("GET"@[0] != "PUT"@[0]);
        assert("GET"@.len() != "POST"@.len());
        assert("GET"@.len() != "POST"@.len());
        assert("GET"@.len() != "POST"@.len());
        assert("GET"@.len() != "POST"@.len());
        assert("/api/strategy"@.len() != "/api/listeners"@.len());
        assert("/api/strategy"@.subrange(8, 13)[0] != "/cert"@[0]);
        assert("GET"@[0] != "PUT"@[0]);
        assert("/api/strategy"@[6] != "/api/settings"@[6]);
        assert("GET"@[0] != "PUT"@[0]);
        assert("GET"@.len() != "POST"@.len());
    }
    assert(route_kind_of("GET"@, "/api/strategy/available"@) == RouteKind::AvailableStrategies) by {
        assert("/api/strategy/available"@.len() != "/api/records"@.len());
        assert("GET"@.len() != "POST"@.len());
        assert("/api/strategy/available"@.subrange(0, 13)[5] != "/api/records/"@[5]);
        assert("GET"@[0] != "PUT"@[0]);
        assert("GET"@.len() != "DELETE"@.len());
        assert("/api/strategy/available"@.len() != "/api/rewrite"@.len());
        assert("GET"@.len() != "POST"@.len());
        assert("GET"@.len() != "POST"@.len());
        assert("GET"@[0] != "PUT"@[0]);
        assert("GET"@.len() != "DELETE"@.len());
        assert("/api/strategy/available"@.len() != "/api/upstreams"@.len());
        assert("GET"@.len() != "POST"@.len());
        assert("GET"@[0] != "PUT"@[0]);
        assert("GET"@.len() != "DELETE"@.len());
        assert("/api/strategy/available"@.len() != "/api/upstreams/status"@.len());
        assert("GET"@.len() != "POST"@.len());
        assert("/api/strategy/available"@.len() != "/api/cache/stats"@.len());
        assert("/api/strategy/available"@.len() != "/api/cache/config"@.len());
        assert("GET"@[0] != "PUT"@[0]);
        assert("GET"@.len() != "POST"@.len());
        assert("GET"@.len() != "POST"@.len());
        assert("GET"@.len() != "POST"@.len());
        assert("GET"@.len() != "POST"@.len());
        assert("/api/strategy/available"@.len() != "/api/listeners"@.len());
        assert("/api/strategy/available"@.subrange(18, 23)[0] != "/cert"@[0]);
        assert("GET"@[0] != "PUT"@[0]);
        assert("/api/strategy/available"@.len() != "/api/settings"@.len());
        assert("GET"@[0] != "PUT"@[0]);
        assert("GET"@.len() != "POST"@.len());
        assert("/api/strategy/available"@.len() != "/api/strategy"@.len());
    }
    assert(route_kind_of("PUT"@, "/api/strategy"@) == RouteKind::UpdateStrategy) by {
        assert("PUT"@[0] != "GET"@[0]);
        assert("PUT"@.len() != "POST"@.len());
        assert("PUT"@[0] != "GET"@[0]);
        assert("/api/strategy"@.subrange(0, 13)[5] != "/api/records/"@[5]);
        assert("PUT"@.len() != "DELETE"@.len());
        assert("PUT"@[0] != "GET"@[0]);
        assert("PUT"@.len() != "POST"@.len());
        assert("PUT"@.len() != "POST"@.len());
        assert("/api/strategy"@.subrange(0, 13)[5] != "/api/rewrite/"@[5]);
        assert("PUT"@.len() != "DELETE"@.len());
        assert("PUT"@[0] != "GET"@[0]);
        assert("PUT"@.len() != "POST"@.len());
        assert("/api/upstreams/"@.len() > "/api/strategy"@.len());
        assert("PUT"@.len() != "DELETE"@.len());
        assert("PUT"@[0] != "GET"@[0]);
        assert("PUT"@.len() != "POST"@.len());
        assert("PUT"@[0] != "GET"@[0]);
        assert("PUT"@[0] != "GET"@[0]);
        assert("/api/strategy"@.len() != "/api/cache/config"@.len());
        assert("PUT"@.len() != "POST"@.len());
        assert("PUT"@.len() != "POST"@.len());
        assert("PUT"@.len() != "POST"@.len());
        assert("PUT"@.len() != "POST"@.len());
        assert("PUT"@[0] != "GET"@[0]);
        assert("PUT"@[0] != "GET"@[0]);
        assert("/api/listeners/"@.len() > "/api/strategy"@.len());
        assert("PUT"@[0] != "GET"@[0]);
        assert("/api/strategy"@[6] != "/api/settings"@[6]);
        assert("PUT"@.len() != "POST"@.len());
        assert("PUT"@[0] != "GET"@[0]);
        assert("PUT"@[0] != "GET"@[0]);
    }
    assert(route_kind_of("GET"@, "/api/status"@) == RouteKind::Status) by {
        assert("/api/status"@.len() != "/api/records"@.len());
        assert("GET"@.len() != "POST"@.len());
        assert("/api/records/"@.len() > "/api/status"@.len());
        assert("GET"@[0] != "PUT"@[0]);
        assert("GET"@.len() != "DELETE"@.len());
        assert("/api/status"@.len() != "/api/rewrite"@.len());
        assert("GET"@.len() != "POST"@.len());
        assert("GET"@.len() != "POST"@.len());
        assert("GET"@[0] != "PUT"@[0]);
        assert("GET"@.len() != "DELETE"@.len());
        assert("/api/status"@.len() != "/api/upstreams"@.len());
        assert("GET"@.len() != "POST"@.len());
        assert("GET"@[0] != "PUT"@[0]);
        assert("GET"@.len() != "DELETE"@.len());
        assert("/api/status"@.len() != "/api/upstreams/status"@.len());
        assert("GET"@.len() != "POST"@.len());
        assert("/api/status"@.len() != "/api/cache/stats"@.len());
        assert("/api/status"@.len() != "/api/cache/config"@.len());
        assert("GET"@[0] != "PUT"@[0]);
        assert("GET"@.len() != "POST"@.len());
        assert("GET"@.len() != "POST"@.len());
        assert("GET"@.len() != "POST"@.len());
        assert("GET"@.len() != "POST"@.len());
        assert("/api/status"@.len() != "/api/listeners"@.len());
        assert("/api/status"@.subrange(6, 11)[0] != "/cert"@[0]);
        assert("GET"@[0] != "PUT"@[0]);
        assert("/api/status"@.len() != "/api/settings"@.len());
        assert("GET"@[0] != "PUT"@[0]);
        assert("GET"@.len() != "POST"@.len());
        assert("/api/status"@.len() != "/api/strategy"@.len());
        assert("/api/status"@.len() != "/api/strategy/available"@.len());
        assert("GET"@[0] != "PUT"@[0]);
    }
    assert(route_kind_of("GET"@, "/api/status/health"@) == RouteKind::Health) by {
        assert("/api/status/health"@.len() != "/api/records"@.len());
        assert("GET"@.len() != "POST"@.len());
        assert("/api/status/health"@.subrange(0, 13)[5] != "/api/records/"@[5]);
        assert("GET"@[0] != "PUT"@[0]);
        assert("GET"@.len() != "DELETE"@.len());
        assert("/api/status/health"@.len() != "/api/rewrite"@.len());
        assert("GET"@.len() != "POST"@.len());
        assert("GET"@.len() != "POST"@.len());
        assert("GET"@[0] != "PUT"@[0]);
        assert("GET"@.len() != "DELETE"@.len());
        assert("/api/status/health"@.len() != "/api/upstreams"@.len());
        assert("GET"@.len() != "POST"@.len());
        assert("GET"@[0] != "PUT"@[0]);
        assert("GET"@.len() != "DELETE"@.len());
        assert("/api/status/health"@.len() != "/api/upstreams/status"@.len());
        assert("GET"@.len() != "POST"@.len());
        assert("/api/status/health"@.len() != "/api/cache/stats"@.len());
        assert("/api/status/health"@.len() != "/api/cache/config"@.len());
        assert("GET"@[0] != "PUT"@[0]);
        assert("GET"@.len() != "POST"@.len());
        assert("GET"@.len() != "POST"@.len());
        assert("GET"@.len() != "POST"@.len());
        assert("GET"@.len() != "POST"@.len());
        assert("/api/status/health"@.len() != "/api/listeners"@.len());
        assert("/api/status/health"@.subrange(13, 18)[0] != "/cert"@[0]);
        assert("GET"@[0] != "PUT"@[0]);
        assert("/api/status/health"@.len() != "/api/settings"@.len());
        assert("GET"@[0] != "PUT"@[0]);
        assert("GET"@.len() != "POST"@.len());
        assert("/api/status/health"@.len() != "/api/strategy"@.len());
        assert("/api/status/health"@.len() != "/api/strategy/available"@.len());
        assert("GET"@[0] != "PUT"@[0]);
        assert("/api/status/health"@.len() != "/api/status"@.len());
    }
    assert(route_kind_of("GET"@, "/api/logs"@) == RouteKind::ListLogs) by {
        assert("/api/logs"@.len() != "/api/records"@.len());
        assert("GET"@.len() != "POST"@.len());
        assert("/api/records/"@.len() > "/api/logs"@.len());
        assert("GET"@[0] != "PUT"@[0]);
        assert("GET"@.len() != "DELETE"@.len());
        assert("/api/logs"@.len() != "/api/rewrite"@.len());
        assert("GET"@.len() != "POST"@.len());
        assert("GET"@.len() != "POST"@.len());
        assert("GET"@[0] != "PUT"@[0]);
        assert("GET"@.len() != "DELETE"@.len());
        assert("/api/logs"@.len() != "/api/upstreams"@.len());
        assert("GET"@.len() != "POST"@.len());
        assert("GET"@[0] != "PUT"@[0]);
        assert("GET"@.len() != "DELETE"@.len());
        assert("/api/logs"@.len() != "/api/upstreams/status"@.len());
        assert("GET"@.len() != "POST"@.len());
        assert("/api/logs"@.len() != "/api/cache/stats"@.len());
        assert("/api/logs"@.len() != "/api/cache/config"@.len());
        assert("GET"@[0] != "PUT"@[0]);
        assert("GET"@.len() != "POST"@.len());
        assert("GET"@.len() != "POST"@.len());
        assert("GET"@.len() != "POST"@.len());
        assert("GET"@.len() != "POST"@.len());
        assert("/api/logs"@.len() != "/api/listeners"@.len());
        assert("/api/logs"@.subrange(4, 9)[1] != "/cert"@[1]);
        assert("GET"@[0] != "PUT"@[0]);
        assert("/api/logs"@.len() != "/api/settings"@.len());
        assert("GET"@[0] != "PUT"@[0]);
        assert("GET"@.len() != "POST"@.len());
        assert("/api/logs"@.len() != "/api/strategy"@.len());
        assert("/api/logs"@.len() != "/api/strategy/available"@.len());
        assert("GET"@[0] != "PUT"@[0]);
        assert("/api/logs"@.len() != "/api/status"@.len());
        assert("/api/logs"@.len() != "/api/status/health"@.len());
    }
    assert(route_kind_of("GET"@, "/api/logs/export"@) == RouteKind::ExportLogs) by {
        assert("/api/logs/export"@.len() != "/api/records"@.len());
        assert("GET"@.len() != "POST"@.len());
        assert("/api/logs/export"@.subrange(0, 13)[5] != "/api/records/"@[5]);
        assert("GET"@[0] != "PUT"@[0]);
        assert("GET"@.len() != "DELETE"@.len());
        assert("/api/logs/export"@.len() != "/api/rewrite"@.len());
        assert("GET"@.len() != "POST"@.len());
        assert("GET"@.len() != "POST"@.len());
        assert("GET"@[0] != "PUT"@[0]);
        assert("GET"@.len() != "DELETE"@.len());
        assert("/api/logs/export"@.len() != "/api/upstreams"@.len());
        assert("GET"@.len() != "POST"@.len());
        assert("GET"@[0] != "PUT"@[0]);
        assert("GET"@.len() != "DELETE"@.len());
        assert("/api/logs/export"@.len() != "/api/upstreams/status"@.len());
        assert("GET"@.len() != "POST"@.len());
        assert("/api/logs/export"@[5] != "/api/cache/stats"@[5]);
        assert("/api/logs/export"@.len() != "/api/cache/config"@.len());
        assert("GET"@[0] != "PUT"@[0]);
        assert("GET"@.len() != "POST"@.len());
        assert("GET"@.len() != "POST"@.len());
        assert("GET"@.len() != "POST"@.len());
        assert("GET"@.len() != "POST"@.len());
        assert("/api/logs/export"@.len() != "/api/listeners"@.len());
        assert("/api/logs/export"@.subrange(11, 16)[0] != "/cert"@[0]);
        assert("GET"@[0] != "PUT"@[0]);
        assert("/api/logs/export"@.len() != "/api/settings"@.len());
        assert("GET"@[0] != "PUT"@[0]);
        assert("GET"@.len() != "POST"@.len());
        assert("/api/logs/export"@.len() != "/api/strategy"@.len());
        assert("/api/logs/export"@.len() != "/api/strategy/available"@.len());
        assert("GET"@[0] != "PUT"@[0]);
        assert("/api/logs/export"@.len() != "/api/status"@.len());
        assert("/api/logs/export"@.len() != "/api/status/health"@.len());
        assert("/api/logs/export"@.len() != "/api/logs"@.len());
    }
    assert(route_kind_of("GET"@, "/api/logs/stats"@) == RouteKind::LogStats) by {
        assert("/api/logs/stats"@.len() != "/api/records"@.len());
        assert("GET"@.len() != "POST"@.len());
        assert("/api/logs/stats"@.subrange(0, 13)[5] != "/api/records/"@[5]);
        assert("GET"@[0] != "PUT"@[0]);
        assert("GET"@.len() != "DELETE"@.len());
        assert("/api/logs/stats"@.len() != "/api/rewrite"@.len());
        assert("GET"@.len() != "POST"@.len());
        assert("GET"@.len() != "POST"@.len());
        assert("GET"@[0] != "PUT"@[0]);
        assert("GET"@.len() != "DELETE"@.len());
        assert("/api/logs/stats"@.len() != "/api/upstreams"@.len());
        assert("GET"@.len() != "POST"@.len());
        assert("GET"@[0] != "PUT"@[0]);
        assert("GET"@.len() != "DELETE"@.len());
        assert("/api/logs/stats"@.len() != "/api/upstreams/status"@.len());
        assert("GET"@.len() != "POST"@.len());
        assert("/api/logs/stats"@.len() != "/api/cache/stats"@.len());
        assert("/api/logs/stats"@.len() != "/api/cache/config"@.len());
        assert("GET"@[0] != "PUT"@[0]);
        assert("GET"@.len() != "POST"@.len());
        assert("GET"@.len() != "POST"@.len());
        assert("GET"@.len() != "POST"@.len());
        assert("GET"@.len() != "POST"@.len());
        assert("/api/logs/stats"@.len() != "/api/listeners"@.len());
        assert("/api/logs/stats"@.subrange(10, 15)[0] != "/cert"@[0]);
        assert("GET"@[0] != "PUT"@[0]);
        assert("/api/logs/stats"@.len() != "/api/settings"@.len());
        assert("GET"@[0] != "PUT"@[0]);
        assert("GET"@.len() != "POST"@.len());
        assert("/api/logs/stats"@.len() != "/api/strategy"@.len());
        assert("/api/logs/stats"@.len() != "/api/strategy/available"@.len());
        assert("GET"@[0] != "PUT"@[0]);
        assert("/api/logs/stats"@.len() != "/api/status"@.len());
        assert("/api/logs/stats"@.len() != "/api/status/health"@.len());
        assert("/api/logs/stats"@.len() != "/api/logs"@.len());
        assert("/api/logs/stats"@.len() != "/api/logs/export"@.len());
    }
    assert(route_kind_of("GET"@, "/api/logs/retention"@) == RouteKind::GetLogRetention) by {
        assert("/api/logs/retention"@.len() != "/api/records"@.len());
        assert("GET"@.len() != "POST"@.len());
        assert("/api/logs/retention"@.subrange(0, 13)[5] != "/api/records/"@[5]);
        assert("GET"@[0] != "PUT"@[0]);
        assert("GET"@.len() != "DELETE"@.len());
        assert("/api/logs/retention"@.len() != "/api/rewrite"@.len());
        assert("GET"@.len() != "POST"@.len());
        assert("GET"@.len() != "POST"@.len());
        assert("GET"@[0] != "PUT"@[0]);
        assert("GET"@.len() != "DELETE"@.len());
        assert("/api/logs/retention"@.len() != "/api/upstreams"@.len());
        assert("GET"@.len() != "POST"@.len());
        assert("GET"@[0] != "PUT"@[0]);
        assert("GET"@.len() != "DELETE"@.len());
        assert("/api/logs/retention"@.len() != "/api/upstreams/status"@.len());
        assert("GET"@.len() != "POST"@.len());
        assert("/api/logs/retention"@.len() != "/api/cache/stats"@.len());
        assert("/api/logs/retention"@.len() != "/api/cache/config"@.len());
        assert("GET"@[0] != "PUT"@[0]);
        assert("GET"@.len() != "POST"@.len());
        assert("GET"@.len() != "POST"@.len());
        assert("GET"@.len() != "POST"@.len());
        assert("GET"@.len() != "POST"@.len());
        assert("/api/logs/retention"@.len() != "/api/listeners"@.len());
        assert("/api/logs/retention"@.subrange(14, 19)[0] != "/cert"@[0]);
        assert("GET"@[0] != "PUT"@[0]);
        assert("/api/logs/retention"@.len() != "/api/settings"@.len());
        assert("GET"@[0] != "PUT"@[0]);
        assert("GET"@.len() != "POST"@.len());
        assert("/api/logs/retention"@.len() != "/api/strategy"@.len());
        assert("/api/logs/retention"@.len() != "/api/strategy/available"@.len());
        assert("GET"@[0] != "PUT"@[0]);
        assert("/api/logs/retention"@.len() != "/api/status"@.len());
        assert("/api/logs/retention"@.len() != "/api/status/health"@.len());
        assert("/api/logs/retention"@.len() != "/api/logs"@.len());
        assert("/api/logs/retention"@.len() != "/api/logs/export"@.len());
        assert("/api/logs/retention"@.len() != "/api/logs/stats"@.len());
    }
    assert(route_kind_of("PUT"@, "/api/logs/retention"@) == RouteKind::UpdateLogRetention) by {
        assert("PUT"@[0] != "GET"@[0]);
        assert("PUT"@.len() != "POST"@.len());
        assert("PUT"@[0] != "GET"@[0]);
        assert("/api/logs/retention"@.subrange(0, 13)[5] != "/api/records/"@[5]);
        assert("PUT"@.len() != "DELETE"@.len());
        assert("PUT"@[0] != "GET"@[0]);
        assert("PUT"@.len() != "POST"@.len());
        assert("PUT"@.len() != "POST"@.len());
        assert("/api/logs/retention"@.subrange(0, 13)[5] != "/api/rewrite/"@[5]);
        assert("PUT"@.len() != "DELETE"@.len());
        assert("PUT"@[0] != "GET"@[0]);
        assert("PUT"@.len() != "POST"@.len());
        assert("/api/logs/retention"@.subrange(0, 15)[5] != "/api/upstreams/"@[5]);
        assert("PUT"@.len() != "DELETE"@.len());
        assert("PUT"@[0] != "GET"@[0]);
        assert("PUT"@.len() != "POST"@.len());
        assert("PUT"@[0] != "GET"@[0]);
        assert("PUT"@[0] != "GET"@[0]);
        assert("/api/logs/retention"@.len() != "/api/cache/config"@.len());
        assert("PUT"@.len() != "POST"@.len());
        assert("PUT"@.len() != "POST"@.len());
        assert("PUT"@.len() != "POST"@.len());
        assert("PUT"@.len() != "POST"@.len());
        assert("PUT"@[0] != "GET"@[0]);
        assert("PUT"@[0] != "GET"@[0]);
        assert("/api/logs/retention"@.subrange(0, 15)[6] != "/api/listeners/"@[6]);
        assert("PUT"@[0] != "GET"@[0]);
        assert("/api/logs/retention"@.len() != "/api/settings"@.len());
        assert("PUT"@.len() != "POST"@.len());
        assert("PUT"@[0] != "GET"@[0]);
        assert("PUT"@[0] != "GET"@[0]);
        assert("/api/logs/retention"@.len() != "/api/strategy"@.len());
        assert("PUT"@[0] != "GET"@[0]);
        assert("PUT"@[0] != "GET"@[0]);
        assert("PUT"@[0] != "GET"@[0]);
        assert("PUT"@[0] != "GET"@[0]);
        assert("PUT"@[0] != "GET"@[0]);
        assert("PUT"@[0] != "GET"@[0]);
    }
    assert(route_kind_of("DELETE"@, "/api/logs/cleanup/all"@) == RouteKind::CleanupAllLogs) by {
        assert("DELETE"@.len() != "GET"@.len());
        assert("DELETE"@.len() != "POST"@.len());
        assert("DELETE"@.len() != "GET"@.len());
        assert("DELETE"@.len() != "PUT"@.len());
        assert("/api/logs/cleanup/all"@.subrange(0, 13)[5] != "/api/records/"@[5]);
        assert("DELETE"@.len() != "GET"@.len());
        assert("DELETE"@.len() != "POST"@.len());
        assert("DELETE"@.len() != "POST"@.len());
        assert("DELETE"@.len() != "PUT"@.len());
        assert("/api/logs/cleanup/all"@.subrange(0, 13)[5] != "/api/rewrite/"@[5]);
        assert("DELETE"@.len() != "GET"@.len());
        assert("DELETE"@.len() != "POST"@.len());
        assert("DELETE"@.len() != "PUT"@.len());
        assert("/api/logs/cleanup/all"@.subrange(0, 15)[5] != "/api/upstreams/"@[5]);
        assert("DELETE"@.len() != "GET"@.len());
        assert("DELETE"@.len() != "POST"@.len());
        assert("DELETE"@.len() != "GET"@.len());
        assert("DELETE"@.len() != "GET"@.len());
        assert("DELETE"@.len() != "PUT"@.len());
        assert("DELETE"@.len() != "POST"@.len());
        assert("DELETE"@.len() != "POST"@.len());
        assert("DELETE"@.len() != "POST"@.len());
        assert("DELETE"@.len() != "POST"@.len());
        assert("DELETE"@.len() != "GET"@.len());
        assert("DELETE"@.len() != "GET"@.len());
        assert("DELETE"@.len() != "PUT"@.len());
        assert("DELETE"@.len() != "GET"@.len());
        assert("DELETE"@.len() != "PUT"@.len());
        assert("DELETE"@.len() != "POST"@.len());
        assert("DELETE"@.len() != "GET"@.len());
        assert("DELETE"@.len() != "GET"@.len());
        assert("DELETE"@.len() != "PUT"@.len());
        assert("DELETE"@.len() != "GET"@.len());
        assert("DELETE"@.len() != "GET"@.len());
        assert("DELETE"@.len() != "GET"@.len());
        assert("DELETE"@.len() != "GET"@.len());
        assert("DELETE"@.len() != "GET"@.len());
        assert("DELETE"@.len() != "GET"@.len());
        assert("DELETE"@.len() != "PUT"@.len());
    }
    assert(route_kind_of("DELETE"@, "/api/logs/cleanup/before"@) == RouteKind::CleanupLogsBefore) by {
        assert("DELETE"@.len() != "GET"@.len());
        assert("DELETE"@.len() != "POST"@.len());
        assert("DELETE"@.len() != "GET"@.len());
        assert("DELETE"@.len() != "PUT"@.len());
        assert("/api/logs/cleanup/before"@.subrange(0, 13)[5] != "/api/records/"@[5]);
        assert("DELETE"@.len() != "GET"@.len());
        assert("DELETE"@.len() != "POST"@.len());
        assert("DELETE"@.len() != "POST"@.len());
        assert("DELETE"@.len() != "PUT"@.len());
        assert("/api/logs/cleanup/before"@.subrange(0, 13)[5] != "/api/rewrite/"@[5]);
        assert("DELETE"@.len() != "GET"@.len());
        assert("DELETE"@.len() != "POST"@.len());
        assert("DELETE"@.len() != "PUT"@.len());
        assert("/api/logs/cleanup/before"@.subrange(0, 15)[5] != "/api/upstreams/"@[5]);
        assert("DELETE"@.len() != "GET"@.len());
        assert("DELETE"@.len() != "POST"@.len());
        assert("DELETE"@.len() != "GET"@.len());
        assert("DELETE"@.len() != "GET"@.len());
        assert("DELETE"@.len() != "PUT"@.len());
        assert("DELETE"@.len() != "POST"@.len());
        assert("DELETE"@.len() != "POST"@.len());
        assert("DELETE"@.len() != "POST"@.len());
        assert("DELETE"@.len() != "POST"@.len());
        assert("DELETE"@.len() != "GET"@.len());
        assert("DELETE"@.len() != "GET"@.len());
        assert("DELETE"@.len() != "PUT"@.len());
        assert("DELETE"@.len() != "GET"@.len());
        assert("DELETE"@.len() != "PUT"@.len());
        assert("DELETE"@.len() != "POST"@.len());
        assert("DELETE"@.len() != "GET"@.len());
        assert("DELETE"@.len() != "GET"@.len());
        assert("DELETE"@.len() != "PUT"@.len());
        assert("DELETE"@.len() != "GET"@.len());
        assert("DELETE"@.len() != "GET"@.len());
        assert("DELETE"@.len() != "GET"@.len());
        assert("DELETE"@.len() != "GET"@.len());
        assert("DELETE"@.len() != "GET"@.len());
        assert("DELETE"@.len() != "GET"@.len());
        assert("DELETE"@.len() != "PUT"@.len());
        assert("/api/logs/cleanup/before"@.len() != "/api/logs/cleanup/all"@.len());
    }
}

/// The part of the path that an operation works on: the path whose last segment is the
/// id, the listener name, or the still-encoded domain; empty for the others.
pub open spec fn route_argument_of(kind: RouteKind, p: Seq<char>) -> Seq<char> {
    match kind {
        RouteKind::GetRecord | RouteKind::UpdateRecord | RouteKind::DeleteRecord
        | RouteKind::UpdateRewriteRule | RouteKind::DeleteRewriteRule | RouteKind::UpdateUpstream
        | RouteKind::DeleteUpstream => p,
        RouteKind::ResetUpstreamHealth => trim_end_char(trim_end_seq(p, "/reset-health"@), '/'),
        RouteKind::ClearCacheDomain => trim_start_seq(p, "/api/cache/clear/"@),
        RouteKind::ListenerCertificate => trim_end_char(trim_end_seq(p, "/cert"@), '/'),
        RouteKind::UpdateListener => trim_start_seq(p, "/api/listeners/"@),
        _ => Seq::<char>::empty(),
    }
}

proof fn lemma_prefix_removed(pre: Seq<char>, d: Seq<char>)
    requires
        pre.len() > 0,
        !starts_with(d, pre),
    ensures
        trim_start_seq(pre + d, pre) == d,
{
    let p = pre + d;
    assert(p.subrange(0, pre.len() as int) =~= pre);
    assert(p.subrange(pre.len() as int, p.len() as int) =~= d);
    assert(starts_with(p, pre));
    assert(trim_start_seq(d, pre) == d);
    assert(trim_start_seq(p, pre) == trim_start_seq(p.subrange(pre.len() as int, p.len() as int), pre));
}

proof fn lemma_suffix_removed(q: Seq<char>, suf: Seq<char>)
    requires
        suf.len() > 0,
        !ends_with(q, suf),
        q.len() == 0 || q.last() != '/',
    ensures
        trim_end_char(trim_end_seq(q + suf, suf), '/') == q,
{
    let p = q + suf;
    assert(p.subrange(p.len() - suf.len(), p.len() as int) =~= suf);
    assert(p.subrange(0, p.len() - suf.len()) =~= q);
    assert(ends_with(p, suf));
    assert(trim_end_seq(q, suf) == q);
    assert(trim_end_seq(p, suf) == trim_end_seq(p.subrange(0, p.len() - suf.len()), suf));
    assert(trim_end_char(q, '/') == q);
}

/// The argument an operation works on: the whole path for the record, rewrite-rule and
/// upstream operations (its last segment is the id); the domain after
/// `/api/cache/clear/`; the listener name after `/api/listeners/`; the path before
/// `/reset-health` or `/cert`.
pub proof fn law_route_arguments(d: Seq<char>, p: Seq<char>)
    ensures
        route_argument_of(RouteKind::GetRecord, p) == p,
        route_argument_of(RouteKind::UpdateRecord, p) == p,
        route_argument_of(RouteKind::DeleteRecord, p) == p,
        route_argument_of(RouteKind::UpdateRewriteRule, p) == p,
        route_argument_of(RouteKind::DeleteRewriteRule, p) == p,
        route_argument_of(RouteKind::UpdateUpstream, p) == p,
        route_argument_of(RouteKind::DeleteUpstream, p) == p,
        !starts_with(d, "/api/cache/clear/"@) ==> route_argument_of(
            RouteKind::ClearCacheDomain,
            "/api/cache/clear/"@ + d,
        ) == d,
        !starts_with(d, "/api/listeners/"@) ==> route_argument_of(
            RouteKind::UpdateListener,
            "/api/listeners/"@ + d,
        ) == d,
        !ends_with(d, "/reset-health"@) && (d.len() == 0 || d.last() != '/') ==> route_argument_of(
            RouteKind::ResetUpstreamHealth,
            d + "/reset-health"@,
        ) == d,
        !ends_with(d, "/cert"@) && (d.len() == 0 || d.last() != '/') ==> route_argument_of(
            RouteKind::ListenerCertificate,
            d + "/cert"@,
        ) == d,
{
    reveal_strlit("/api/cache/clear/");
    reveal_strlit("/api/listeners/");
    reveal_strlit("/reset-health");
    reveal_strlit("/cert");
    if !starts_with(d, "/api/cache/clear/"@) {
        lemma_prefix_removed("/api/cache/clear/"@, d);
    }
    if !starts_with(d, "/api/listeners/"@) {
        lemma_prefix_removed("/api/listeners/"@, d);
    }
    if !ends_with(d, "/reset-health"@) && (d.len() == 0 || d.last() != '/') {
        lemma_suffix_removed(d, "/reset-health"@);
    }
    if !ends_with(d, "/cert"@) && (d.len() == 0 || d.last() != '/') {
        lemma_suffix_removed(d, "/cert"@);
    }
}

/// The upper-case form of a string as `str::to_uppercase` computes it.
pub uninterp spec fn uppercase(s: Seq<char>) -> Seq<char>;

/// Whether every character is ASCII and none is a lower-case letter: characters that have no
/// other upper-case form.
pub open spec fn is_plain_upper(s: Seq<char>) -> bool {
    forall|i: int| 0 <= i < s.len() ==> ((#[trigger] s[i]) as u32) < 128 && !('a' <= s[i] <= 'z')
}

/// Calls `str::to_uppercase`; the contract claims that the result is the standard library's
/// upper-case form of `s`, that on ASCII text this form maps `a`..`z` to `A`..`Z` and keeps
/// every other character, and that a string of ASCII characters other than lower-case
/// letters is its own upper-case form.
#[verifier::external_body]
fn to_uppercase(s: &str) -> (r: String)
    ensures
        r@ == uppercase(s@),
        is_ascii_text(s@) ==> r@ == ascii_uppercase(s@),
        is_plain_upper(s@) ==> r@ == s@,
{
    s.to_uppercase()
}

/// A request resolved to an operation.
#[derive(Debug)]
pub struct Route {
    pub kind: RouteKind,
    /// The method, upper-cased.
    pub method: String,
    /// The path without trailing `/`.
    pub path: String,
    /// What the operation works on (see `route_argument_of`).
    pub argument: String,
}

fn is(a: &str, b: &str) -> (r: bool)
    ensures
        r == (a@ == b@),
{
    str_eq(a, b)
}

/// The kind of operation for an upper-cased method and a trimmed path.
pub fn route_kind(m: &str, p: &str) -> (k: RouteKind)
    ensures
        k == route_kind_of(m@, p@),
{
    let get = is(m, "GET");
    let post = is(m, "POST");
    let put = is(m, "PUT");
    let delete = is(m, "DELETE");
    if get && is(p, "/api/records") {
        RouteKind::ListRecords
    } else if post && is(p, "/api/records") {
        RouteKind::CreateRecord
    } else if get && str_starts_with(p, "/api/records/") {
        RouteKind::GetRecord
    } else if put && str_starts_with(p, "/api/records/") {
        RouteKind::UpdateRecord
    } else if delete && str_starts_with(p, "/api/records/") {
        RouteKind::DeleteRecord
    } else if get && is(p, "/api/rewrite") {
        RouteKind::ListRewriteRules
    } else if post && is(p, "/api/rewrite") {
        RouteKind::CreateRewriteRule
    } else if post && is(p, "/api/rewrite/batch") {
        RouteKind::BatchCreateRewriteRules
    } else if put && str_starts_with(p, "/api/rewrite/") {
        RouteKind::UpdateRewriteRule
    } else if delete && str_starts_with(p, "/api/rewrite/") {
        RouteKind::DeleteRewriteRule
    } else if get && is(p, "/api/upstreams") {
        RouteKind::ListUpstreams
    } else if post && is(p, "/api/upstreams") {
        RouteKind::CreateUpstream
    } else if put && str_starts_with(p, "/api/upstreams/") && !str_ends_with(p, "reset-health") {
        RouteKind::UpdateUpstream
    } else if delete && str_starts_with(p, "/api/upstreams/") {
        RouteKind::DeleteUpstream
    } else if get && is(p, "/api/upstreams/status") {
        RouteKind::UpstreamStatus
    } else if post && str_ends_with(p, "/reset-health") {
        RouteKind::ResetUpstreamHealth
    } else if get && is(p, "/api/cache/stats") {
        RouteKind::CacheStats
    } else if get && is(p, "/api/cache/config") {
        RouteKind::CacheConfig
    } else if put && is(p, "/api/cache/config") {
        RouteKind::UpdateCacheConfig
    } else if post && is(p, "/api/cache/clear") {
        RouteKind::ClearCache
    } else if post && str_starts_with(p, "/api/cache/clear/") {
        RouteKind::ClearCacheDomain
    } else if post && is(p, "/api/cache/cleanup") {
        RouteKind::CleanupCache
    } else if post && is(p, "/api/dns/query") {
        RouteKind::DnsQuery
    } else if get && is(p, "/api/listeners") {
        RouteKind::ListListeners
    } else if get && str_ends_with(p, "/cert") {
        RouteKind::ListenerCertificate
    } else if put && str_starts_with(p, "/api/listeners/") {
        RouteKind::UpdateListener
    } else if get && is(p, "/api/settings") {
        RouteKind::GetSettings
    } else if put && is(p, "/api/settings") {
        RouteKind::UpdateSettings
    } else if post && is(p, "/api/settings/test-alert") {
        RouteKind::SendTestAlert
    } else if get && is(p, "/api/strategy") {
        RouteKind::GetStrategy
    } else if get && is(p, "/api/strategy/available") {
        RouteKind::AvailableStrategies
    } else if put && is(p, "/api/strategy") {
        RouteKind::UpdateStrategy
    } else if get && is(p, "/api/status") {
        RouteKind::Status
    } else if get && is(p, "/api/status/health") {
        RouteKind::Health
    } else if get && is(p, "/api/logs") {
        RouteKind::ListLogs
    } else if get && is(p, "/api/logs/export") {
        RouteKind::ExportLogs
    } else if get && is(p, "/api/logs/stats") {
        RouteKind::LogStats
    } else if get && is(p, "/api/logs/retention") {
        RouteKind::GetLogRetention
    } else if put && is(p, "/api/logs/retention") {
        RouteKind::UpdateLogRetention
    } else if delete && is(p, "/api/logs/cleanup/all") {
        RouteKind::CleanupAllLogs
    } else if delete && is(p, "/api/logs/cleanup/before") {
        RouteKind::CleanupLogsBefore
    } else {
        RouteKind::Unsupported
    }
}

/// The argument of an operation, from the trimmed path.
pub fn route_argument(kind: RouteKind, p: &str) -> (a: String)
    ensures
        a@ == route_argument_of(kind, p@),
{
    match kind {
        RouteKind::GetRecord | RouteKind::UpdateRecord | RouteKind::DeleteRecord
        | RouteKind::UpdateRewriteRule | RouteKind::DeleteRewriteRule | RouteKind::UpdateUpstream
        | RouteKind::DeleteUpstream => p.to_owned(),
        RouteKind::ResetUpstreamHealth => {
            let t = trim_end_str(p, "/reset-health");
            trim_end_char_str(t.as_str(), '/')
        },
        RouteKind::ClearCacheDomain => trim_start_str(p, "/api/cache/clear/"),
        RouteKind::ListenerCertificate => {
            let t = trim_end_str(p, "/cert");
            trim_end_char_str(t.as_str(), '/')
        },
        RouteKind::UpdateListener => trim_start_str(p, "/api/listeners/"),
        _ => String::new(),
    }
}

impl Route {
    /// Resolves a request: the method is upper-cased, trailing `/` are cut from the path,
    /// and the first matching rule selects the operation.
    pub fn resolve(method: &str, path: &str) -> (r: Route)
        ensures
            r.method@ == uppercase(method@),
            r.path@ == trim_end_char(path@, '/'),
            r.kind == route_kind_of(uppercase(method@), trim_end_char(path@, '/')),
            r.argument@ == route_argument_of(r.kind, trim_end_char(path@, '/')),
            is_ascii_text(method@) ==> r.method@ == ascii_uppercase(method@) && r.kind
                == route_kind_of(ascii_uppercase(method@), trim_end_char(path@, '/')),
            is_plain_upper(method@) ==> r.method@ == method@ && r.kind == route_kind_of(
                method@,
                trim_end_char(path@, '/'),
            ),
    {
        let m = to_uppercase(method);
        let p = trim_end_char_str(path, '/');
        let kind = route_kind(m.as_str(), p.as_str());
        let argument = route_argument(kind, p.as_str());
        Route { kind, method: m, path: p, argument }
    }

    /// The error for a request that no operation serves.
    pub fn unsupported_message(&self) -> (m: String)
        ensures
            m@ == "Unsupported Tauri bridge operation: "@ + self.method@ + " "@ + self.path@,
    {
        let mut m = "Unsupported Tauri bridge operation: ".to_owned();
        append_str(&mut m, self.method.as_str());
        append_str(&mut m, " ");
        append_str(&mut m, self.path.as_str());
        m
    }
}

/// The id at the end of a path: its last `/`-separated segment, read as an `i64`; when it
/// is not one, the text of the standard library's parse error.
pub fn parse_id(path: &str) -> (r: Result<i64, String>)
    ensures
        match parse_i64_result(last_segment(path@, '/')) {
            Ok(v) => r == Ok::<i64, String>(v as i64),
            Err(k) => (r matches Err(m) && m@ == int_error_text(k)),
        },
{
    let seg = last_segment_str(path, '/');
    match parse_i64_detailed(&chars_of(seg.as_str())) {
        Ok(v) => Ok(v),
        Err(k) => Err(k.message()),
    }
}

/// What `urlencoding::decode` makes of a percent-encoded string: the decoded text, or, when
/// the decoded bytes are not UTF-8, the text of the `FromUtf8Error` it returns.
pub uninterp spec fn url_decoded(data: Seq<char>) -> Result<Seq<char>, Seq<char>>;

/// The view of a result of two strings.
pub open spec fn result_view(r: Result<String, String>) -> Result<Seq<char>, Seq<char>> {
    match r {
        Ok(v) => Ok(v@),
        Err(e) => Err(e@),
    }
}

/// Calls `urlencoding::decode`, the error turned into its text. The contract claims that
/// the result is the crate's decoding of `data`, and, as its source shows, that a string
/// without `%` comes back unchanged.
#[verifier::external_body]
fn decode_percent(data: &str) -> (r: Result<String, String>)
    ensures
        result_view(r) == url_decoded(data@),
        r is Ok || data@.contains('%'),
        r matches Ok(s) ==> (!data@.contains('%') ==> s@ == data@),
{
    match urlencoding::decode(data) {
        Ok(v) => Ok(v.into_owned()),
        Err(e) => Err(e.to_string()),
    }
}

/// Decodes the percent-encoded domain of a cache-clearing request: the decoded text, or
/// the text of the UTF-8 error when the decoded bytes are not UTF-8.
pub fn url_decode(v: &str) -> (r: Result<String, String>)
    ensures
        result_view(r) == url_decoded(v@),
        !v@.contains('%') ==> (r matches Ok(s) && s@ == v@),
{
    decode_percent(v)
}

/// Why a page of rewrite rules cannot be listed.
#[derive(Debug, Clone, Copy, PartialEq, Eq, Structural)]
pub enum PagingError {
    PageTooSmall,
    PageSizeOutOfRange,
}

impl PagingError {
    pub fn message(&self) -> (m: String)
        ensures
            *self is PageTooSmall ==> m@ == "rewrite page must be at least 1"@,
            *self is PageSizeOutOfRange ==> m@ == "rewrite page_size must be between 1 and 100"@,
    {
        match self {
            PagingError::PageTooSmall => "rewrite page must be at least 1".to_owned(),
            PagingError::PageSizeOutOfRange => "rewrite page_size must be between 1 and 100".to_owned(),
        }
    }
}

/// The page and page size of a listing, 1 and 20 where the request gives none.
pub fn page_or_default(page: Option<i64>, page_size: Option<i64>) -> (r: (i64, i64))
    ensures
        r.0 == match page {
            Some(p) => p,
            None => 1,
        },
        r.1 == match page_size {
            Some(s) => s,
            None => 20,
        },
{
    let p = match page {
        Some(p) => p,
        None => 1,
    };
    let s = match page_size {
        Some(s) => s,
        None => 20,
    };
    (p, s)
}

/// The page and page size of a rewrite-rule listing: defaults as for any listing, the page
/// at least 1 and the size between 1 and 100.
pub fn rewrite_page(page: Option<i64>, page_size: Option<i64>) -> (r: Result<(i64, i64), PagingError>)
    ensures
        ({
            let (p, s) = (
                match page {
                    Some(p) => p,
                    None => 1,
                },
                match page_size {
                    Some(s) => s,
                    None => 20,
                },
            );
            if p < 1 {
                r == Err::<(i64, i64), PagingError>(PagingError::PageTooSmall)
            } else if !(1 <= s <= 100) {
                r == Err::<(i64, i64), PagingError>(PagingError::PageSizeOutOfRange)
            } else {
                r == Ok::<(i64, i64), PagingError>((p, s))
            }
        }),
{
    let (p, s) = page_or_default(page, page_size);
    if p < 1 {
        return Err(PagingError::PageTooSmall);
    }
    if !(1 <= s && s <= 100) {
        return Err(PagingError::PageSizeOutOfRange);
    }
    Ok((p, s))
}

/// The description shown for a strategy.
pub open spec fn strategy_description_text(strategy: QueryStrategy) -> Seq<char> {
    match strategy {
        QueryStrategy::Concurrent => "同时查询所有健康上游；首个 NOERROR 立即返回，若无 NOERROR 则在全部完成后返回最快 NXDOMAIN。"@,
        QueryStrategy::Fastest => "根据历史成功查询延迟选择最低延迟的健康上游，只向该上游发送查询。"@,
        QueryStrategy::RoundRobin => "按顺序轮换使用健康上游，均衡分配查询。"@,
        QueryStrategy::Random => "每次随机选择一个健康上游进行查询。"@,
    }
}

pub fn strategy_description(strategy: QueryStrategy) -> (d: &'static str)
    ensures
        d@ == strategy_description_text(strategy),
{
    match strategy {
        QueryStrategy::Concurrent => "同时查询所有健康上游；首个 NOERROR 立即返回，若无 NOERROR 则在全部完成后返回最快 NXDOMAIN。",
        QueryStrategy::Fastest => "根据历史成功查询延迟选择最低延迟的健康上游，只向该上游发送查询。",
        QueryStrategy::RoundRobin => "按顺序轮换使用健康上游，均衡分配查询。",
        QueryStrategy::Random => "每次随机选择一个健康上游进行查询。",
    }
}

/// Every strategy, in the order the user interface lists them.
pub open spec fn available_strategy_order() -> Seq<QueryStrategy> {
    seq![QueryStrategy::Concurrent, QueryStrategy::Fastest, QueryStrategy::RoundRobin, QueryStrategy::Random]
}

/// Every strategy, in the order the user interface lists them.
pub fn available_strategies() -> (v: Vec<QueryStrategy>)
    ensures
        v@ == available_strategy_order(),
{
    let mut v = Vec::new();
    v.push(QueryStrategy::Concurrent);
    v.push(QueryStrategy::Fastest);
    v.push(QueryStrategy::RoundRobin);
    v.push(QueryStrategy::Random);
    assert(v@ =~= seq![
        QueryStrategy::Concurrent,
        QueryStrategy::Fastest,
        QueryStrategy::RoundRobin,
        QueryStrategy::Random,
    ]);
    v
}

/// The strategy that a change request names, ignoring case, or the error for an unknown name.
pub fn requested_strategy(name: &str) -> (r: Result<QueryStrategy, String>)
    ensures
        match strategy_from_name(lowercase(name@)) {
            Some(s) => r == Ok::<QueryStrategy, String>(s),
            None => (r matches Err(m) && m@ == "Invalid strategy"@),
        },
{
    match QueryStrategy::from_str(name) {
        Some(s) => Ok(s),
        None => Err("Invalid strategy".to_owned()),
    }
}

/// A strategy as the user interface shows it: its canonical name and its description.
#[derive(Debug, Clone, Copy, PartialEq, Eq)]
pub struct StrategyView {
    pub name: &'static str,
    pub description: &'static str,
}

/// How a strategy is shown.
pub fn strategy_view(strategy: QueryStrategy) -> (v: StrategyView)
    ensures
        v.name@ == strategy_name(strategy),
        v.description@ == strategy_description_text(strategy),
{
    StrategyView { name: strategy.as_str(), description: strategy_description(strategy) }
}

/// Every strategy as it is shown, in the order the user interface lists them.
pub fn available_strategy_views() -> (v: Vec<StrategyView>)
    ensures
        v@.len() == 4,
        forall|k: int|
            0 <= k < 4 ==> (#[trigger] v@[k]).name@ == strategy_name(available_strategy_order()[k])
                && v@[k].description@ == strategy_description_text(available_strategy_order()[k]),
{
    let strategies = available_strategies();
    let mut views: Vec<StrategyView> = Vec::new();
    let mut i: usize = 0;
    while i < strategies.len()
        invariant
            strategies@ == available_strategy_order(),
            i <= strategies.len(),
            views@.len() == i,
            forall|k: int|
                0 <= k < i ==> (#[trigger] views@[k]).name@ == strategy_name(available_strategy_order()[k])
                    && views@[k].description@ == strategy_description_text(available_strategy_order()[k]),
        decreases strategies.len() - i,
    {
        views.push(strategy_view(strategies[i]));
        i += 1;
    }
    views
}

/// How exported query logs are written.
#[derive(Debug, Clone, Copy, PartialEq, Eq, Structural)]
pub enum ExportFormat {
    Json,
    Csv,
}

/// The export format a request asks for: JSON by default, `json` or `csv` by name.
pub fn export_format(format: Option<&str>) -> (r: Result<ExportFormat, String>)
    ensures
        match format {
            None => r == Ok::<ExportFormat, String>(ExportFormat::Json),
            Some(f) => if f@ == "json"@ {
                r == Ok::<ExportFormat, String>(ExportFormat::Json)
            } else if f@ == "csv"@ {
                r == Ok::<ExportFormat, String>(ExportFormat::Csv)
            } else {
                (r matches Err(m) && m@ == "Unsupported export format: "@ + f@)
            },
        },
{
    match format {
        None => Ok(ExportFormat::Json),
        Some(f) => if str_eq(f, "json") {
            Ok(ExportFormat::Json)
        } else if str_eq(f, "csv") {
            Ok(ExportFormat::Csv)
        } else {
            let mut m = "Unsupported export format: ".to_owned();
            append_str(&mut m, f);
            Err(m)
        },
    }
}

/// The header line of a CSV export of query logs.
pub const LOG_CSV_HEADER: &'static str = "id,client_ip,query_name,query_type,response_code,response_time,cache_hit,upstream_used,created_at\n";

/// At most this many query logs are exported at once.
pub const LOG_EXPORT_LIMIT: i64 = 10000;

/// A moment as plain values: whole seconds since the Unix epoch, and the nanoseconds after
/// them.
#[derive(Debug, Clone, Copy, PartialEq, Eq, Structural)]
pub struct UtcInstant {
    pub seconds: i64,
    pub nanos: u32,
}

/// The moment that `chrono::DateTime::parse_from_rfc3339` reads from a string, taken in UTC;
/// `None` where the crate refuses the string.
pub uninterp spec fn rfc3339_instant(s: Seq<char>) -> Option<UtcInstant>;

/// Calls `chrono::DateTime::parse_from_rfc3339` and converts the moment to UTC. The contract
/// claims that the result is the crate's reading of `s`.
#[verifier::external_body]
fn parse_rfc3339_utc(s: &str) -> (r: Option<UtcInstant>)
    ensures
        r == rfc3339_instant(s@),
{
    match chrono::DateTime::parse_from_rfc3339(s) {
        Ok(moment) => {
            let utc = moment.with_timezone(&chrono::Utc);
            Some(UtcInstant { seconds: utc.timestamp(), nanos: utc.timestamp_subsec_nanos() })
        },
        Err(_) => None,
    }
}

/// The moment an optional RFC 3339 string names: none when absent or unreadable.
pub open spec fn optional_instant(s: Option<String>) -> Option<UtcInstant> {
    match s {
        Some(v) => rfc3339_instant(v@),
        None => None,
    }
}

/// The query-log search that the user interface sends.
#[derive(Debug)]
pub struct LogsPayload {
    pub query_name: Option<String>,
    pub query_type: Option<String>,
    pub client_ip: Option<String>,
    pub cache_hit: Option<bool>,
    pub start_time: Option<String>,
    pub end_time: Option<String>,
    pub limit: Option<i64>,
    pub offset: Option<i64>,
}

/// A query-log search with its time bounds read.
#[derive(Debug)]
pub struct QueryLogFilter {
    pub query_name: Option<String>,
    pub query_type: Option<String>,
    pub client_ip: Option<String>,
    pub cache_hit: Option<bool>,
    pub start_time: Option<UtcInstant>,
    pub end_time: Option<UtcInstant>,
    pub limit: Option<i64>,
    pub offset: Option<i64>,
}

impl LogsPayload {
    /// The search as a filter: the text fields and numbers as they are, each time bound read
    /// as RFC 3339 and dropped when it cannot be read.
    pub fn into_filter(self) -> (f: QueryLogFilter)
        ensures
            f.query_name == self.query_name,
            f.query_type == self.query_type,
            f.client_ip == self.client_ip,
            f.cache_hit == self.cache_hit,
            f.start_time == optional_instant(self.start_time),
            f.end_time == optional_instant(self.end_time),
            f.limit == self.limit,
            f.offset == self.offset,
    {
        let start_time = match &self.start_time {
            Some(v) => parse_rfc3339_utc(v.as_str()),
            None => None,
        };
        let end_time = match &self.end_time {
            Some(v) => parse_rfc3339_utc(v.as_str()),
            None => None,
        };
        QueryLogFilter {
            query_name: self.query_name,
            query_type: self.query_type,
            client_ip: self.client_ip,
            cache_hit: self.cache_hit,
            start_time,
            end_time,
            limit: self.limit,
            offset: self.offset,
        }
    }
}

/// A step of applying the home page's configuration, in the order they are taken: the
/// system DNS bindings are validated and serialised, the UDP listener is updated before the
/// bindings that may point to it are stored and published, and the services are corrected
/// last.
#[derive(Debug, Clone, Copy, PartialEq, Eq, Structural)]
pub enum HomeStep {
    ValidateBindings,
    SerializeBindings,
    UpdateListener,
    StoreBindings,
    PublishBindings,
    EnforceBindings,
}

/// What to do after a step of applying the home page's configuration.
#[derive(Debug, Clone, Copy, PartialEq, Eq, Structural)]
pub enum HomeAction {
    /// Take this step next.
    Next(HomeStep),
    /// Every step succeeded: report the result.
    Finish,
    /// The step failed: report its error and take no further step.
    Stop,
}

/// The step that applying the home page's configuration starts with.
pub fn first_home_step() -> (s: HomeStep)
    ensures
        s == HomeStep::ValidateBindings,
{
    HomeStep::ValidateBindings
}

/// What follows `step` once it succeeded (`ok`) or failed: the next step in order, the
/// result after the last one, and nothing more after a failure.
pub fn after_home_step(step: HomeStep, ok: bool) -> (a: HomeAction)
    ensures
        !ok ==> a == HomeAction::Stop,
        ok ==> a == match step {
            HomeStep::ValidateBindings => HomeAction::Next(HomeStep::SerializeBindings),
            HomeStep::SerializeBindings => HomeAction::Next(HomeStep::UpdateListener),
            HomeStep::UpdateListener => HomeAction::Next(HomeStep::StoreBindings),
            HomeStep::StoreBindings => HomeAction::Next(HomeStep::PublishBindings),
            HomeStep::PublishBindings => HomeAction::Next(HomeStep::EnforceBindings),
            HomeStep::EnforceBindings => HomeAction::Finish,
        },
{
    if !ok {
        return HomeAction::Stop;
    }
    match step {
        HomeStep::ValidateBindings => HomeAction::Next(HomeStep::SerializeBindings),
        HomeStep::SerializeBindings => HomeAction::Next(HomeStep::UpdateListener),
        HomeStep::UpdateListener => HomeAction::Next(HomeStep::StoreBindings),
        HomeStep::StoreBindings => HomeAction::Next(HomeStep::PublishBindings),
        HomeStep::PublishBindings => HomeAction::Next(HomeStep::EnforceBindings),
        HomeStep::EnforceBindings => HomeAction::Finish,
    }
}

/// The text of an optional string: empty when absent.
pub open spec fn or_empty(s: Option<Seq<char>>) -> Seq<char> {
    match s {
        Some(v) => v,
        None => Seq::<char>::empty(),
    }
}

/// The text of a boolean.
pub open spec fn bool_text(b: bool) -> Seq<char> {
    if b {
        "true"@
    } else {
        "false"@
    }
}

/// One query log as a line of the CSV export: its fields in the header's order, separated
/// by commas and written as they are, an absent response code, response time or upstream
/// as nothing, and a line break at the end.
pub open spec fn log_csv_row_text(
    id: i64,
    client_ip: Seq<char>,
    query_name: Seq<char>,
    query_type: Seq<char>,
    response_code: Option<Seq<char>>,
    response_time: Option<i64>,
    cache_hit: bool,
    upstream_used: Option<Seq<char>>,
    created_at: Seq<char>,
) -> Seq<char> {
    signed_decimal(id as int) + ","@ + client_ip + ","@ + query_name + ","@ + query_type + ","@
        + or_empty(response_code) + ","@ + match response_time {
        Some(t) => signed_decimal(t as int),
        None => Seq::<char>::empty(),
    } + ","@ + bool_text(cache_hit) + ","@ + or_empty(upstream_used) + ","@ + created_at + "\n"@
}

/// The view of an optional string slice.
pub open spec fn opt_str_view(s: Option<&str>) -> Option<Seq<char>> {
    match s {
        Some(v) => Some(v@),
        None => None,
    }
}

/// One query log as a line of the CSV export.
pub fn log_csv_row(
    id: i64,
    client_ip: &str,
    query_name: &str,
    query_type: &str,
    response_code: Option<&str>,
    response_time: Option<i64>,
    cache_hit: bool,
    upstream_used: Option<&str>,
    created_at: &str,
) -> (row: String)
    ensures
        row@ == log_csv_row_text(
            id,
            client_ip@,
            query_name@,
            query_type@,
            opt_str_view(response_code),
            response_time,
            cache_hit,
            opt_str_view(upstream_used),
            created_at@,
        ),
{
    let mut row = String::new();
    push_signed_decimal(&mut row, id);
    append_str(&mut row, ",");
    append_str(&mut row, client_ip);
    append_str(&mut row, ",");
    append_str(&mut row, query_name);
    append_str(&mut row, ",");
    append_str(&mut row, query_type);
    append_str(&mut row, ",");
    if let Some(code) = response_code {
        append_str(&mut row, code);
    }
    append_str(&mut row, ",");
    if let Some(t) = response_time {
        push_signed_decimal(&mut row, t);
    }
    append_str(&mut row, ",");
    if cache_hit {
        append_str(&mut row, "true");
    } else {
        append_str(&mut row, "false");
    }
    append_str(&mut row, ",");
    if let Some(u) = upstream_used {
        append_str(&mut row, u);
    }
    append_str(&mut row, ",");
    append_str(&mut row, created_at);
    append_str(&mut row, "\n");
    row
}

} // verus!
