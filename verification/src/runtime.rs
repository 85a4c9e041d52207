use vstd::prelude::*;

use crate::strategy::{is_plain_lower, lowercase, strategy_from_name, QueryStrategy};
use crate::text::{append_str, chars_of, parse_u64_chars, parse_u64_spec};

verus! {

/// A numeric setting stored as text: its default when absent, its value when it parses,
/// else the error that names the key and the stored text.
pub fn numeric_setting(key: &str, stored: Option<String>, default: u64) -> (r: Result<u64, String>)
    ensures
        match stored {
            None => r == Ok::<u64, String>(default),
            Some(v) => match parse_u64_spec(v@) {
                Some(n) => r == Ok::<u64, String>(n),
                None => (r matches Err(m) && m@ == "Invalid "@ + key@ + ": "@ + v@),
            },
        },
{
    match stored {
        None => Ok(default),
        Some(v) => match parse_u64_chars(&chars_of(v.as_str())) {
            Some(n) => Ok(n),
            None => {
                let mut m = "Invalid ".to_owned();
                append_str(&mut m, key);
                append_str(&mut m, ": ");
                append_str(&mut m, v.as_str());
                Err(m)
            },
        },
    }
}

/// The query strategy at start-up: the stored one when its name is known (ignoring case),
/// else the default, concurrent querying.
pub fn initial_strategy(stored: Option<String>) -> (s: QueryStrategy)
    ensures
        s == match stored {
            Some(v) => match strategy_from_name(lowercase(v@)) {
                Some(x) => x,
                None => QueryStrategy::Concurrent,
            },
            None => QueryStrategy::Concurrent,
        },
        stored matches Some(v) ==> (is_plain_lower(v@) ==> s == match strategy_from_name(v@) {
            Some(x) => x,
            None => QueryStrategy::Concurrent,
        }),
{
    let mut strategy = QueryStrategy::default();
    if let Some(v) = stored {
        if let Some(saved) = QueryStrategy::from_str(v.as_str()) {
            strategy = saved;
        }
    }
    strategy
}

/// The settings read when the runtime starts: the cache's default TTL (60 s) and entry
/// limit (10 000).
pub const CACHE_DEFAULT_TTL_KEY: &'static str = "cache_default_ttl";

pub const CACHE_MAX_ENTRIES_KEY: &'static str = "cache_max_entries";

pub const DEFAULT_CACHE_TTL: u64 = 60;

pub const DEFAULT_CACHE_MAX_ENTRIES: u64 = 10000;

/// The key under which the network DNS bindings are stored.
pub const NETWORK_DNS_BINDINGS_KEY: &'static str = "network_dns_bindings";

/// The key under which the query strategy is stored.
pub const QUERY_STRATEGY_KEY: &'static str = "query_strategy";

} // verus!
