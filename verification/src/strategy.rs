use vstd::prelude::*;

use crate::text::{append_str, ascii_lowercase, decimal, is_ascii_text, push_decimal, str_eq};
use std::sync::Arc;

verus! {

/// How upstream servers are consulted for one query.
#[derive(Debug, Clone, Copy, PartialEq, Eq, Structural)]
pub enum QueryStrategy {
    /// Query every healthy server at once; first NOERROR wins, else the fastest NXDOMAIN.
    Concurrent,
    /// Query only the healthy server with the lowest historical latency.
    Fastest,
    /// Rotate through the healthy servers.
    RoundRobin,
    /// Pick a healthy server at random.
    Random,
}

/// The canonical name of a strategy.
pub open spec fn strategy_name(strategy: QueryStrategy) -> Seq<char> {
    match strategy {
        QueryStrategy::Concurrent => "concurrent"@,
        QueryStrategy::Fastest => "fastest"@,
        QueryStrategy::RoundRobin => "round_robin"@,
        QueryStrategy::Random => "random"@,
    }
}

/// The strategy that a lower-case name denotes, aliases included.
pub open spec fn strategy_from_name(name: Seq<char>) -> Option<QueryStrategy> {
    if name == "concurrent"@ {
        Some(QueryStrategy::Concurrent)
    } else if name == "fastest"@ || name == "fastest_first"@ {
        Some(QueryStrategy::Fastest)
    } else if name == "round_robin"@ || name == "roundrobin"@ {
        Some(QueryStrategy::RoundRobin)
    } else if name == "random"@ {
        Some(QueryStrategy::Random)
    } else {
        None
    }
}

/// The lower-case form of a string as `str::to_lowercase` computes it.
pub uninterp spec fn lowercase(s: Seq<char>) -> Seq<char>;

/// Whether every character is an ASCII lower-case letter or `_`: characters that have no
/// other lower-case form.
pub open spec fn is_plain_lower(s: Seq<char>) -> bool {
    forall|i: int| 0 <= i < s.len() ==> ('a' <= #[trigger] s[i] <= 'z' || s[i] == '_')
}

/// Calls `str::to_lowercase`; the contract claims that the result is the standard library's
/// lower-case form of `s`, that on ASCII text this form maps `A`..`Z` to `a`..`z` and keeps
/// every other character, and that a string of ASCII lower-case letters and `_` is its
/// own lower-case form.
#[verifier::external_body]
fn to_lowercase(s: &str) -> (r: String)
    ensures
        r@ == lowercase(s@),
        is_ascii_text(s@) ==> r@ == ascii_lowercase(s@),
        is_plain_lower(s@) ==> r@ == s@,
{
    s.to_lowercase()
}

impl QueryStrategy {
    /// Parses a strategy name, ignoring case.
    pub fn from_str(s: &str) -> (r: Option<QueryStrategy>)
        ensures
            r == strategy_from_name(lowercase(s@)),
            is_ascii_text(s@) ==> r == strategy_from_name(ascii_lowercase(s@)),
            is_plain_lower(s@) ==> r == strategy_from_name(s@),
    {
        let lowered = to_lowercase(s);
        Self::from_lowercase(lowered.as_str())
    }

    /// The strategy that an already lower-cased name denotes.
    pub fn from_lowercase(name: &str) -> (r: Option<QueryStrategy>)
        ensures
            r == strategy_from_name(name@),
    {
        if str_eq(name, "concurrent") {
            Some(QueryStrategy::Concurrent)
        } else if str_eq(name, "fastest") || str_eq(name, "fastest_first") {
            Some(QueryStrategy::Fastest)
        } else if str_eq(name, "round_robin") || str_eq(name, "roundrobin") {
            Some(QueryStrategy::RoundRobin)
        } else if str_eq(name, "random") {
            Some(QueryStrategy::Random)
        } else {
            None
        }
    }

    /// The canonical name of this strategy.
    pub fn as_str(&self) -> (name: &'static str)
        ensures
            name@ == strategy_name(*self),
    {
        match self {
            QueryStrategy::Concurrent => "concurrent",
            QueryStrategy::Fastest => "fastest",
            QueryStrategy::RoundRobin => "round_robin",
            QueryStrategy::Random => "random",
        }
    }
}

impl Default for QueryStrategy {
    fn default() -> (r: Self)
        ensures
            r == QueryStrategy::Concurrent,
    {
        QueryStrategy::Concurrent
    }
}

/// Every canonical name is already lower-case and reads back as its strategy.
pub proof fn law_strategy_name_round_trip(strategy: QueryStrategy)
    ensures
        is_plain_lower(strategy_name(strategy)),
        strategy_from_name(strategy_name(strategy)) == Some(strategy),
{
    reveal_strlit("concurrent");
    reveal_strlit("fastest");
    reveal_strlit("fastest_first");
    reveal_strlit("round_robin");
    reveal_strlit("roundrobin");
    reveal_strlit("random");
    assert("fastest"@.len() != "concurrent"@.len());
    assert("round_robin"@.len() != "concurrent"@.len());
    assert("round_robin"@.len() != "fastest"@.len());
    assert("round_robin"@.len() != "fastest_first"@.len());
    assert("random"@.len() != "concurrent"@.len());
    assert("random"@.len() != "fastest"@.len());
    assert("random"@.len() != "fastest_first"@.len());
    assert("random"@.len() != "round_robin"@.len());
    assert("random"@.len() != "roundrobin"@.len());
}


/// The names a strategy is known by: `concurrent`; `fastest` or `fastest_first`;
/// `round_robin` or `roundrobin`; `random`. Every such name selects its strategy, and no
/// other name selects any.
pub proof fn law_strategy_names(name: Seq<char>)
    ensures
        strategy_from_name(name) == Some(QueryStrategy::Concurrent) <==> name == "concurrent"@,
        strategy_from_name(name) == Some(QueryStrategy::Fastest) <==> (name == "fastest"@ || name
            == "fastest_first"@),
        strategy_from_name(name) == Some(QueryStrategy::RoundRobin) <==> (name == "round_robin"@
            || name == "roundrobin"@),
        strategy_from_name(name) == Some(QueryStrategy::Random) <==> name == "random"@,
{
    law_strategy_name_round_trip(QueryStrategy::Concurrent);
    law_strategy_name_round_trip(QueryStrategy::Fastest);
    law_strategy_name_round_trip(QueryStrategy::RoundRobin);
    law_strategy_name_round_trip(QueryStrategy::Random);
    reveal_strlit("fastest_first");
    reveal_strlit("roundrobin");
    reveal_strlit("concurrent");
    reveal_strlit("random");
    reveal_strlit("fastest");
    reveal_strlit("round_robin");
    assert("fastest_first"@.len() != "concurrent"@.len());
    assert("roundrobin"@[0] != "concurrent"@[0]);
    assert("roundrobin"@[0] != "fastest"@[0]);
    assert("roundrobin"@.len() != "fastest_first"@.len());
}

/// The response code of an upstream answer.
#[derive(Debug, Clone, Copy, PartialEq, Eq, Structural)]
pub enum ResponseCode {
    NoError,
    FormErr,
    ServFail,
    NxDomain,
    NotImp,
    Refused,
    Other(u16),
}

/// What an upstream answered to one query, with the answer itself carried as `response`.
pub struct QueryResult<R> {
    pub response: R,
    pub response_code: ResponseCode,
    pub response_time_ms: u64,
    pub server_id: i64,
    pub server_name: String,
}

/// Why an upstream gave no usable answer.
pub enum UpstreamFailure {
    /// The upstream answered with a code that is neither NOERROR nor NXDOMAIN.
    Rejected { server_name: String, response_code: ResponseCode },
    /// The query failed before an answer arrived.
    Failed { message: String },
}

/// No upstream gave a NOERROR or NXDOMAIN answer; the last failure seen, if any.
pub struct AllUpstreamsFailed {
    pub last_error: Option<UpstreamFailure>,
}

/// Whether an outcome is an answer with the given code.
pub open spec fn has_code<R>(o: Result<QueryResult<R>, String>, code: ResponseCode) -> bool {
    o is Ok && o->Ok_0.response_code == code
}

/// The response time of an answer.
pub open spec fn time_of<R>(o: Result<QueryResult<R>, String>) -> u64 {
    o->Ok_0.response_time_ms
}

/// Whether some outcome in `s` is an answer with the given code.
pub open spec fn any_with<R>(s: Seq<Result<QueryResult<R>, String>>, code: ResponseCode) -> bool {
    exists|j: int| 0 <= j < s.len() && #[trigger] has_code(s[j], code)
}

/// Whether `s[i]` is the fastest answer with the given code, the earliest among equally fast.
pub open spec fn is_fastest_with<R>(
    s: Seq<Result<QueryResult<R>, String>>,
    code: ResponseCode,
    i: int,
) -> bool {
    &&& 0 <= i < s.len()
    &&& has_code(s[i], code)
    &&& forall|j: int|
        0 <= j < s.len() && #[trigger] has_code(s[j], code) ==> time_of(s[i]) <= time_of(s[j])
    &&& forall|j: int| 0 <= j < i && #[trigger] has_code(s[j], code) ==> time_of(s[i]) < time_of(s[j])
}

/// The position of the fastest answer with the given code.
pub open spec fn fastest_index<R>(s: Seq<Result<QueryResult<R>, String>>, code: ResponseCode) -> int {
    choose|i: int| is_fastest_with(s, code, i)
}

/// Whether an outcome counts as a failure: neither a NOERROR nor an NXDOMAIN answer.
pub open spec fn is_failure<R>(o: Result<QueryResult<R>, String>) -> bool {
    !has_code(o, ResponseCode::NoError) && !has_code(o, ResponseCode::NxDomain)
}

/// The failure that an outcome stands for.
pub open spec fn failure_note<R>(o: Result<QueryResult<R>, String>) -> UpstreamFailure {
    match o {
        Ok(r) => UpstreamFailure::Rejected {
            server_name: r.server_name,
            response_code: r.response_code,
        },
        Err(m) => UpstreamFailure::Failed { message: m },
    }
}

/// The last failure in `s`.
pub open spec fn last_failure<R>(s: Seq<Result<QueryResult<R>, String>>) -> Option<UpstreamFailure>
    decreases s.len(),
{
    if s.len() == 0 {
        None
    } else if is_failure(s.last()) {
        Some(failure_note(s.last()))
    } else {
        last_failure(s.drop_last())
    }
}

/// The answer chosen from completed outcomes: the fastest NOERROR, else the fastest
/// NXDOMAIN, else a failure naming the last failure seen.
pub open spec fn selected<R>(s: Seq<Result<QueryResult<R>, String>>) -> Result<
    QueryResult<R>,
    AllUpstreamsFailed,
> {
    if any_with(s, ResponseCode::NoError) {
        Ok(s[fastest_index(s, ResponseCode::NoError)]->Ok_0)
    } else if any_with(s, ResponseCode::NxDomain) {
        Ok(s[fastest_index(s, ResponseCode::NxDomain)]->Ok_0)
    } else {
        Err(AllUpstreamsFailed { last_error: last_failure(s) })
    }
}

/// Left-to-right search for the fastest answer with a code.
spec fn scan_fastest<R>(s: Seq<Result<QueryResult<R>, String>>, code: ResponseCode) -> Option<int>
    decreases s.len(),
{
    if s.len() == 0 {
        None
    } else {
        let prev = scan_fastest(s.drop_last(), code);
        let i = s.len() - 1;
        if has_code(s[i], code) && (prev is None || time_of(s[i]) < time_of(s[prev->0])) {
            Some(i)
        } else {
            prev
        }
    }
}

/// Left-to-right search for the last failure.
spec fn scan_last_failure<R>(s: Seq<Result<QueryResult<R>, String>>) -> Option<int>
    decreases s.len(),
{
    if s.len() == 0 {
        None
    } else if is_failure(s.last()) {
        Some(s.len() - 1)
    } else {
        scan_last_failure(s.drop_last())
    }
}

proof fn lemma_scan_fastest<R>(s: Seq<Result<QueryResult<R>, String>>, code: ResponseCode)
    ensures
        scan_fastest(s, code) matches Some(k) ==> is_fastest_with(s, code, k),
        scan_fastest(s, code) is None ==> !any_with(s, code),
    decreases s.len(),
{
    if s.len() > 0 {
        let t = s.drop_last();
        lemma_scan_fastest(t, code);
        assert forall|j: int| 0 <= j < t.len() implies t[j] == s[j] by {}
        if any_with(s, code) && scan_fastest(s, code) is None {
            let j = choose|j: int| 0 <= j < s.len() && #[trigger] has_code(s[j], code);
            if j < t.len() {
                assert(has_code(t[j], code));
            }
        }
    }
}

proof fn lemma_fastest_unique<R>(s: Seq<Result<QueryResult<R>, String>>, code: ResponseCode, i: int, k: int)
    requires
        is_fastest_with(s, code, i),
        is_fastest_with(s, code, k),
    ensures
        i == k,
{
    if i < k {
        assert(has_code(s[i], code));
    } else if k < i {
        assert(has_code(s[k], code));
    }
}

proof fn lemma_fastest_index<R>(s: Seq<Result<QueryResult<R>, String>>, code: ResponseCode)
    ensures
        scan_fastest(s, code) matches Some(k) ==> fastest_index(s, code) == k,
        scan_fastest(s, code) is None <==> !any_with(s, code),
{
    lemma_scan_fastest(s, code);
    if let Some(k) = scan_fastest(s, code) {
        let i = fastest_index(s, code);
        assert(is_fastest_with(s, code, i));
        lemma_fastest_unique(s, code, i, k);
        assert(has_code(s[k], code));
    }
}

proof fn lemma_scan_last_failure<R>(s: Seq<Result<QueryResult<R>, String>>)
    ensures
        scan_last_failure(s) matches Some(k) ==> 0 <= k < s.len() && is_failure(s[k])
            && last_failure(s) == Some(failure_note(s[k])),
        scan_last_failure(s) is None ==> last_failure(s) is None,
    decreases s.len(),
{
    if s.len() > 0 {
        lemma_scan_last_failure(s.drop_last());
    }
}

/// The note for an outcome, built from it.
fn note_for<R>(o: &Result<QueryResult<R>, String>) -> (n: UpstreamFailure)
    ensures
        n == failure_note(*o),
{
    match o {
        Ok(r) => UpstreamFailure::Rejected {
            server_name: r.server_name.clone(),
            response_code: r.response_code,
        },
        Err(m) => UpstreamFailure::Failed { message: m.clone() },
    }
}

/// Chooses among completed upstream outcomes: the fastest NOERROR answer, else the fastest
/// NXDOMAIN answer, else a failure that names the last failure seen.
pub fn select_completed_result<R>(outcomes: Vec<Result<QueryResult<R>, String>>) -> (r: Result<
    QueryResult<R>,
    AllUpstreamsFailed,
>)
    ensures
        r == selected(outcomes@),
{
    let ghost s = outcomes@;
    let mut best_noerror: Option<usize> = None;
    let mut best_nxdomain: Option<usize> = None;
    let mut last_fail: Option<usize> = None;
    let mut i: usize = 0;
    assert(s.take(0) =~= seq![]);
    while i < outcomes.len()
        invariant
            s == outcomes@,
            i <= outcomes.len(),
            best_noerror matches Some(k) ==> scan_fastest(s.take(i as int), ResponseCode::NoError)
                == Some(k as int),
            best_noerror is None ==> scan_fastest(s.take(i as int), ResponseCode::NoError) is None,
            best_nxdomain matches Some(k) ==> scan_fastest(s.take(i as int), ResponseCode::NxDomain)
                == Some(k as int),
            best_nxdomain is None ==> scan_fastest(s.take(i as int), ResponseCode::NxDomain) is None,
            last_fail matches Some(k) ==> scan_last_failure(s.take(i as int)) == Some(k as int),
            last_fail is None ==> scan_last_failure(s.take(i as int)) is None,
        decreases outcomes.len() - i,
    {
        let ghost t = s.take(i + 1);
        assert(t.drop_last() =~= s.take(i as int));
        assert forall|j: int| 0 <= j <= i implies t[j] == s[j] by {}
        proof {
            lemma_scan_fastest(s.take(i as int), ResponseCode::NoError);
            lemma_scan_fastest(s.take(i as int), ResponseCode::NxDomain);
        }
        match &outcomes[i] {
            Ok(result) => {
                if result.response_code == ResponseCode::NoError {
                    let faster = match best_noerror {
                        None => true,
                        Some(k) => match &outcomes[k] {
                            Ok(current) => result.response_time_ms < current.response_time_ms,
                            Err(_) => true,
                        },
                    };
                    if faster {
                        best_noerror = Some(i);
                    }
                } else if result.response_code == ResponseCode::NxDomain {
                    let faster = match best_nxdomain {
                        None => true,
                        Some(k) => match &outcomes[k] {
                            Ok(current) => result.response_time_ms < current.response_time_ms,
                            Err(_) => true,
                        },
                    };
                    if faster {
                        best_nxdomain = Some(i);
                    }
                } else {
                    last_fail = Some(i);
                }
            },
            Err(_) => {
                last_fail = Some(i);
            },
        }
        i += 1;
    }
    assert(s.take(outcomes.len() as int) =~= s);
    proof {
        lemma_fastest_index(s, ResponseCode::NoError);
        lemma_fastest_index(s, ResponseCode::NxDomain);
        lemma_scan_last_failure(s);
        lemma_scan_fastest(s, ResponseCode::NoError);
        lemma_scan_fastest(s, ResponseCode::NxDomain);
    }
    let mut outcomes = outcomes;
    let chosen = match best_noerror {
        Some(k) => Some(k),
        None => best_nxdomain,
    };
    match chosen {
        Some(k) => {
            let o = outcomes.remove(k);
            match o {
                Ok(q) => Ok(q),
                Err(_) => {
                    proof {
                        assert(false);
                    }
                    Err(AllUpstreamsFailed { last_error: None })
                },
            }
        },
        None => {
            let last_error = match last_fail {
                Some(k) => Some(note_for(&outcomes[k])),
                None => None,
            };
            Err(AllUpstreamsFailed { last_error })
        },
    }
}


/// The state of a concurrent race: the fastest NXDOMAIN so far and the last failure.
pub type RaceState<R> = (Option<QueryResult<R>>, Option<UpstreamFailure>);

/// How a race state changes when an outcome that is not a NOERROR answer completes.
pub open spec fn race_step<R>(state: RaceState<R>, o: Result<QueryResult<R>, String>) -> RaceState<R> {
    if has_code(o, ResponseCode::NxDomain) {
        let faster = match state.0 {
            None => true,
            Some(current) => o->Ok_0.response_time_ms < current.response_time_ms,
        };
        (if faster {
            Some(o->Ok_0)
        } else {
            state.0
        }, state.1)
    } else if has_code(o, ResponseCode::NoError) {
        state
    } else {
        (state.0, Some(failure_note(o)))
    }
}

/// The race state after the outcomes `s` completed in order.
pub open spec fn race_fold<R>(s: Seq<Result<QueryResult<R>, String>>) -> RaceState<R>
    decreases s.len(),
{
    if s.len() == 0 {
        (None, None)
    } else {
        race_step(race_fold(s.drop_last()), s.last())
    }
}

/// What a race reports once every upstream has completed.
pub open spec fn race_outcome<R>(state: RaceState<R>) -> Result<QueryResult<R>, AllUpstreamsFailed> {
    match state.0 {
        Some(q) => Ok(q),
        None => Err(AllUpstreamsFailed { last_error: state.1 }),
    }
}

/// The concurrent strategy's bookkeeping while answers arrive one by one.
pub struct ConcurrentRace<R> {
    fastest_nxdomain: Option<QueryResult<R>>,
    last_error: Option<UpstreamFailure>,
}

impl<R> ConcurrentRace<R> {
    /// The state of the race.
    pub closed spec fn state(&self) -> RaceState<R> {
        (self.fastest_nxdomain, self.last_error)
    }

    /// A race in which nothing has completed yet.
    pub fn new() -> (race: Self)
        ensures
            race.state() == race_fold(Seq::<Result<QueryResult<R>, String>>::empty()),
    {
        ConcurrentRace { fastest_nxdomain: None, last_error: None }
    }

    /// Records one completed outcome. A NOERROR answer wins at once and is handed back;
    /// anything else updates the race and yields `None`.
    pub fn observe(&mut self, outcome: Result<QueryResult<R>, String>) -> (winner: Option<
        QueryResult<R>,
    >)
        ensures
            has_code(outcome, ResponseCode::NoError) ==> winner == Some(outcome->Ok_0)
                && final(self).state() == old(self).state(),
            !has_code(outcome, ResponseCode::NoError) ==> winner is None && final(self).state()
                == race_step(old(self).state(), outcome),
    {
        match outcome {
            Ok(result) => {
                if result.response_code == ResponseCode::NoError {
                    Some(result)
                } else if result.response_code == ResponseCode::NxDomain {
                    let faster = match &self.fastest_nxdomain {
                        None => true,
                        Some(current) => result.response_time_ms < current.response_time_ms,
                    };
                    if faster {
                        self.fastest_nxdomain = Some(result);
                    }
                    None
                } else {
                    self.last_error = Some(
                        UpstreamFailure::Rejected {
                            server_name: result.server_name,
                            response_code: result.response_code,
                        },
                    );
                    None
                }
            },
            Err(message) => {
                self.last_error = Some(UpstreamFailure::Failed { message });
                None
            },
        }
    }

    /// The result once every upstream has completed without a NOERROR answer.
    pub fn finish(self) -> (r: Result<QueryResult<R>, AllUpstreamsFailed>)
        ensures
            r == race_outcome(self.state()),
    {
        match self.fastest_nxdomain {
            Some(q) => Ok(q),
            None => Err(AllUpstreamsFailed { last_error: self.last_error }),
        }
    }
}

proof fn lemma_race_fold<R>(s: Seq<Result<QueryResult<R>, String>>)
    ensures
        race_fold(s).1 == last_failure(s),
        scan_fastest(s, ResponseCode::NxDomain) matches Some(k) ==> race_fold(s).0 == Some(
            s[k]->Ok_0,
        ),
        scan_fastest(s, ResponseCode::NxDomain) is None ==> race_fold(s).0 is None,
    decreases s.len(),
{
    if s.len() > 0 {
        let t = s.drop_last();
        lemma_race_fold(t);
        lemma_scan_fastest(t, ResponseCode::NxDomain);
        if let Some(k) = scan_fastest(t, ResponseCode::NxDomain) {
            assert(t[k] == s[k]);
        }
    }
}

/// Once every upstream has completed without a NOERROR answer, the concurrent race reports
/// what selection among the completed outcomes reports.
pub proof fn law_race_agrees_with_selection<R>(s: Seq<Result<QueryResult<R>, String>>)
    requires
        !any_with(s, ResponseCode::NoError),
    ensures
        race_outcome(race_fold(s)) == selected(s),
{
    lemma_race_fold(s);
    lemma_fastest_index(s, ResponseCode::NxDomain);
}

/// A change to an upstream's health record.
#[derive(Debug, Clone, Copy, PartialEq, Eq, Structural)]
pub enum HealthUpdate {
    Success { server_id: i64, response_time_ms: u64 },
    Failure { server_id: i64 },
}

/// The health update after a concurrent query to `server_id`: an answer with NOERROR or
/// NXDOMAIN is a success for the answering server, any other answer a failure of it, an
/// error a failure of `server_id`.
pub open spec fn concurrent_health_spec<R>(server_id: i64, o: Result<QueryResult<R>, String>) -> HealthUpdate {
    match o {
        Ok(r) => if r.response_code == ResponseCode::NoError || r.response_code
            == ResponseCode::NxDomain {
            HealthUpdate::Success { server_id: r.server_id, response_time_ms: r.response_time_ms }
        } else {
            HealthUpdate::Failure { server_id: r.server_id }
        },
        Err(_) => HealthUpdate::Failure { server_id },
    }
}

/// The health update after a single-server query to `server_id`: any answer is a success
/// for the answering server, an error a failure of `server_id`.
pub open spec fn single_health_spec<R>(server_id: i64, o: Result<QueryResult<R>, String>) -> HealthUpdate {
    match o {
        Ok(r) => HealthUpdate::Success {
            server_id: r.server_id,
            response_time_ms: r.response_time_ms,
        },
        Err(_) => HealthUpdate::Failure { server_id },
    }
}

/// The health record of a concurrent query: an answer with NOERROR or NXDOMAIN is a success
/// of the answering server with its response time; an answer with any other code is a
/// failure of the answering server; a query that failed is a failure of the server it was
/// sent to.
pub proof fn law_concurrent_health_follows_the_answer<R>(server_id: i64, o: Result<QueryResult<R>, String>)
    ensures
        (has_code(o, ResponseCode::NoError) || has_code(o, ResponseCode::NxDomain))
            ==> concurrent_health_spec(server_id, o) == (HealthUpdate::Success {
            server_id: o->Ok_0.server_id,
            response_time_ms: o->Ok_0.response_time_ms,
        }),
        o is Ok && !has_code(o, ResponseCode::NoError) && !has_code(o, ResponseCode::NxDomain)
            ==> concurrent_health_spec(server_id, o) == (HealthUpdate::Failure {
            server_id: o->Ok_0.server_id,
        }),
        o is Err ==> concurrent_health_spec(server_id, o) == (HealthUpdate::Failure { server_id }),
{
}

/// The health record of a single-server query: any answer is a success of the answering
/// server with its response time, whatever its code; a failed query is a failure of the
/// server it was sent to.
pub proof fn law_single_health_follows_the_answer<R>(server_id: i64, o: Result<QueryResult<R>, String>)
    ensures
        o is Ok ==> single_health_spec(server_id, o) == (HealthUpdate::Success {
            server_id: o->Ok_0.server_id,
            response_time_ms: o->Ok_0.response_time_ms,
        }),
        o is Err ==> single_health_spec(server_id, o) == (HealthUpdate::Failure { server_id }),
{
}

pub fn concurrent_health_update<R>(server_id: i64, outcome: &Result<QueryResult<R>, String>) -> (u:
    HealthUpdate)
    ensures
        u == concurrent_health_spec(server_id, *outcome),
{
    match outcome {
        Ok(r) => if r.response_code == ResponseCode::NoError || r.response_code
            == ResponseCode::NxDomain {
            HealthUpdate::Success { server_id: r.server_id, response_time_ms: r.response_time_ms }
        } else {
            HealthUpdate::Failure { server_id: r.server_id }
        },
        Err(_) => HealthUpdate::Failure { server_id },
    }
}

pub fn single_health_update<R>(server_id: i64, outcome: &Result<QueryResult<R>, String>) -> (u:
    HealthUpdate)
    ensures
        u == single_health_spec(server_id, *outcome),
{
    match outcome {
        Ok(r) => HealthUpdate::Success {
            server_id: r.server_id,
            response_time_ms: r.response_time_ms,
        },
        Err(_) => HealthUpdate::Failure { server_id },
    }
}

/// The positions, in order, of the servers that failover tries after `failed_id` failed.
pub fn failover_candidates(server_ids: &Vec<i64>, failed_id: i64) -> (c: Vec<usize>)
    ensures
        c@ == Seq::new(server_ids@.len(), |j: int| j).filter(|j: int| server_ids@[j] != failed_id).map_values(|j: int| j as usize),
{
    let ghost all = Seq::new(server_ids@.len(), |j: int| j);
    let ghost keep = |j: int| server_ids@[j] != failed_id;
    let mut c: Vec<usize> = Vec::new();
    let mut i: usize = 0;
    assert(all.take(0) =~= seq![]);
    while i < server_ids.len()
        invariant
            i <= server_ids.len(),
            all == Seq::new(server_ids@.len(), |j: int| j),
            keep == (|j: int| server_ids@[j] != failed_id),
            c@ == all.take(i as int).filter(keep).map_values(|j: int| j as usize),
        decreases server_ids.len() - i,
    {
        assert(all.take(i + 1).drop_last() =~= all.take(i as int));
        reveal_with_fuel(Seq::filter, 1);
        if server_ids[i] != failed_id {
            c.push(i);
            assert(c@ =~= all.take(i + 1).filter(keep).map_values(|j: int| j as usize));
        } else {
            assert(c@ =~= all.take(i + 1).filter(keep).map_values(|j: int| j as usize));
        }
        i += 1;
    }
    assert(all.take(server_ids.len() as int) =~= all);
    c
}


/// Why a query could not be answered.
pub enum ProxyError {
    /// No healthy upstream server is known.
    NoHealthyUpstreams,
    /// Every upstream completed without a NOERROR or NXDOMAIN answer.
    AllFailed(AllUpstreamsFailed),
    /// The chosen server failed and no other server answered; `cause` is the first failure.
    FailoverExhausted { cause: String },
}

/// The conventional mnemonic of a response code.
pub open spec fn response_code_text(code: ResponseCode) -> Seq<char> {
    match code {
        ResponseCode::NoError => "NOERROR"@,
        ResponseCode::FormErr => "FORMERR"@,
        ResponseCode::ServFail => "SERVFAIL"@,
        ResponseCode::NxDomain => "NXDOMAIN"@,
        ResponseCode::NotImp => "NOTIMP"@,
        ResponseCode::Refused => "REFUSED"@,
        ResponseCode::Other(n) => "RCODE"@ + decimal(n as nat),
    }
}

/// The text of an upstream failure.
pub open spec fn upstream_failure_text(f: UpstreamFailure) -> Seq<char> {
    match f {
        UpstreamFailure::Rejected { server_name, response_code } => server_name@ + " returned "@
            + response_code_text(response_code),
        UpstreamFailure::Failed { message } => message@,
    }
}

/// The text of a query failure.
pub open spec fn proxy_error_text(e: ProxyError) -> Seq<char> {
    match e {
        ProxyError::NoHealthyUpstreams => "No healthy upstream servers available"@,
        ProxyError::AllFailed(all) => "All upstream servers failed: "@ + match all.last_error {
            Some(f) => upstream_failure_text(f),
            None => "no NOERROR or NXDOMAIN response"@,
        },
        ProxyError::FailoverExhausted { cause } => "Query failed and failover exhausted: "@
            + cause@,
    }
}

impl ResponseCode {
    /// Appends the mnemonic of this code.
    pub fn push_text(&self, out: &mut String)
        ensures
            final(out)@ == old(out)@ + response_code_text(*self),
    {
        match self {
            ResponseCode::NoError => append_str(out, "NOERROR"),
            ResponseCode::FormErr => append_str(out, "FORMERR"),
            ResponseCode::ServFail => append_str(out, "SERVFAIL"),
            ResponseCode::NxDomain => append_str(out, "NXDOMAIN"),
            ResponseCode::NotImp => append_str(out, "NOTIMP"),
            ResponseCode::Refused => append_str(out, "REFUSED"),
            ResponseCode::Other(n) => {
                append_str(out, "RCODE");
                push_decimal(out, *n as u64);
                assert(final(out)@ =~= old(out)@ + response_code_text(*self));
            },
        }
    }
}

impl UpstreamFailure {
    /// The text of this failure.
    pub fn message(&self) -> (m: String)
        ensures
            m@ == upstream_failure_text(*self),
    {
        match self {
            UpstreamFailure::Rejected { server_name, response_code } => {
                let mut m = server_name.clone();
                append_str(&mut m, " returned ");
                response_code.push_text(&mut m);
                assert(m@ =~= upstream_failure_text(*self));
                m
            },
            UpstreamFailure::Failed { message } => message.clone(),
        }
    }
}

impl ProxyError {
    /// The text of this failure.
    pub fn message(&self) -> (m: String)
        ensures
            m@ == proxy_error_text(*self),
    {
        match self {
            ProxyError::NoHealthyUpstreams => {
                let mut m = String::new();
                append_str(&mut m, "No healthy upstream servers available");
                m
            },
            ProxyError::AllFailed(all) => {
                let mut m = String::new();
                append_str(&mut m, "All upstream servers failed: ");
                match &all.last_error {
                    Some(f) => {
                        let t = f.message();
                        append_str(&mut m, t.as_str());
                    },
                    None => append_str(&mut m, "no NOERROR or NXDOMAIN response"),
                }
                assert(m@ =~= proxy_error_text(*self));
                m
            },
            ProxyError::FailoverExhausted { cause } => {
                let mut m = String::new();
                append_str(&mut m, "Query failed and failover exhausted: ");
                append_str(&mut m, cause.as_str());
                m
            },
        }
    }
}

/// How one query is to be carried out.
#[derive(Debug, Clone, Copy, PartialEq, Eq, Structural)]
pub enum QueryPlan {
    /// Query every healthy server at once.
    Concurrent,
    /// Ask the upstream registry for its historically fastest healthy server.
    AskFastest,
    /// Query the healthy server at this position, with failover.
    Single(usize),
}

/// Calls `rand::Rng::gen_range(&mut rand::thread_rng(), 0..len)`; the contract claims only
/// that the index is below `len` (the range is never empty, so the call does not panic).
#[verifier::external_body]
fn random_below(len: usize) -> (i: usize)
    requires
        len > 0,
    ensures
        i < len,
{
    rand::Rng::gen_range(&mut rand::thread_rng(), 0..len)
}

/// The upstream proxy's strategy and counters, around an upstream registry `U`.
pub struct ProxyManager<U> {
    upstream_manager: U,
    strategy: QueryStrategy,
    round_robin_counter: usize,
    query_counter: u64,
}

/// The next value of a counter that wraps around on overflow.
pub open spec fn wrapping_next_usize(n: usize) -> usize {
    if n == usize::MAX {
        0
    } else {
        (n + 1) as usize
    }
}

/// The next value of a counter that wraps around on overflow.
pub open spec fn wrapping_next_u64(n: u64) -> u64 {
    if n == u64::MAX {
        0
    } else {
        (n + 1) as u64
    }
}

impl<U> ProxyManager<U> {
    pub closed spec fn strategy_spec(&self) -> QueryStrategy {
        self.strategy
    }

    pub closed spec fn round_robin_position(&self) -> usize {
        self.round_robin_counter
    }

    pub closed spec fn next_trace_id(&self) -> u64 {
        self.query_counter
    }

    pub closed spec fn upstream(&self) -> U {
        self.upstream_manager
    }

    /// A proxy with the default strategy and fresh counters.
    pub fn new(upstream_manager: U) -> (m: Self)
        ensures
            m.strategy_spec() == QueryStrategy::Concurrent,
            m.round_robin_position() == 0,
            m.next_trace_id() == 1,
            m.upstream() == upstream_manager,
    {
        ProxyManager {
            upstream_manager,
            strategy: QueryStrategy::default(),
            round_robin_counter: 0,
            query_counter: 1,
        }
    }

    /// A new proxy behind a shared pointer.
    pub fn new_shared(upstream_manager: U) -> (m: Arc<Self>)
        ensures
            (*m).strategy_spec() == QueryStrategy::Concurrent,
            (*m).round_robin_position() == 0,
            (*m).next_trace_id() == 1,
            (*m).upstream() == upstream_manager,
    {
        Arc::new(Self::new(upstream_manager))
    }

    pub fn get_strategy(&self) -> (s: QueryStrategy)
        ensures
            s == self.strategy_spec(),
    {
        self.strategy
    }

    pub fn set_strategy(&mut self, strategy: QueryStrategy)
        ensures
            final(self).strategy_spec() == strategy,
            final(self).round_robin_position() == old(self).round_robin_position(),
            final(self).next_trace_id() == old(self).next_trace_id(),
            final(self).upstream() == old(self).upstream(),
    {
        self.strategy = strategy;
    }

    pub fn upstream_manager(&self) -> (u: &U)
        ensures
            *u == self.upstream(),
    {
        &self.upstream_manager
    }

    /// Takes the identifier for the next query's diagnostics.
    pub fn next_query_id(&mut self) -> (id: u64)
        ensures
            id == old(self).next_trace_id(),
            final(self).next_trace_id() == wrapping_next_u64(old(self).next_trace_id()),
            final(self).strategy_spec() == old(self).strategy_spec(),
            final(self).round_robin_position() == old(self).round_robin_position(),
            final(self).upstream() == old(self).upstream(),
    {
        let id = self.query_counter;
        self.query_counter = if id == u64::MAX {
            0
        } else {
            id + 1
        };
        id
    }

    /// Decides how a query is carried out, given how many servers are healthy now.
    pub fn plan(&mut self, healthy_count: usize) -> (r: Result<QueryPlan, ProxyError>)
        ensures
            final(self).strategy_spec() == old(self).strategy_spec(),
            final(self).next_trace_id() == old(self).next_trace_id(),
            final(self).upstream() == old(self).upstream(),
            old(self).strategy_spec() == QueryStrategy::Fastest ==> r matches Ok(
                QueryPlan::AskFastest,
            ),
            old(self).strategy_spec() != QueryStrategy::Fastest && healthy_count == 0 ==> r matches Err(
                ProxyError::NoHealthyUpstreams,
            ),
            old(self).strategy_spec() == QueryStrategy::Concurrent && healthy_count > 0 ==> r
                matches Ok(QueryPlan::Concurrent),
            old(self).strategy_spec() == QueryStrategy::RoundRobin && healthy_count > 0 ==> r
                == Ok::<QueryPlan, ProxyError>(
                QueryPlan::Single(old(self).round_robin_position() % healthy_count),
            ) && final(self).round_robin_position() == wrapping_next_usize(
                old(self).round_robin_position(),
            ),
            !(old(self).strategy_spec() == QueryStrategy::RoundRobin && healthy_count > 0)
                ==> final(self).round_robin_position() == old(self).round_robin_position(),
            old(self).strategy_spec() == QueryStrategy::Random && healthy_count > 0 ==> (r matches Ok(
                QueryPlan::Single(i),
            ) && i < healthy_count),
    {
        match self.strategy {
            QueryStrategy::Fastest => Ok(QueryPlan::AskFastest),
            QueryStrategy::Concurrent => {
                if healthy_count == 0 {
                    Err(ProxyError::NoHealthyUpstreams)
                } else {
                    Ok(QueryPlan::Concurrent)
                }
            },
            QueryStrategy::RoundRobin => {
                if healthy_count == 0 {
                    Err(ProxyError::NoHealthyUpstreams)
                } else {
                    let counter = self.round_robin_counter;
                    self.round_robin_counter = if counter == usize::MAX {
                        0
                    } else {
                        counter + 1
                    };
                    Ok(QueryPlan::Single(counter % healthy_count))
                }
            },
            QueryStrategy::Random => {
                if healthy_count == 0 {
                    Err(ProxyError::NoHealthyUpstreams)
                } else {
                    Ok(QueryPlan::Single(random_below(healthy_count)))
                }
            },
        }
    }
}

/// What became of sending the query to one server: no client could be built for it (with
/// the reason), it answered, or the query failed.
pub enum AttemptOutcome<R> {
    NoClient(String),
    Answered(QueryResult<R>),
    Failed(String),
}

/// What to do after querying the server chosen by a single-server strategy.
pub enum ChosenStep<R> {
    /// No client could be built: report this error; nothing is recorded and no failover
    /// is tried.
    Refuse(String),
    /// Record `health`, then return the answer, whatever its response code.
    Answer { health: HealthUpdate, answer: QueryResult<R> },
    /// Record `health` (a failure of the chosen server), then fail over; if the failover
    /// finds no answer, report `cause`.
    FailOver { health: HealthUpdate, cause: String },
}

/// The step after querying the chosen server `server_id`.
pub fn chosen_server_step<R>(server_id: i64, outcome: AttemptOutcome<R>) -> (s: ChosenStep<R>)
    ensures
        match outcome {
            AttemptOutcome::NoClient(e) => s matches ChosenStep::Refuse(m) && m@ == e@,
            AttemptOutcome::Answered(r) => s matches ChosenStep::Answer { health, answer } && answer
                == r && health == (HealthUpdate::Success {
                server_id: r.server_id,
                response_time_ms: r.response_time_ms,
            }),
            AttemptOutcome::Failed(e) => s matches ChosenStep::FailOver { health, cause } && cause@
                == e@ && health == (HealthUpdate::Failure { server_id }),
        },
{
    match outcome {
        AttemptOutcome::NoClient(e) => ChosenStep::Refuse(e),
        AttemptOutcome::Answered(r) => {
            let health = HealthUpdate::Success {
                server_id: r.server_id,
                response_time_ms: r.response_time_ms,
            };
            ChosenStep::Answer { health, answer: r }
        },
        AttemptOutcome::Failed(e) => ChosenStep::FailOver {
            health: HealthUpdate::Failure { server_id },
            cause: e,
        },
    }
}

/// What to do after trying one failover candidate.
pub enum FailoverStep<R> {
    /// No client could be built: skip the candidate, recording nothing.
    Skip,
    /// Record `health` (a failure of the candidate), then try the next candidate.
    Next { health: HealthUpdate },
    /// Record `health`, then return the answer; no later candidate is queried.
    Answer { health: HealthUpdate, answer: QueryResult<R> },
}

/// The step after trying the failover candidate `server_id`.
pub fn failover_step<R>(server_id: i64, outcome: AttemptOutcome<R>) -> (s: FailoverStep<R>)
    ensures
        match outcome {
            AttemptOutcome::NoClient(_) => s is Skip,
            AttemptOutcome::Answered(r) => s matches FailoverStep::Answer { health, answer } && answer
                == r && health == (HealthUpdate::Success {
                server_id: r.server_id,
                response_time_ms: r.response_time_ms,
            }),
            AttemptOutcome::Failed(_) => s matches FailoverStep::Next { health } && health == (
            HealthUpdate::Failure { server_id }),
        },
{
    match outcome {
        AttemptOutcome::NoClient(_) => FailoverStep::Skip,
        AttemptOutcome::Answered(r) => {
            let health = HealthUpdate::Success {
                server_id: r.server_id,
                response_time_ms: r.response_time_ms,
            };
            FailoverStep::Answer { health, answer: r }
        },
        AttemptOutcome::Failed(_) => FailoverStep::Next { health: HealthUpdate::Failure { server_id } },
    }
}

/// The error of a failover in which no candidate answered.
pub fn failover_exhausted_message() -> (m: String)
    ensures
        m@ == "All failover servers exhausted"@,
{
    "All failover servers exhausted".to_owned()
}

/// The result of a single-server query once its failover ended: the failover's answer, or,
/// when it found none, the chosen server's own failure `cause`.
pub fn after_failover<R>(cause: String, found: Option<QueryResult<R>>) -> (r: Result<QueryResult<R>, ProxyError>)
    ensures
        found matches Some(a) ==> (r matches Ok(b) && b == a),
        found is None ==> (r matches Err(ProxyError::FailoverExhausted { cause: c }) && c@ == cause@),
{
    match found {
        Some(a) => Ok(a),
        None => Err(ProxyError::FailoverExhausted { cause }),
    }
}

/// What to do for one healthy server when starting a concurrent query.
#[derive(Debug, Clone, Copy, PartialEq, Eq, Structural)]
pub enum SpawnDecision {
    /// Start one task that queries the server once and records its health update.
    Spawn,
    /// No client could be built: record this failure and start no task.
    Skip { health: HealthUpdate },
}

/// Whether a concurrent query starts a task for `server_id`, given whether its client
/// could be built.
pub fn spawn_decision(server_id: i64, client_built: bool) -> (d: SpawnDecision)
    ensures
        client_built ==> d == SpawnDecision::Spawn,
        !client_built ==> d == (SpawnDecision::Skip { health: HealthUpdate::Failure { server_id } }),
{
    if client_built {
        SpawnDecision::Spawn
    } else {
        SpawnDecision::Skip { health: HealthUpdate::Failure { server_id } }
    }
}

/// The server that the fastest strategy queries: the registry's pick, or the "nothing
/// available" error when it has none.
pub fn fastest_or_err<T>(found: Option<T>) -> (r: Result<T, ProxyError>)
    ensures
        found matches Some(t) ==> r matches Ok(u) && u == t,
        found is None ==> r matches Err(ProxyError::NoHealthyUpstreams),
{
    match found {
        Some(t) => Ok(t),
        None => Err(ProxyError::NoHealthyUpstreams),
    }
}

/// Round robin rotates: while the counter does not wrap, the next pick is the server after
/// the current one, cyclically.
pub proof fn law_round_robin_rotates(counter: usize, healthy_count: usize)
    requires
        healthy_count > 0,
        counter < usize::MAX,
    ensures
        wrapping_next_usize(counter) as int % healthy_count as int == ((counter % healthy_count)
            as int + 1) % (healthy_count as int),
{
    vstd::arithmetic::div_mod::lemma_add_mod_noop(counter as int, 1, healthy_count as int);
    if healthy_count == 1 {
        vstd::arithmetic::div_mod::lemma_mod_self_0(1);
    } else {
        vstd::arithmetic::div_mod::lemma_small_mod(1, healthy_count as nat);
    }
}


/// Selection prefers NOERROR: with some NOERROR answer it returns the fastest NOERROR answer
/// (the earliest of equally fast ones); with none, the fastest NXDOMAIN answer likewise;
/// with neither, a failure.
pub proof fn law_selection_prefers_fastest_noerror_then_fastest_nxdomain<R>(s: Seq<Result<QueryResult<R>, String>>)
    ensures
        any_with(s, ResponseCode::NoError) ==> exists|i: int|
            0 <= i < s.len() && #[trigger] has_code(s[i], ResponseCode::NoError) && selected(s)
                == Ok::<QueryResult<R>, AllUpstreamsFailed>(s[i]->Ok_0) && (forall|j: int|
                0 <= j < s.len() && has_code(s[j], ResponseCode::NoError) ==> s[i]->Ok_0.response_time_ms
                    <= s[j]->Ok_0.response_time_ms) && (forall|j: int|
                0 <= j < i && has_code(s[j], ResponseCode::NoError) ==> s[i]->Ok_0.response_time_ms
                    < s[j]->Ok_0.response_time_ms),
        !any_with(s, ResponseCode::NoError) && any_with(s, ResponseCode::NxDomain) ==> exists|i: int|
            0 <= i < s.len() && #[trigger] has_code(s[i], ResponseCode::NxDomain) && selected(s)
                == Ok::<QueryResult<R>, AllUpstreamsFailed>(s[i]->Ok_0) && (forall|j: int|
                0 <= j < s.len() && has_code(s[j], ResponseCode::NxDomain) ==> s[i]->Ok_0.response_time_ms
                    <= s[j]->Ok_0.response_time_ms) && (forall|j: int|
                0 <= j < i && has_code(s[j], ResponseCode::NxDomain) ==> s[i]->Ok_0.response_time_ms
                    < s[j]->Ok_0.response_time_ms),
        !any_with(s, ResponseCode::NoError) && !any_with(s, ResponseCode::NxDomain) ==> selected(s) is Err,
{
    lemma_fastest_index(s, ResponseCode::NoError);
    lemma_fastest_index(s, ResponseCode::NxDomain);
    lemma_scan_fastest(s, ResponseCode::NoError);
    lemma_scan_fastest(s, ResponseCode::NxDomain);
    if any_with(s, ResponseCode::NoError) {
        let i = fastest_index(s, ResponseCode::NoError);
        assert(is_fastest_with(s, ResponseCode::NoError, i));
        assert(has_code(s[i], ResponseCode::NoError));
    } else if any_with(s, ResponseCode::NxDomain) {
        let i = fastest_index(s, ResponseCode::NxDomain);
        assert(is_fastest_with(s, ResponseCode::NxDomain, i));
        assert(has_code(s[i], ResponseCode::NxDomain));
    }
}

/// Selection never makes up an answer: what it returns is one of the completed answers,
/// and that answer is a NOERROR or an NXDOMAIN.
pub proof fn law_selection_never_fabricates<R>(s: Seq<Result<QueryResult<R>, String>>)
    ensures
        selected(s) matches Ok(q) ==> exists|i: int|
            0 <= i < s.len() && s[i] == Ok::<QueryResult<R>, String>(q) && (#[trigger] has_code(
                s[i],
                ResponseCode::NoError,
            ) || has_code(s[i], ResponseCode::NxDomain)),
{
    lemma_fastest_index(s, ResponseCode::NoError);
    lemma_fastest_index(s, ResponseCode::NxDomain);
    lemma_scan_fastest(s, ResponseCode::NoError);
    lemma_scan_fastest(s, ResponseCode::NxDomain);
    if any_with(s, ResponseCode::NoError) {
        let i = fastest_index(s, ResponseCode::NoError);
        assert(has_code(s[i], ResponseCode::NoError));
    } else if any_with(s, ResponseCode::NxDomain) {
        let i = fastest_index(s, ResponseCode::NxDomain);
        assert(has_code(s[i], ResponseCode::NxDomain));
    }
}

} // verus!
