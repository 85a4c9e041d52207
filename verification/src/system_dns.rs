use vstd::prelude::*;

use crate::net::IpAddress;
use crate::recording::RecordingPlatform;
use crate::text::{
    append_str, chars_eq, chars_of, contains_seq, has_prefix_at, owned, lines, split_lines, starts_with, str_eq, string_from_chars,
    string_from_range, trim, trim_bounds, views_of,
};

verus! {

/// Which DNS servers one macOS network service should use, and whether that is enforced.
#[derive(Debug)]
pub struct NetworkDnsBinding {
    pub service: String,
    pub enabled: bool,
    pub preset_servers: Vec<IpAddress>,
}

/// A binding as plain values.
pub struct BindingView {
    pub service: Seq<char>,
    pub enabled: bool,
    pub preset_servers: Seq<IpAddress>,
}

impl View for NetworkDnsBinding {
    type V = BindingView;

    open spec fn view(&self) -> BindingView {
        BindingView {
            service: self.service@,
            enabled: self.enabled,
            preset_servers: self.preset_servers@,
        }
    }
}

/// The DNS bindings of all configured network services and how often they are checked.
#[derive(Debug)]
pub struct SystemDnsConfig {
    pub bindings: Vec<NetworkDnsBinding>,
    pub check_interval_secs: u64,
}

/// A configuration as plain values.
pub struct SystemDnsConfigView {
    pub bindings: Seq<BindingView>,
    pub check_interval_secs: u64,
}

impl View for SystemDnsConfig {
    type V = SystemDnsConfigView;

    open spec fn view(&self) -> SystemDnsConfigView {
        SystemDnsConfigView {
            bindings: self.bindings@.map_values(|b: NetworkDnsBinding| b@),
            check_interval_secs: self.check_interval_secs,
        }
    }
}

/// The shortest check interval, in seconds.
pub const MIN_CHECK_INTERVAL_SECS: u64 = 1;

/// What makes a configuration invalid.
pub enum ConfigIssue {
    IntervalTooShort,
    EmptyServiceName,
    DuplicateService(Seq<char>),
    EnabledWithoutServers(Seq<char>),
    DuplicateServers(Seq<char>),
}

/// Why a configuration was refused; service names are given trimmed.
#[derive(Debug)]
pub enum SystemDnsConfigError {
    /// The check interval is below one second.
    IntervalTooShort,
    /// A service name is empty or only whitespace.
    EmptyServiceName,
    /// Two bindings name the same service.
    DuplicateService(String),
    /// An enabled binding has no DNS server.
    EnabledWithoutServers(String),
    /// A binding lists one DNS server twice.
    DuplicateServers(String),
}

impl View for SystemDnsConfigError {
    type V = ConfigIssue;

    open spec fn view(&self) -> ConfigIssue {
        match self {
            SystemDnsConfigError::IntervalTooShort => ConfigIssue::IntervalTooShort,
            SystemDnsConfigError::EmptyServiceName => ConfigIssue::EmptyServiceName,
            SystemDnsConfigError::DuplicateService(s) => ConfigIssue::DuplicateService(s@),
            SystemDnsConfigError::EnabledWithoutServers(s) => ConfigIssue::EnabledWithoutServers(
                s@,
            ),
            SystemDnsConfigError::DuplicateServers(s) => ConfigIssue::DuplicateServers(s@),
        }
    }
}

/// The issue with binding `k`, given the bindings before it.
pub open spec fn binding_issue(bs: Seq<BindingView>, k: int) -> Option<ConfigIssue> {
    let name = trim(bs[k].service);
    if name.len() == 0 {
        Some(ConfigIssue::EmptyServiceName)
    } else if exists|j: int| 0 <= j < k && trim(#[trigger] bs[j].service) == name {
        Some(ConfigIssue::DuplicateService(name))
    } else if bs[k].enabled && bs[k].preset_servers.len() == 0 {
        Some(ConfigIssue::EnabledWithoutServers(name))
    } else if !bs[k].preset_servers.no_duplicates() {
        Some(ConfigIssue::DuplicateServers(name))
    } else {
        None
    }
}

/// The issue of the first binding that has one.
pub open spec fn first_binding_issue(bs: Seq<BindingView>) -> Option<ConfigIssue>
    decreases bs.len(),
{
    if bs.len() == 0 {
        None
    } else {
        match first_binding_issue(bs.drop_last()) {
            Some(issue) => Some(issue),
            None => binding_issue(bs, bs.len() - 1),
        }
    }
}

/// The first issue of a configuration, checked in order: the interval, then each binding.
pub open spec fn config_issue(c: SystemDnsConfigView) -> Option<ConfigIssue> {
    if c.check_interval_secs < MIN_CHECK_INTERVAL_SECS {
        Some(ConfigIssue::IntervalTooShort)
    } else {
        first_binding_issue(c.bindings)
    }
}

proof fn lemma_binding_issue_prefix(bs: Seq<BindingView>, n: int, k: int)
    requires
        0 <= k < n <= bs.len(),
    ensures
        binding_issue(bs.take(n), k) == binding_issue(bs, k),
{
    let t = bs.take(n);
    assert forall|j: int| 0 <= j <= k implies t[j] == bs[j] by {}
    if exists|j: int| 0 <= j < k && trim(#[trigger] bs[j].service) == trim(bs[k].service) {
        let j = choose|j: int| 0 <= j < k && trim(#[trigger] bs[j].service) == trim(bs[k].service);
        assert(trim(t[j].service) == trim(t[k].service));
    }
}

proof fn lemma_first_issue_prefix(bs: Seq<BindingView>, n: int)
    requires
        0 <= n <= bs.len(),
        first_binding_issue(bs.take(n)) is Some,
    ensures
        first_binding_issue(bs) == first_binding_issue(bs.take(n)),
    decreases bs.len() - n,
{
    if n < bs.len() {
        assert(bs.take(n + 1).drop_last() =~= bs.take(n));
        lemma_first_issue_prefix(bs, n + 1);
    } else {
        assert(bs.take(n) =~= bs);
    }
}

/// Whether `v` holds some address twice.
fn has_duplicate(v: &Vec<IpAddress>) -> (r: bool)
    ensures
        r == !v@.no_duplicates(),
{
    let mut i: usize = 0;
    while i < v.len()
        invariant
            i <= v.len(),
            forall|a: int, b: int| 0 <= a < b < v.len() && a < i ==> v@[a] != v@[b],
        decreases v.len() - i,
    {
        let mut j: usize = i + 1;
        while j < v.len()
            invariant
                i < j <= v.len(),
                forall|a: int, b: int| 0 <= a < b < v.len() && a < i ==> v@[a] != v@[b],
                forall|b: int| i < b < j ==> v@[i as int] != v@[b],
            decreases v.len() - j,
        {
            if v[i] == v[j] {
                return true;
            }
            j += 1;
        }
        i += 1;
    }
    false
}


/// The trimmed characters of a string.
fn trimmed_chars(s: &str) -> (t: Vec<char>)
    ensures
        t@ == trim(s@),
{
    let chars = chars_of(s);
    let (from, to) = trim_bounds(&chars);
    let mut t: Vec<char> = Vec::new();
    let mut i = from;
    while i < to
        invariant
            from <= i <= to <= chars.len(),
            t@ == chars@.subrange(from as int, i as int),
        decreases to - i,
    {
        t.push(chars[i]);
        assert(chars@.subrange(from as int, i + 1) =~= chars@.subrange(from as int, i as int).push(
            chars@[i as int],
        ));
        i += 1;
    }
    t
}

impl SystemDnsConfig {
    /// Checks the interval, then each binding in order: a non-empty trimmed service name, not
    /// used by an earlier binding, at least one server when enabled, no server twice. The
    /// first failed check is reported.
    pub fn validate(&self) -> (r: Result<(), SystemDnsConfigError>)
        ensures
            match r {
                Ok(()) => config_issue(self@) is None,
                Err(e) => config_issue(self@) == Some(e@),
            },
    {
        if self.check_interval_secs < MIN_CHECK_INTERVAL_SECS {
            return Err(SystemDnsConfigError::IntervalTooShort);
        }
        let ghost bs = self@.bindings;
        let mut seen: Vec<Vec<char>> = Vec::new();
        let mut i: usize = 0;
        while i < self.bindings.len()
            invariant
                bs == self@.bindings,
                self.check_interval_secs >= MIN_CHECK_INTERVAL_SECS,
                bs.len() == self.bindings.len(),
                i <= self.bindings.len(),
                seen.len() == i,
                forall|j: int| 0 <= j < i ==> (#[trigger] seen@[j])@ == trim(bs[j].service),
                first_binding_issue(bs.take(i as int)) is None,
            decreases self.bindings.len() - i,
        {
            let binding = &self.bindings[i];
            assert(bs[i as int] == binding@);
            proof {
                lemma_binding_issue_prefix(bs, i + 1, i as int);
                assert(bs.take(i + 1).drop_last() =~= bs.take(i as int));
            }
            proof {
                if first_binding_issue(bs.take(i + 1)) is Some {
                    lemma_first_issue_prefix(bs, i + 1);
                }
            }
            let name = trimmed_chars(binding.service.as_str());
            if name.len() == 0 {
                return Err(SystemDnsConfigError::EmptyServiceName);
            }
            let mut k: usize = 0;
            #[verifier::loop_isolation(false)]
            while k < seen.len()
                invariant
                    k <= seen.len() == i,
                    forall|j: int| 0 <= j < i ==> (#[trigger] seen@[j])@ == trim(bs[j].service),
                    forall|j: int| 0 <= j < k ==> trim(#[trigger] bs[j].service) != name@,
                decreases seen.len() - k,
            {
                if chars_eq(&seen[k], &name) {
                    assert(trim(bs[k as int].service) == name@);
                    return Err(SystemDnsConfigError::DuplicateService(string_from_chars(&name)));
                }
                k += 1;
            }
            if binding.enabled && binding.preset_servers.len() == 0 {
                return Err(SystemDnsConfigError::EnabledWithoutServers(string_from_chars(&name)));
            }
            if has_duplicate(&binding.preset_servers) {
                return Err(SystemDnsConfigError::DuplicateServers(string_from_chars(&name)));
            }
            seen.push(name);
            i += 1;
        }
        assert(bs.take(bs.len() as int) =~= bs);
        Ok(())
    }
}

impl SystemDnsConfigError {
    /// The text shown for this error.
    pub fn message(&self) -> (m: String)
        ensures
            m@ == config_issue_text(self@),
    {
        let mut m = String::new();
        match self {
            SystemDnsConfigError::IntervalTooShort => append_str(&mut m, "DNS 检测频率不能小于 1 秒"),
            SystemDnsConfigError::EmptyServiceName => append_str(&mut m, "网络服务名称不能为空"),
            SystemDnsConfigError::DuplicateService(s) => {
                append_str(&mut m, "网络服务不能重复配置: ");
                append_str(&mut m, s.as_str());
            },
            SystemDnsConfigError::EnabledWithoutServers(s) => {
                append_str(&mut m, "已启用的网络服务必须配置至少一个 DNS 地址: ");
                append_str(&mut m, s.as_str());
            },
            SystemDnsConfigError::DuplicateServers(s) => {
                append_str(&mut m, "网络服务 ");
                append_str(&mut m, s.as_str());
                append_str(&mut m, " 的 DNS 地址不能重复");
            },
        }
        m
    }
}

/// The text shown for a configuration issue.
pub open spec fn config_issue_text(issue: ConfigIssue) -> Seq<char> {
    match issue {
        ConfigIssue::IntervalTooShort => "DNS 检测频率不能小于 1 秒"@,
        ConfigIssue::EmptyServiceName => "网络服务名称不能为空"@,
        ConfigIssue::DuplicateService(s) => "网络服务不能重复配置: "@ + s,
        ConfigIssue::EnabledWithoutServers(s) => "已启用的网络服务必须配置至少一个 DNS 地址: "@ + s,
        ConfigIssue::DuplicateServers(s) => "网络服务 "@ + s + " 的 DNS 地址不能重复"@,
    }
}


/// A copy of a list of addresses.
pub fn copy_servers(v: &Vec<IpAddress>) -> (c: Vec<IpAddress>)
    ensures
        c@ == v@,
{
    let mut c: Vec<IpAddress> = Vec::new();
    let mut i: usize = 0;
    while i < v.len()
        invariant
            i <= v.len(),
            c@ == v@.take(i as int),
        decreases v.len() - i,
    {
        c.push(v[i]);
        assert(v@.take(i + 1) =~= v@.take(i as int).push(v@[i as int]));
        i += 1;
    }
    assert(v@.take(v.len() as int) =~= v@);
    c
}

/// Whether two lists hold the same addresses in the same order.
pub fn servers_eq(a: &Vec<IpAddress>, b: &Vec<IpAddress>) -> (r: bool)
    ensures
        r == (a@ == b@),
{
    if a.len() != b.len() {
        return false;
    }
    let mut i: usize = 0;
    while i < a.len()
        invariant
            a.len() == b.len(),
            i <= a.len(),
            forall|k: int| 0 <= k < i ==> a@[k] == b@[k],
        decreases a.len() - i,
    {
        if a[i] != b[i] {
            return false;
        }
        i += 1;
    }
    assert(a@ =~= b@);
    true
}

impl NetworkDnsBinding {
    pub fn clone(&self) -> (c: NetworkDnsBinding)
        ensures
            c@ == self@,
    {
        NetworkDnsBinding {
            service: self.service.clone(),
            enabled: self.enabled,
            preset_servers: copy_servers(&self.preset_servers),
        }
    }
}

impl SystemDnsConfig {
    pub fn clone(&self) -> (c: SystemDnsConfig)
        ensures
            c@ == self@,
    {
        let mut bindings: Vec<NetworkDnsBinding> = Vec::new();
        let mut i: usize = 0;
        while i < self.bindings.len()
            invariant
                i <= self.bindings.len(),
                bindings@.map_values(|b: NetworkDnsBinding| b@) == self@.bindings.take(i as int),
            decreases self.bindings.len() - i,
        {
            let b = self.bindings[i].clone();
            let ghost prev = bindings@;
            bindings.push(b);
            assert(bindings@ == prev.push(b));
            assert(self@.bindings[i as int] == self.bindings@[i as int]@);
            assert(bindings@.map_values(|b: NetworkDnsBinding| b@) =~= prev.map_values(
                |b: NetworkDnsBinding| b@,
            ).push(b@));
            assert(bindings@.map_values(|b: NetworkDnsBinding| b@) =~= self@.bindings.take(
                i + 1,
            ));
            i += 1;
        }
        assert(self@.bindings.take(self.bindings.len() as int) =~= self@.bindings);
        SystemDnsConfig { bindings, check_interval_secs: self.check_interval_secs }
    }
}

impl Default for SystemDnsConfig {
    /// No bindings, checked every thirty seconds.
    fn default() -> (c: SystemDnsConfig)
        ensures
            c@.bindings.len() == 0,
            c@.check_interval_secs == 30,
    {
        SystemDnsConfig { bindings: Vec::new(), check_interval_secs: 30 }
    }
}

/// The DNS state of one network service, next to what is configured for it.
#[derive(Debug)]
pub struct NetworkServiceDns {
    pub service: String,
    pub current_servers: Vec<IpAddress>,
    pub enabled: bool,
    pub preset_servers: Vec<IpAddress>,
    pub matches_preset: bool,
}

/// A service's DNS state as plain values.
pub struct ServiceDnsView {
    pub service: Seq<char>,
    pub current_servers: Seq<IpAddress>,
    pub enabled: bool,
    pub preset_servers: Seq<IpAddress>,
    pub matches_preset: bool,
}

impl View for NetworkServiceDns {
    type V = ServiceDnsView;

    open spec fn view(&self) -> ServiceDnsView {
        ServiceDnsView {
            service: self.service@,
            current_servers: self.current_servers@,
            enabled: self.enabled,
            preset_servers: self.preset_servers@,
            matches_preset: self.matches_preset,
        }
    }
}

/// The first binding for exactly this service name.
pub open spec fn binding_for(bs: Seq<BindingView>, service: Seq<char>) -> Option<BindingView>
    decreases bs.len(),
{
    if bs.len() == 0 {
        None
    } else if bs[0].service == service {
        Some(bs[0])
    } else {
        binding_for(bs.drop_first(), service)
    }
}

/// Whether a reported service state agrees with the configuration: enabled and preset as
/// its binding says (disabled and empty without one), matching only when enabled and the
/// current servers are exactly the preset, in order.
pub open spec fn describes(c: SystemDnsConfigView, item: ServiceDnsView) -> bool {
    let b = binding_for(c.bindings, item.service);
    &&& item.enabled == (b matches Some(x) && x.enabled)
    &&& item.preset_servers == match b {
        Some(x) => x.preset_servers,
        None => Seq::<IpAddress>::empty(),
    }
    &&& item.matches_preset == (item.enabled && item.current_servers == item.preset_servers)
}

/// Reads and changes the DNS servers of network services. The system's implementation runs
/// `networksetup`; tests provide their own.
pub trait SystemDnsPlatform {
    fn list_network_services(&self) -> Result<Vec<String>, String>;

    fn get_servers(&self, service: &str) -> Result<Vec<IpAddress>, String>;

    fn set_servers(&self, service: &str, servers: &[IpAddress]) -> Result<(), String>;

    fn clear_servers(&self, service: &str) -> Result<(), String>;
}

/// One call made to the platform, with its arguments and what came back, as plain values.
pub enum PlatformCall {
    ListServices { listed: Result<Seq<Seq<char>>, Seq<char>> },
    GetServers { service: Seq<char>, read: Result<Seq<IpAddress>, Seq<char>> },
    SetServers { service: Seq<char>, servers: Seq<IpAddress>, written: Result<(), Seq<char>> },
    ClearServers { service: Seq<char>, cleared: Result<(), Seq<char>> },
}

/// The view of a list of service names, or of the error in its place.
pub open spec fn names_result_view(r: Result<Vec<String>, String>) -> Result<Seq<Seq<char>>, Seq<char>> {
    match r {
        Ok(v) => Ok(string_views(v@)),
        Err(e) => Err(e@),
    }
}

/// The view of a list of servers, or of the error in its place.
pub open spec fn servers_result_view(r: Result<Vec<IpAddress>, String>) -> Result<Seq<IpAddress>, Seq<char>> {
    match r {
        Ok(v) => Ok(v@),
        Err(e) => Err(e@),
    }
}

/// The view of a change's outcome.
pub open spec fn unit_result_view(r: Result<(), String>) -> Result<(), Seq<char>> {
    match r {
        Ok(()) => Ok(()),
        Err(e) => Err(e@),
    }
}

/// A call that listed the services.
pub open spec fn list_call(result: Result<Seq<Seq<char>>, Seq<char>>) -> PlatformCall {
    PlatformCall::ListServices { listed: result }
}

/// A call that read the servers of `service`.
pub open spec fn get_call(service: Seq<char>, result: Result<Seq<IpAddress>, Seq<char>>) -> PlatformCall {
    PlatformCall::GetServers { service, read: result }
}

/// A call that set the servers of `service`.
pub open spec fn set_call(service: Seq<char>, servers: Seq<IpAddress>, result: Result<(), Seq<char>>) -> PlatformCall {
    PlatformCall::SetServers { service, servers, written: result }
}

/// A call that cleared the servers of `service`.
pub open spec fn clear_call(service: Seq<char>, result: Result<(), Seq<char>>) -> PlatformCall {
    PlatformCall::ClearServers { service, cleared: result }
}

/// What the calls made after `before` are, once the record reads `after`.
pub open spec fn calls_since(before: Seq<PlatformCall>, after: Seq<PlatformCall>) -> Seq<PlatformCall> {
    after.skip(before.len() as int)
}

/// Whether a record only grew from `before` to `after`.
pub open spec fn record_grew(before: Seq<PlatformCall>, after: Seq<PlatformCall>) -> bool {
    before.len() <= after.len() && after.take(before.len() as int) == before
}

/// The position of the first binding for exactly this service name.
fn find_binding(config: &SystemDnsConfig, service: &str) -> (r: Option<usize>)
    ensures
        match r {
            Some(k) => k < config@.bindings.len() && binding_for(config@.bindings, service@) == Some(
                config@.bindings[k as int],
            ),
            None => binding_for(config@.bindings, service@) is None,
        },
{
    let ghost bs = config@.bindings;
    let mut i: usize = 0;
    assert(bs.skip(0) =~= bs);
    while i < config.bindings.len()
        invariant
            bs == config@.bindings,
            bs.len() == config.bindings.len(),
            i <= config.bindings.len(),
            binding_for(bs, service@) == binding_for(bs.skip(i as int), service@),
        decreases config.bindings.len() - i,
    {
        assert(bs.skip(i as int).drop_first() =~= bs.skip(i + 1));
        assert(bs[i as int] == config.bindings@[i as int]@);
        if str_eq(config.bindings[i].service.as_str(), service) {
            return Some(i);
        }
        i += 1;
    }
    None
}

/// The state of `service`, which the platform reports with `current` servers, as the
/// configuration sees it.
pub open spec fn service_view(c: SystemDnsConfigView, service: Seq<char>, current: Seq<IpAddress>) -> ServiceDnsView {
    let b = binding_for(c.bindings, service);
    let enabled = b matches Some(x) && x.enabled;
    let preset = match b {
        Some(x) => x.preset_servers,
        None => Seq::<IpAddress>::empty(),
    };
    ServiceDnsView {
        service,
        current_servers: current,
        enabled,
        preset_servers: preset,
        matches_preset: enabled && current == preset,
    }
}

proof fn lemma_binding_for_is_first(bs: Seq<BindingView>, service: Seq<char>)
    ensures
        binding_for(bs, service) is None <==> forall|k: int| 0 <= k < bs.len() ==> #[trigger] bs[k].service != service,
        forall|k: int|
            0 <= k < bs.len() && #[trigger] bs[k].service == service && (forall|j: int| 0 <= j < k ==> bs[j].service != service)
                ==> binding_for(bs, service) == Some(bs[k]),
    decreases bs.len(),
{
    if bs.len() > 0 {
        lemma_binding_for_is_first(bs.drop_first(), service);
        assert forall|k: int| 0 < k < bs.len() implies bs[k] == bs.drop_first()[k - 1] by {}
        assert forall|k: int|
            0 <= k < bs.len() && #[trigger] bs[k].service == service && (forall|j: int| 0 <= j < k ==> bs[j].service != service)
                implies binding_for(bs, service) == Some(bs[k]) by {
            if k > 0 {
                assert(bs[0].service != service);
                assert(bs.drop_first()[k - 1].service == service);
                assert forall|j: int| 0 <= j < k - 1 implies bs.drop_first()[j].service != service by {
                    assert(bs.drop_first()[j] == bs[j + 1]);
                }
            }
        }
        if forall|k: int| 0 <= k < bs.len() ==> #[trigger] bs[k].service != service {
            assert forall|k: int| 0 <= k < bs.drop_first().len() implies #[trigger] bs.drop_first()[k].service != service by {
                assert(bs.drop_first()[k] == bs[k + 1]);
            }
        }
    }
}

/// A reported state names the service and the servers read; it is enabled, with a preset,
/// as the first binding for that service says, and disabled with no preset when no binding
/// names the service; and it matches its preset exactly when it is enabled and the servers
/// read are the preset, in order.
pub proof fn law_state_follows_the_first_binding(c: SystemDnsConfigView, service: Seq<char>, current: Seq<IpAddress>)
    ensures
        service_view(c, service, current).service == service,
        service_view(c, service, current).current_servers == current,
        service_view(c, service, current).matches_preset == (service_view(c, service, current).enabled
            && current == service_view(c, service, current).preset_servers),
        (forall|k: int| 0 <= k < c.bindings.len() ==> #[trigger] c.bindings[k].service != service)
            ==> !service_view(c, service, current).enabled && service_view(
            c,
            service,
            current,
        ).preset_servers.len() == 0,
        forall|k: int|
            0 <= k < c.bindings.len() && #[trigger] c.bindings[k].service == service && (forall|j: int|
                0 <= j < k ==> c.bindings[j].service != service) ==> service_view(c, service, current).enabled
                == c.bindings[k].enabled && service_view(c, service, current).preset_servers
                == c.bindings[k].preset_servers,
{
    lemma_binding_for_is_first(c.bindings, service);
}

/// The state of `service`, which the platform reports with `current_servers`, as the
/// configuration sees it.
pub fn describe_service(config: &SystemDnsConfig, service: String, current_servers: Vec<IpAddress>) -> (item:
    NetworkServiceDns)
    ensures
        item@ == service_view(config@, service@, current_servers@),
        describes(config@, item@),
{
    let found = find_binding(config, service.as_str());
    let (enabled, preset_servers) = match found {
        Some(k) => {
            assert(config@.bindings[k as int] == config.bindings@[k as int]@);
            (config.bindings[k].enabled, copy_servers(&config.bindings[k].preset_servers))
        },
        None => (false, Vec::new()),
    };
    let matches_preset = enabled && servers_eq(&current_servers, &preset_servers);
    NetworkServiceDns { service, current_servers, enabled, preset_servers, matches_preset }
}

/// The views of a list of service states.
pub open spec fn items_view(v: Seq<NetworkServiceDns>) -> Seq<ServiceDnsView> {
    v.map_values(|i: NetworkServiceDns| i@)
}

/// The state of each of `services`, reported with the servers at the same position.
pub open spec fn services_view(
    c: SystemDnsConfigView,
    services: Seq<Seq<char>>,
    servers: Seq<Seq<IpAddress>>,
) -> Seq<ServiceDnsView> {
    Seq::new(services.len(), |k: int| service_view(c, services[k], servers[k]))
}

/// The views of a list of server lists.
pub open spec fn server_lists_view(v: Seq<Vec<IpAddress>>) -> Seq<Seq<IpAddress>> {
    v.map_values(|s: Vec<IpAddress>| s@)
}

/// The state of each listed service, reported with the servers at the same position, in
/// the order listed.
pub fn describe_services(config: &SystemDnsConfig, services: &Vec<String>, servers: &Vec<Vec<IpAddress>>) -> (r:
    Vec<NetworkServiceDns>)
    requires
        services.len() == servers.len(),
    ensures
        items_view(r@) == services_view(config@, string_views(services@), server_lists_view(servers@)),
{
    let mut r: Vec<NetworkServiceDns> = Vec::new();
    let mut i: usize = 0;
    while i < services.len()
        invariant
            services.len() == servers.len(),
            i <= services.len(),
            r@.len() == i,
            forall|k: int|
                0 <= k < i ==> (#[trigger] r@[k])@ == service_view(
                    config@,
                    services@[k]@,
                    servers@[k]@,
                ),
        decreases services.len() - i,
    {
        let item = describe_service(config, services[i].clone(), copy_servers(&servers[i]));
        r.push(item);
        i += 1;
    }
    assert(items_view(r@) =~= services_view(config@, string_views(services@), server_lists_view(servers@)));
    r
}

/// The servers that a recorded read returned, or its error; an error for any other call.
pub open spec fn servers_read(call: PlatformCall) -> Result<Seq<IpAddress>, Seq<char>> {
    match call {
        PlatformCall::GetServers { read, .. } => read,
        _ => Err(Seq::<char>::empty()),
    }
}

/// Whether a recorded call read the servers of `service`.
pub open spec fn reads_servers_of(call: PlatformCall, service: Seq<char>) -> bool {
    call matches PlatformCall::GetServers { service: s, .. } && s == service
}

/// What reading the servers of the listed `names`, one by one in order and stopping at the
/// first failure, gives when the reads are `gets`: `None` when `gets` are not such reads.
pub open spec fn reads_result(
    c: SystemDnsConfigView,
    names: Seq<Seq<char>>,
    gets: Seq<PlatformCall>,
) -> Option<Result<Seq<ServiceDnsView>, Seq<char>>> {
    if gets.len() <= names.len() && (forall|k: int|
        0 <= k < gets.len() ==> reads_servers_of(#[trigger] gets[k], names[k])) && (forall|k: int|
        0 <= k < gets.len() - 1 ==> servers_read(#[trigger] gets[k]) is Ok) {
        if gets.len() == names.len() && (gets.len() == 0 || servers_read(gets.last()) is Ok) {
            Some(
                Ok(Seq::new(names.len(), |k: int| service_view(c, names[k], servers_read(gets[k])->Ok_0))),
            )
        } else if gets.len() >= 1 && servers_read(gets.last()) is Err {
            Some(Err(servers_read(gets.last())->Err_0))
        } else {
            None
        }
    } else {
        None
    }
}

/// What a reading pass gives when its calls are `t`: it lists the services, then reads the
/// servers of each listed service in order, and stops at the first failure; on success,
/// one state per listed service, in order, described against `c`. `None` when `t` is not
/// such a pass.
pub open spec fn read_result(c: SystemDnsConfigView, t: Seq<PlatformCall>) -> Option<
    Result<Seq<ServiceDnsView>, Seq<char>>,
> {
    if t.len() == 0 {
        None
    } else {
        match t[0] {
            PlatformCall::ListServices { listed: Err(e) } => if t.len() == 1 {
                Some(Err(e))
            } else {
                None
            },
            PlatformCall::ListServices { listed: Ok(names) } => reads_result(c, names, t.drop_first()),
            _ => None,
        }
    }
}

/// The view of a list of states, or of the error in its place.
pub open spec fn items_result_view(r: Result<Vec<NetworkServiceDns>, String>) -> Result<
    Seq<ServiceDnsView>,
    Seq<char>,
> {
    match r {
        Ok(v) => Ok(items_view(v@)),
        Err(e) => Err(e@),
    }
}

/// Lists the services and reads the servers of each, in order, stopping at the first
/// failure; on success, each listed service's state as `config` sees it.
pub fn read_all_services<P: SystemDnsPlatform>(
    platform: &mut RecordingPlatform<P>,
    config: &SystemDnsConfig,
) -> (r: Result<Vec<NetworkServiceDns>, String>)
    ensures
        record_grew(old(platform).calls(), final(platform).calls()),
        read_result(config@, calls_since(old(platform).calls(), final(platform).calls())) == Some(
            items_result_view(r),
        ),
{
    let ghost before = platform.calls();
    let services = match platform.list() {
        Ok(v) => v,
        Err(e) => {
            proof {
                assert(calls_since(before, platform.calls()) =~= seq![list_call(Err(e@))]);
                assert(platform.calls().take(before.len() as int) =~= before);
            }
            return Err(e);
        },
    };
    let ghost names = string_views(services@);
    let ghost head = before.push(list_call(Ok(names)));
    let mut currents: Vec<Vec<IpAddress>> = Vec::new();
    let mut i: usize = 0;
    while i < services.len()
        invariant
            before == old(platform).calls(),
            names == string_views(services@),
            head == before.push(list_call(Ok(names))),
            i <= services.len(),
            currents@.len() == i,
            platform.calls().len() == head.len() + i,
            platform.calls().take(head.len() as int) == head,
            forall|k: int|
                0 <= k < i ==> #[trigger] platform.calls()[head.len() + k] == get_call(
                    names[k],
                    Ok(currents@[k]@),
                ),
        decreases services.len() - i,
    {
        let ghost at = platform.calls();
        match platform.get(services[i].as_str()) {
            Ok(current) => {
                proof {
                    assert(platform.calls().take(head.len() as int) =~= head) by {
                        assert(at.take(head.len() as int) == head);
                    }
                    assert forall|k: int| 0 <= k < i + 1 implies #[trigger] platform.calls()[head.len() + k]
                        == get_call(names[k], Ok(if k < i { currents@[k]@ } else { current@ })) by {
                        if k < i {
                            assert(platform.calls()[head.len() + k] == at[head.len() + k]);
                        }
                    }
                }
                currents.push(current);
                proof {
                    assert forall|k: int| 0 <= k < i + 1 implies #[trigger] platform.calls()[head.len() + k]
                        == get_call(names[k], Ok(currents@[k]@)) by {
                        assert(platform.calls()[head.len() + k] == get_call(
                            names[k],
                            Ok(if k < i { currents@[k]@ } else { currents@[i as int]@ }),
                        ));
                    }
                }
            },
            Err(e) => {
                proof {
                    let t = calls_since(before, platform.calls());
                    let gets = t.drop_first();
                    assert(platform.calls().take(before.len() as int) =~= before) by {
                        assert(at.take(head.len() as int) == head);
                        assert forall|k: int| 0 <= k < before.len() implies platform.calls()[k] == before[k] by {
                            assert(at.take(head.len() as int)[k] == head[k]);
                        }
                    }
                    assert(t[0] == list_call(Ok(names))) by {
                        assert(at.take(head.len() as int)[before.len() as int] == head[before.len() as int]);
                    }
                    assert(gets.len() == i + 1);
                    assert forall|k: int| 0 <= k < gets.len() implies reads_servers_of(#[trigger] gets[k], names[k]) by {
                        if k < i {
                            assert(gets[k] == platform.calls()[head.len() + k]);
                        }
                    }
                    assert forall|k: int| 0 <= k < gets.len() - 1 implies servers_read(#[trigger] gets[k]) is Ok by {
                        assert(gets[k] == platform.calls()[head.len() + k]);
                    }
                    assert(gets.last() == get_call(names[i as int], Err(e@)));
                }
                return Err(e);
            },
        }
        i += 1;
    }
    let items = describe_services(config, &services, &currents);
    proof {
        let t = calls_since(before, platform.calls());
        let gets = t.drop_first();
        assert(platform.calls().take(before.len() as int) =~= before) by {
            assert forall|k: int| 0 <= k < before.len() implies platform.calls()[k] == before[k] by {
                assert(platform.calls().take(head.len() as int)[k] == head[k]);
            }
        }
        assert(t[0] == list_call(Ok(names))) by {
            assert(platform.calls().take(head.len() as int)[before.len() as int] == head[before.len() as int]);
        }
        assert(gets.len() == names.len());
        assert forall|k: int| 0 <= k < gets.len() implies #[trigger] gets[k] == get_call(names[k], Ok(currents@[k]@)) by {
            assert(gets[k] == platform.calls()[head.len() + k]);
        }
        assert(Seq::new(names.len(), |k: int| service_view(config@, names[k], servers_read(gets[k])->Ok_0))
            =~= services_view(config@, string_views(services@), server_lists_view(currents@)));
    }
    Ok(items)
}

/// Why clearing one service's DNS servers failed.
#[derive(Debug)]
pub enum ClearServiceError {
    /// The service name is empty or only whitespace.
    EmptyServiceName,
    /// The platform reported a failure.
    Platform(String),
    /// After clearing, the platform no longer lists the (trimmed) service.
    NotFoundAfterClear(String),
}

impl ClearServiceError {
    pub fn message(&self) -> (m: String)
        ensures
            self is EmptyServiceName ==> m@ == "网络服务名称不能为空"@,
            self matches ClearServiceError::Platform(e) ==> m@ == e@,
            self matches ClearServiceError::NotFoundAfterClear(s) ==> m@ == "清空后未找到网络服务: "@
                + s@,
    {
        match self {
            ClearServiceError::EmptyServiceName => {
                let mut m = String::new();
                append_str(&mut m, "网络服务名称不能为空");
                m
            },
            ClearServiceError::Platform(e) => e.clone(),
            ClearServiceError::NotFoundAfterClear(s) => {
                let mut m = String::new();
                append_str(&mut m, "清空后未找到网络服务: ");
                append_str(&mut m, s.as_str());
                m
            },
        }
    }
}

/// The prefix of the error reported when clearing before exit fails.
pub open spec fn exit_clear_prefix() -> Seq<char> {
    "退出前清空系统 DNS 失败: "@
}

/// Whether a service that the platform reports with `current` servers must be set back to
/// its binding's preset: the binding is enabled and the servers differ from the preset (in
/// order).
pub fn needs_correction(binding: &NetworkDnsBinding, current: &Vec<IpAddress>) -> (b: bool)
    ensures
        b == (binding.enabled && current@ != binding.preset_servers@),
{
    binding.enabled && !servers_eq(current, &binding.preset_servers)
}

/// What correcting the bindings `bs`, in order, does when its calls start `t`: a disabled
/// binding is skipped without a call; an enabled one has its servers read, and, when they
/// differ from its preset, set to exactly its preset; the first failure ends the pass.
/// `Some(Ok(rest))` when every binding was handled and `rest` are the calls after that,
/// `Some(Err(e))` when the last call of `t` failed with `e`, and `None` when `t` is not
/// such a pass. No other call, and no call for another service, is part of a pass.
pub open spec fn correction_run(bs: Seq<BindingView>, t: Seq<PlatformCall>) -> Option<
    Result<Seq<PlatformCall>, Seq<char>>,
>
    decreases bs.len(),
{
    if bs.len() == 0 {
        Some(Ok(t))
    } else if !bs[0].enabled {
        correction_run(bs.drop_first(), t)
    } else if t.len() == 0 || !reads_servers_of(t[0], bs[0].service) {
        None
    } else {
        match servers_read(t[0]) {
            Err(e) => if t.len() == 1 {
                Some(Err(e))
            } else {
                None
            },
            Ok(current) => if current == bs[0].preset_servers {
                correction_run(bs.drop_first(), t.drop_first())
            } else if t.len() < 2 {
                None
            } else {
                match t[1] {
                    PlatformCall::SetServers { service, servers, written: result } => if service
                        == bs[0].service && servers == bs[0].preset_servers {
                        match result {
                            Ok(_) => correction_run(bs.drop_first(), t.skip(2)),
                            Err(e) => if t.len() == 2 {
                                Some(Err(e))
                            } else {
                                None
                            },
                        }
                    } else {
                        None
                    },
                    _ => None,
                }
            },
        }
    }
}

/// The calls that correcting `bs` makes when every call succeeds and the read of binding
/// `j` returns `reads[j]`: for each enabled binding in order, a read of its servers, then,
/// only when they differ from its preset, a setting to exactly its preset.
pub open spec fn pass_calls(bs: Seq<BindingView>, reads: Seq<Seq<IpAddress>>) -> Seq<PlatformCall>
    decreases bs.len(),
{
    if bs.len() == 0 {
        Seq::<PlatformCall>::empty()
    } else {
        let later = pass_calls(bs.drop_first(), reads.drop_first());
        if !bs[0].enabled {
            later
        } else if reads[0] == bs[0].preset_servers {
            seq![get_call(bs[0].service, Ok(reads[0]))] + later
        } else {
            seq![
                get_call(bs[0].service, Ok(reads[0])),
                set_call(bs[0].service, bs[0].preset_servers, Ok(())),
            ] + later
        }
    }
}

/// A correction pass that succeeds is exactly a read of every enabled binding, in order,
/// each followed by a setting to its preset only when what was read differs from it; no
/// disabled binding and no other service is touched, and nothing is cleared.
pub proof fn law_successful_pass_sets_only_differing_enabled_bindings(
    bs: Seq<BindingView>,
    t: Seq<PlatformCall>,
    rest: Seq<PlatformCall>,
)
    requires
        correction_run(bs, t) == Some(Ok::<Seq<PlatformCall>, Seq<char>>(rest)),
    ensures
        exists|reads: Seq<Seq<IpAddress>>| reads.len() == bs.len() && t == #[trigger] pass_calls(bs, reads) + rest,
    decreases bs.len(),
{
    if bs.len() == 0 {
        let reads = Seq::<Seq<IpAddress>>::empty();
        assert(t =~= pass_calls(bs, reads) + rest);
    } else if !bs[0].enabled {
        law_successful_pass_sets_only_differing_enabled_bindings(bs.drop_first(), t, rest);
        let reads0 = choose|reads: Seq<Seq<IpAddress>>| reads.len() == bs.drop_first().len() && t == #[trigger] pass_calls(bs.drop_first(), reads) + rest;
        let reads = seq![bs[0].preset_servers] + reads0;
        assert(reads.drop_first() =~= reads0);
        assert(t == pass_calls(bs, reads) + rest);
    } else {
        let cur = servers_read(t[0])->Ok_0;
        if cur == bs[0].preset_servers {
            let t1 = t.drop_first();
            law_successful_pass_sets_only_differing_enabled_bindings(bs.drop_first(), t1, rest);
            let reads0 = choose|reads: Seq<Seq<IpAddress>>| reads.len() == bs.drop_first().len() && t1 == #[trigger] pass_calls(bs.drop_first(), reads) + rest;
            let reads = seq![cur] + reads0;
            assert(reads.drop_first() =~= reads0);
            assert(t[0] == get_call(bs[0].service, Ok(cur)));
            assert(pass_calls(bs, reads) == seq![get_call(bs[0].service, Ok(cur))] + pass_calls(
                bs.drop_first(),
                reads0,
            ));
            assert(t =~= seq![t[0]] + t1);
            assert(t =~= pass_calls(bs, reads) + rest);
        } else {
            let t2 = t.skip(2);
            law_successful_pass_sets_only_differing_enabled_bindings(bs.drop_first(), t2, rest);
            let reads0 = choose|reads: Seq<Seq<IpAddress>>| reads.len() == bs.drop_first().len() && t2 == #[trigger] pass_calls(bs.drop_first(), reads) + rest;
            let reads = seq![cur] + reads0;
            assert(reads.drop_first() =~= reads0);
            assert(t[0] == get_call(bs[0].service, Ok(cur)));
            match t[1] {
                PlatformCall::SetServers { service, servers, written } => {
                    assert(written is Ok);
                    assert(service == bs[0].service && servers == bs[0].preset_servers);
                    match written {
                        Ok(u) => {
                            assert(u == ());
                        },
                        Err(_) => {},
                    }
                },
                _ => {
                    assert(false);
                },
            }
            assert(t[1] == set_call(bs[0].service, bs[0].preset_servers, Ok(())));
            assert(pass_calls(bs, reads) == seq![
                get_call(bs[0].service, Ok(cur)),
                set_call(bs[0].service, bs[0].preset_servers, Ok(())),
            ] + pass_calls(bs.drop_first(), reads0));
            assert(t =~= seq![t[0], t[1]] + t2);
            assert(t =~= pass_calls(bs, reads) + rest);
        }
    }
}

/// A pass in which every enabled binding is read with exactly its preset sets nothing: it
/// only reads.
pub proof fn law_pass_over_presets_only_reads(bs: Seq<BindingView>, reads: Seq<Seq<IpAddress>>)
    requires
        reads.len() == bs.len(),
        forall|j: int| 0 <= j < bs.len() && #[trigger] bs[j].enabled ==> reads[j] == bs[j].preset_servers,
    ensures
        forall|k: int|
            0 <= k < pass_calls(bs, reads).len() ==> (#[trigger] pass_calls(bs, reads)[k]) is GetServers,
    decreases bs.len(),
{
    if bs.len() > 0 {
        assert forall|j: int| 0 <= j < bs.drop_first().len() && #[trigger] bs.drop_first()[j].enabled implies reads.drop_first()[j] == bs.drop_first()[j].preset_servers by {
            assert(bs.drop_first()[j] == bs[j + 1]);
        }
        law_pass_over_presets_only_reads(bs.drop_first(), reads.drop_first());
        if bs[0].enabled {
            assert(reads[0] == bs[0].preset_servers);
        }
    }
}

/// The calls of a reading pass in which every call succeeds: the list of `names`, then a
/// read of each name, in order, returning `reads` at the same position.
pub open spec fn successful_read_calls(names: Seq<Seq<char>>, reads: Seq<Seq<IpAddress>>) -> Seq<PlatformCall> {
    seq![list_call(Ok(names))] + Seq::new(names.len(), |k: int| get_call(names[k], Ok(reads[k])))
}

/// A reading pass in which every call succeeds reports one entry per listed service, in
/// the order listed, each with the servers read for it and described against `c`.
pub proof fn law_read_pass_reports_every_listed_service(
    c: SystemDnsConfigView,
    names: Seq<Seq<char>>,
    reads: Seq<Seq<IpAddress>>,
)
    requires
        reads.len() == names.len(),
    ensures
        read_result(c, successful_read_calls(names, reads)) == Some(
            Ok::<Seq<ServiceDnsView>, Seq<char>>(Seq::new(names.len(), |k: int| service_view(c, names[k], reads[k]))),
        ),
{
    let t = successful_read_calls(names, reads);
    let gets = t.drop_first();
    assert(t[0] == list_call(Ok(names)));
    assert(gets =~= Seq::new(names.len(), |k: int| get_call(names[k], Ok(reads[k]))));
    assert forall|k: int| 0 <= k < gets.len() implies reads_servers_of(#[trigger] gets[k], names[k]) by {
        assert(gets[k] == get_call(names[k], Ok(reads[k])));
    }
    assert forall|k: int| 0 <= k < gets.len() - 1 implies servers_read(#[trigger] gets[k]) is Ok by {
        assert(gets[k] == get_call(names[k], Ok(reads[k])));
    }
    if gets.len() > 0 {
        assert(gets.last() == get_call(names[gets.len() - 1], Ok(reads[gets.len() - 1])));
    }
    assert(Seq::new(names.len(), |k: int| service_view(c, names[k], servers_read(gets[k])->Ok_0)) =~= Seq::new(
        names.len(),
        |k: int| service_view(c, names[k], reads[k]),
    )) by {
        assert forall|k: int| 0 <= k < names.len() implies servers_read(gets[k])->Ok_0 == reads[k] by {
            assert(gets[k] == get_call(names[k], Ok(reads[k])));
        }
    }
}

/// When every call succeeds, a correction pass is the calls `pass_calls` gives for what the
/// reads returned, whatever follows it.
pub proof fn law_correction_pass_accepts_its_calls(
    bs: Seq<BindingView>,
    reads: Seq<Seq<IpAddress>>,
    rest: Seq<PlatformCall>,
)
    requires
        reads.len() == bs.len(),
    ensures
        correction_run(bs, pass_calls(bs, reads) + rest) == Some(Ok::<Seq<PlatformCall>, Seq<char>>(rest)),
    decreases bs.len(),
{
    if bs.len() > 0 {
        let later = pass_calls(bs.drop_first(), reads.drop_first());
        law_correction_pass_accepts_its_calls(bs.drop_first(), reads.drop_first(), rest);
        if bs[0].enabled {
            let t = pass_calls(bs, reads) + rest;
            if reads[0] == bs[0].preset_servers {
                assert(t =~= seq![get_call(bs[0].service, Ok(reads[0]))] + (later + rest));
                assert(t.drop_first() =~= later + rest);
            } else {
                assert(t =~= seq![
                    get_call(bs[0].service, Ok(reads[0])),
                    set_call(bs[0].service, bs[0].preset_servers, Ok(())),
                ] + (later + rest));
                assert(t.skip(2) =~= later + rest);
            }
        }
    }
}

/// An enforcement pass in which every call succeeds, outside shutdown: every enabled
/// binding is read, exactly those whose servers differ from their preset are set to it,
/// in binding order, nothing else is changed, and the result is what the reading pass
/// that follows reports.
pub proof fn law_enforcement_corrects_then_reports(
    c: SystemDnsConfigView,
    reads: Seq<Seq<IpAddress>>,
    names: Seq<Seq<char>>,
    current: Seq<Seq<IpAddress>>,
)
    requires
        reads.len() == c.bindings.len(),
        current.len() == names.len(),
    ensures
        enforce_result(c, false, pass_calls(c.bindings, reads) + successful_read_calls(names, current))
            == Some(Ok::<Seq<ServiceDnsView>, Seq<char>>(Seq::new(names.len(), |k: int| service_view(c, names[k], current[k])))),
{
    law_correction_pass_accepts_its_calls(c.bindings, reads, successful_read_calls(names, current));
    law_read_pass_reports_every_listed_service(c, names, current);
}

/// While shutting down (after a successful exit clearing), an enforcement pass only reads.
pub proof fn law_shutting_down_pass_only_reads(c: SystemDnsConfigView, t: Seq<PlatformCall>)
    ensures
        enforce_result(c, true, t) == read_result(c, t),
{
}

/// What an enforcement pass gives when its calls are `t`: while shutting down only a
/// reading pass; otherwise the correction of every binding, then a reading pass.
pub open spec fn enforce_result(c: SystemDnsConfigView, shutting_down: bool, t: Seq<PlatformCall>) -> Option<
    Result<Seq<ServiceDnsView>, Seq<char>>,
> {
    if shutting_down {
        read_result(c, t)
    } else {
        match correction_run(c.bindings, t) {
            Some(Ok(rest)) => read_result(c, rest),
            Some(Err(e)) => Some(Err(e)),
            None => None,
        }
    }
}

/// The calls that handling binding `b` makes when nothing fails: none when it is disabled;
/// a read, and a setting to the preset when what was read differs from it.
pub open spec fn quiet_step(b: BindingView, step: Seq<PlatformCall>) -> bool {
    if !b.enabled {
        step.len() == 0
    } else {
        &&& step.len() >= 1
        &&& reads_servers_of(step[0], b.service)
        &&& servers_read(step[0]) is Ok
        &&& if servers_read(step[0])->Ok_0 == b.preset_servers {
            step.len() == 1
        } else {
            step.len() == 2 && step[1] == set_call(b.service, b.preset_servers, Ok(()))
        }
    }
}

proof fn lemma_correction_step(bs: Seq<BindingView>, i: int, seg: Seq<PlatformCall>, step: Seq<PlatformCall>)
    requires
        0 <= i < bs.len(),
        forall|x: Seq<PlatformCall>| #[trigger] correction_run(bs, seg + x) == correction_run(bs.skip(i), x),
        quiet_step(bs[i], step),
    ensures
        forall|x: Seq<PlatformCall>| #[trigger] correction_run(bs, (seg + step) + x) == correction_run(bs.skip(i + 1), x),
{
    let rest = bs.skip(i);
    assert(rest.drop_first() =~= bs.skip(i + 1));
    assert(rest[0] == bs[i]);
    assert forall|x: Seq<PlatformCall>| #[trigger] correction_run(bs, (seg + step) + x) == correction_run(bs.skip(i + 1), x) by {
        assert((seg + step) + x =~= seg + (step + x));
        assert(correction_run(bs, seg + (step + x)) == correction_run(rest, step + x));
        let y = step + x;
        if bs[i].enabled {
            assert(y[0] == step[0]);
            if step.len() == 1 {
                assert(y.drop_first() =~= x);
            } else {
                assert(y[1] == step[1]);
                assert(y.skip(2) =~= x);
            }
        } else {
            assert(y =~= x);
        }
    }
}

proof fn lemma_correction_fails(bs: Seq<BindingView>, i: int, seg: Seq<PlatformCall>, step: Seq<PlatformCall>, e: Seq<char>)
    requires
        0 <= i < bs.len(),
        forall|x: Seq<PlatformCall>| #[trigger] correction_run(bs, seg + x) == correction_run(bs.skip(i), x),
        bs[i].enabled,
        step.len() >= 1,
        reads_servers_of(step[0], bs[i].service),
        step.len() == 1 ==> servers_read(step[0]) == Err::<Seq<IpAddress>, Seq<char>>(e),
        step.len() == 2 ==> servers_read(step[0]) is Ok && servers_read(step[0])->Ok_0 != bs[i].preset_servers
            && step[1] == set_call(bs[i].service, bs[i].preset_servers, Err(e)),
        step.len() <= 2,
    ensures
        correction_run(bs, seg + step) == Some(Err::<Seq<PlatformCall>, Seq<char>>(e)),
{
    let rest = bs.skip(i);
    assert(rest[0] == bs[i]);
    assert(correction_run(bs, seg + step) == correction_run(rest, step));
}

/// A configuration that passed validation.
struct ValidConfig {
    inner: SystemDnsConfig,
}

impl ValidConfig {
    #[verifier::type_invariant]
    spec fn is_valid(&self) -> bool {
        config_issue(self.inner@) is None
    }
}

/// What clearing one service gives, as plain values.
pub enum ClearOutcome {
    /// The name was empty; nothing was called.
    EmptyName,
    /// A platform call failed with this error.
    Failed(Seq<char>),
    /// The service's state after clearing.
    Cleared(ServiceDnsView),
    /// The service was not listed after clearing.
    Missing(Seq<char>),
}

/// The view of what clearing one service gave.
pub open spec fn clear_outcome_view(r: Result<NetworkServiceDns, ClearServiceError>) -> ClearOutcome {
    match r {
        Ok(item) => ClearOutcome::Cleared(item@),
        Err(ClearServiceError::EmptyServiceName) => ClearOutcome::EmptyName,
        Err(ClearServiceError::Platform(e)) => ClearOutcome::Failed(e@),
        Err(ClearServiceError::NotFoundAfterClear(n)) => ClearOutcome::Missing(n@),
    }
}

/// The position of the first state for the service `name`.
pub open spec fn first_with_service(items: Seq<ServiceDnsView>, name: Seq<char>) -> Option<int>
    decreases items.len(),
{
    if items.len() == 0 {
        None
    } else if items[0].service == name {
        Some(0)
    } else {
        match first_with_service(items.drop_first(), name) {
            Some(k) => Some(k + 1),
            None => None,
        }
    }
}

/// The entry that clearing a service reports is an entry for that very service.
pub proof fn law_cleared_entry_is_for_the_service(items: Seq<ServiceDnsView>, name: Seq<char>)
    ensures
        first_with_service(items, name) matches Some(k) ==> 0 <= k < items.len() && items[k].service
            == name && forall|j: int| 0 <= j < k ==> #[trigger] items[j].service != name,
        first_with_service(items, name) is None ==> forall|j: int|
            0 <= j < items.len() ==> #[trigger] items[j].service != name,
    decreases items.len(),
{
    if items.len() > 0 {
        law_cleared_entry_is_for_the_service(items.drop_first(), name);
        assert forall|j: int| 0 < j < items.len() implies items[j] == items.drop_first()[j - 1] by {}
    }
}

/// The first state for the service `name`, or the "not found after clearing" error.
pub fn pick_service(items: Vec<NetworkServiceDns>, name: String) -> (r: Result<NetworkServiceDns, ClearServiceError>)
    ensures
        match first_with_service(items_view(items@), name@) {
            Some(k) => clear_outcome_view(r) == ClearOutcome::Cleared(items_view(items@)[k]),
            None => clear_outcome_view(r) == ClearOutcome::Missing(name@),
        },
{
    let ghost all = items_view(items@);
    let mut left = items;
    let mut i: usize = 0;
    assert(all.skip(0) =~= all);
    while i < left.len()
        invariant
            all == items_view(left@),
            all == items_view(items@),
            i <= left.len(),
            all.len() == left.len(),
            first_with_service(all, name@) == match first_with_service(all.skip(i as int), name@) {
                Some(k) => Some(k + i),
                None => None::<int>,
            },
        decreases left.len() - i,
    {
        assert(all.skip(i as int).drop_first() =~= all.skip(i + 1));
        assert(all.skip(i as int)[0] == left@[i as int]@);
        if str_eq(left[i].service.as_str(), name.as_str()) {
            assert(first_with_service(all.skip(i as int), name@) == Some(0int));
            let item = left.remove(i);
            assert(item@ == all[i as int]);
            return Ok(item);
        }
        i += 1;
    }
    Err(ClearServiceError::NotFoundAfterClear(name))
}

/// What clearing the service `name` gives when its calls are `t`: the servers of `name` are
/// cleared, then, unless that failed, a reading pass reports the state of `name` (the first
/// listed entry for it).
pub open spec fn clear_service_result(c: SystemDnsConfigView, name: Seq<char>, t: Seq<PlatformCall>) -> Option<ClearOutcome> {
    if t.len() == 0 {
        None
    } else {
        match t[0] {
            PlatformCall::ClearServers { service, cleared: result } => if service != name {
                None
            } else {
                match result {
                    Err(e) => if t.len() == 1 {
                        Some(ClearOutcome::Failed(e))
                    } else {
                        None
                    },
                    Ok(_) => match read_result(c, t.drop_first()) {
                        Some(Err(e)) => Some(ClearOutcome::Failed(e)),
                        Some(Ok(items)) => match first_with_service(items, name) {
                            Some(k) => Some(ClearOutcome::Cleared(items[k])),
                            None => Some(ClearOutcome::Missing(name)),
                        },
                        None => None,
                    },
                }
            },
            _ => None,
        }
    }
}

/// The outcome of a recorded clearing call, or an error for any other call.
pub open spec fn clear_outcome_of(call: PlatformCall) -> Result<(), Seq<char>> {
    match call {
        PlatformCall::ClearServers { cleared, .. } => cleared,
        _ => Err(Seq::<char>::empty()),
    }
}

/// The failed clearings among `names` with outcomes `outs`, as `service: error` parts
/// joined by `；`, in order.
pub open spec fn failures_text(names: Seq<Seq<char>>, outs: Seq<Result<(), Seq<char>>>) -> Seq<char>
    decreases outs.len(),
{
    if outs.len() == 0 {
        Seq::<char>::empty()
    } else {
        let prev = failures_text(names.drop_last(), outs.drop_last());
        match outs.last() {
            Ok(_) => prev,
            Err(e) => if prev.len() == 0 {
                names.last() + ": "@ + e
            } else {
                prev + "；"@ + names.last() + ": "@ + e
            },
        }
    }
}

/// The result of clearing every configured service: `Ok` exactly when every clearing
/// succeeded, else the failures after the common prefix.
pub open spec fn exit_clear_result(names: Seq<Seq<char>>, outs: Seq<Result<(), Seq<char>>>) -> Result<(), Seq<char>> {
    if forall|k: int| 0 <= k < outs.len() ==> (#[trigger] outs[k]) is Ok {
        Ok(())
    } else {
        Err(exit_clear_prefix() + failures_text(names, outs))
    }
}

/// Clearing before exit succeeds exactly when every clearing succeeded; when one failed,
/// the error starts with the common prefix and names the service of the first failure.
pub proof fn law_exit_clearing_fails_exactly_when_a_clearing_failed(
    names: Seq<Seq<char>>,
    outs: Seq<Result<(), Seq<char>>>,
)
    requires
        names.len() == outs.len(),
    ensures
        exit_clear_result(names, outs) is Ok <==> forall|k: int| 0 <= k < outs.len() ==> #[trigger] outs[k] is Ok,
        exit_clear_result(names, outs) matches Err(m) ==> starts_with(m, exit_clear_prefix()),
{
    if exit_clear_result(names, outs) is Err {
        let m = exit_clear_prefix() + failures_text(names, outs);
        assert(m.subrange(0, exit_clear_prefix().len() as int) =~= exit_clear_prefix());
    }
}

proof fn lemma_contains_in_prefix(a: Seq<char>, b: Seq<char>, x: Seq<char>)
    requires
        contains_seq(a, x),
    ensures
        contains_seq(a + b, x),
{
    let i = choose|i: int| 0 <= i && i + x.len() <= a.len() && #[trigger] a.subrange(i, i + x.len()) == x;
    assert((a + b).subrange(i, i + x.len()) =~= a.subrange(i, i + x.len()));
}

proof fn lemma_contains_in_suffix(a: Seq<char>, b: Seq<char>, x: Seq<char>)
    requires
        contains_seq(b, x),
    ensures
        contains_seq(a + b, x),
{
    let i = choose|i: int| 0 <= i && i + x.len() <= b.len() && #[trigger] b.subrange(i, i + x.len()) == x;
    let j = a.len() + i;
    assert((a + b).subrange(j, j + x.len()) =~= b.subrange(i, i + x.len()));
}

/// The error of a failed exit clearing names every service whose clearing failed, with its
/// error.
pub proof fn law_exit_clearing_names_every_failure(
    names: Seq<Seq<char>>,
    outs: Seq<Result<(), Seq<char>>>,
    k: int,
)
    requires
        names.len() == outs.len(),
        0 <= k < outs.len(),
        outs[k] is Err,
    ensures
        exit_clear_result(names, outs) matches Err(m) && contains_seq(m, names[k] + ": "@ + outs[k]->Err_0),
    decreases outs.len(),
{
    lemma_failure_named(names, outs, k);
    lemma_contains_in_suffix(exit_clear_prefix(), failures_text(names, outs), names[k] + ": "@ + outs[k]->Err_0);
}

proof fn lemma_contains_nonempty(a: Seq<char>, x: Seq<char>)
    requires
        contains_seq(a, x),
        x.len() > 0,
    ensures
        a.len() > 0,
{
}

proof fn lemma_failures_text_grows(names: Seq<Seq<char>>, outs: Seq<Result<(), Seq<char>>>, x: Seq<char>)
    requires
        outs.len() > 0,
        x.len() > 0,
        contains_seq(failures_text(names.drop_last(), outs.drop_last()), x),
    ensures
        contains_seq(failures_text(names, outs), x),
{
    let prev = failures_text(names.drop_last(), outs.drop_last());
    match outs.last() {
        Ok(_) => {},
        Err(e) => {
            lemma_contains_nonempty(prev, x);
            let tail = "；"@ + names.last() + ": "@ + e;
            lemma_contains_in_prefix(prev, tail, x);
            assert(prev + tail =~= prev + "；"@ + names.last() + ": "@ + e);
        },
    }
}

proof fn lemma_last_failure_named(names: Seq<Seq<char>>, outs: Seq<Result<(), Seq<char>>>)
    requires
        outs.len() > 0,
        outs.last() is Err,
    ensures
        contains_seq(failures_text(names, outs), names.last() + ": "@ + outs.last()->Err_0),
{
    let e = outs.last()->Err_0;
    let part = names.last() + ": "@ + e;
    let prev = failures_text(names.drop_last(), outs.drop_last());
    let whole = failures_text(names, outs);
    if prev.len() > 0 {
        assert(whole == prev + "；"@ + names.last() + ": "@ + e);
        let front = prev + "；"@;
        assert(whole =~= front + part);
        let i: int = front.len() as int;
        assert(whole.subrange(i, i + part.len()) =~= part);
    } else {
        assert(whole == names.last() + ": "@ + e);
        assert(whole.subrange(0int, 0int + part.len()) =~= part);
    }
}

proof fn lemma_failure_named(names: Seq<Seq<char>>, outs: Seq<Result<(), Seq<char>>>, k: int)
    requires
        names.len() == outs.len(),
        0 <= k < outs.len(),
        outs[k] is Err,
    ensures
        contains_seq(failures_text(names, outs), names[k] + ": "@ + outs[k]->Err_0),
    decreases outs.len(),
{
    if k < outs.len() - 1 {
        assert(names.drop_last()[k] == names[k]);
        assert(outs.drop_last()[k] == outs[k]);
        lemma_failure_named(names.drop_last(), outs.drop_last(), k);
        reveal_strlit(": ");
        assert((names[k] + ": "@ + outs[k]->Err_0).len() > 0);
        lemma_failures_text_grows(names, outs, names[k] + ": "@ + outs[k]->Err_0);
    } else {
        lemma_last_failure_named(names, outs);
    }
}

/// The views of a list of outcomes.
pub open spec fn outcomes_view(v: Seq<Result<(), String>>) -> Seq<Result<(), Seq<char>>> {
    v.map_values(|r: Result<(), String>| unit_result_view(r))
}

/// The result of clearing `services` with these outcomes, position by position.
pub fn exit_clear_outcome(services: &Vec<String>, outcomes: &Vec<Result<(), String>>) -> (r: Result<(), String>)
    requires
        services.len() == outcomes.len(),
    ensures
        unit_result_view(r) == exit_clear_result(string_views(services@), outcomes_view(outcomes@)),
{
    let ghost names = string_views(services@);
    let ghost outs = outcomes_view(outcomes@);
    let mut failures = String::new();
    let mut failed = false;
    let mut i: usize = 0;
    while i < outcomes.len()
        invariant
            services.len() == outcomes.len(),
            names == string_views(services@),
            outs == outcomes_view(outcomes@),
            i <= outcomes.len(),
            failures@ == failures_text(names.take(i as int), outs.take(i as int)),
            failed == exists|k: int| 0 <= k < i && !((#[trigger] outs[k]) is Ok),
            failed == (failures@.len() > 0),
        decreases outcomes.len() - i,
    {
        proof {
            assert(names.take(i + 1).drop_last() =~= names.take(i as int));
            assert(outs.take(i + 1).drop_last() =~= outs.take(i as int));
            assert(outs.take(i + 1).last() == outs[i as int]);
            assert(names.take(i + 1).last() == names[i as int]);
        }
        match &outcomes[i] {
            Ok(()) => {},
            Err(e) => {
                proof {
                    reveal_strlit(": ");
                }
                if failed {
                    append_str(&mut failures, "；");
                }
                append_str(&mut failures, services[i].as_str());
                append_str(&mut failures, ": ");
                append_str(&mut failures, e.as_str());
                failed = true;
            },
        }
        i += 1;
    }
    assert(names.take(outcomes.len() as int) =~= names);
    assert(outs.take(outcomes.len() as int) =~= outs);
    if !failed {
        Ok(())
    } else {
        let mut m = String::new();
        append_str(&mut m, "退出前清空系统 DNS 失败: ");
        append_str(&mut m, failures.as_str());
        Err(m)
    }
}

/// Keeps network services on their configured DNS servers.
pub struct SystemDnsSupervisor<P> {
    platform: RecordingPlatform<P>,
    config: ValidConfig,
    shutting_down: bool,
}

impl<P: SystemDnsPlatform> SystemDnsSupervisor<P> {
    pub closed spec fn config_view(&self) -> SystemDnsConfigView {
        self.config.inner@
    }

    pub closed spec fn is_shutting_down(&self) -> bool {
        self.shutting_down
    }

    /// Every call made to the platform so far, oldest first.
    pub closed spec fn platform_calls(&self) -> Seq<PlatformCall> {
        self.platform.calls()
    }

    /// A supervisor for a valid configuration.
    pub fn new(platform: P, config: SystemDnsConfig) -> (r: Result<Self, SystemDnsConfigError>)
        ensures
            match r {
                Ok(s) => config_issue(config@) is None && s.config_view() == config@
                    && !s.is_shutting_down() && s.platform_calls() == Seq::<PlatformCall>::empty(),
                Err(e) => config_issue(config@) == Some(e@),
            },
    {
        config.validate()?;
        Ok(
            SystemDnsSupervisor {
                platform: RecordingPlatform::new(platform),
                config: ValidConfig { inner: config },
                shutting_down: false,
            },
        )
    }

    /// A copy of the configuration; it is always valid.
    pub fn config(&self) -> (c: SystemDnsConfig)
        ensures
            c@ == self.config_view(),
            config_issue(c@) is None,
    {
        proof {
            use_type_invariant(&self.config);
        }
        self.config.inner.clone()
    }

    /// Replaces the configuration when the new one is valid; keeps the old one otherwise.
    pub fn update_config(&mut self, config: SystemDnsConfig) -> (r: Result<(), SystemDnsConfigError>)
        ensures
            final(self).is_shutting_down() == old(self).is_shutting_down(),
            final(self).platform_calls() == old(self).platform_calls(),
            match r {
                Ok(()) => config_issue(config@) is None && final(self).config_view() == config@,
                Err(e) => config_issue(config@) == Some(e@) && final(self).config_view() == old(
                    self,
                ).config_view(),
            },
    {
        config.validate()?;
        self.config = ValidConfig { inner: config };
        Ok(())
    }

    /// The DNS state of every service the platform lists: a reading pass (see
    /// `read_result`).
    pub fn inspect(&mut self) -> (r: Result<Vec<NetworkServiceDns>, String>)
        ensures
            final(self).config_view() == old(self).config_view(),
            final(self).is_shutting_down() == old(self).is_shutting_down(),
            record_grew(old(self).platform_calls(), final(self).platform_calls()),
            read_result(
                old(self).config_view(),
                calls_since(old(self).platform_calls(), final(self).platform_calls()),
            ) == Some(items_result_view(r)),
    {
        read_all_services(&mut self.platform, &self.config.inner)
    }

    /// Unless shutting down, reads the servers of every enabled binding, in order, and sets
    /// exactly those that differ from the preset back to the preset; disabled bindings and
    /// services without a binding are not touched. Then reports the state of every service,
    /// as a reading pass does. The first failing call ends the pass with its error.
    pub fn enforce_once(&mut self) -> (r: Result<Vec<NetworkServiceDns>, String>)
        ensures
            final(self).config_view() == old(self).config_view(),
            final(self).is_shutting_down() == old(self).is_shutting_down(),
            record_grew(old(self).platform_calls(), final(self).platform_calls()),
            enforce_result(
                old(self).config_view(),
                old(self).is_shutting_down(),
                calls_since(old(self).platform_calls(), final(self).platform_calls()),
            ) == Some(items_result_view(r)),
    {
        let ghost before = self.platform.calls();
        let ghost c = self.config.inner@;
        let ghost bs = c.bindings;
        if self.shutting_down {
            return read_all_services(&mut self.platform, &self.config.inner);
        }
        let ghost mut seg: Seq<PlatformCall> = Seq::empty();
        proof {
            assert(bs.skip(0) =~= bs);
            assert forall|x: Seq<PlatformCall>| #[trigger] correction_run(bs, seg + x) == correction_run(bs.skip(0), x) by {
                assert(seg + x =~= x);
            }
            assert(self.platform.calls() =~= before + seg);
        }
        let mut i: usize = 0;
        while i < self.config.inner.bindings.len()
            invariant
                c == self.config.inner@,
                c == old(self).config.inner@,
                bs == c.bindings,
                self.shutting_down == old(self).shutting_down,
                !self.shutting_down,
                before == old(self).platform.calls(),
                i <= self.config.inner.bindings.len(),
                bs.len() == self.config.inner.bindings.len(),
                self.platform.calls() == before + seg,
                forall|x: Seq<PlatformCall>| #[trigger] correction_run(bs, seg + x) == correction_run(bs.skip(i as int), x),
            decreases self.config.inner.bindings.len() - i,
        {
            let binding = &self.config.inner.bindings[i];
            assert(bs[i as int] == binding@);
            if binding.enabled {
                let current = match self.platform.get(binding.service.as_str()) {
                    Ok(current) => current,
                    Err(e) => {
                        proof {
                            let step = seq![get_call(bs[i as int].service, Err(e@))];
                            lemma_correction_fails(bs, i as int, seg, step, e@);
                            assert(self.platform.calls() =~= before + (seg + step));
                            assert(calls_since(before, self.platform.calls()) =~= seg + step);
                            assert(self.platform.calls().take(before.len() as int) =~= before);
                        }
                        return Err(e);
                    },
                };
                let ghost read = get_call(bs[i as int].service, Ok(current@));
                if needs_correction(binding, &current) {
                    match self.platform.set(binding.service.as_str(), &binding.preset_servers) {
                        Ok(()) => {
                            proof {
                                let step = seq![read, set_call(bs[i as int].service, bs[i as int].preset_servers, Ok(()))];
                                lemma_correction_step(bs, i as int, seg, step);
                                assert(self.platform.calls() =~= before + (seg + step));
                                seg = seg + step;
                            }
                        },
                        Err(e) => {
                            proof {
                                let step = seq![read, set_call(bs[i as int].service, bs[i as int].preset_servers, Err(e@))];
                                lemma_correction_fails(bs, i as int, seg, step, e@);
                                assert(self.platform.calls() =~= before + (seg + step));
                                assert(calls_since(before, self.platform.calls()) =~= seg + step);
                                assert(self.platform.calls().take(before.len() as int) =~= before);
                            }
                            return Err(e);
                        },
                    }
                } else {
                    proof {
                        let step = seq![read];
                        lemma_correction_step(bs, i as int, seg, step);
                        assert(self.platform.calls() =~= before + (seg + step));
                        seg = seg + step;
                    }
                }
            } else {
                proof {
                    let step = Seq::<PlatformCall>::empty();
                    lemma_correction_step(bs, i as int, seg, step);
                    assert(seg + step =~= seg);
                }
            }
            i += 1;
        }
        let ghost mid = self.platform.calls();
        let r = read_all_services(&mut self.platform, &self.config.inner);
        proof {
            let rest = calls_since(mid, self.platform.calls());
            assert(bs.skip(bs.len() as int) =~= Seq::<BindingView>::empty());
            assert(correction_run(bs, seg + rest) == Some(Ok::<Seq<PlatformCall>, Seq<char>>(rest)));
            assert(self.platform.calls() =~= mid + rest) by {
                assert(self.platform.calls().take(mid.len() as int) == mid);
            }
            assert(calls_since(before, self.platform.calls()) =~= seg + rest);
            assert(self.platform.calls().take(before.len() as int) =~= before);
        }
        r
    }

    /// Clears the DNS servers of one service (its name trimmed) and reports its new state,
    /// the first listed entry for it. The configuration, its preset included, is left as it
    /// is. An empty name is refused without a call.
    pub fn clear_service(&mut self, service: &str) -> (r: Result<NetworkServiceDns, ClearServiceError>)
        ensures
            final(self).config_view() == old(self).config_view(),
            final(self).is_shutting_down() == old(self).is_shutting_down(),
            record_grew(old(self).platform_calls(), final(self).platform_calls()),
            trim(service@).len() == 0 ==> (r matches Err(ClearServiceError::EmptyServiceName)
                && final(self).platform_calls() == old(self).platform_calls()),
            trim(service@).len() > 0 ==> clear_service_result(
                old(self).config_view(),
                trim(service@),
                calls_since(old(self).platform_calls(), final(self).platform_calls()),
            ) == Some(clear_outcome_view(r)),
    {
        let ghost before = self.platform.calls();
        let chars = chars_of(service);
        let (from, to) = trim_bounds(&chars);
        if from == to {
            assert(self.platform.calls().take(before.len() as int) =~= before);
            return Err(ClearServiceError::EmptyServiceName);
        }
        let name = string_from_range(&chars, from, to);
        if let Err(e) = self.platform.clear(name.as_str()) {
            proof {
                assert(calls_since(before, self.platform.calls()) =~= seq![clear_call(name@, Err(e@))]);
                assert(self.platform.calls().take(before.len() as int) =~= before);
            }
            return Err(ClearServiceError::Platform(e));
        }
        let ghost mid = self.platform.calls();
        let listed = read_all_services(&mut self.platform, &self.config.inner);
        proof {
            let rest = calls_since(mid, self.platform.calls());
            assert(self.platform.calls() =~= mid + rest) by {
                assert(self.platform.calls().take(mid.len() as int) == mid);
            }
            let t = calls_since(before, self.platform.calls());
            assert(t =~= seq![clear_call(name@, Ok(()))] + rest);
            assert(t.drop_first() =~= rest);
            assert(self.platform.calls().take(before.len() as int) =~= before);
        }
        match listed {
            Ok(items) => pick_service(items, name),
            Err(e) => Err(ClearServiceError::Platform(e)),
        }
    }

    /// Marks the supervisor as shutting down (no more corrections) and clears the DNS
    /// servers of every configured service, enabled or not, in order, each tried even after
    /// an earlier one failed. Success is reported exactly when every clearing succeeded; on
    /// failure the failures are reported together and the supervisor resumes.
    pub fn clear_configured_services_for_exit(&mut self) -> (r: Result<(), String>)
        ensures
            final(self).is_shutting_down() == r is Ok,
            final(self).config_view() == old(self).config_view(),
            record_grew(old(self).platform_calls(), final(self).platform_calls()),
            ({
                let t = calls_since(old(self).platform_calls(), final(self).platform_calls());
                let bs = old(self).config_view().bindings;
                &&& t.len() == bs.len()
                &&& forall|k: int|
                    0 <= k < t.len() ==> #[trigger] t[k] == clear_call(bs[k].service, clear_outcome_of(t[k]))
                &&& unit_result_view(r) == exit_clear_result(
                    Seq::new(bs.len(), |k: int| bs[k].service),
                    Seq::new(t.len(), |k: int| clear_outcome_of(t[k])),
                )
            }),
    {
        let ghost before = self.platform.calls();
        let ghost bs = self.config.inner@.bindings;
        self.shutting_down = true;
        let mut services: Vec<String> = Vec::new();
        let mut outcomes: Vec<Result<(), String>> = Vec::new();
        let mut i: usize = 0;
        while i < self.config.inner.bindings.len()
            invariant
                bs == self.config.inner@.bindings,
                self.config.inner@ == old(self).config.inner@,
                before == old(self).platform.calls(),
                i <= self.config.inner.bindings.len(),
                bs.len() == self.config.inner.bindings.len(),
                self.shutting_down,
                services.len() == i,
                outcomes.len() == i,
                self.platform.calls().len() == before.len() + i,
                self.platform.calls().take(before.len() as int) == before,
                forall|k: int| 0 <= k < i ==> #[trigger] services@[k]@ == bs[k].service,
                forall|k: int|
                    0 <= k < i ==> #[trigger] self.platform.calls()[before.len() + k] == clear_call(
                        bs[k].service,
                        unit_result_view(outcomes@[k]),
                    ),
            decreases self.config.inner.bindings.len() - i,
        {
            let ghost at = self.platform.calls();
            let service = &self.config.inner.bindings[i].service;
            assert(bs[i as int].service == service@);
            let outcome = self.platform.clear(service.as_str());
            proof {
                assert(self.platform.calls().take(before.len() as int) =~= before) by {
                    assert forall|k: int| 0 <= k < before.len() implies self.platform.calls()[k] == before[k] by {
                        assert(at.take(before.len() as int)[k] == before[k]);
                    }
                }
                assert forall|k: int| 0 <= k < i implies #[trigger] self.platform.calls()[before.len() + k] == clear_call(
                    bs[k].service,
                    unit_result_view(outcomes@[k]),
                ) by {
                    assert(self.platform.calls()[before.len() + k] == at[before.len() + k]);
                }
            }
            services.push(service.clone());
            outcomes.push(outcome);
            i += 1;
        }
        let r = exit_clear_outcome(&services, &outcomes);
        proof {
            let t = calls_since(before, self.platform.calls());
            assert(t.len() == bs.len());
            assert forall|k: int| 0 <= k < t.len() implies #[trigger] t[k] == clear_call(bs[k].service, clear_outcome_of(t[k])) by {
                assert(t[k] == self.platform.calls()[before.len() + k]);
            }
            assert(string_views(services@) =~= Seq::new(bs.len(), |k: int| bs[k].service));
            assert(outcomes_view(outcomes@) =~= Seq::new(t.len(), |k: int| clear_outcome_of(t[k]))) by {
                assert forall|k: int| 0 <= k < t.len() implies outcomes_view(outcomes@)[k] == clear_outcome_of(t[k]) by {
                    assert(t[k] == self.platform.calls()[before.len() + k]);
                }
            }
        }
        if r.is_err() {
            self.shutting_down = false;
        }
        r
    }
}

/// The views of a sequence of strings.
pub open spec fn string_views(v: Seq<String>) -> Seq<Seq<char>> {
    v.map_values(|s: String| s@)
}

proof fn lemma_string_views_push(v: Seq<String>, s: String)
    ensures
        string_views(v.push(s)) == string_views(v).push(s@),
{
    assert(string_views(v.push(s)) =~= string_views(v).push(s@));
}

/// The services named in the lines that `networksetup -listallnetworkservices` printed: the
/// asterisk notice skipped, each line trimmed, blank lines and disabled (`*`) services
/// skipped.
pub open spec fn listed_services(ls: Seq<Seq<char>>) -> Seq<Seq<char>>
    decreases ls.len(),
{
    if ls.len() == 0 {
        seq![]
    } else {
        let rest = listed_services(ls.drop_last());
        let l = ls.last();
        if starts_with(l, "An asterisk"@) {
            rest
        } else {
            let t = trim(l);
            if t.len() == 0 || t[0] == '*' {
                rest
            } else {
                rest.push(t)
            }
        }
    }
}

/// The services listed are exactly the lines other than the asterisk notice, trimmed, that
/// are neither blank nor marked disabled with a leading `*`: every such line, in order.
pub proof fn law_every_enabled_service_line_is_listed(ls: Seq<Seq<char>>)
    ensures
        listed_services(ls) == ls.filter(|l: Seq<char>| !starts_with(l, "An asterisk"@)).map_values(
            |l: Seq<char>| trim(l),
        ).filter(|t: Seq<char>| t.len() > 0 && t[0] != '*'),
    decreases ls.len(),
{
    reveal_with_fuel(Seq::filter, 1);
    let notice = |l: Seq<char>| !starts_with(l, "An asterisk"@);
    let f = |l: Seq<char>| trim(l);
    let keep = |t: Seq<char>| t.len() > 0 && t[0] != '*';
    if ls.len() > 0 {
        law_every_enabled_service_line_is_listed(ls.drop_last());
        let kept = ls.filter(notice);
        assert(ls.filter(notice) == if notice(ls.last()) {
            ls.drop_last().filter(notice).push(ls.last())
        } else {
            ls.drop_last().filter(notice)
        });
        if notice(ls.last()) {
            let m = kept.map_values(f);
            assert(m.drop_last() =~= ls.drop_last().filter(notice).map_values(f));
            assert(m.last() == trim(ls.last()));
        }
    } else {
        assert(ls.filter(notice) =~= Seq::<Seq<char>>::empty());
        assert(ls.filter(notice).map_values(f) =~= Seq::<Seq<char>>::empty());
    }
}

/// The non-blank lines, trimmed.
pub open spec fn trimmed_nonblank(ls: Seq<Seq<char>>) -> Seq<Seq<char>>
    decreases ls.len(),
{
    if ls.len() == 0 {
        seq![]
    } else {
        let rest = trimmed_nonblank(ls.drop_last());
        let t = trim(ls.last());
        if t.len() == 0 {
            rest
        } else {
            rest.push(t)
        }
    }
}

/// The server lines kept are exactly the trimmed lines that are not blank, every one of
/// them, in order.
pub proof fn law_every_nonblank_line_is_kept(ls: Seq<Seq<char>>)
    ensures
        trimmed_nonblank(ls) == ls.map_values(|l: Seq<char>| trim(l)).filter(|t: Seq<char>| t.len() > 0),
    decreases ls.len(),
{
    reveal_with_fuel(Seq::filter, 1);
    let f = |l: Seq<char>| trim(l);
    let keep = |t: Seq<char>| t.len() > 0;
    if ls.len() > 0 {
        law_every_nonblank_line_is_kept(ls.drop_last());
        let all = ls.map_values(f);
        assert(all.drop_last() =~= ls.drop_last().map_values(f));
        assert(all.last() == trim(ls.last()));
    } else {
        assert(ls.map_values(f) =~= Seq::<Seq<char>>::empty());
    }
}

/// The notice that `networksetup -getdnsservers` prints for a service without servers.
pub open spec fn no_servers_notice() -> Seq<char> {
    "There aren't any DNS Servers set"@
}

/// The trimmed string of a character vector.
fn trimmed_string(chars: &Vec<char>) -> (s: String)
    ensures
        s@ == trim(chars@),
{
    let (from, to) = trim_bounds(chars);
    string_from_range(chars, from, to)
}

/// The services that `networksetup -listallnetworkservices` printed.
pub fn parse_network_service_list(output: &str) -> (services: Vec<String>)
    ensures
        string_views(services@) == listed_services(lines(output@)),
{
    let all = split_lines(&chars_of(output));
    let ghost ls = views_of(all@);
    let notice = chars_of("An asterisk");
    let mut services: Vec<String> = Vec::new();
    let mut i: usize = 0;
    assert(ls.take(0) =~= seq![]);
    while i < all.len()
        invariant
            ls == views_of(all@),
            ls.len() == all.len(),
            i <= all.len(),
            notice@ == "An asterisk"@,
            string_views(services@) == listed_services(ls.take(i as int)),
        decreases all.len() - i,
    {
        assert(ls.take(i + 1).drop_last() =~= ls.take(i as int));
        assert(ls[i as int] == all@[i as int]@);
        let line = &all[i];
        assert(line@.subrange(0, line@.len() as int) =~= line@);
        if !has_prefix_at(line, 0, &notice) {
            let t = trimmed_string(line);
            let tc = chars_of(t.as_str());
            if tc.len() > 0 && tc[0] != '*' {
                proof {
                    lemma_string_views_push(services@, t);
                }
                services.push(t);
            }
        }
        i += 1;
    }
    assert(ls.take(all.len() as int) =~= ls);
    services
}

/// The server addresses, still as text, that `networksetup -getdnsservers` printed: none
/// when the output is the no-servers notice, else every non-blank line, trimmed.
pub fn parse_dns_server_lines(output: &str) -> (servers: Vec<String>)
    ensures
        starts_with(trim(output@), no_servers_notice()) ==> servers.len() == 0,
        !starts_with(trim(output@), no_servers_notice()) ==> string_views(servers@)
            == trimmed_nonblank(lines(output@)),
{
    let chars = chars_of(output);
    let trimmed = trimmed_string(&chars);
    let tchars = chars_of(trimmed.as_str());
    let notice = chars_of("There aren't any DNS Servers set");
    assert(tchars@.subrange(0, tchars@.len() as int) =~= tchars@);
    if has_prefix_at(&tchars, 0, &notice) {
        return Vec::new();
    }
    let all = split_lines(&chars);
    let ghost ls = views_of(all@);
    let mut servers: Vec<String> = Vec::new();
    let mut i: usize = 0;
    assert(ls.take(0) =~= seq![]);
    while i < all.len()
        invariant
            ls == views_of(all@),
            ls.len() == all.len(),
            i <= all.len(),
            string_views(servers@) == trimmed_nonblank(ls.take(i as int)),
        decreases all.len() - i,
    {
        assert(ls.take(i + 1).drop_last() =~= ls.take(i as int));
        assert(ls[i as int] == all@[i as int]@);
        let t = trimmed_string(&all[i]);
        if chars_of(t.as_str()).len() > 0 {
            proof {
                lemma_string_views_push(servers@, t);
            }
            servers.push(t);
        }
        i += 1;
    }
    assert(ls.take(all.len() as int) =~= ls);
    servers
}


/// The `networksetup` arguments that list all network services.
pub fn list_services_arguments() -> (args: Vec<String>)
    ensures
        string_views(args@) == seq!["-listallnetworkservices"@],
{
    let mut args: Vec<String> = Vec::new();
    args.push(owned("-listallnetworkservices"));
    assert(string_views(args@) =~= seq!["-listallnetworkservices"@]);
    args
}

/// The `networksetup` arguments that print a service's DNS servers.
pub fn get_servers_arguments(service: &str) -> (args: Vec<String>)
    ensures
        string_views(args@) == seq!["-getdnsservers"@, service@],
{
    let mut args: Vec<String> = Vec::new();
    args.push(owned("-getdnsservers"));
    args.push(owned(service));
    assert(string_views(args@) =~= seq!["-getdnsservers"@, service@]);
    args
}

/// The `networksetup` arguments that set a service's DNS servers (given as text); an empty
/// list is refused, since `networksetup` would not clear the servers with it.
pub fn set_servers_arguments(service: &str, servers: &Vec<String>) -> (r: Result<Vec<String>, String>)
    ensures
        servers.len() == 0 <==> r is Err,
        r matches Err(m) ==> m@ == "拒绝为网络服务设置空 DNS 列表"@,
        r matches Ok(args) ==> string_views(args@) == seq!["-setdnsservers"@, service@] + string_views(
            servers@,
        ),
{
    if servers.len() == 0 {
        return Err(owned("拒绝为网络服务设置空 DNS 列表"));
    }
    let mut args: Vec<String> = Vec::new();
    args.push(owned("-setdnsservers"));
    args.push(owned(service));
    let mut i: usize = 0;
    assert(string_views(args@) =~= seq!["-setdnsservers"@, service@] + string_views(
        servers@.take(0),
    ));
    while i < servers.len()
        invariant
            i <= servers.len(),
            string_views(args@) == seq!["-setdnsservers"@, service@] + string_views(
                servers@.take(i as int),
            ),
        decreases servers.len() - i,
    {
        let ghost prev = args@;
        args.push(servers[i].clone());
        proof {
            lemma_string_views_push(prev, servers@[i as int]);
            assert(servers@.take(i + 1) =~= servers@.take(i as int).push(servers@[i as int]));
            lemma_string_views_push(servers@.take(i as int), servers@[i as int]);
        }
        assert(string_views(args@) =~= seq!["-setdnsservers"@, service@] + string_views(
            servers@.take(i + 1),
        ));
        i += 1;
    }
    assert(servers@.take(servers.len() as int) =~= servers@);
    Ok(args)
}

/// The `networksetup` arguments that clear a service's DNS servers.
pub fn clear_servers_arguments(service: &str) -> (args: Vec<String>)
    ensures
        string_views(args@) == seq!["-setdnsservers"@, service@, "Empty"@],
{
    let mut args: Vec<String> = Vec::new();
    args.push(owned("-setdnsservers"));
    args.push(owned(service));
    args.push(owned("Empty"));
    assert(string_views(args@) =~= seq!["-setdnsservers"@, service@, "Empty"@]);
    args
}

/// The error reported when `networksetup` exits unsuccessfully, from its error output.
pub fn networksetup_failure(stderr: &str) -> (m: String)
    ensures
        m@ == "networksetup 执行失败: "@ + trim(stderr@),
{
    let mut m = owned("networksetup 执行失败: ");
    let t = trimmed_string(&chars_of(stderr));
    append_str(&mut m, t.as_str());
    m
}


/// Whether every binding is acceptable: a non-empty trimmed name that no other binding
/// uses, at least one server when enabled, no server twice.
pub open spec fn bindings_acceptable(bs: Seq<BindingView>) -> bool {
    &&& forall|k: int| 0 <= k < bs.len() ==> trim((#[trigger] bs[k]).service).len() > 0
    &&& forall|j: int, k: int|
        0 <= j < k < bs.len() ==> trim((#[trigger] bs[j]).service) != trim((#[trigger] bs[k]).service)
    &&& forall|k: int|
        0 <= k < bs.len() ==> ((#[trigger] bs[k]).enabled ==> bs[k].preset_servers.len() > 0)
    &&& forall|k: int| 0 <= k < bs.len() ==> (#[trigger] bs[k]).preset_servers.no_duplicates()
}

proof fn lemma_no_issue_iff_acceptable(bs: Seq<BindingView>)
    ensures
        first_binding_issue(bs) is None <==> bindings_acceptable(bs),
    decreases bs.len(),
{
    if bs.len() > 0 {
        let t = bs.drop_last();
        lemma_no_issue_iff_acceptable(t);
        assert forall|k: int| 0 <= k < t.len() implies t[k] == bs[k] by {}
        let n = bs.len() - 1;
        if first_binding_issue(bs) is None {
            assert(binding_issue(bs, n) is None);
            assert forall|j: int, k: int| 0 <= j < k < bs.len() implies trim(
                (#[trigger] bs[j]).service,
            ) != trim((#[trigger] bs[k]).service) by {
                if k < n {
                    assert(trim(t[j].service) != trim(t[k].service));
                }
            }
        } else if bindings_acceptable(bs) {
            assert(bindings_acceptable(t));
            assert(trim(bs[n].service).len() > 0);
            assert(!(exists|j: int| 0 <= j < n && trim(#[trigger] bs[j].service) == trim(
                bs[n].service,
            )));
        }
    }
}

/// A configuration is accepted exactly when its interval is at least one second and its
/// bindings are acceptable.
pub proof fn law_valid_config_characterized(c: SystemDnsConfigView)
    ensures
        config_issue(c) is None <==> (c.check_interval_secs >= MIN_CHECK_INTERVAL_SECS
            && bindings_acceptable(c.bindings)),
{
    lemma_no_issue_iff_acceptable(c.bindings);
}

/// A service is reported as matching its preset only when its binding is enabled and its
/// current servers are exactly the preset.
pub proof fn law_match_requires_enabled_preset(c: SystemDnsConfigView, item: ServiceDnsView)
    requires
        describes(c, item),
        item.matches_preset,
    ensures
        binding_for(c.bindings, item.service) matches Some(b) && b.enabled && item.current_servers
            == b.preset_servers,
{
}

} // verus!
