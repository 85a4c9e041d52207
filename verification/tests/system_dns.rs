use std::collections::HashMap;
use std::sync::{Arc, Mutex};

use dns_hearth::net::IpAddress;
use dns_hearth::system_dns::{
    clear_servers_arguments, describe_service, describe_services, exit_clear_outcome,
    get_servers_arguments, needs_correction, pick_service, list_services_arguments,
    networksetup_failure, parse_dns_server_lines, parse_network_service_list,
    set_servers_arguments, ClearServiceError, NetworkDnsBinding, SystemDnsConfig,
    SystemDnsConfigError, SystemDnsPlatform, SystemDnsSupervisor,
};

#[derive(Default)]
struct FakePlatform {
    servers: Mutex<HashMap<String, Vec<IpAddress>>>,
    failing: Vec<String>,
    changes: Arc<Mutex<Vec<String>>>,
}

impl FakePlatform {
    fn store(&self, service: &str, servers: &[IpAddress]) -> Result<(), String> {
        if self.failing.iter().any(|s| s == service) {
            return Err("denied".to_string());
        }
        let previous = self.servers.lock().unwrap().insert(service.to_string(), servers.to_vec());
        if previous.is_none() {
            return Err(format!("Unknown service: {}", service));
        }
        Ok(())
    }
}

impl SystemDnsPlatform for FakePlatform {
    fn list_network_services(&self) -> Result<Vec<String>, String> {
        let mut services = self.servers.lock().unwrap().keys().cloned().collect::<Vec<_>>();
        services.sort();
        Ok(services)
    }
    fn get_servers(&self, service: &str) -> Result<Vec<IpAddress>, String> {
        self.servers
            .lock()
            .unwrap()
            .get(service)
            .cloned()
            .ok_or_else(|| format!("Unknown service: {}", service))
    }
    fn set_servers(&self, service: &str, servers: &[IpAddress]) -> Result<(), String> {
        self.changes.lock().unwrap().push(format!("set {}", service));
        self.store(service, servers)
    }
    fn clear_servers(&self, service: &str) -> Result<(), String> {
        self.changes.lock().unwrap().push(format!("clear {}", service));
        self.store(service, &[])
    }
}

/// An address written as `a.b.c.d`, or `::1`.
fn ip(value: &str) -> IpAddress {
    if value == "::1" {
        return IpAddress::V6(1);
    }
    let b: Vec<u8> = value.split('.').map(|p| p.parse().unwrap()).collect();
    IpAddress::V4(u32::from_be_bytes([b[0], b[1], b[2], b[3]]))
}

fn binding(service: &str, enabled: bool, servers: Vec<IpAddress>) -> NetworkDnsBinding {
    NetworkDnsBinding { service: service.into(), enabled, preset_servers: servers }
}

#[test]
fn each_service_uses_its_own_dns_list() {
    let platform = FakePlatform::default();
    platform.servers.lock().unwrap().insert("VPN".into(), vec![ip("8.8.8.8")]);
    platform.servers.lock().unwrap().insert("Wi-Fi".into(), vec![ip("9.9.9.9")]);
    let mut supervisor = SystemDnsSupervisor::new(
        platform,
        SystemDnsConfig {
            bindings: vec![
                binding("VPN", true, vec![ip("1.1.1.1")]),
                binding("Wi-Fi", true, vec![ip("127.0.0.1"), ip("223.5.5.5")]),
            ],
            check_interval_secs: 5,
        },
    )
    .ok()
    .unwrap();
    let status = supervisor.enforce_once().unwrap();
    assert_eq!(
        status.iter().find(|item| item.service == "VPN").unwrap().current_servers,
        vec![ip("1.1.1.1")]
    );
    assert_eq!(
        status.iter().find(|item| item.service == "Wi-Fi").unwrap().current_servers,
        vec![ip("127.0.0.1"), ip("223.5.5.5")]
    );
    assert!(status.iter().all(|item| item.matches_preset && item.enabled));
}

#[test]
fn enabled_binding_requires_dns_servers() {
    let config = SystemDnsConfig {
        bindings: vec![binding("Wi-Fi", true, Vec::new())],
        check_interval_secs: 5,
    };
    assert!(config.validate().is_err());
}

#[test]
fn validation_reports_the_first_problem() {
    let interval = SystemDnsConfig { bindings: vec![binding("", true, Vec::new())], check_interval_secs: 0 };
    assert!(matches!(interval.validate(), Err(SystemDnsConfigError::IntervalTooShort)));
    assert_eq!(SystemDnsConfigError::IntervalTooShort.message(), "DNS 检测频率不能小于 1 秒");

    let blank = SystemDnsConfig { bindings: vec![binding(" \t ", false, Vec::new())], check_interval_secs: 1 };
    assert!(matches!(blank.validate(), Err(SystemDnsConfigError::EmptyServiceName)));

    let dup = SystemDnsConfig {
        bindings: vec![binding("Wi-Fi", false, vec![]), binding(" Wi-Fi ", true, vec![])],
        check_interval_secs: 30,
    };
    match dup.validate() {
        Err(e @ SystemDnsConfigError::DuplicateService(_)) => {
            assert_eq!(e.message(), "网络服务不能重复配置: Wi-Fi")
        }
        other => panic!("unexpected {:?}", other),
    }

    let empty = SystemDnsConfig { bindings: vec![binding(" VPN", true, vec![])], check_interval_secs: 30 };
    match empty.validate() {
        Err(e) => assert_eq!(e.message(), "已启用的网络服务必须配置至少一个 DNS 地址: VPN"),
        Ok(()) => panic!("enabled without servers"),
    }

    let twice = SystemDnsConfig {
        bindings: vec![binding("VPN", false, vec![ip("1.1.1.1"), ip("8.8.8.8"), ip("1.1.1.1")])],
        check_interval_secs: 30,
    };
    match twice.validate() {
        Err(e) => assert_eq!(e.message(), "网络服务 VPN 的 DNS 地址不能重复"),
        Ok(()) => panic!("duplicate servers"),
    }

    let fine = SystemDnsConfig {
        bindings: vec![binding("VPN", false, vec![]), binding("Wi-Fi", true, vec![ip("::1")])],
        check_interval_secs: 1,
    };
    assert!(fine.validate().is_ok());
    assert_eq!(SystemDnsConfig::default().check_interval_secs, 30);
    assert!(SystemDnsConfig::default().validate().is_ok());
}

#[test]
fn supervisor_refuses_invalid_updates_and_keeps_the_old_config() {
    let platform = FakePlatform::default();
    platform.servers.lock().unwrap().insert("Wi-Fi".into(), vec![ip("9.9.9.9")]);
    let mut supervisor = SystemDnsSupervisor::new(platform, SystemDnsConfig::default()).ok().unwrap();
    let bad = SystemDnsConfig { bindings: vec![], check_interval_secs: 0 };
    assert!(supervisor.update_config(bad).is_err());
    assert_eq!(supervisor.config().check_interval_secs, 30);
    let good = SystemDnsConfig { bindings: vec![binding("Wi-Fi", false, vec![ip("1.1.1.1")])], check_interval_secs: 10 };
    assert!(supervisor.update_config(good).is_ok());
    assert_eq!(supervisor.config().check_interval_secs, 10);
    let status = supervisor.inspect().unwrap();
    assert_eq!(status.len(), 1);
    assert!(!status[0].enabled);
    assert!(!status[0].matches_preset);
    assert_eq!(status[0].preset_servers, vec![ip("1.1.1.1")]);
    // Disabled bindings are not enforced.
    let status = supervisor.enforce_once().unwrap();
    assert_eq!(status[0].current_servers, vec![ip("9.9.9.9")]);
    assert!(SystemDnsSupervisor::new(FakePlatform::default(), SystemDnsConfig { bindings: vec![], check_interval_secs: 0 }).is_err());
}

#[test]
fn clearing_a_service_keeps_its_preset() {
    let platform = FakePlatform::default();
    platform.servers.lock().unwrap().insert("Wi-Fi".into(), vec![ip("9.9.9.9")]);
    let mut supervisor = SystemDnsSupervisor::new(
        platform,
        SystemDnsConfig { bindings: vec![binding("Wi-Fi", false, vec![ip("1.1.1.1")])], check_interval_secs: 5 },
    )
    .ok()
    .unwrap();
    let item = supervisor.clear_service("  Wi-Fi ").ok().unwrap();
    assert_eq!(item.service, "Wi-Fi");
    assert!(item.current_servers.is_empty());
    assert_eq!(item.preset_servers, vec![ip("1.1.1.1")]);
    assert_eq!(supervisor.config().bindings[0].preset_servers, vec![ip("1.1.1.1")]);
    let empty = supervisor.clear_service("   ");
    assert!(matches!(empty, Err(ClearServiceError::EmptyServiceName)));
    let unknown = supervisor.clear_service("Ethernet");
    match unknown {
        Err(e) => assert_eq!(e.message(), "Unknown service: Ethernet"),
        Ok(_) => panic!("unknown service"),
    }
}

#[test]
fn exit_clearing_reports_failures_and_resumes() {
    let platform = FakePlatform { failing: vec!["VPN".to_string()], ..Default::default() };
    platform.servers.lock().unwrap().insert("VPN".into(), vec![ip("8.8.8.8")]);
    platform.servers.lock().unwrap().insert("Wi-Fi".into(), vec![ip("9.9.9.9")]);
    let mut supervisor = SystemDnsSupervisor::new(
        platform,
        SystemDnsConfig {
            bindings: vec![binding("VPN", true, vec![ip("1.1.1.1")]), binding("Wi-Fi", true, vec![ip("1.1.1.1")])],
            check_interval_secs: 5,
        },
    )
    .ok()
    .unwrap();
    let r = supervisor.clear_configured_services_for_exit();
    assert_eq!(r, Err("退出前清空系统 DNS 失败: VPN: denied".to_string()));
    // Resumed: enforcement corrects Wi-Fi again (VPN still fails).
    assert!(supervisor.enforce_once().is_err());

    let platform = FakePlatform::default();
    platform.servers.lock().unwrap().insert("Wi-Fi".into(), vec![ip("9.9.9.9")]);
    let mut supervisor = SystemDnsSupervisor::new(
        platform,
        SystemDnsConfig { bindings: vec![binding("Wi-Fi", true, vec![ip("1.1.1.1")])], check_interval_secs: 5 },
    )
    .ok()
    .unwrap();
    assert_eq!(supervisor.clear_configured_services_for_exit(), Ok(()));
    // Shutting down: no more corrections.
    let status = supervisor.enforce_once().unwrap();
    assert!(status[0].current_servers.is_empty());
    assert!(!status[0].matches_preset);
}

#[test]
fn networksetup_output_is_parsed() {
    let listing = "An asterisk (*) denotes that a network service is disabled.\nWi-Fi\n  Thunderbolt Bridge  \n*Bluetooth PAN\n\nUSB 10/100\r\n";
    assert_eq!(
        parse_network_service_list(listing),
        vec!["Wi-Fi".to_string(), "Thunderbolt Bridge".to_string(), "USB 10/100".to_string()]
    );
    assert!(parse_dns_server_lines("There aren't any DNS Servers set on Wi-Fi.\n").is_empty());
    assert_eq!(
        parse_dns_server_lines("1.1.1.1\n 8.8.8.8 \n\n"),
        vec!["1.1.1.1".to_string(), "8.8.8.8".to_string()]
    );
    assert_eq!(list_services_arguments(), vec!["-listallnetworkservices"]);
    assert_eq!(get_servers_arguments("Wi-Fi"), vec!["-getdnsservers", "Wi-Fi"]);
    assert_eq!(clear_servers_arguments("Wi-Fi"), vec!["-setdnsservers", "Wi-Fi", "Empty"]);
    assert_eq!(
        set_servers_arguments("Wi-Fi", &vec!["1.1.1.1".to_string()]),
        Ok(vec!["-setdnsservers".to_string(), "Wi-Fi".to_string(), "1.1.1.1".to_string()])
    );
    assert_eq!(set_servers_arguments("Wi-Fi", &vec![]), Err("拒绝为网络服务设置空 DNS 列表".to_string()));
    assert_eq!(networksetup_failure("  ** Error: bad\n"), "networksetup 执行失败: ** Error: bad");
}

#[test]
fn reported_servers_are_described_and_corrected_against_the_binding() {
    let config = SystemDnsConfig {
        bindings: vec![binding("Wi-Fi", true, vec![ip("1.1.1.1"), ip("8.8.8.8")]), binding("VPN", false, vec![ip("9.9.9.9")])],
        check_interval_secs: 5,
    };
    let item = describe_service(&config, "Wi-Fi".to_string(), vec![ip("1.1.1.1"), ip("8.8.8.8")]);
    assert!(item.enabled && item.matches_preset);
    let item = describe_service(&config, "Wi-Fi".to_string(), vec![ip("8.8.8.8"), ip("1.1.1.1")]);
    assert!(item.enabled && !item.matches_preset);
    let item = describe_service(&config, "VPN".to_string(), vec![ip("9.9.9.9")]);
    assert!(!item.enabled && !item.matches_preset);
    assert_eq!(item.preset_servers, vec![ip("9.9.9.9")]);
    let item = describe_service(&config, "Ethernet".to_string(), vec![]);
    assert!(!item.enabled && item.preset_servers.is_empty());
    assert!(needs_correction(&config.bindings[0], &vec![ip("8.8.8.8"), ip("1.1.1.1")]));
    assert!(!needs_correction(&config.bindings[0], &vec![ip("1.1.1.1"), ip("8.8.8.8")]));
    assert!(!needs_correction(&config.bindings[1], &vec![]));
}

#[test]
fn a_pass_sets_only_differing_enabled_services_and_a_second_pass_only_reads() {
    let platform = FakePlatform::default();
    let changes = platform.changes.clone();
    platform.servers.lock().unwrap().insert("VPN".into(), vec![ip("8.8.8.8")]);
    platform.servers.lock().unwrap().insert("Wi-Fi".into(), vec![ip("1.1.1.1")]);
    platform.servers.lock().unwrap().insert("Ethernet".into(), vec![ip("9.9.9.9")]);
    platform.servers.lock().unwrap().insert("Bluetooth".into(), vec![ip("4.4.4.4")]);
    let mut supervisor = SystemDnsSupervisor::new(
        platform,
        SystemDnsConfig {
            bindings: vec![
                binding("VPN", true, vec![ip("1.1.1.1")]),
                binding("Wi-Fi", true, vec![ip("1.1.1.1")]),
                binding("Ethernet", false, vec![ip("2.2.2.2")]),
            ],
            check_interval_secs: 5,
        },
    )
    .ok()
    .unwrap();
    let status = supervisor.enforce_once().unwrap();
    assert_eq!(*changes.lock().unwrap(), vec!["set VPN".to_string()]);
    assert_eq!(status.len(), 4);
    let ethernet = status.iter().find(|item| item.service == "Ethernet").unwrap();
    assert_eq!(ethernet.current_servers, vec![ip("9.9.9.9")]);
    let bluetooth = status.iter().find(|item| item.service == "Bluetooth").unwrap();
    assert!(!bluetooth.enabled && bluetooth.preset_servers.is_empty());
    let status = supervisor.enforce_once().unwrap();
    assert_eq!(changes.lock().unwrap().len(), 1);
    assert!(status.iter().filter(|item| item.enabled).all(|item| item.matches_preset));
    assert_eq!(supervisor.clear_configured_services_for_exit(), Ok(()));
    assert_eq!(
        *changes.lock().unwrap(),
        vec!["set VPN", "clear VPN", "clear Wi-Fi", "clear Ethernet"].into_iter().map(String::from).collect::<Vec<_>>()
    );
    supervisor.enforce_once().unwrap();
    assert_eq!(changes.lock().unwrap().len(), 4);
}

#[test]
fn service_lists_are_described_one_to_one() {
    let config = SystemDnsConfig { bindings: vec![binding("Wi-Fi", true, vec![ip("1.1.1.1")])], check_interval_secs: 5 };
    let items = describe_services(
        &config,
        &vec!["Wi-Fi".to_string(), "VPN".to_string()],
        &vec![vec![ip("1.1.1.1")], vec![]],
    );
    assert_eq!(items.len(), 2);
    assert_eq!(items[0].service, "Wi-Fi");
    assert!(items[0].matches_preset);
    assert_eq!(items[1].service, "VPN");
    assert!(!items[1].enabled);
    match pick_service(items, "VPN".to_string()) {
        Ok(item) => assert_eq!(item.service, "VPN"),
        Err(_) => panic!("VPN is listed"),
    }
    let none = describe_services(&config, &vec![], &vec![]);
    assert!(matches!(pick_service(none, "VPN".to_string()), Err(ClearServiceError::NotFoundAfterClear(n)) if n == "VPN"));
}

#[test]
fn exit_clearing_outcome_joins_every_failure() {
    let services = vec!["VPN".to_string(), "Wi-Fi".to_string(), "USB".to_string()];
    assert_eq!(exit_clear_outcome(&services, &vec![Ok(()), Ok(()), Ok(())]), Ok(()));
    assert_eq!(exit_clear_outcome(&vec![], &vec![]), Ok(()));
    assert_eq!(
        exit_clear_outcome(&services, &vec![Err("denied".to_string()), Ok(()), Err("gone".to_string())]),
        Err("退出前清空系统 DNS 失败: VPN: denied；USB: gone".to_string())
    );
}
