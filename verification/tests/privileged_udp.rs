use dns_hearth::net::{IpAddress, SocketEndpoint};
use dns_hearth::text::IntErrorKind;
use dns_hearth::privileged_udp::{admit_datagram, next_ensure_action, EnsureAction, EnsurePhase};
use dns_hearth::privileged_udp::{
    authorization_failure, authorization_timeout, bind_failure_reply, check_installed_file,
    control_response, error_reply, expect_ok, install_files_script, is_current_version,
    launch_daemon_plist, reload_script, shell_quote, staged_plist_name, staging_directory,
    start_command, start_command_words, upstream_bind_address, validate_forwarding_addresses,
    version_reply, xml_escape, ControlCommand, DaemonArgumentError, ForwardingAddressError,
    ForwardingStep, PrivilegedUdpDaemonConfig, ServiceInstallation, StartCommandError,
};

/// An endpoint written as `a.b.c.d:port`, `[::]:port` or `[::1]:port`.
fn endpoint(text: &str) -> SocketEndpoint {
    let (host, port) = text.rsplit_once(':').unwrap();
    let port: u16 = port.parse().unwrap();
    let ip = match host {
        "[::]" => IpAddress::V6(0),
        "[::1]" => IpAddress::V6(1),
        _ => {
            let b: Vec<u8> = host.split('.').map(|p| p.parse().unwrap()).collect();
            IpAddress::V4(u32::from_be_bytes([b[0], b[1], b[2], b[3]]))
        }
    };
    SocketEndpoint { ip, port }
}

fn args(values: &[&str]) -> Vec<String> {
    values.iter().map(|v| v.to_string()).collect()
}

#[test]
fn shell_quote_handles_single_quotes() {
    assert_eq!(shell_quote("a'b"), "'a'\"'\"'b'");
}

#[test]
fn forwarding_rejects_non_dns_privileged_port() {
    assert!(validate_forwarding_addresses(endpoint("127.0.0.1:54"), endpoint("127.0.0.1:10053")).is_err());
}

#[test]
fn forwarding_accepts_only_port_53_to_unprivileged_loopback() {
    assert_eq!(validate_forwarding_addresses(endpoint("0.0.0.0:53"), endpoint("127.0.0.1:10053")), Ok(()));
    assert_eq!(validate_forwarding_addresses(endpoint("[::]:53"), endpoint("[::1]:1024")), Ok(()));
    assert_eq!(
        validate_forwarding_addresses(endpoint("0.0.0.0:53"), endpoint("127.0.0.1:1023")),
        Err(ForwardingAddressError::TargetNotUnprivilegedLoopback)
    );
    assert_eq!(
        validate_forwarding_addresses(endpoint("0.0.0.0:53"), endpoint("10.0.0.1:10053")),
        Err(ForwardingAddressError::TargetNotUnprivilegedLoopback)
    );
    assert_eq!(
        validate_forwarding_addresses(endpoint("127.0.0.1:54"), endpoint("127.0.0.1:10053")),
        Err(ForwardingAddressError::NotDnsPort)
    );
    assert_eq!(
        ForwardingAddressError::NotDnsPort.message(),
        "Privileged UDP forwarding is restricted to DNS port 53"
    );
    assert_eq!(upstream_bind_address(endpoint("127.0.0.1:10053")), endpoint("127.0.0.1:0"));
    assert_eq!(upstream_bind_address(endpoint("[::1]:10053")), endpoint("[::1]:0"));
}

#[test]
fn daemon_arguments_are_read_strictly() {
    assert!(matches!(PrivilegedUdpDaemonConfig::from_arguments(&args(&[])), Ok(None)));
    assert!(matches!(PrivilegedUdpDaemonConfig::from_arguments(&args(&["--other"])), Ok(None)));
    let ok = PrivilegedUdpDaemonConfig::from_arguments(&args(&[
        "--privileged-udp-daemon", "--socket", "/var/run/x.sock", "--allowed-uid", "501",
    ]))
    .unwrap()
    .unwrap();
    assert_eq!(ok.socket_path(), "/var/run/x.sock");
    assert_eq!(ok.allowed_uid(), 501);
    assert!(ok.accepts_peer(501));
    assert!(!ok.accepts_peer(0));
    let cases: Vec<(Vec<&str>, &str)> = vec![
        (vec!["--privileged-udp-daemon"], "Missing --socket"),
        (vec!["--privileged-udp-daemon", "--sock"], "Expected --socket, received --sock"),
        (vec!["--privileged-udp-daemon", "--socket"], "Missing value for --socket"),
        (vec!["--privileged-udp-daemon", "--socket", "/s"], "Missing --allowed-uid"),
        (vec!["--privileged-udp-daemon", "--socket", "/s", "--uid"], "Expected --allowed-uid, received --uid"),
        (vec!["--privileged-udp-daemon", "--socket", "/s", "--allowed-uid"], "Missing value for --allowed-uid"),
        (vec!["--privileged-udp-daemon", "--socket", "/s", "--allowed-uid", "-1"], "invalid digit found in string"),
        (vec!["--privileged-udp-daemon", "--socket", "/s", "--allowed-uid", "4294967296"], "number too large to fit in target type"),
        (vec!["--privileged-udp-daemon", "--socket", "/s", "--allowed-uid", "5", "x"], "Unexpected privileged UDP daemon argument"),
        (vec!["--privileged-udp-daemon", "--socket", "s", "--allowed-uid", "5"], "Invalid privileged UDP daemon configuration"),
        (vec!["--privileged-udp-daemon", "--socket", "/s", "--allowed-uid", "0"], "Invalid privileged UDP daemon configuration"),
    ];
    for (a, message) in cases {
        match PrivilegedUdpDaemonConfig::from_arguments(&args(&a)) {
            Err(e) => assert_eq!(e.message(), message),
            Ok(_) => panic!("accepted {:?}", a),
        }
    }
    assert!(matches!(
        PrivilegedUdpDaemonConfig::from_arguments(&args(&["--privileged-udp-daemon", "--socket", "s", "--allowed-uid", "x"])),
        Err(DaemonArgumentError::InvalidUid(IntErrorKind::InvalidDigit))
    ));
}

#[test]
fn each_user_has_an_isolated_service_name() {
    assert!(ServiceInstallation::for_uid(0).is_err());
    let service = ServiceInstallation::for_uid(501).unwrap();
    assert!(service.label.ends_with(&service.uid.to_string()));
    assert!(service.socket_path.contains(&service.uid.to_string()));
    assert_eq!(service.label, "com.lhstack.dns-hearth.udp-forwarder.501");
    assert_eq!(service.helper_path, "/Library/PrivilegedHelperTools/com.lhstack.dns-hearth.udp-forwarder-501");
    assert_eq!(service.plist_path, "/Library/LaunchDaemons/com.lhstack.dns-hearth.udp-forwarder.501.plist");
    assert_eq!(service.socket_path, "/var/run/com.lhstack.dns-hearth.udp-forwarder-501.sock");
    let other = ServiceInstallation::for_uid(502).unwrap();
    assert_ne!(service.label, other.label);
    assert_ne!(service.socket_path, other.socket_path);
}

#[test]
fn plist_and_scripts_are_escaped() {
    let service = ServiceInstallation::for_uid(501).unwrap();
    let plist = launch_daemon_plist(&service);
    assert!(plist.starts_with("<?xml version=\"1.0\" encoding=\"UTF-8\"?>\n<!DOCTYPE plist"));
    assert!(plist.contains("<key>Label</key><string>com.lhstack.dns-hearth.udp-forwarder.501</string>"));
    assert!(plist.contains("<string>--privileged-udp-daemon</string>"));
    assert!(plist.contains("<string>--allowed-uid</string><string>501</string>"));
    assert!(plist.ends_with("</dict></plist>\n"));
    assert_eq!(xml_escape("a<b>&\"c'"), "a&lt;b&gt;&amp;&quot;c&apos;");
    assert_eq!(
        reload_script(&service),
        "set -e; launchctl bootout system/'com.lhstack.dns-hearth.udp-forwarder.501' >/dev/null 2>&1 || true; launchctl bootstrap system '/Library/LaunchDaemons/com.lhstack.dns-hearth.udp-forwarder.501.plist' 2>/dev/null || launchctl kickstart system/'com.lhstack.dns-hearth.udp-forwarder.501'"
    );
    let script = install_files_script("/private/tmp/x/dns-hearth-helper", &service, "/private/tmp/x/a.plist");
    assert!(script.starts_with("set -e; test -x '/private/tmp/x/dns-hearth-helper'; test -f '/private/tmp/x/a.plist'; mkdir -p /Library/PrivilegedHelperTools; /usr/bin/install -o root -g wheel -m 755 "));
    assert!(script.ends_with("test -f '/Library/LaunchDaemons/com.lhstack.dns-hearth.udp-forwarder.501.plist'"));
    assert_eq!(staging_directory(501, 77), "/private/tmp/com.lhstack.dns-hearth.udp-forwarder-501-77");
    assert_eq!(staged_plist_name(&service), "com.lhstack.dns-hearth.udp-forwarder.501.plist");
}

#[test]
fn installed_files_are_checked() {
    assert_eq!(check_installed_file("helper", "/p", true, 0, 0o100755, 0o755), Ok(()));
    assert_eq!(check_installed_file("helper", "/p", false, 0, 0o755, 0o755), Err("helper 不是普通文件: /p".to_string()));
    assert_eq!(check_installed_file("helper", "/p", true, 501, 0o755, 0o755), Err("helper 必须归 root 所有，实际 uid=501".to_string()));
    assert_eq!(check_installed_file("plist", "/p", true, 0, 0o100600, 0o644), Err("plist 权限错误，预期 644，实际 600".to_string()));
}

#[test]
fn authorization_failures_are_explained() {
    assert_eq!(authorization_failure("安装", Some(1), " ", "execution error: User canceled. (-128)\n"), "已取消 macOS 管理员授权，无法安装 DNS 端口服务");
    assert_eq!(authorization_failure("安装", Some(1), "out", " err "), "安装失败（退出码 Some(1)）: out | err");
    assert_eq!(authorization_failure("安装", None, "", ""), "安装失败（退出码 None）: ");
    assert_eq!(authorization_failure("安装", Some(-3), "", "x"), "安装失败（退出码 Some(-3)）: x");
    assert_eq!(authorization_timeout("重新加载", 30), "重新加载超过 30 秒，已中止；请检查旧 LaunchDaemon 状态");
}

#[test]
fn control_protocol_decisions() {
    assert_eq!(ControlCommand::from_first_line(None), ControlCommand::Close);
    assert_eq!(ControlCommand::from_first_line(Some("VERSION")), ControlCommand::Version);
    assert_eq!(ControlCommand::from_first_line(Some("START a b")), ControlCommand::Start);
    assert_eq!(ForwardingStep::after_line(None), ForwardingStep::Disconnected);
    assert_eq!(ForwardingStep::after_line(Some("STOP")), ForwardingStep::Stop);
    assert_eq!(
        ForwardingStep::after_line(Some("PING")),
        ForwardingStep::Reject("ERR unsupported command: PING\n".to_string())
    );
    assert_eq!(version_reply(), "VERSION 0.0.2\n");
    assert!(is_current_version("VERSION 0.0.2"));
    assert!(!is_current_version("VERSION 0.0.1"));
    assert_eq!(error_reply("bad"), "ERR bad\n");
    assert_eq!(bind_failure_reply("0.0.0.0:53", "in use"), "ERR Failed to bind privileged UDP socket to 0.0.0.0:53: in use\n");
    assert_eq!(start_command("0.0.0.0:53", "127.0.0.1:10053"), "START 0.0.0.0:53 127.0.0.1:10053\n");
    assert_eq!(control_response("  OK \n"), Ok("OK".to_string()));
    assert_eq!(control_response("\n"), Err("Privileged DNS daemon closed the control connection".to_string()));
    assert_eq!(expect_ok("OK", "x"), Ok(()));
    assert_eq!(expect_ok("ERR no", "Privileged DNS daemon rejected stop request"), Err("Privileged DNS daemon rejected stop request: ERR no".to_string()));
}

#[test]
fn start_commands_are_split() {
    let w = start_command_words("START  0.0.0.0:53\t127.0.0.1:10053 ").unwrap();
    assert_eq!(w.listen.as_deref(), Some("0.0.0.0:53"));
    assert_eq!(w.target.as_deref(), Some("127.0.0.1:10053"));
    assert!(!w.has_extra);
    let w = start_command_words("START a b c").unwrap();
    assert!(w.has_extra);
    let w = start_command_words("START").unwrap();
    assert!(w.listen.is_none() && w.target.is_none());
    assert_eq!(start_command_words("STOP").err(), Some(StartCommandError::Unsupported));
    assert_eq!(start_command_words("   ").err(), Some(StartCommandError::Unsupported));
    assert_eq!(StartCommandError::MissingTarget.message(), "Missing target address");
}

#[test]
fn a_running_helper_is_not_reinstalled() {
    assert_eq!(next_ensure_action(EnsurePhase::FirstProbe, true, false), EnsureAction::Ready);
    assert_eq!(next_ensure_action(EnsurePhase::FirstProbe, false, true), EnsureAction::Install);
    assert_eq!(next_ensure_action(EnsurePhase::AfterInstall, false, false), EnsureAction::ProbeAgain);
    assert_eq!(next_ensure_action(EnsurePhase::AfterInstall, false, true), EnsureAction::GiveUp);
    assert_eq!(next_ensure_action(EnsurePhase::AfterInstall, true, true), EnsureAction::Ready);
}

#[test]
fn datagrams_beyond_the_limit_are_dropped() {
    assert!(admit_datagram(0));
    assert!(admit_datagram(1023));
    assert!(!admit_datagram(1024));
}
