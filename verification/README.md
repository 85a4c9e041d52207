# dns_hearth

The core of DNS Hearth, a macOS DNS manager, as a verified library: each function in `src/` carries a specification that is proved.

- `src/strategy.rs`: query strategies, the planning of upstream queries (round robin,
  random, fastest, concurrent), the selection among completed answers and the
  concurrent race (first NOERROR wins, else the fastest NXDOMAIN, else a reported
  failure).
- `src/system_dns.rs`: per-service DNS bindings, their validation, the supervisor that
  keeps every enabled network service on its own preset servers, and the parsing of
  `networksetup` output. `src/recording.rs` records every call the supervisor makes to
  the platform, with what came back; the supervisor's contracts are stated over that
  record.
- `src/privileged_udp.rs`: the privileged UDP 53 helper: its command line, control
  protocol, per-user installation names, launchd plist and install scripts.
- `src/config.rs`: layered configuration (defaults, file, environment).
- `src/commands.rs`, `src/rewrite_business.rs`, `src/runtime.rs`: routing and argument
  handling of management requests, rewrite-rule outcomes, start-up settings.
- `src/text.rs`, `src/net.rs`: string and address helpers with their specifications.

`app/` holds what cannot be verified: process and socket I/O, `networksetup` calls,
serde types and the program's entry point. `tests/` exercises the library on concrete
values.
