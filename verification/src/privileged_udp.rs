use vstd::prelude::*;

use crate::net::{is_loopback, IpAddress, SocketEndpoint};
use crate::text::{
    append_str, chars_of, decimal, owned, has_prefix_at, lemma_decimal_injective, parse_u32_detailed,
    parse_u32_result, int_error_text, IntErrorKind, push_decimal, replace_char, replace_char_str, split_whitespace, split_words,
    starts_with, str_eq, string_from_chars, views_of, push_signed_decimal, signed_decimal, push_octal,
    octal, trim, str_contains, contains_seq,
};

verus! {

/// The argument that starts the program as the privileged forwarding daemon.
pub const DAEMON_ARGUMENT: &'static str = "--privileged-udp-daemon";

/// The helper's version; a helper of another version is reinstalled. It must follow the
/// package version, so that upgrading the application updates an installed helper.
pub const HELPER_VERSION: &'static str = "0.0.2";

/// The identifier that names the helper, its LaunchDaemon and its socket.
pub const HELPER_ID: &'static str = "com.lhstack.dns-hearth.udp-forwarder";

/// At most this many queries are forwarded at once.
pub const MAX_CONCURRENT_QUERIES: usize = 1024;

/// Whether a datagram that arrives while `in_flight` queries are being forwarded is
/// forwarded too: only while fewer than `MAX_CONCURRENT_QUERIES` are; otherwise it is
/// dropped.
pub fn admit_datagram(in_flight: usize) -> (b: bool)
    ensures
        b == (in_flight < MAX_CONCURRENT_QUERIES),
{
    in_flight < MAX_CONCURRENT_QUERIES
}

/// The largest DNS message the forwarder handles.
pub const MAX_DNS_MESSAGE_SIZE: usize = 65535;

pub open spec fn daemon_argument() -> Seq<char> {
    "--privileged-udp-daemon"@
}

pub open spec fn helper_version() -> Seq<char> {
    "0.0.2"@
}

pub open spec fn helper_id() -> Seq<char> {
    "com.lhstack.dns-hearth.udp-forwarder"@
}


/// `value` quoted for a POSIX shell: in single quotes, each single quote written as
/// `'"'"'`.
pub open spec fn shell_quoted(value: Seq<char>) -> Seq<char> {
    "'"@ + replace_char(value, '\'', "'\"'\"'"@) + "'"@
}

pub fn shell_quote(value: &str) -> (q: String)
    ensures
        q@ == shell_quoted(value@),
{
    let mut q = owned("'");
    let inner = replace_char_str(value, '\'', "'\"'\"'");
    append_str(&mut q, inner.as_str());
    append_str(&mut q, "'");
    q
}

/// Where a POSIX shell stands while reading a word: outside quotes, inside single quotes or
/// inside double quotes.
#[derive(Debug, Clone, Copy, PartialEq, Eq, Structural)]
pub enum ShellQuoting {
    Unquoted,
    Single,
    Double,
}

/// How a POSIX shell reads the characters `s` of one word: a single quote opens or closes a
/// single-quoted part in which every character stands for itself; a double quote opens or
/// closes a double-quoted part in which every character other than `$`, `` ` ``, `\` and
/// `"` stands for itself. The quoting reached and the characters read, or `None` where the
/// word holds anything this reading leaves aside (a character outside quotes other than a
/// quote, or `$`, `` ` `` or `\` inside double quotes).
pub open spec fn shell_scan(s: Seq<char>) -> Option<(ShellQuoting, Seq<char>)>
    decreases s.len(),
{
    if s.len() == 0 {
        Some((ShellQuoting::Unquoted, Seq::<char>::empty()))
    } else {
        match shell_scan(s.drop_last()) {
            None => None,
            Some((q, read)) => {
                let c = s.last();
                match q {
                    ShellQuoting::Unquoted => if c == '\'' {
                        Some((ShellQuoting::Single, read))
                    } else if c == '"' {
                        Some((ShellQuoting::Double, read))
                    } else {
                        None
                    },
                    ShellQuoting::Single => if c == '\'' {
                        Some((ShellQuoting::Unquoted, read))
                    } else {
                        Some((ShellQuoting::Single, read.push(c)))
                    },
                    ShellQuoting::Double => if c == '"' {
                        Some((ShellQuoting::Unquoted, read))
                    } else if c == '$' || c == '`' || c == '\\' {
                        None
                    } else {
                        Some((ShellQuoting::Double, read.push(c)))
                    },
                }
            },
        }
    }
}

/// The word a POSIX shell reads from `s`, when `s` ends outside quotes.
pub open spec fn shell_word(s: Seq<char>) -> Option<Seq<char>> {
    match shell_scan(s) {
        Some((ShellQuoting::Unquoted, read)) => Some(read),
        _ => None,
    }
}

proof fn lemma_shell_scan_quoted_prefix(v: Seq<char>)
    ensures
        shell_scan("'"@ + replace_char(v, '\'', "'\"'\"'"@)) == Some((ShellQuoting::Single, v)),
    decreases v.len(),
{
    reveal_strlit("'");
    reveal_strlit("'\"'\"'");
    let open = "'"@;
    if v.len() == 0 {
        assert(open + replace_char(v, '\'', "'\"'\"'"@) =~= open);
        assert(open.drop_last() =~= Seq::<char>::empty());
        assert(open.last() == '\'');
        assert(v =~= Seq::<char>::empty());
        assert(shell_scan(Seq::<char>::empty()) == Some((ShellQuoting::Unquoted, Seq::<char>::empty())));
        assert(shell_scan(open.drop_last()) == Some((ShellQuoting::Unquoted, Seq::<char>::empty())));
        assert(shell_scan(open) == Some((ShellQuoting::Single, v)));
    } else {
        let w = v.drop_last();
        let c = v.last();
        lemma_shell_scan_quoted_prefix(w);
        let x = open + replace_char(w, '\'', "'\"'\"'"@);
        if c == '\'' {
            let q = "'\"'\"'"@;
            let t = x + q;
            assert(open + replace_char(v, '\'', q) =~= t);
            assert(t.drop_last() =~= x + q.take(4));
            assert((x + q.take(4)).drop_last() =~= x + q.take(3));
            assert((x + q.take(3)).drop_last() =~= x + q.take(2));
            assert((x + q.take(2)).drop_last() =~= x + q.take(1));
            assert((x + q.take(1)).drop_last() =~= x);
            assert(q[0] == '\'' && q[1] == '"' && q[2] == '\'' && q[3] == '"' && q[4] == '\'');
            assert((x + q.take(1)).last() == '\'');
            assert(shell_scan(x + q.take(1)) == Some((ShellQuoting::Unquoted, w)));
            assert((x + q.take(2)).last() == '"');
            assert(shell_scan(x + q.take(2)) == Some((ShellQuoting::Double, w)));
            assert((x + q.take(3)).last() == '\'');
            assert(shell_scan(x + q.take(3)) == Some((ShellQuoting::Double, w.push('\''))));
            assert((x + q.take(4)).last() == '"');
            assert(shell_scan(x + q.take(4)) == Some((ShellQuoting::Unquoted, w.push('\''))));
            assert(t.last() == '\'');
            assert(w.push('\'') =~= v);
            assert(shell_scan(t) == Some((ShellQuoting::Single, v)));
        } else {
            let t = x.push(c);
            assert(open + replace_char(v, '\'', "'\"'\"'"@) =~= t);
            assert(t.drop_last() =~= x);
            assert(t.last() == c);
            assert(w.push(c) =~= v);
            assert(shell_scan(t) == Some((ShellQuoting::Single, v)));
        }
    }
}

/// A POSIX shell reads the quoted form of any text back as that text.
pub proof fn law_shell_quoted_reads_back(v: Seq<char>)
    ensures
        shell_word(shell_quoted(v)) == Some(v),
{
    reveal_strlit("'");
    lemma_shell_scan_quoted_prefix(v);
    let x = "'"@ + replace_char(v, '\'', "'\"'\"'"@);
    assert(shell_quoted(v) =~= x.push('\''));
    assert(x.push('\'').drop_last() =~= x);
}


/// `value` with the XML special characters `& < > " '` written as entities.
pub open spec fn xml_escaped(value: Seq<char>) -> Seq<char> {
    replace_char(
        replace_char(
            replace_char(
                replace_char(replace_char(value, '&', "&amp;"@), '<', "&lt;"@),
                '>',
                "&gt;"@,
            ),
            '"',
            "&quot;"@,
        ),
        '\'',
        "&apos;"@,
    )
}

pub fn xml_escape(value: &str) -> (e: String)
    ensures
        e@ == xml_escaped(value@),
{
    let a = replace_char_str(value, '&', "&amp;");
    let b = replace_char_str(a.as_str(), '<', "&lt;");
    let c = replace_char_str(b.as_str(), '>', "&gt;");
    let d = replace_char_str(c.as_str(), '"', "&quot;");
    replace_char_str(d.as_str(), '\'', "&apos;")
}

/// Why the daemon's command line was refused.
#[derive(Debug)]
pub enum DaemonArgumentError {
    /// An expected option name is missing.
    MissingName(String),
    /// Another argument stands where an option name was expected.
    UnexpectedName { expected: String, received: String },
    /// An option has no value.
    MissingValue(String),
    /// The user id is not a decimal `u32`; why the standard library refused it.
    InvalidUid(IntErrorKind),
    /// An argument follows the last option.
    UnexpectedArgument,
    /// The socket path is not absolute, or the user id is root's.
    InvalidConfiguration,
}

/// A daemon command-line issue as plain values.
pub enum DaemonArgumentIssue {
    MissingName(Seq<char>),
    UnexpectedName(Seq<char>, Seq<char>),
    MissingValue(Seq<char>),
    InvalidUid(IntErrorKind),
    UnexpectedArgument,
    InvalidConfiguration,
}

impl View for DaemonArgumentError {
    type V = DaemonArgumentIssue;

    open spec fn view(&self) -> DaemonArgumentIssue {
        match self {
            DaemonArgumentError::MissingName(n) => DaemonArgumentIssue::MissingName(n@),
            DaemonArgumentError::UnexpectedName { expected, received } =>
                DaemonArgumentIssue::UnexpectedName(expected@, received@),
            DaemonArgumentError::MissingValue(n) => DaemonArgumentIssue::MissingValue(n@),
            DaemonArgumentError::InvalidUid(k) => DaemonArgumentIssue::InvalidUid(*k),
            DaemonArgumentError::UnexpectedArgument => DaemonArgumentIssue::UnexpectedArgument,
            DaemonArgumentError::InvalidConfiguration => DaemonArgumentIssue::InvalidConfiguration,
        }
    }
}

/// What the arguments after the program name ask for: `None` when they do not start the
/// daemon, else its socket path and allowed user id, or the first issue found.
pub open spec fn daemon_arguments_meaning(args: Seq<Seq<char>>) -> Result<
    Option<(Seq<char>, u32)>,
    DaemonArgumentIssue,
> {
    if args.len() == 0 || args[0] != daemon_argument() {
        Ok(None)
    } else if args.len() < 2 {
        Err(DaemonArgumentIssue::MissingName("--socket"@))
    } else if args[1] != "--socket"@ {
        Err(DaemonArgumentIssue::UnexpectedName("--socket"@, args[1]))
    } else if args.len() < 3 {
        Err(DaemonArgumentIssue::MissingValue("--socket"@))
    } else if args.len() < 4 {
        Err(DaemonArgumentIssue::MissingName("--allowed-uid"@))
    } else if args[3] != "--allowed-uid"@ {
        Err(DaemonArgumentIssue::UnexpectedName("--allowed-uid"@, args[3]))
    } else if args.len() < 5 {
        Err(DaemonArgumentIssue::MissingValue("--allowed-uid"@))
    } else {
        match parse_u32_result(args[4]) {
            Err(k) => Err(DaemonArgumentIssue::InvalidUid(k)),
            Ok(n) => if args.len() > 5 {
                Err(DaemonArgumentIssue::UnexpectedArgument)
            } else if !starts_with(args[2], "/"@) || n == 0 {
                Err(DaemonArgumentIssue::InvalidConfiguration)
            } else {
                Ok(Some((args[2], n as u32)))
            },
        }
    }
}

/// The daemon runs only for exactly `--privileged-udp-daemon --socket <path> --allowed-uid
/// <uid>`, with an absolute path and a user other than root; other first arguments mean the
/// program is not the daemon; and the decimal numeral of any such user id is accepted.
pub proof fn law_daemon_runs_only_for_its_exact_command_line(args: Seq<Seq<char>>, path: Seq<char>, uid: u32)
    ensures
        args.len() == 0 || args[0] != "--privileged-udp-daemon"@ ==> daemon_arguments_meaning(args)
            == Ok::<Option<(Seq<char>, u32)>, DaemonArgumentIssue>(None),
        daemon_arguments_meaning(args) matches Ok(Some((p, u))) ==> args.len() == 5 && args[0]
            == "--privileged-udp-daemon"@ && args[1] == "--socket"@ && args[2] == p && args[3]
            == "--allowed-uid"@ && parse_u32_result(args[4]) == Ok::<int, IntErrorKind>(u as int)
            && starts_with(p, "/"@) && u != 0,
        starts_with(path, "/"@) && uid != 0 ==> daemon_arguments_meaning(
            seq!["--privileged-udp-daemon"@, "--socket"@, path, "--allowed-uid"@, decimal(uid as nat)],
        ) == Ok::<Option<(Seq<char>, u32)>, DaemonArgumentIssue>(Some((path, uid))),
{
    if args.len() >= 5 {
        crate::text::law_read_numbers_are_in_range(args[4], false, 0, u32::MAX as int);
    }
    if starts_with(path, "/"@) && uid != 0 {
        crate::text::law_decimal_reads_back(uid as int, false, 0, u32::MAX as int);
        assert(signed_decimal(uid as int) == decimal(uid as nat));
    }
}

/// The privileged daemon's settings: where its control socket lives and which user may
/// connect to it.
#[derive(Debug)]
pub struct PrivilegedUdpDaemonConfig {
    socket_path: String,
    allowed_uid: u32,
}

/// The views of a sequence of strings.
pub open spec fn string_seq_views(v: Seq<String>) -> Seq<Seq<char>> {
    v.map_values(|s: String| s@)
}

/// Whether one of the given strings equals a literal.
fn arg_is(args: &Vec<String>, k: usize, literal: &str) -> (b: bool)
    requires
        k < args.len(),
    ensures
        b == (args@[k as int]@ == literal@),
{
    str_eq(args[k].as_str(), literal)
}

impl PrivilegedUdpDaemonConfig {
    pub closed spec fn socket_path_spec(&self) -> Seq<char> {
        self.socket_path@
    }

    pub closed spec fn allowed_uid_spec(&self) -> u32 {
        self.allowed_uid
    }

    pub fn socket_path(&self) -> (p: &str)
        ensures
            p@ == self.socket_path_spec(),
    {
        self.socket_path.as_str()
    }

    pub fn allowed_uid(&self) -> (u: u32)
        ensures
            u == self.allowed_uid_spec(),
    {
        self.allowed_uid
    }

    /// Whether a control connection from the user `peer_uid` is served: only the allowed
    /// user's connections are.
    pub fn accepts_peer(&self, peer_uid: u32) -> (b: bool)
        ensures
            b == (peer_uid == self.allowed_uid_spec()),
    {
        peer_uid == self.allowed_uid
    }

    /// Reads the arguments that follow the program name: `--privileged-udp-daemon --socket
    /// <absolute path> --allowed-uid <non-root uid>`; any other first argument means the
    /// program is not the daemon.
    pub fn from_arguments(args: &Vec<String>) -> (r: Result<Option<Self>, DaemonArgumentError>)
        ensures
            match daemon_arguments_meaning(string_seq_views(args@)) {
                Ok(None) => r matches Ok(None),
                Ok(Some((path, uid))) => (r matches Ok(Some(c)) && c.socket_path_spec() == path
                    && c.allowed_uid_spec() == uid),
                Err(issue) => (r matches Err(e) && e@ == issue),
            },
    {
        let ghost a = string_seq_views(args@);
        assert(a.len() == args.len());
        assert(forall|k: int| 0 <= k < args.len() ==> a[k] == args@[k]@);
        if args.len() == 0 || !arg_is(args, 0, "--privileged-udp-daemon") {
            return Ok(None);
        }
        if args.len() < 2 {
            return Err(DaemonArgumentError::MissingName(owned("--socket")));
        }
        if !arg_is(args, 1, "--socket") {
            return Err(
                DaemonArgumentError::UnexpectedName {
                    expected: owned("--socket"),
                    received: args[1].clone(),
                },
            );
        }
        if args.len() < 3 {
            return Err(DaemonArgumentError::MissingValue(owned("--socket")));
        }
        if args.len() < 4 {
            return Err(DaemonArgumentError::MissingName(owned("--allowed-uid")));
        }
        if !arg_is(args, 3, "--allowed-uid") {
            return Err(
                DaemonArgumentError::UnexpectedName {
                    expected: owned("--allowed-uid"),
                    received: args[3].clone(),
                },
            );
        }
        if args.len() < 5 {
            return Err(DaemonArgumentError::MissingValue(owned("--allowed-uid")));
        }
        let uid = match parse_u32_detailed(&chars_of(args[4].as_str())) {
            Ok(uid) => uid,
            Err(k) => return Err(DaemonArgumentError::InvalidUid(k)),
        };
        if args.len() > 5 {
            return Err(DaemonArgumentError::UnexpectedArgument);
        }
        let path_chars = chars_of(args[2].as_str());
        let slash = chars_of("/");
        assert(path_chars@.subrange(0, path_chars@.len() as int) =~= path_chars@);
        if !has_prefix_at(&path_chars, 0, &slash) || uid == 0 {
            return Err(DaemonArgumentError::InvalidConfiguration);
        }
        Ok(Some(PrivilegedUdpDaemonConfig { socket_path: args[2].clone(), allowed_uid: uid }))
    }
}

impl DaemonArgumentError {
    pub fn message(&self) -> (m: String)
        ensures
            m@ == daemon_argument_issue_text(self@),
    {
        let mut m = String::new();
        match self {
            DaemonArgumentError::MissingName(n) => {
                append_str(&mut m, "Missing ");
                append_str(&mut m, n.as_str());
            },
            DaemonArgumentError::UnexpectedName { expected, received } => {
                append_str(&mut m, "Expected ");
                append_str(&mut m, expected.as_str());
                append_str(&mut m, ", received ");
                append_str(&mut m, received.as_str());
            },
            DaemonArgumentError::MissingValue(n) => {
                append_str(&mut m, "Missing value for ");
                append_str(&mut m, n.as_str());
            },
            DaemonArgumentError::InvalidUid(k) => {
                m = k.message();
            },
            DaemonArgumentError::UnexpectedArgument => {
                append_str(&mut m, "Unexpected privileged UDP daemon argument");
            },
            DaemonArgumentError::InvalidConfiguration => {
                append_str(&mut m, "Invalid privileged UDP daemon configuration");
            },
        }
        m
    }
}

/// The text of a daemon command-line issue.
pub open spec fn daemon_argument_issue_text(issue: DaemonArgumentIssue) -> Seq<char> {
    match issue {
        DaemonArgumentIssue::MissingName(n) => "Missing "@ + n,
        DaemonArgumentIssue::UnexpectedName(e, r) => "Expected "@ + e + ", received "@ + r,
        DaemonArgumentIssue::MissingValue(n) => "Missing value for "@ + n,
        DaemonArgumentIssue::InvalidUid(k) => int_error_text(k),
        DaemonArgumentIssue::UnexpectedArgument => "Unexpected privileged UDP daemon argument"@,
        DaemonArgumentIssue::InvalidConfiguration => "Invalid privileged UDP daemon configuration"@,
    }
}

/// Why a forwarding request was refused.
#[derive(Debug, Clone, Copy, PartialEq, Eq, Structural)]
pub enum ForwardingAddressError {
    /// The listening port is not 53.
    NotDnsPort,
    /// The target is not a loopback address with a port of 1024 or more.
    TargetNotUnprivilegedLoopback,
}

/// Forwarding only ever listens on port 53 and only forwards to an unprivileged loopback
/// socket.
pub fn validate_forwarding_addresses(listen: SocketEndpoint, target: SocketEndpoint) -> (r: Result<
    (),
    ForwardingAddressError,
>)
    ensures
        listen.port != 53 ==> r == Err::<(), ForwardingAddressError>(
            ForwardingAddressError::NotDnsPort,
        ),
        listen.port == 53 && (!is_loopback(target.ip) || target.port < 1024) ==> r == Err::<
            (),
            ForwardingAddressError,
        >(ForwardingAddressError::TargetNotUnprivilegedLoopback),
        listen.port == 53 && is_loopback(target.ip) && target.port >= 1024 ==> r is Ok,
{
    if listen.port != 53 {
        return Err(ForwardingAddressError::NotDnsPort);
    }
    if !target.ip.is_loopback() || target.port < 1024 {
        return Err(ForwardingAddressError::TargetNotUnprivilegedLoopback);
    }
    Ok(())
}

impl ForwardingAddressError {
    pub fn message(&self) -> (m: String)
        ensures
            *self is NotDnsPort ==> m@ == "Privileged UDP forwarding is restricted to DNS port 53"@,
            *self is TargetNotUnprivilegedLoopback ==> m@
                == "Privileged UDP forwarding target must be an unprivileged loopback socket"@,
    {
        match self {
            ForwardingAddressError::NotDnsPort => owned(
                "Privileged UDP forwarding is restricted to DNS port 53",
            ),
            ForwardingAddressError::TargetNotUnprivilegedLoopback => owned(
                "Privileged UDP forwarding target must be an unprivileged loopback socket",
            ),
        }
    }
}

/// The address the forwarder binds to send a query to `target`: an ephemeral port on the
/// loopback address of the target's family.
pub fn upstream_bind_address(target: SocketEndpoint) -> (a: SocketEndpoint)
    ensures
        a.port == 0,
        target.ip is V4 ==> a.ip == IpAddress::V4(0x7f00_0001),
        target.ip is V6 ==> a.ip == IpAddress::V6(1),
{
    if target.ip.is_ipv4() {
        SocketEndpoint { ip: IpAddress::V4(0x7f00_0001), port: 0 }
    } else {
        SocketEndpoint { ip: IpAddress::V6(1), port: 0 }
    }
}

/// The words of a `START <listen> <target>` command after `START`, unparsed.
#[derive(Debug)]
pub struct StartCommandWords {
    pub listen: Option<String>,
    pub target: Option<String>,
    pub has_extra: bool,
}

/// Why a control command is not a usable `START` command.
#[derive(Debug, Clone, Copy, PartialEq, Eq, Structural)]
pub enum StartCommandError {
    Unsupported,
    MissingListen,
    MissingTarget,
    UnexpectedValue,
}

/// The optional view of the word at `k`.
pub open spec fn word_at(ws: Seq<Seq<char>>, k: int) -> Option<Seq<char>> {
    if k < ws.len() {
        Some(ws[k])
    } else {
        None
    }
}

fn word_string(words: &Vec<Vec<char>>, k: usize) -> (w: Option<String>)
    ensures
        k < words.len() ==> (w matches Some(s) && s@ == words@[k as int]@),
        k >= words.len() ==> w is None,
{
    if k < words.len() {
        Some(string_from_chars(&words[k]))
    } else {
        None
    }
}

/// Splits a control command at whitespace; it must start with `START`.
pub fn start_command_words(command: &str) -> (r: Result<StartCommandWords, StartCommandError>)
    ensures
        ({
            let ws = split_whitespace(command@);
            if ws.len() == 0 || ws[0] != "START"@ {
                r == Err::<StartCommandWords, StartCommandError>(StartCommandError::Unsupported)
            } else {
                (r matches Ok(w) && opt_string_view(w.listen) == word_at(ws, 1) && opt_string_view(
                    w.target,
                ) == word_at(ws, 2) && w.has_extra == (ws.len() > 3))
            }
        }),
{
    let words = split_words(&chars_of(command));
    let ghost ws = views_of(words@);
    assert(ws.len() == words.len());
    if words.len() == 0 {
        return Err(StartCommandError::Unsupported);
    }
    let first = string_from_chars(&words[0]);
    assert(ws[0] == words@[0]@);
    if !str_eq(first.as_str(), "START") {
        return Err(StartCommandError::Unsupported);
    }
    let listen = word_string(&words, 1);
    let target = word_string(&words, 2);
    proof {
        if 1 < words.len() {
            assert(ws[1] == words@[1]@);
        }
        if 2 < words.len() {
            assert(ws[2] == words@[2]@);
        }
    }
    Ok(StartCommandWords { listen, target, has_extra: words.len() > 3 })
}

/// The view of an optional string.
pub open spec fn opt_string_view(s: Option<String>) -> Option<Seq<char>> {
    match s {
        Some(v) => Some(v@),
        None => None,
    }
}

impl StartCommandError {
    pub fn message(&self) -> (m: String)
        ensures
            *self is Unsupported ==> m@ == "Unsupported privileged DNS command"@,
            *self is MissingListen ==> m@ == "Missing listen address"@,
            *self is MissingTarget ==> m@ == "Missing target address"@,
            *self is UnexpectedValue ==> m@ == "Unexpected START command value"@,
    {
        match self {
            StartCommandError::Unsupported => owned("Unsupported privileged DNS command"),
            StartCommandError::MissingListen => owned("Missing listen address"),
            StartCommandError::MissingTarget => owned("Missing target address"),
            StartCommandError::UnexpectedValue => owned("Unexpected START command value"),
        }
    }
}


/// Where one user's privileged helper, its LaunchDaemon and its control socket live.
#[derive(Debug)]
pub struct ServiceInstallation {
    pub uid: u32,
    pub label: String,
    pub helper_path: String,
    pub plist_path: String,
    pub socket_path: String,
}

/// The LaunchDaemon label for a user.
pub open spec fn service_label(uid: u32) -> Seq<char> {
    helper_id() + "."@ + decimal(uid as nat)
}

/// The installed helper's path for a user.
pub open spec fn service_helper_path(uid: u32) -> Seq<char> {
    "/Library/PrivilegedHelperTools/"@ + helper_id() + "-"@ + decimal(uid as nat)
}

/// The LaunchDaemon property list's path for a user.
pub open spec fn service_plist_path(uid: u32) -> Seq<char> {
    "/Library/LaunchDaemons/"@ + service_label(uid) + ".plist"@
}

/// The control socket's path for a user.
pub open spec fn service_socket_path(uid: u32) -> Seq<char> {
    "/var/run/"@ + helper_id() + "-"@ + decimal(uid as nat) + ".sock"@
}

/// The desktop application refuses to run as root.
#[derive(Debug, Clone, Copy, PartialEq, Eq, Structural)]
pub enum InstallationError {
    RunningAsRoot,
}

impl InstallationError {
    pub fn message(&self) -> (m: String)
        ensures
            m@ == "The desktop application must not run as root"@,
    {
        owned("The desktop application must not run as root")
    }
}

impl ServiceInstallation {
    /// The installation for the user `uid`; root is refused.
    pub fn for_uid(uid: u32) -> (r: Result<ServiceInstallation, InstallationError>)
        ensures
            uid == 0 <==> r is Err,
            r matches Ok(s) ==> s.uid == uid && s.label@ == service_label(uid) && s.helper_path@
                == service_helper_path(uid) && s.plist_path@ == service_plist_path(uid)
                && s.socket_path@ == service_socket_path(uid),
    {
        if uid == 0 {
            return Err(InstallationError::RunningAsRoot);
        }
        let mut label = owned("com.lhstack.dns-hearth.udp-forwarder.");
        push_decimal(&mut label, uid as u64);
        let mut helper_path = owned("/Library/PrivilegedHelperTools/com.lhstack.dns-hearth.udp-forwarder-");
        push_decimal(&mut helper_path, uid as u64);
        let mut plist_path = owned("/Library/LaunchDaemons/");
        append_str(&mut plist_path, label.as_str());
        append_str(&mut plist_path, ".plist");
        let mut socket_path = owned("/var/run/com.lhstack.dns-hearth.udp-forwarder-");
        push_decimal(&mut socket_path, uid as u64);
        append_str(&mut socket_path, ".sock");
        proof {
            reveal_strlit("com.lhstack.dns-hearth.udp-forwarder.");
            reveal_strlit("com.lhstack.dns-hearth.udp-forwarder");
            reveal_strlit(".");
            reveal_strlit("/Library/PrivilegedHelperTools/com.lhstack.dns-hearth.udp-forwarder-");
            reveal_strlit("/Library/PrivilegedHelperTools/");
            reveal_strlit("-");
            reveal_strlit("/var/run/com.lhstack.dns-hearth.udp-forwarder-");
            reveal_strlit("/var/run/");
            assert(label@ =~= service_label(uid));
            assert(helper_path@ =~= service_helper_path(uid));
            assert(socket_path@ =~= service_socket_path(uid));
        }
        Ok(ServiceInstallation { uid, label, helper_path, plist_path, socket_path })
    }
}

proof fn lemma_suffix_cancel(p: Seq<char>, a: Seq<char>, b: Seq<char>)
    requires
        p + a == p + b,
    ensures
        a == b,
{
    assert(a =~= (p + a).subrange(p.len() as int, (p + a).len() as int));
    assert(b =~= (p + b).subrange(p.len() as int, (p + b).len() as int));
}

proof fn lemma_prefix_cancel(a: Seq<char>, b: Seq<char>, q: Seq<char>)
    requires
        a + q == b + q,
    ensures
        a == b,
{
    assert(a =~= (a + q).subrange(0, a.len() as int));
    assert(b =~= (b + q).subrange(0, b.len() as int));
}

/// Users are isolated: two different users never share a LaunchDaemon label, a helper, a
/// property list or a control socket, and each label ends with its user id.
pub proof fn law_services_isolated_per_user(a: u32, b: u32)
    requires
        a != b,
    ensures
        service_label(a) != service_label(b),
        service_helper_path(a) != service_helper_path(b),
        service_plist_path(a) != service_plist_path(b),
        service_socket_path(a) != service_socket_path(b),
        service_label(a).subrange(
            service_label(a).len() - decimal(a as nat).len(),
            service_label(a).len() as int,
        ) == decimal(a as nat),
{
    let da = decimal(a as nat);
    let db = decimal(b as nat);
    if service_label(a) == service_label(b) {
        lemma_suffix_cancel(helper_id() + "."@, da, db);
        lemma_decimal_injective(a as nat, b as nat);
    }
    if service_helper_path(a) == service_helper_path(b) {
        lemma_suffix_cancel("/Library/PrivilegedHelperTools/"@ + helper_id() + "-"@, da, db);
        lemma_decimal_injective(a as nat, b as nat);
    }
    if service_plist_path(a) == service_plist_path(b) {
        lemma_prefix_cancel("/Library/LaunchDaemons/"@ + service_label(a), "/Library/LaunchDaemons/"@ + service_label(b), ".plist"@);
        lemma_suffix_cancel("/Library/LaunchDaemons/"@, service_label(a), service_label(b));
        lemma_suffix_cancel(helper_id() + "."@, da, db);
        lemma_decimal_injective(a as nat, b as nat);
    }
    if service_socket_path(a) == service_socket_path(b) {
        lemma_prefix_cancel("/var/run/"@ + helper_id() + "-"@ + da, "/var/run/"@ + helper_id() + "-"@ + db, ".sock"@);
        lemma_suffix_cancel("/var/run/"@ + helper_id() + "-"@, da, db);
        lemma_decimal_injective(a as nat, b as nat);
    }
    assert(service_label(a).subrange(
        service_label(a).len() - da.len(),
        service_label(a).len() as int,
    ) =~= da);
}

/// The LaunchDaemon property list that runs the helper as the daemon for one user.
pub open spec fn launch_daemon_plist_text(label: Seq<char>, helper: Seq<char>, socket: Seq<char>, uid: u32) -> Seq<char> {
    "<?xml version=\"1.0\" encoding=\"UTF-8\"?>\n<!DOCTYPE plist PUBLIC \"-//Apple//DTD PLIST 1.0//EN\" \"http://www.apple.com/DTDs/PropertyList-1.0.dtd\">\n<plist version=\"1.0\"><dict>\n<key>Label</key><string>"@
        + xml_escaped(label)
        + "</string>\n<key>ProgramArguments</key><array>\n<string>"@
        + xml_escaped(helper)
        + "</string><string>"@ + daemon_argument()
        + "</string>\n<string>--socket</string><string>"@
        + xml_escaped(socket)
        + "</string>\n<string>--allowed-uid</string><string>"@
        + decimal(uid as nat)
        + "</string>\n</array>\n<key>KeepAlive</key><true/>\n<key>RunAtLoad</key><true/>\n<key>ProcessType</key><string>Interactive</string>\n</dict></plist>\n"@
}

proof fn lemma_contains_middle(a: Seq<char>, x: Seq<char>, b: Seq<char>)
    ensures
        contains_seq(a + x + b, x),
{
    let i: int = a.len() as int;
    assert((a + x + b).subrange(i, i + x.len()) =~= x);
}

/// The property list names the helper's own label, and runs the helper as the daemon with
/// its socket and the one user allowed to use it, in that order.
pub proof fn law_plist_runs_the_daemon_for_its_user(
    label: Seq<char>,
    helper: Seq<char>,
    socket: Seq<char>,
    uid: u32,
)
    ensures
        contains_seq(
            launch_daemon_plist_text(label, helper, socket, uid),
            "<key>Label</key><string>"@ + xml_escaped(label) + "</string>"@,
        ),
        contains_seq(
            launch_daemon_plist_text(label, helper, socket, uid),
            "<key>ProgramArguments</key><array>\n<string>"@ + xml_escaped(helper)
                + "</string><string>--privileged-udp-daemon</string>\n<string>--socket</string><string>"@
                + xml_escaped(socket) + "</string>\n<string>--allowed-uid</string><string>"@ + decimal(
                uid as nat,
            ) + "</string>\n</array>"@,
        ),
{
    let l0 = "<?xml version=\"1.0\" encoding=\"UTF-8\"?>\n<!DOCTYPE plist PUBLIC \"-//Apple//DTD PLIST 1.0//EN\" \"http://www.apple.com/DTDs/PropertyList-1.0.dtd\">\n<plist version=\"1.0\"><dict>\n<key>Label</key><string>"@;
    let h0 = "<?xml version=\"1.0\" encoding=\"UTF-8\"?>\n<!DOCTYPE plist PUBLIC \"-//Apple//DTD PLIST 1.0//EN\" \"http://www.apple.com/DTDs/PropertyList-1.0.dtd\">\n<plist version=\"1.0\"><dict>\n"@;
    let k0 = "<key>Label</key><string>"@;
    let l1 = "</string>\n<key>ProgramArguments</key><array>\n<string>"@;
    let c1 = "</string>"@;
    let nl = "\n"@;
    let k1 = "<key>ProgramArguments</key><array>\n<string>"@;
    let l2 = "</string><string>"@;
    let l3 = "</string>\n<string>--socket</string><string>"@;
    let mid = "</string><string>--privileged-udp-daemon</string>\n<string>--socket</string><string>"@;
    let l4 = "</string>\n<string>--allowed-uid</string><string>"@;
    let l5 = "</string>\n</array>\n<key>KeepAlive</key><true/>\n<key>RunAtLoad</key><true/>\n<key>ProcessType</key><string>Interactive</string>\n</dict></plist>\n"@;
    let e5 = "</string>\n</array>"@;
    let t5 = "\n<key>KeepAlive</key><true/>\n<key>RunAtLoad</key><true/>\n<key>ProcessType</key><string>Interactive</string>\n</dict></plist>\n"@;
    reveal_strlit("<?xml version=\"1.0\" encoding=\"UTF-8\"?>\n<!DOCTYPE plist PUBLIC \"-//Apple//DTD PLIST 1.0//EN\" \"http://www.apple.com/DTDs/PropertyList-1.0.dtd\">\n<plist version=\"1.0\"><dict>\n<key>Label</key><string>");
    reveal_strlit("<?xml version=\"1.0\" encoding=\"UTF-8\"?>\n<!DOCTYPE plist PUBLIC \"-//Apple//DTD PLIST 1.0//EN\" \"http://www.apple.com/DTDs/PropertyList-1.0.dtd\">\n<plist version=\"1.0\"><dict>\n");
    reveal_strlit("<key>Label</key><string>");
    reveal_strlit("</string>\n<key>ProgramArguments</key><array>\n<string>");
    reveal_strlit("</string>");
    reveal_strlit("\n");
    reveal_strlit("<key>ProgramArguments</key><array>\n<string>");
    reveal_strlit("</string><string>");
    reveal_strlit("--privileged-udp-daemon");
    reveal_strlit("</string>\n<string>--socket</string><string>");
    reveal_strlit("</string><string>--privileged-udp-daemon</string>\n<string>--socket</string><string>");
    reveal_strlit("</string>\n</array>\n<key>KeepAlive</key><true/>\n<key>RunAtLoad</key><true/>\n<key>ProcessType</key><string>Interactive</string>\n</dict></plist>\n");
    reveal_strlit("</string>\n</array>");
    reveal_strlit("\n<key>KeepAlive</key><true/>\n<key>RunAtLoad</key><true/>\n<key>ProcessType</key><string>Interactive</string>\n</dict></plist>\n");
    let el = xml_escaped(label);
    let eh = xml_escaped(helper);
    let es = xml_escaped(socket);
    let d = decimal(uid as nat);
    let text = launch_daemon_plist_text(label, helper, socket, uid);
    assert(l0 =~= h0 + k0);
    assert(l1 =~= c1 + nl + k1);
    assert(l2 + daemon_argument() + l3 =~= mid);
    assert(l5 =~= e5 + t5);
    let rest1 = nl + k1 + eh + mid + es + l4 + d + l5;
    assert(text =~= h0 + (k0 + el + c1) + rest1);
    lemma_contains_middle(h0, k0 + el + c1, rest1);
    let needle = k1 + eh + mid + es + l4 + d + e5;
    assert(text =~= (h0 + k0 + el + c1 + nl) + needle + t5);
    lemma_contains_middle(h0 + k0 + el + c1 + nl, needle, t5);
}

/// launchd keeps the helper running and starts it as soon as the daemon is loaded: every
/// generated property list sets both `KeepAlive` and `RunAtLoad` to true.
pub proof fn law_plist_keeps_the_helper_alive_and_starts_it_at_load(
    label: Seq<char>,
    helper: Seq<char>,
    socket: Seq<char>,
    uid: u32,
)
    ensures
        contains_seq(
            launch_daemon_plist_text(label, helper, socket, uid),
            "<key>KeepAlive</key><true/>\n<key>RunAtLoad</key><true/>"@,
        ),
{
    let tail = "</string>\n</array>\n<key>KeepAlive</key><true/>\n<key>RunAtLoad</key><true/>\n<key>ProcessType</key><string>Interactive</string>\n</dict></plist>\n"@;
    let needle = "<key>KeepAlive</key><true/>\n<key>RunAtLoad</key><true/>"@;
    reveal_strlit("</string>\n</array>\n<key>KeepAlive</key><true/>\n<key>RunAtLoad</key><true/>\n<key>ProcessType</key><string>Interactive</string>\n</dict></plist>\n");
    reveal_strlit("<key>KeepAlive</key><true/>\n<key>RunAtLoad</key><true/>");
    let text = launch_daemon_plist_text(label, helper, socket, uid);
    let head = text.subrange(0, text.len() - tail.len());
    assert(text =~= head + tail);
    let n: int = needle.len() as int;
    let at: int = head.len() as int + 19;
    assert(tail.subrange(19, 19 + n) =~= needle);
    assert(text.subrange(at, at + n) =~= tail.subrange(19, 19 + n));
}

pub fn launch_daemon_plist(service: &ServiceInstallation) -> (p: String)
    ensures
        p@ == launch_daemon_plist_text(service.label@, service.helper_path@, service.socket_path@, service.uid),
{
    let mut p = owned("<?xml version=\"1.0\" encoding=\"UTF-8\"?>\n<!DOCTYPE plist PUBLIC \"-//Apple//DTD PLIST 1.0//EN\" \"http://www.apple.com/DTDs/PropertyList-1.0.dtd\">\n<plist version=\"1.0\"><dict>\n<key>Label</key><string>");
    let label = xml_escape(service.label.as_str());
    append_str(&mut p, label.as_str());
    append_str(&mut p, "</string>\n<key>ProgramArguments</key><array>\n<string>");
    let helper = xml_escape(service.helper_path.as_str());
    append_str(&mut p, helper.as_str());
    append_str(&mut p, "</string><string>");
    append_str(&mut p, "--privileged-udp-daemon");
    append_str(&mut p, "</string>\n<string>--socket</string><string>");
    let socket = xml_escape(service.socket_path.as_str());
    append_str(&mut p, socket.as_str());
    append_str(&mut p, "</string>\n<string>--allowed-uid</string><string>");
    push_decimal(&mut p, service.uid as u64);
    append_str(&mut p, "</string>\n</array>\n<key>KeepAlive</key><true/>\n<key>RunAtLoad</key><true/>\n<key>ProcessType</key><string>Interactive</string>\n</dict></plist>\n");
    p
}

/// The shell script, run with administrator rights, that installs the staged helper and
/// property list and removes a stale socket.
pub open spec fn install_files_script_text(staged_helper: Seq<char>, helper: Seq<char>, staged_plist: Seq<char>, plist: Seq<char>, socket: Seq<char>) -> Seq<char> {
    "set -e; test -x "@ + shell_quoted(staged_helper) + "; test -f "@ + shell_quoted(staged_plist)
        + "; mkdir -p /Library/PrivilegedHelperTools; /usr/bin/install -o root -g wheel -m 755 "@
        + shell_quoted(staged_helper) + " "@ + shell_quoted(helper)
        + "; /usr/bin/install -o root -g wheel -m 644 "@ + shell_quoted(staged_plist) + " "@
        + shell_quoted(plist) + "; rm -f "@ + shell_quoted(socket) + "; test -x "@ + shell_quoted(
        helper,
    ) + "; test -f "@ + shell_quoted(plist)
}

pub fn install_files_script(staged_helper: &str, service: &ServiceInstallation, staged_plist: &str) -> (s: String)
    ensures
        s@ == install_files_script_text(staged_helper@, service.helper_path@, staged_plist@, service.plist_path@, service.socket_path@),
{
    let source = shell_quote(staged_helper);
    let temp_plist = shell_quote(staged_plist);
    let helper = shell_quote(service.helper_path.as_str());
    let plist = shell_quote(service.plist_path.as_str());
    let socket = shell_quote(service.socket_path.as_str());
    let mut s = owned("set -e; test -x ");
    append_str(&mut s, source.as_str());
    append_str(&mut s, "; test -f ");
    append_str(&mut s, temp_plist.as_str());
    append_str(&mut s, "; mkdir -p /Library/PrivilegedHelperTools; /usr/bin/install -o root -g wheel -m 755 ");
    append_str(&mut s, source.as_str());
    append_str(&mut s, " ");
    append_str(&mut s, helper.as_str());
    append_str(&mut s, "; /usr/bin/install -o root -g wheel -m 644 ");
    append_str(&mut s, temp_plist.as_str());
    append_str(&mut s, " ");
    append_str(&mut s, plist.as_str());
    append_str(&mut s, "; rm -f ");
    append_str(&mut s, socket.as_str());
    append_str(&mut s, "; test -x ");
    append_str(&mut s, helper.as_str());
    append_str(&mut s, "; test -f ");
    append_str(&mut s, plist.as_str());
    s
}

/// The shell script, run with administrator rights, that (re)loads the LaunchDaemon.
pub open spec fn reload_script_text(label: Seq<char>, plist: Seq<char>) -> Seq<char> {
    "set -e; launchctl bootout system/"@ + shell_quoted(label)
        + " >/dev/null 2>&1 || true; launchctl bootstrap system "@ + shell_quoted(plist)
        + " 2>/dev/null || launchctl kickstart system/"@ + shell_quoted(label)
}

pub fn reload_script(service: &ServiceInstallation) -> (s: String)
    ensures
        s@ == reload_script_text(service.label@, service.plist_path@),
{
    let label = shell_quote(service.label.as_str());
    let plist = shell_quote(service.plist_path.as_str());
    let mut s = owned("set -e; launchctl bootout system/");
    append_str(&mut s, label.as_str());
    append_str(&mut s, " >/dev/null 2>&1 || true; launchctl bootstrap system ");
    append_str(&mut s, plist.as_str());
    append_str(&mut s, " 2>/dev/null || launchctl kickstart system/");
    append_str(&mut s, label.as_str());
    s
}

/// The private directory where the helper is staged before installation, for a user and
/// a process.
pub open spec fn staging_directory_text(uid: u32, pid: u32) -> Seq<char> {
    "/private/tmp/"@ + helper_id() + "-"@ + decimal(uid as nat) + "-"@ + decimal(pid as nat)
}

pub fn staging_directory(uid: u32, pid: u32) -> (d: String)
    ensures
        d@ == staging_directory_text(uid, pid),
{
    let mut d = owned("/private/tmp/");
    append_str(&mut d, "com.lhstack.dns-hearth.udp-forwarder");
    append_str(&mut d, "-");
    push_decimal(&mut d, uid as u64);
    append_str(&mut d, "-");
    push_decimal(&mut d, pid as u64);
    d
}

/// The file name under which the helper executable is staged.
pub const STAGED_HELPER_NAME: &'static str = "dns-hearth-helper";

/// The file name under which the property list is staged: the label and `.plist`.
pub fn staged_plist_name(service: &ServiceInstallation) -> (n: String)
    ensures
        n@ == service.label@ + ".plist"@,
{
    let mut n = service.label.clone();
    append_str(&mut n, ".plist");
    n
}

/// What an installed file must be: a regular file owned by root with exactly this mode.
pub open spec fn installed_file_error(label: Seq<char>, path: Seq<char>, is_file: bool, owner: u32, mode: u32, expected_mode: u32) -> Option<Seq<char>> {
    if !is_file {
        Some(label + " 不是普通文件: "@ + path)
    } else if owner != 0 {
        Some(label + " 必须归 root 所有，实际 uid="@ + decimal(owner as nat))
    } else if mode % 512 != expected_mode {
        Some(label + " 权限错误，预期 "@ + octal(expected_mode as nat) + "，实际 "@ + octal((mode % 512) as nat))
    } else {
        None
    }
}

/// An installed file is accepted exactly when it is a regular file, owned by root, whose
/// permission bits (the low nine bits of its mode) are the expected ones.
pub proof fn law_installed_file_accepted_only_when_root_owned_with_expected_mode(
    label: Seq<char>,
    path: Seq<char>,
    is_file: bool,
    owner: u32,
    mode: u32,
    expected_mode: u32,
)
    ensures
        installed_file_error(label, path, is_file, owner, mode, expected_mode) is None <==> (is_file
            && owner == 0 && mode % 512 == expected_mode),
{
}

/// A forwarding target counts as loopback exactly when its address is in 127.0.0.0/8 or is
/// `::1`.
pub proof fn law_loopback_targets(target: SocketEndpoint)
    ensures
        is_loopback(target.ip) <==> match target.ip {
            IpAddress::V4(bits) => 0x7f00_0000 <= bits <= 0x7fff_ffff,
            IpAddress::V6(bits) => bits == 1,
        },
{
}

/// Checks the metadata of an installed file (its permission bits are `mode & 0o777`).
pub fn check_installed_file(label: &str, path: &str, is_file: bool, owner: u32, mode: u32, expected_mode: u32) -> (r: Result<(), String>)
    ensures
        match installed_file_error(label@, path@, is_file, owner, mode, expected_mode) {
            None => r is Ok,
            Some(m) => (r matches Err(e) && e@ == m),
        },
{
    if !is_file {
        let mut m = owned(label);
        append_str(&mut m, " 不是普通文件: ");
        append_str(&mut m, path);
        return Err(m);
    }
    if owner != 0 {
        let mut m = owned(label);
        append_str(&mut m, " 必须归 root 所有，实际 uid=");
        push_decimal(&mut m, owner as u64);
        return Err(m);
    }
    let bits = mode % 512;
    if bits != expected_mode {
        let mut m = owned(label);
        append_str(&mut m, " 权限错误，预期 ");
        push_octal(&mut m, expected_mode);
        append_str(&mut m, "，实际 ");
        push_octal(&mut m, bits);
        return Err(m);
    }
    Ok(())
}

/// The AppleScript that runs its first argument as a shell script with administrator rights.
pub const AUTHORIZATION_SCRIPT: &'static str = "on run argv\ndo shell script (item 1 of argv) with administrator privileges\nend run";

/// The error reported when authorization takes longer than the time limit.
pub open spec fn authorization_timeout_text(operation: Seq<char>, limit_secs: u64) -> Seq<char> {
    operation + "超过 "@ + decimal(limit_secs as nat) + " 秒，已中止；请检查旧 LaunchDaemon 状态"@
}

pub fn authorization_timeout(operation: &str, limit_secs: u64) -> (m: String)
    ensures
        m@ == authorization_timeout_text(operation@, limit_secs),
{
    let mut m = owned(operation);
    append_str(&mut m, "超过 ");
    push_decimal(&mut m, limit_secs);
    append_str(&mut m, " 秒，已中止；请检查旧 LaunchDaemon 状态");
    m
}

/// The non-empty trimmed outputs of the authorization helper, joined by ` | `.
pub open spec fn authorization_details(stdout: Seq<char>, stderr: Seq<char>) -> Seq<char> {
    let a = trim(stdout);
    let b = trim(stderr);
    if a.len() == 0 {
        b
    } else if b.len() == 0 {
        a
    } else {
        a + " | "@ + b
    }
}

/// `Option<i32>` as `{:?}` writes it.
pub open spec fn exit_code_text(code: Option<i32>) -> Seq<char> {
    match code {
        Some(c) => "Some("@ + signed_decimal(c as int) + ")"@,
        None => "None"@,
    }
}

/// The error reported when authorization failed: a cancellation when the output mentions
/// `User canceled` or `-128`, else the operation, exit code and output.
pub open spec fn authorization_failure_text(operation: Seq<char>, code: Option<i32>, stdout: Seq<char>, stderr: Seq<char>) -> Seq<char> {
    let details = authorization_details(stdout, stderr);
    if contains_seq(details, "User canceled"@) || contains_seq(details, "-128"@) {
        "已取消 macOS 管理员授权，无法安装 DNS 端口服务"@
    } else {
        operation + "失败（退出码 "@ + exit_code_text(code) + "）: "@ + details
    }
}

pub fn authorization_failure(operation: &str, code: Option<i32>, stdout: &str, stderr: &str) -> (m: String)
    ensures
        m@ == authorization_failure_text(operation@, code, stdout@, stderr@),
{
    let a = crate::text::trim_str(stdout);
    let b = crate::text::trim_str(stderr);
    let a_empty = chars_of(a.as_str()).len() == 0;
    let b_empty = chars_of(b.as_str()).len() == 0;
    let details = if a_empty {
        b
    } else if b_empty {
        a
    } else {
        let mut d = a;
        append_str(&mut d, " | ");
        append_str(&mut d, b.as_str());
        d
    };
    if str_contains(details.as_str(), "User canceled") || str_contains(details.as_str(), "-128") {
        return owned("已取消 macOS 管理员授权，无法安装 DNS 端口服务");
    }
    let mut m = owned(operation);
    append_str(&mut m, "失败（退出码 ");
    match code {
        Some(c) => {
            append_str(&mut m, "Some(");
            push_signed_decimal(&mut m, c as i64);
            append_str(&mut m, ")");
        },
        None => append_str(&mut m, "None"),
    }
    append_str(&mut m, "）: ");
    append_str(&mut m, details.as_str());
    m
}

/// The outcome of asking for administrator authorization: a timeout is reported with the
/// limit, an unsuccessful exit with its code and output (or as a cancellation), and only a
/// successful exit is `Ok`.
pub fn authorization_outcome(
    operation: &str,
    limit_secs: u64,
    timed_out: bool,
    success: bool,
    code: Option<i32>,
    stdout: &str,
    stderr: &str,
) -> (r: Result<(), String>)
    ensures
        timed_out ==> (r matches Err(m) && m@ == authorization_timeout_text(operation@, limit_secs)),
        !timed_out && success ==> r is Ok,
        !timed_out && !success ==> (r matches Err(m) && m@ == authorization_failure_text(
            operation@,
            code,
            stdout@,
            stderr@,
        )),
{
    if timed_out {
        Err(authorization_timeout(operation, limit_secs))
    } else if success {
        Ok(())
    } else {
        Err(authorization_failure(operation, code, stdout, stderr))
    }
}


/// Where making sure the helper runs stands.
#[derive(Debug, Clone, Copy, PartialEq, Eq, Structural)]
pub enum EnsurePhase {
    /// Nothing has been tried yet but the first probe.
    FirstProbe,
    /// The helper was installed; probes are repeated until it answers or time runs out.
    AfterInstall,
}

/// What to do after a probe of the helper.
#[derive(Debug, Clone, Copy, PartialEq, Eq, Structural)]
pub enum EnsureAction {
    /// The helper answers with the current version.
    Ready,
    /// Install the helper, then probe again in the `AfterInstall` phase.
    Install,
    /// Wait a moment and probe again.
    ProbeAgain,
    /// Report the last probe's failure.
    GiveUp,
}

/// The next step of making sure the helper runs, after a probe that succeeded or not: a
/// helper that answers is used as it is; one that does not is installed once, and then
/// probed until it answers or the start-up deadline has passed.
pub fn next_ensure_action(phase: EnsurePhase, probe_ok: bool, deadline_passed: bool) -> (a: EnsureAction)
    ensures
        probe_ok ==> a == EnsureAction::Ready,
        !probe_ok && phase == EnsurePhase::FirstProbe ==> a == EnsureAction::Install,
        !probe_ok && phase == EnsurePhase::AfterInstall && deadline_passed ==> a == EnsureAction::GiveUp,
        !probe_ok && phase == EnsurePhase::AfterInstall && !deadline_passed ==> a == EnsureAction::ProbeAgain,
{
    if probe_ok {
        EnsureAction::Ready
    } else {
        match phase {
            EnsurePhase::FirstProbe => EnsureAction::Install,
            EnsurePhase::AfterInstall => if deadline_passed {
                EnsureAction::GiveUp
            } else {
                EnsureAction::ProbeAgain
            },
        }
    }
}

/// How long to wait between probes after installing the helper, in milliseconds.
pub const PROBE_RETRY_MILLIS: u64 = 150;

/// How long installing and starting the helper may take, in seconds.
pub const SERVICE_START_TIMEOUT_SECS: u64 = 30;

/// The first command on a control connection.
#[derive(Debug, Clone, Copy, PartialEq, Eq, Structural)]
pub enum ControlCommand {
    /// The client closed the connection without a command.
    Close,
    /// The client asks for the helper's version.
    Version,
    /// Anything else is read as a `START` command.
    Start,
}

impl ControlCommand {
    pub fn from_first_line(line: Option<&str>) -> (c: ControlCommand)
        ensures
            line is None ==> c == ControlCommand::Close,
            line matches Some(l) ==> (l@ == "VERSION"@ ==> c == ControlCommand::Version) && (l@
                != "VERSION"@ ==> c == ControlCommand::Start),
    {
        match line {
            None => ControlCommand::Close,
            Some(l) => if str_eq(l, "VERSION") {
                ControlCommand::Version
            } else {
                ControlCommand::Start
            },
        }
    }
}

/// What to do with a line received while forwarding.
#[derive(Debug, PartialEq, Eq)]
pub enum ForwardingStep {
    /// `STOP`: stop forwarding, reply `OK` and close.
    Stop,
    /// The client disconnected: stop forwarding and close.
    Disconnected,
    /// Any other line: reply with this error and keep forwarding.
    Reject(String),
}

impl ForwardingStep {
    pub fn after_line(line: Option<&str>) -> (s: ForwardingStep)
        ensures
            line is None ==> s == ForwardingStep::Disconnected,
            line matches Some(l) ==> (l@ == "STOP"@ ==> s == ForwardingStep::Stop) && (l@
                != "STOP"@ ==> (s matches ForwardingStep::Reject(reply) && reply@
                == "ERR unsupported command: "@ + l@ + "\n"@)),
    {
        match line {
            None => ForwardingStep::Disconnected,
            Some(l) => if str_eq(l, "STOP") {
                ForwardingStep::Stop
            } else {
                let mut reply = owned("ERR unsupported command: ");
                append_str(&mut reply, l);
                append_str(&mut reply, "\n");
                ForwardingStep::Reject(reply)
            },
        }
    }
}

/// The reply that confirms a command.
pub const OK_REPLY: &'static str = "OK\n";

/// The helper's reply to `VERSION`.
pub fn version_reply() -> (r: String)
    ensures
        r@ == "VERSION "@ + helper_version() + "\n"@,
{
    let mut r = owned("VERSION ");
    append_str(&mut r, "0.0.2");
    append_str(&mut r, "\n");
    r
}

/// The reply that reports an error.
pub fn error_reply(message: &str) -> (r: String)
    ensures
        r@ == "ERR "@ + message@ + "\n"@,
{
    let mut r = owned("ERR ");
    append_str(&mut r, message);
    append_str(&mut r, "\n");
    r
}

/// The reply when the privileged socket cannot be bound.
pub fn bind_failure_reply(listen: &str, error: &str) -> (r: String)
    ensures
        r@ == "ERR Failed to bind privileged UDP socket to "@ + listen@ + ": "@ + error@ + "\n"@,
{
    let mut r = owned("ERR Failed to bind privileged UDP socket to ");
    append_str(&mut r, listen);
    append_str(&mut r, ": ");
    append_str(&mut r, error);
    append_str(&mut r, "\n");
    r
}

/// The command that asks the helper to forward from `listen` to `target` (both as text).
pub fn start_command(listen: &str, target: &str) -> (c: String)
    ensures
        c@ == "START "@ + listen@ + " "@ + target@ + "\n"@,
{
    let mut c = owned("START ");
    append_str(&mut c, listen);
    append_str(&mut c, " ");
    append_str(&mut c, target);
    append_str(&mut c, "\n");
    c
}

/// A reply line read from the helper, trimmed; an empty line means the helper closed the
/// connection.
pub fn control_response(line: &str) -> (r: Result<String, String>)
    ensures
        trim(line@).len() == 0 ==> (r matches Err(m) && m@
            == "Privileged DNS daemon closed the control connection"@),
        trim(line@).len() > 0 ==> (r matches Ok(t) && t@ == trim(line@)),
{
    let t = crate::text::trim_str(line);
    if chars_of(t.as_str()).len() == 0 {
        return Err(owned("Privileged DNS daemon closed the control connection"));
    }
    Ok(t)
}

/// Whether the helper answered `VERSION` with this program's version.
pub fn is_current_version(response: &str) -> (b: bool)
    ensures
        b == (response@ == "VERSION "@ + helper_version()),
{
    let mut expected = owned("VERSION ");
    append_str(&mut expected, "0.0.2");
    str_eq(response, expected.as_str())
}

/// The helper's answer to a control request: `OK`, or the error that names the rejected
/// request and the answer.
pub fn expect_ok(response: &str, failure: &str) -> (r: Result<(), String>)
    ensures
        response@ == "OK"@ ==> r is Ok,
        response@ != "OK"@ ==> (r matches Err(m) && m@ == failure@ + ": "@ + response@),
{
    if str_eq(response, "OK") {
        return Ok(());
    }
    let mut m = owned(failure);
    append_str(&mut m, ": ");
    append_str(&mut m, response);
    Err(m)
}


proof fn lemma_replace_keeps_absent(s: Seq<char>, c: char, to: Seq<char>, d: char)
    requires
        !to.contains(d),
        c == d || !s.contains(d),
    ensures
        !replace_char(s, c, to).contains(d),
    decreases s.len(),
{
    if s.len() > 0 {
        assert(c == d || !s.drop_last().contains(d)) by {
            if c != d && s.drop_last().contains(d) {
                let k = choose|k: int| 0 <= k < s.drop_last().len() && s.drop_last()[k] == d;
                assert(s[k] == d);
            }
        }
        lemma_replace_keeps_absent(s.drop_last(), c, to, d);
        let tail = if s.last() == c {
            to
        } else {
            seq![s.last()]
        };
        assert(!tail.contains(d)) by {
            if s.last() != c && tail.contains(d) {
                assert(tail[0] == d);
                assert(s[s.len() - 1] == d);
            }
        }
        let r = replace_char(s, c, to);
        let head = replace_char(s.drop_last(), c, to);
        assert(r =~= head + tail);
        if r.contains(d) {
            let k = choose|k: int| 0 <= k < r.len() && r[k] == d;
            if k < head.len() {
                assert(head[k] == d);
            } else {
                assert(tail[k - head.len()] == d);
            }
        }
    }
}

/// XML-escaped text holds none of the characters `< > " '`, whatever it was made from.
pub proof fn law_xml_escaped_has_no_markup(value: Seq<char>)
    ensures
        !xml_escaped(value).contains('<'),
        !xml_escaped(value).contains('>'),
        !xml_escaped(value).contains('"'),
        !xml_escaped(value).contains('\''),
{
    reveal_strlit("&amp;");
    reveal_strlit("&lt;");
    reveal_strlit("&gt;");
    reveal_strlit("&quot;");
    reveal_strlit("&apos;");
    let a = replace_char(value, '&', "&amp;"@);
    let b = replace_char(a, '<', "&lt;"@);
    let c = replace_char(b, '>', "&gt;"@);
    let d = replace_char(c, '"', "&quot;"@);
    lemma_replace_keeps_absent(a, '<', "&lt;"@, '<');
    lemma_replace_keeps_absent(b, '>', "&gt;"@, '<');
    lemma_replace_keeps_absent(c, '"', "&quot;"@, '<');
    lemma_replace_keeps_absent(d, '\'', "&apos;"@, '<');
    lemma_replace_keeps_absent(b, '>', "&gt;"@, '>');
    lemma_replace_keeps_absent(c, '"', "&quot;"@, '>');
    lemma_replace_keeps_absent(d, '\'', "&apos;"@, '>');
    lemma_replace_keeps_absent(c, '"', "&quot;"@, '"');
    lemma_replace_keeps_absent(d, '\'', "&apos;"@, '"');
    lemma_replace_keeps_absent(d, '\'', "&apos;"@, '\'');
}

} // verus!
