//! Connection and display settings, resolved from the command line, then the
//! host and port variables of the environment, over built-in defaults.
use vstd::prelude::*;
use crate::addr::{
    chars_of, ip_from_text, is_digit, digit_val, parse_ip_address, parse_socket_address,
    socket_from_text, IpView, SocketAddress, SocketView,
};

verus! {

/// The port on which the daemon listens unless told otherwise.
pub const DEFAULT_PORT: u16 = 6600;

/// Which textual form an address failed to parse as.
#[derive(Clone, Copy, Debug, PartialEq, Eq)]
pub enum AddrKind {
    Socket,
    Ip,
}

/// Why a text failed to parse as an integer.
#[derive(Clone, Copy, Debug, PartialEq, Eq)]
pub enum IntErrorKind {
    Empty,
    InvalidDigit,
    PosOverflow,
}

/// Everything that can stop the program.
#[derive(Clone, Debug, PartialEq, Eq)]
pub enum Error {
    /// A flag that needs a value was given none.
    Arg,
    /// A host and port, or a host, failed to parse.
    AddrParse(AddrKind),
    /// A port failed to parse as an integer.
    ParseInt(IntErrorKind),
    /// The daemon could not be reached; the text says why.
    Connection(String),
    /// The daemon did not hand over its status; the text says why.
    Protocol(String),
}

/// The one line that describes an error.
pub open spec fn error_text(e: Error) -> Seq<char> {
    match e {
        Error::Arg => "Connection flag needs an argument"@,
        Error::AddrParse(AddrKind::Socket) => "invalid socket address syntax"@,
        Error::AddrParse(AddrKind::Ip) => "invalid IP address syntax"@,
        Error::ParseInt(IntErrorKind::Empty) => "cannot parse integer from empty string"@,
        Error::ParseInt(IntErrorKind::InvalidDigit) => "invalid digit found in string"@,
        Error::ParseInt(IntErrorKind::PosOverflow) => "number too large to fit in target type"@,
        Error::Connection(m) => m@,
        Error::Protocol(m) => m@,
    }
}

impl Error {
    /// The one line that describes the error.
    pub fn message(&self) -> (r: String)
        ensures
            r@ == error_text(*self),
    {
        match self {
            Error::Arg => "Connection flag needs an argument".to_owned(),
            Error::AddrParse(AddrKind::Socket) => "invalid socket address syntax".to_owned(),
            Error::AddrParse(AddrKind::Ip) => "invalid IP address syntax".to_owned(),
            Error::ParseInt(IntErrorKind::Empty) => "cannot parse integer from empty string".to_owned(),
            Error::ParseInt(IntErrorKind::InvalidDigit) => "invalid digit found in string".to_owned(),
            Error::ParseInt(IntErrorKind::PosOverflow) => "number too large to fit in target type".to_owned(),
            Error::Connection(m) => m.clone(),
            Error::Protocol(m) => m.clone(),
        }
    }
}

/// The decimal digits of `d` from index `i` on, read onto `acc`; the first
/// offending character decides the error.
pub open spec fn u16_digits(d: Seq<char>, i: int, acc: nat) -> Result<nat, IntErrorKind>
    decreases d.len() - i,
{
    if i < 0 || i >= d.len() {
        Ok(acc)
    } else if !is_digit(d[i], false) {
        Err(IntErrorKind::InvalidDigit)
    } else if acc * 10 + digit_val(d[i]) > 0xffff {
        Err(IntErrorKind::PosOverflow)
    } else {
        u16_digits(d, i + 1, acc * 10 + digit_val(d[i]))
    }
}

/// A port number written in decimal, with an optional leading `+`.
pub open spec fn u16_from_text(s: Seq<char>) -> Result<u16, IntErrorKind> {
    if s.len() == 0 {
        Err(IntErrorKind::Empty)
    } else if (s[0] == '+' || s[0] == '-') && s.len() == 1 {
        Err(IntErrorKind::InvalidDigit)
    } else {
        match u16_digits(s, if s[0] == '+' { 1 } else { 0 }, 0) {
            Ok(v) => Ok(v as u16),
            Err(k) => Err(k),
        }
    }
}

/// Parses a port number: decimal digits, with an optional leading `+`.
pub fn parse_port(text: &str) -> (r: Result<u16, IntErrorKind>)
    ensures
        r == u16_from_text(text@),
{
    let s = chars_of(text);
    if s.len() == 0 {
        return Err(IntErrorKind::Empty);
    }
    if (s[0] == '+' || s[0] == '-') && s.len() == 1 {
        return Err(IntErrorKind::InvalidDigit);
    }
    let start: usize = if s[0] == '+' { 1 } else { 0 };
    let mut i: usize = start;
    let mut acc: u64 = 0;
    while i < s.len()
        invariant
            start <= i <= s@.len(),
            s@ == text@,
            s@.len() > 0,
            !((s@[0] == '+' || s@[0] == '-') && s@.len() == 1),
            start == (if s@[0] == '+' { 1int } else { 0int }),
            acc <= 0xffff,
            u16_digits(s@, start as int, 0) == u16_digits(s@, i as int, acc as nat),
        decreases s@.len() - i,
    {
        let c = s[i];
        if !('0' <= c && c <= '9') {
            proof {
                assert(!is_digit(s@[i as int], false));
                assert(u16_digits(s@, i as int, acc as nat) == Err::<nat, IntErrorKind>(
                    IntErrorKind::InvalidDigit,
                ));
                assert(u16_from_text(s@) == Err::<u16, IntErrorKind>(IntErrorKind::InvalidDigit));
            }
            return Err(IntErrorKind::InvalidDigit);
        }
        let next = acc * 10 + (c as u32 - '0' as u32) as u64;
        proof {
            assert(is_digit(s@[i as int], false));
            assert(next == acc * 10 + digit_val(s@[i as int]));
        }
        if next > 0xffff {
            proof {
                assert(u16_digits(s@, i as int, acc as nat) == Err::<nat, IntErrorKind>(
                    IntErrorKind::PosOverflow,
                ));
                assert(u16_from_text(s@) == Err::<u16, IntErrorKind>(IntErrorKind::PosOverflow));
            }
            return Err(IntErrorKind::PosOverflow);
        }
        acc = next;
        i = i + 1;
    }
    Ok(acc as u16)
}

/// The mathematical value of a [`Config`].
pub struct ConfigView {
    pub percent: bool,
    pub socket: SocketView,
}

/// How to reach the daemon and what to print.
#[derive(Clone, Copy, Debug, PartialEq, Eq)]
pub struct Config {
    percent: bool,
    socket: SocketAddress,
}

impl View for Config {
    type V = ConfigView;

    closed spec fn view(&self) -> ConfigView {
        ConfigView { percent: self.percent, socket: self.socket@ }
    }
}

/// No fraction mode; the daemon on 127.0.0.1 at its usual port.
pub open spec fn default_config() -> ConfigView {
    ConfigView {
        percent: false,
        socket: SocketView::V4 { ip: seq![127u8, 0u8, 0u8, 1u8], port: DEFAULT_PORT },
    }
}

pub open spec fn is_help(a: Seq<char>) -> bool {
    a == seq!['-', 'h'] || a == "--help"@
}

pub open spec fn is_percent(a: Seq<char>) -> bool {
    a == seq!['-', 'p'] || a == "--percent"@
}

pub open spec fn is_connection(a: Seq<char>) -> bool {
    a == seq!['-', 'c'] || a == "--connection"@
}

/// Reads the arguments from index `i` on, left to right, onto `cfg`: a
/// percent flag sets fraction mode, a connection flag takes the next
/// argument as the socket address, anything else is passed over.
pub open spec fn scan_args(args: Seq<String>, i: int, cfg: ConfigView) -> Result<ConfigView, Error>
    decreases args.len() - i,
{
    if i < 0 || i >= args.len() {
        Ok(cfg)
    } else if is_percent(args[i]@) {
        scan_args(args, i + 1, ConfigView { percent: true, ..cfg })
    } else if is_connection(args[i]@) {
        if i + 1 >= args.len() {
            Err(Error::Arg)
        } else {
            match socket_from_text(args[i + 1]@) {
                None => Err(Error::AddrParse(AddrKind::Socket)),
                Some(a) => scan_args(args, i + 2, ConfigView { socket: a, ..cfg }),
            }
        }
    } else {
        scan_args(args, i + 1, cfg)
    }
}

/// How many help flags the scan of `scan_args` meets before it ends.
pub open spec fn help_count(args: Seq<String>, i: int) -> nat
    decreases args.len() - i,
{
    if i < 0 || i >= args.len() {
        0
    } else if is_connection(args[i]@) {
        if i + 1 >= args.len() || socket_from_text(args[i + 1]@) is None {
            0
        } else {
            help_count(args, i + 2)
        }
    } else if is_help(args[i]@) {
        1 + help_count(args, i + 1)
    } else {
        help_count(args, i + 1)
    }
}

/// The port variable, where set, replaces the port alone.
pub open spec fn apply_port(c: ConfigView, port: Option<String>) -> Result<ConfigView, Error> {
    match port {
        None => Ok(c),
        Some(p) => match u16_from_text(p@) {
            Err(k) => Err(Error::ParseInt(k)),
            Ok(v) => Ok(ConfigView { socket: c.socket.with_port(v), ..c }),
        },
    }
}

/// The host variable, where set, replaces the IP address alone.
pub open spec fn apply_host(c: ConfigView, host: Option<String>) -> Result<ConfigView, Error> {
    match host {
        None => Ok(c),
        Some(h) => match ip_from_text(h@) {
            None => Err(Error::AddrParse(AddrKind::Ip)),
            Some(ip) => Ok(ConfigView { socket: c.socket.with_ip(ip), ..c }),
        },
    }
}

/// The configuration that `args` (program name first), then the host and
/// the port variable make of the defaults, or the first error met.
pub open spec fn resolve(args: Seq<String>, host: Option<String>, port: Option<String>) -> Result<
    ConfigView,
    Error,
> {
    match scan_args(args, 1, default_config()) {
        Err(e) => Err(e),
        Ok(c) => match apply_host(c, host) {
            Err(e) => Err(e),
            Ok(c2) => apply_port(c2, port),
        },
    }
}

fn same_chars(a: &Vec<char>, w: &str) -> (r: bool)
    ensures
        r == (a@ == w@),
{
    let b = chars_of(w);
    if a.len() != b.len() {
        return false;
    }
    let mut i: usize = 0;
    while i < a.len()
        invariant
            a@.len() == b@.len(),
            b@ == w@,
            i <= a@.len(),
            forall|j: int| 0 <= j < i ==> a@[j] == b@[j],
        decreases a@.len() - i,
    {
        if a[i] != b[i] {
            return false;
        }
        i = i + 1;
    }
    proof {
        assert(a@ =~= b@);
    }
    true
}

fn flag_of(a: &Vec<char>) -> (r: u8)
    ensures
        r == 0 <==> is_help(a@),
        r == 1 <==> is_percent(a@),
        r == 2 <==> is_connection(a@),
        r <= 3,
{
    proof {
        reveal_strlit("-h");
        reveal_strlit("-p");
        reveal_strlit("-c");
        reveal_strlit("--help");
        reveal_strlit("--percent");
        reveal_strlit("--connection");
        assert("-h"@ =~= seq!['-', 'h']);
        assert("-p"@ =~= seq!['-', 'p']);
        assert("-c"@ =~= seq!['-', 'c']);
        assert("--help"@.len() != "--percent"@.len());
        assert("--help"@.len() != "--connection"@.len());
        assert("--percent"@.len() != "--connection"@.len());
    }
    if same_chars(a, "-h") || same_chars(a, "--help") {
        0
    } else if same_chars(a, "-p") || same_chars(a, "--percent") {
        1
    } else if same_chars(a, "-c") || same_chars(a, "--connection") {
        2
    } else {
        3
    }
}

impl Default for Config {
    fn default() -> (r: Config)
        ensures
            r@ == default_config(),
    {
        let r = Config {
            percent: false,
            socket: SocketAddress::V4 { ip: [127u8, 0u8, 0u8, 1u8], port: DEFAULT_PORT },
        };
        proof {
            assert(r@.socket->V4_ip =~= seq![127u8, 0u8, 0u8, 1u8]);
        }
        r
    }
}

impl Config {
    /// Whether only the elapsed fraction of the track is printed.
    pub fn percent(&self) -> (r: bool)
        ensures
            r == self@.percent,
    {
        self.percent
    }

    /// Where the daemon listens.
    pub fn socket(&self) -> (r: SocketAddress)
        ensures
            r@ == self@.socket,
    {
        self.socket
    }

    /// Resolves the configuration from the command line `args` (program
    /// name first) and the daemon's host and port variables, where set.
    pub fn from_args(args: &Vec<String>, host: &Option<String>, port: &Option<String>) -> (r:
        Result<Config, Error>)
        ensures
            match r {
                Ok(c) => resolve(args@, *host, *port) == Ok::<ConfigView, Error>(c@),
                Err(e) => resolve(args@, *host, *port) == Err::<ConfigView, Error>(e),
            },
    {
        let mut config = Config::default();
        let mut i: usize = 1;
        while i < args.len()
            invariant
                1 <= i,
                scan_args(args@, 1, default_config()) == scan_args(args@, i as int, config@),
            decreases args@.len() - i,
        {
            let a = chars_of(args[i].as_str());
            let flag = flag_of(&a);
            if flag == 1 {
                config.percent = true;
                i = i + 1;
            } else if flag == 2 {
                if i + 1 >= args.len() {
                    return Err(Error::Arg);
                }
                match parse_socket_address(args[i + 1].as_str()) {
                    None => {
                        return Err(Error::AddrParse(AddrKind::Socket));
                    },
                    Some(sa) => {
                        config.socket = sa;
                    },
                }
                i = i + 2;
            } else {
                i = i + 1;
            }
        }
        match host {
            None => {},
            Some(h) => match parse_ip_address(h.as_str()) {
                None => {
                    return Err(Error::AddrParse(AddrKind::Ip));
                },
                Some(ip) => config.socket.set_ip(ip),
            },
        }
        match port {
            None => {},
            Some(p) => match parse_port(p.as_str()) {
                Err(k) => {
                    return Err(Error::ParseInt(k));
                },
                Ok(v) => config.socket.set_port(v),
            },
        }
        Ok(config)
    }
}

/// How many times the help flag asks for the usage text while `args` are
/// read: once per help flag that the reading meets before it ends.
pub fn help_requests(args: &Vec<String>) -> (r: usize)
    ensures
        r == help_count(args@, 1),
{
    let mut n: usize = 0;
    let mut i: usize = 1;
    while i < args.len()
        invariant
            1 <= i,
            n <= i,
            help_count(args@, 1) == n + help_count(args@, i as int),
        decreases args@.len() - i,
    {
        let a = chars_of(args[i].as_str());
        let flag = flag_of(&a);
        if flag == 0 {
            n = n + 1;
            i = i + 1;
        } else if flag == 2 {
            if i + 1 >= args.len() {
                return n;
            }
            if parse_socket_address(args[i + 1].as_str()).is_none() {
                return n;
            }
            i = i + 2;
        } else {
            i = i + 1;
        }
    }
    n
}

proof fn lemma_flags_distinct(a: Seq<char>)
    ensures
        !(is_percent(a) && is_connection(a)),
        !(is_help(a) && is_connection(a)),
        !(is_help(a) && is_percent(a)),
{
    reveal_strlit("--help");
    reveal_strlit("--percent");
    reveal_strlit("--connection");
    assert("--help"@.len() != "--percent"@.len());
    assert("--help"@.len() != "--connection"@.len());
    assert("--percent"@.len() != "--connection"@.len());
}

/// A connection flag followed by `text` stores the socket address that
/// `text` spells, unchanged, over the defaults; where `text` spells none,
/// resolution fails with an address parse error.
pub proof fn lemma_connection_text(prog: String, flag: String, text: String)
    requires
        is_connection(flag@),
    ensures
        match socket_from_text(text@) {
            Some(a) => resolve(seq![prog, flag, text], None, None) == Ok::<ConfigView, Error>(
                ConfigView { socket: a, ..default_config() },
            ),
            None => resolve(seq![prog, flag, text], None, None) == Err::<ConfigView, Error>(
                Error::AddrParse(AddrKind::Socket),
            ),
        },
{
    lemma_flags_distinct(flag@);
    let args = seq![prog, flag, text];
    assert(args[1] == flag);
    assert(args[2] == text);
    if let Some(a) = socket_from_text(text@) {
        let c = ConfigView { socket: a, ..default_config() };
        assert(scan_args(args, 3, c) == Ok::<ConfigView, Error>(c));
        assert(scan_args(args, 1, default_config()) == Ok::<ConfigView, Error>(c));
    }
}

/// A percent flag turns fraction mode on and leaves the socket address at
/// its default.
pub proof fn lemma_percent_flag(prog: String, flag: String)
    requires
        is_percent(flag@),
    ensures
        resolve(seq![prog, flag], None, None) == Ok::<ConfigView, Error>(
            ConfigView { percent: true, ..default_config() },
        ),
{
    let args = seq![prog, flag];
    assert(args[1] == flag);
    let c = ConfigView { percent: true, ..default_config() };
    assert(scan_args(args, 2, c) == Ok::<ConfigView, Error>(c));
}

/// The host variable replaces the IP address alone: fraction mode and the
/// port are those that the arguments give.
pub proof fn lemma_host_keeps_port(args: Seq<String>, host: String)
    requires
        resolve(args, Some(host), None) is Ok,
    ensures
        resolve(args, None, None) is Ok,
        ip_from_text(host@) is Some,
        resolve(args, Some(host), None)->Ok_0 == (ConfigView {
            socket: resolve(args, None, None)->Ok_0.socket.with_ip(ip_from_text(host@)->Some_0),
            ..resolve(args, None, None)->Ok_0
        }),
        resolve(args, Some(host), None)->Ok_0.socket.port() == resolve(
            args,
            None,
            None,
        )->Ok_0.socket.port(),
{
}

/// The port variable replaces the port alone: fraction mode and the IP
/// address are those that the arguments and the host variable give.
pub proof fn lemma_port_keeps_host(args: Seq<String>, host: Option<String>, port: String)
    requires
        resolve(args, host, Some(port)) is Ok,
    ensures
        resolve(args, host, None) is Ok,
        u16_from_text(port@) is Ok,
        resolve(args, host, Some(port))->Ok_0 == (ConfigView {
            socket: resolve(args, host, None)->Ok_0.socket.with_port(u16_from_text(port@)->Ok_0),
            ..resolve(args, host, None)->Ok_0
        }),
        resolve(args, host, Some(port))->Ok_0.socket.ip() == resolve(
            args,
            host,
            None,
        )->Ok_0.socket.ip(),
{
}

proof fn lemma_scan_dangling(args: Seq<String>, flag: String, i: int, cfg: ConfigView)
    requires
        1 <= i <= args.len(),
        is_connection(flag@),
        scan_args(args, i, cfg) is Ok,
    ensures
        scan_args(args.push(flag), i, cfg) == Err::<ConfigView, Error>(Error::Arg),
    decreases args.len() - i,
{
    let ext = args.push(flag);
    lemma_flags_distinct(flag@);
    if i == args.len() {
        assert(ext[i] == flag);
    } else {
        assert(ext[i] == args[i]);
        if is_percent(args[i]@) {
            lemma_scan_dangling(args, flag, i + 1, ConfigView { percent: true, ..cfg });
        } else if is_connection(args[i]@) {
            assert(ext[i + 1] == args[i + 1]);
            let a = socket_from_text(args[i + 1]@)->Some_0;
            lemma_scan_dangling(args, flag, i + 2, ConfigView { socket: a, ..cfg });
        } else {
            lemma_scan_dangling(args, flag, i + 1, cfg);
        }
    }
}

/// A connection flag with nothing after it fails with an argument error,
/// whatever the environment holds, once the arguments before it read
/// without error.
pub proof fn lemma_connection_without_value(
    args: Seq<String>,
    flag: String,
    host: Option<String>,
    port: Option<String>,
)
    requires
        args.len() >= 1,
        is_connection(flag@),
        resolve(args, None, None) is Ok,
    ensures
        resolve(args.push(flag), host, port) == Err::<ConfigView, Error>(Error::Arg),
{
    lemma_scan_dangling(args, flag, 1, default_config());
}

} // verus!
