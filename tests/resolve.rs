use mpdtime::addr::{parse_ip_address, parse_socket_address};
use mpdtime::config::{help_requests, parse_port, AddrKind, IntErrorKind};
use mpdtime::{Config, Error, IpAddress, SocketAddress};

fn argv(items: &[&str]) -> Vec<String> {
    items.iter().map(|s| s.to_string()).collect()
}

fn resolve(items: &[&str], host: Option<&str>, port: Option<&str>) -> Result<Config, Error> {
    Config::from_args(&argv(items), &host.map(|h| h.to_string()), &port.map(|p| p.to_string()))
}

#[test]
fn defaults_without_arguments() {
    let c = resolve(&["mpdtime"], None, None).unwrap();
    assert!(!c.percent());
    assert_eq!(c.socket(), SocketAddress::V4 { ip: [127, 0, 0, 1], port: 6600 });
}

#[test]
fn empty_argument_list_gives_defaults() {
    let c = resolve(&[], None, None).unwrap();
    assert_eq!(c, Config::default());
}

#[test]
fn percent_flags() {
    assert!(resolve(&["mpdtime", "-p"], None, None).unwrap().percent());
    assert!(resolve(&["mpdtime", "--percent"], None, None).unwrap().percent());
}

#[test]
fn program_name_is_skipped() {
    assert!(!resolve(&["-p"], None, None).unwrap().percent());
}

#[test]
fn connection_flag_stores_ipv4_address() {
    let c = resolve(&["mpdtime", "-c", "10.0.0.2:7000"], None, None).unwrap();
    assert_eq!(c.socket(), SocketAddress::V4 { ip: [10, 0, 0, 2], port: 7000 });
    assert!(!c.percent());
}

#[test]
fn long_connection_flag_stores_ipv6_address() {
    let c = resolve(&["mpdtime", "--connection", "[::1]:6601"], None, None).unwrap();
    assert_eq!(
        c.socket(),
        SocketAddress::V6 { ip: [0, 0, 0, 0, 0, 0, 0, 1], port: 6601, scope_id: 0 }
    );
}

#[test]
fn ipv6_scope_id_is_kept() {
    let a = parse_socket_address("[fe80::1%3]:80").unwrap();
    assert_eq!(a, SocketAddress::V6 { ip: [0xfe80, 0, 0, 0, 0, 0, 0, 1], port: 80, scope_id: 3 });
}

#[test]
fn later_connection_flag_wins() {
    let c = resolve(&["mpdtime", "-c", "1.1.1.1:1", "-c", "2.2.2.2:2"], None, None).unwrap();
    assert_eq!(c.socket(), SocketAddress::V4 { ip: [2, 2, 2, 2], port: 2 });
}

#[test]
fn unknown_arguments_are_ignored() {
    let c = resolve(&["mpdtime", "-x", "--verbose", "-p", "stray"], None, None).unwrap();
    assert!(c.percent());
    assert_eq!(c.socket(), Config::default().socket());
}

#[test]
fn help_flag_changes_nothing() {
    let c = resolve(&["mpdtime", "-h", "--help"], None, None).unwrap();
    assert_eq!(c, Config::default());
}

#[test]
fn help_requests_are_counted_until_the_reading_stops() {
    assert_eq!(help_requests(&argv(&["mpdtime", "-h", "--help"])), 2);
    assert_eq!(help_requests(&argv(&["mpdtime", "-c", "-h"])), 0);
    assert_eq!(help_requests(&argv(&["mpdtime", "-h", "-c", "bad", "-h"])), 1);
    assert_eq!(help_requests(&argv(&["-h"])), 0);
}

#[test]
fn connection_flag_without_value_is_an_argument_error() {
    assert_eq!(resolve(&["mpdtime", "-c"], None, None), Err(Error::Arg));
    assert_eq!(resolve(&["mpdtime", "-p", "--connection"], None, None), Err(Error::Arg));
    assert_eq!(resolve(&["mpdtime", "-c"], Some("1.2.3.4"), Some("1")), Err(Error::Arg));
}

#[test]
fn connection_flag_consumes_next_token() {
    assert_eq!(
        resolve(&["mpdtime", "-c", "-c"], None, None),
        Err(Error::AddrParse(AddrKind::Socket))
    );
}

#[test]
fn malformed_connection_values() {
    for bad in [
        "localhost:6600",
        "1.2.3.4",
        "01.2.3.4:1",
        "256.1.1.1:1",
        "1.2.3.4:65536",
        "1.2.3.4:",
        "::1:80",
        "[::1]",
        "[1:2:3:4:5:6:7:8:9]:1",
        "1.2.3.4:80 ",
        "",
    ] {
        assert_eq!(
            resolve(&["mpdtime", "-c", bad], None, None),
            Err(Error::AddrParse(AddrKind::Socket)),
            "{}",
            bad
        );
    }
}

#[test]
fn socket_port_may_have_leading_zeros() {
    assert_eq!(
        parse_socket_address("1.2.3.4:0080"),
        Some(SocketAddress::V4 { ip: [1, 2, 3, 4], port: 80 })
    );
}

#[test]
fn ip_addresses() {
    assert_eq!(parse_ip_address("192.168.1.5"), Some(IpAddress::V4([192, 168, 1, 5])));
    assert_eq!(parse_ip_address("0.0.0.0"), Some(IpAddress::V4([0, 0, 0, 0])));
    assert_eq!(parse_ip_address("1:2:3:4:5:6:7:8"), Some(IpAddress::V6([1, 2, 3, 4, 5, 6, 7, 8])));
    assert_eq!(parse_ip_address("::"), Some(IpAddress::V6([0; 8])));
    assert_eq!(parse_ip_address("1::"), Some(IpAddress::V6([1, 0, 0, 0, 0, 0, 0, 0])));
    assert_eq!(parse_ip_address("1:2:3:4:5:6:7::"), Some(IpAddress::V6([1, 2, 3, 4, 5, 6, 7, 0])));
    assert_eq!(
        parse_ip_address("::ffff:1.2.3.4"),
        Some(IpAddress::V6([0, 0, 0, 0, 0, 0xffff, 0x0102, 0x0304]))
    );
    assert_eq!(parse_ip_address("ABCD::ef"), Some(IpAddress::V6([0xabcd, 0, 0, 0, 0, 0, 0, 0xef])));
    assert_eq!(parse_ip_address("1:2:3:4:5:6:7:8:9"), None);
    assert_eq!(parse_ip_address(":::"), None);
    assert_eq!(parse_ip_address("12345::"), None);
    assert_eq!(parse_ip_address("1::2::3"), None);
    assert_eq!(parse_ip_address("1.2.3"), None);
    assert_eq!(parse_ip_address("1.2.3.04"), None);
    assert_eq!(parse_ip_address("1:2:3:4:5:6:7:8::"), None);
}

#[test]
fn host_variable_replaces_ip_only() {
    let c = resolve(&["mpdtime", "-c", "10.0.0.2:7000"], Some("192.168.1.5"), None).unwrap();
    assert_eq!(c.socket(), SocketAddress::V4 { ip: [192, 168, 1, 5], port: 7000 });
}

#[test]
fn host_variable_of_other_family() {
    let c = resolve(&["mpdtime"], Some("::1"), None).unwrap();
    assert_eq!(
        c.socket(),
        SocketAddress::V6 { ip: [0, 0, 0, 0, 0, 0, 0, 1], port: 6600, scope_id: 0 }
    );
    let c = resolve(&["mpdtime", "-c", "[::1%7]:5"], Some("::2"), None).unwrap();
    assert_eq!(
        c.socket(),
        SocketAddress::V6 { ip: [0, 0, 0, 0, 0, 0, 0, 2], port: 5, scope_id: 7 }
    );
}

#[test]
fn bad_host_variable() {
    assert_eq!(
        resolve(&["mpdtime"], Some("localhost"), None),
        Err(Error::AddrParse(AddrKind::Ip))
    );
    assert_eq!(
        resolve(&["mpdtime"], Some("1.2.3.4:80"), None),
        Err(Error::AddrParse(AddrKind::Ip))
    );
}

#[test]
fn port_variable_replaces_port_only() {
    let c = resolve(&["mpdtime", "-c", "10.0.0.2:7000"], Some("10.0.0.9"), Some("7001")).unwrap();
    assert_eq!(c.socket(), SocketAddress::V4 { ip: [10, 0, 0, 9], port: 7001 });
    let c = resolve(&["mpdtime", "-p"], None, Some("+80")).unwrap();
    assert_eq!(c.socket(), SocketAddress::V4 { ip: [127, 0, 0, 1], port: 80 });
    assert!(c.percent());
}

#[test]
fn bad_port_variable() {
    assert_eq!(resolve(&["mpdtime"], None, Some("abc")), Err(Error::ParseInt(IntErrorKind::InvalidDigit)));
    assert_eq!(resolve(&["mpdtime"], None, Some("")), Err(Error::ParseInt(IntErrorKind::Empty)));
    assert_eq!(resolve(&["mpdtime"], None, Some("70000")), Err(Error::ParseInt(IntErrorKind::PosOverflow)));
}

#[test]
fn port_texts() {
    assert_eq!(parse_port("6600"), Ok(6600));
    assert_eq!(parse_port("065535"), Ok(65535));
    assert_eq!(parse_port("+"), Err(IntErrorKind::InvalidDigit));
    assert_eq!(parse_port("-"), Err(IntErrorKind::InvalidDigit));
    assert_eq!(parse_port("-1"), Err(IntErrorKind::InvalidDigit));
    assert_eq!(parse_port("99999x"), Err(IntErrorKind::PosOverflow));
    assert_eq!(parse_port("9x99999"), Err(IntErrorKind::InvalidDigit));
    assert_eq!(parse_port("65536"), Err(IntErrorKind::PosOverflow));
}

#[test]
fn port_parsing_agrees_with_std() {
    for text in ["0", "80", "+7", "65535", "65536", "", "+", "-3", "1 ", "0009"] {
        assert_eq!(parse_port(text).ok(), text.parse::<u16>().ok(), "{}", text);
    }
}

#[test]
fn error_messages() {
    assert_eq!(Error::Arg.message(), "Connection flag needs an argument");
    assert_eq!(Error::AddrParse(AddrKind::Socket).message(), "invalid socket address syntax");
    assert_eq!(Error::AddrParse(AddrKind::Ip).message(), "invalid IP address syntax");
    assert_eq!(Error::ParseInt(IntErrorKind::Empty).message(), "cannot parse integer from empty string");
    assert_eq!(Error::ParseInt(IntErrorKind::InvalidDigit).message(), "invalid digit found in string");
    assert_eq!(Error::ParseInt(IntErrorKind::PosOverflow).message(), "number too large to fit in target type");
    assert_eq!(Error::Connection("refused".to_string()).message(), "refused");
    assert_eq!(Error::Protocol("bad banner".to_string()).message(), "bad banner");
}
