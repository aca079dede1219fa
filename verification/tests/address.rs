use h2m_favorites::commands::address::{
    literal_candidate, name_candidate, parse_possible_ipv6, resolve_address, webfront_host,
    AddressError, HostAddress, IpAddress, Probe, WebfrontHost,
};

const ANY_V4: IpAddress = IpAddress::V4([0, 0, 0, 0]);
const ANY_V6: IpAddress = IpAddress::V6([0; 8]);
const LOOPBACK: IpAddress = IpAddress::V4([127, 0, 0, 1]);
const PUBLIC_V6: IpAddress = IpAddress::V6([0x2001, 0xdb8, 0, 0, 0, 0, 0, 1]);

#[test]
fn unspecified_addresses() {
    assert!(ANY_V4.is_unspecified());
    assert!(ANY_V6.is_unspecified());
    assert!(!LOOPBACK.is_unspecified());
    assert!(!PUBLIC_V6.is_unspecified());
    assert!(!IpAddress::V4([0, 0, 0, 1]).is_unspecified());
    assert!(!IpAddress::V4([1, 0, 0, 0]).is_unspecified());
    assert!(!IpAddress::V6([0, 0, 0, 0, 0, 0, 0, 1]).is_unspecified());
    assert!(!IpAddress::V6([1, 0, 0, 0, 0, 0, 0, 0]).is_unspecified());
}

const LOCALHOST_V6: IpAddress = IpAddress::V6([0, 0, 0, 0, 0, 0, 0, 1]);

#[test]
fn literal_candidate_keeps_the_colons() {
    assert_eq!(literal_candidate("127.0.0.1"), Some("127.0.0.1".to_string()));
    assert_eq!(literal_candidate("::1"), Some("::1".to_string()));
    assert_eq!(literal_candidate("/::1/"), Some("::1".to_string()));
    assert_eq!(literal_candidate("2001:db8::"), Some("2001:db8::".to_string()));
    assert_eq!(literal_candidate("::"), Some("::".to_string()));
    assert_eq!(literal_candidate("//example.com/"), Some("example.com".to_string()));
    assert_eq!(literal_candidate("/:1.2.3.4:/"), Some(":1.2.3.4:".to_string()));
    assert_eq!(literal_candidate(":/x/:"), Some(":/x/:".to_string()));
    assert_eq!(literal_candidate(" 1.2.3.4 "), Some(" 1.2.3.4 ".to_string()));
}

#[test]
fn name_candidate_is_trimmed_of_slashes_then_colons() {
    assert_eq!(name_candidate("127.0.0.1"), Some("127.0.0.1".to_string()));
    assert_eq!(name_candidate("//example.com/"), Some("example.com".to_string()));
    assert_eq!(name_candidate("/:1.2.3.4:/"), Some("1.2.3.4".to_string()));
    assert_eq!(name_candidate("::1"), Some("1".to_string()));
    assert_eq!(name_candidate(":/x/:"), Some("/x/".to_string()));
    assert_eq!(name_candidate("a/b:c"), Some("a/b:c".to_string()));
    assert_eq!(name_candidate(" 1.2.3.4 "), Some(" 1.2.3.4 ".to_string()));
}

#[test]
fn candidate_of_nothing_is_nothing() {
    assert_eq!(literal_candidate(""), None);
    assert_eq!(literal_candidate("/"), None);
    assert_eq!(literal_candidate("///"), None);
    assert_eq!(name_candidate(""), None);
    assert_eq!(name_candidate("/"), None);
    assert_eq!(name_candidate("://"), None);
    assert_eq!(name_candidate("//::://"), None);
    assert_eq!(name_candidate("::"), None);
    assert_eq!(literal_candidate("://"), Some(":".to_string()));
}

#[test]
fn ipv6_literal_is_taken_as_written() {
    assert_eq!(resolve_address("::1", Probe::Literal(LOCALHOST_V6)), Ok(LOCALHOST_V6));
    assert_eq!(resolve_address("/::1/", Probe::Literal(LOCALHOST_V6)), Ok(LOCALHOST_V6));
    let ends_in_colons = IpAddress::V6([0x2001, 0xdb8, 0, 0, 0, 0, 0, 0]);
    assert_eq!(resolve_address("2001:db8::", Probe::Literal(ends_in_colons)), Ok(ends_in_colons));
}

#[test]
fn any_address_is_invalid() {
    let error = resolve_address("0.0.0.0", Probe::Literal(ANY_V4)).unwrap_err();
    assert_eq!(error, AddressError::Unspecified(ANY_V4));
    assert!(error.is_invalid_address());
    assert_eq!(resolve_address("::", Probe::Literal(ANY_V6)), Err(AddressError::Unspecified(ANY_V6)));
    assert_eq!(
        resolve_address("0:0:0:0:0:0:0:0", Probe::Literal(ANY_V6)),
        Err(AddressError::Unspecified(ANY_V6))
    );
    // a literal between colons is a literal still
    assert_eq!(
        resolve_address(":0.0.0.0:", Probe::Literal(ANY_V4)),
        Err(AddressError::Unspecified(ANY_V4))
    );
}

#[test]
fn loopback_literal_resolves() {
    assert_eq!(resolve_address("127.0.0.1", Probe::Literal(LOOPBACK)), Ok(LOOPBACK));
    assert_eq!(resolve_address("/127.0.0.1:", Probe::Literal(LOOPBACK)), Ok(LOOPBACK));
}

#[test]
fn empty_text_is_invalid_whatever_the_probe() {
    for probe in [Probe::Literal(LOOPBACK), Probe::Name(Some(LOOPBACK)), Probe::Name(None)] {
        let error = resolve_address("", probe).unwrap_err();
        assert_eq!(error, AddressError::Empty);
        assert!(error.is_invalid_address());
        assert_eq!(resolve_address("//", probe), Err(AddressError::Empty));
    }
    // colons alone are no literal and leave no name
    assert_eq!(resolve_address("/:/", Probe::Name(None)), Err(AddressError::Empty));
    assert_eq!(resolve_address(":", Probe::Name(Some(LOOPBACK))), Err(AddressError::Empty));
}

#[test]
fn names_take_the_first_answer() {
    assert_eq!(resolve_address("example.com", Probe::Name(Some(PUBLIC_V6))), Ok(PUBLIC_V6));
    // an answer of the resolver is taken as it comes
    assert_eq!(resolve_address("example.com", Probe::Name(Some(ANY_V4))), Ok(ANY_V4));
    let error = resolve_address("example.invalid", Probe::Name(None)).unwrap_err();
    assert_eq!(error, AddressError::Unresolved);
    assert!(!error.is_invalid_address());
    assert!(AddressError::Unparsable.is_invalid_address());
}

#[test]
fn webfront_ipv6_literal_without_its_port() {
    assert_eq!(
        webfront_host("http://2001:db8::1:1624"),
        WebfrontHost::Host("2001:db8::1".to_string())
    );
    assert_eq!(
        webfront_host("https://2a01:4f8:c17:1234::2:8080"),
        WebfrontHost::Host("2a01:4f8:c17:1234::2".to_string())
    );
}

#[test]
fn webfront_hosts() {
    assert_eq!(webfront_host("http://example.com:80"), WebfrontHost::Host("example.com".to_string()));
    assert_eq!(webfront_host("http://example.com"), WebfrontHost::Host("example.com".to_string()));
    assert_eq!(webfront_host("http://1.2.3.4:1624/"), WebfrontHost::Host("1.2.3.4".to_string()));
    assert_eq!(webfront_host("//host"), WebfrontHost::Host("host".to_string()));
    assert_eq!(webfront_host("a//b//c:d:e"), WebfrontHost::Host("b//c:d".to_string()));
    assert_eq!(webfront_host("http://"), WebfrontHost::Host(String::new()));
    assert_eq!(webfront_host("http://h:"), WebfrontHost::Host("h".to_string()));
    assert_eq!(webfront_host("http:///x"), WebfrontHost::Host("/x".to_string()));
}

#[test]
fn webfront_without_scheme_or_host() {
    assert_eq!(webfront_host(""), WebfrontHost::NoScheme);
    assert_eq!(webfront_host("/"), WebfrontHost::NoScheme);
    assert_eq!(webfront_host("example.com:80"), WebfrontHost::NoScheme);
    assert_eq!(webfront_host("http:/example.com"), WebfrontHost::NoScheme);
    assert_eq!(webfront_host("http://:1624"), WebfrontHost::NoHost);
    assert_eq!(webfront_host("//:"), WebfrontHost::NoHost);
}

#[test]
fn hoster_address_that_resolves_is_taken() {
    assert_eq!(
        parse_possible_ipv6("1.2.3.4", Probe::Literal(IpAddress::V4([1, 2, 3, 4])), "http://x:1"),
        HostAddress::Settled(Ok(IpAddress::V4([1, 2, 3, 4])))
    );
    assert_eq!(
        parse_possible_ipv6("host.example", Probe::Name(Some(LOOPBACK)), ""),
        HostAddress::Settled(Ok(LOOPBACK))
    );
}

#[test]
fn hoster_address_falls_back_to_the_webfront() {
    assert_eq!(
        parse_possible_ipv6("0.0.0.0", Probe::Literal(ANY_V4), "http://2001:db8::1:1624"),
        HostAddress::AskWebfront("2001:db8::1".to_string())
    );
    assert_eq!(
        parse_possible_ipv6("", Probe::Name(None), "https://panel.example.org"),
        HostAddress::AskWebfront("panel.example.org".to_string())
    );
}

#[test]
fn hoster_address_keeps_the_first_error_without_a_scheme() {
    assert_eq!(
        parse_possible_ipv6("0.0.0.0", Probe::Literal(ANY_V4), "panel.example.org:1624"),
        HostAddress::Settled(Err(AddressError::Unspecified(ANY_V4)))
    );
    assert_eq!(
        parse_possible_ipv6("", Probe::Name(None), ""),
        HostAddress::Settled(Err(AddressError::Empty))
    );
    assert_eq!(
        parse_possible_ipv6("::1", Probe::Literal(LOCALHOST_V6), ""),
        HostAddress::Settled(Ok(LOCALHOST_V6))
    );
    assert_eq!(
        parse_possible_ipv6("nowhere", Probe::Name(None), "nothing"),
        HostAddress::Settled(Err(AddressError::Unresolved))
    );
}

#[test]
fn hoster_address_without_a_host_before_the_port() {
    assert_eq!(
        parse_possible_ipv6("nowhere", Probe::Name(None), "http://:1624"),
        HostAddress::Settled(Err(AddressError::Unparsable))
    );
}

#[test]
fn error_messages() {
    assert_eq!(AddressError::Empty.message(), "Ip can not be empty");
    assert_eq!(AddressError::Unspecified(ANY_V4).message(), "Addr: 0.0.0.0, is not valid");
    assert_eq!(AddressError::Unspecified(ANY_V6).message(), "Addr: ::, is not valid");
    assert_eq!(AddressError::Unparsable.message(), "Failed to parse ip");
    assert_eq!(AddressError::Unresolved.message(), "Hostname could not be resolved");
}
