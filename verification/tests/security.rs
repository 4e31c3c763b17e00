use atombot::text::{is_blank, trim_chars};
use atombot::security::network::{
    any_refused, check_redirect, check_resolved_addresses, check_resolved_url, check_target,
    ip_text, is_blocked_private, resolved_url_host, url_candidates, url_host_address, url_target_host,
    IpAddress, NetworkError,
};

fn v4(a: u8, b: u8, c: u8, d: u8) -> IpAddress {
    IpAddress::V4([a, b, c, d])
}

fn v6(s: [u16; 8]) -> IpAddress {
    IpAddress::V6(s)
}

/// Validates a URL with a fixed resolution of its host, as the agent does
/// after asking the resolver.
fn validate_with(url: &str, resolved: Option<Vec<IpAddress>>) -> Result<(), NetworkError> {
    let host = url_target_host(url)?;
    check_resolved_addresses(&host, resolved.as_ref())
}

#[test]
fn test_blocks_private_ips() {
    assert!(validate_with("http://127.0.0.1/", Some(vec![v4(127, 0, 0, 1)])).is_err());
    assert!(validate_with("http://localhost/", Some(vec![v6([0, 0, 0, 0, 0, 0, 0, 1]), v4(127, 0, 0, 1)])).is_err());
    assert!(validate_with("http://10.0.0.1/", Some(vec![v4(10, 0, 0, 1)])).is_err());
    assert!(validate_with("http://192.168.1.1/", Some(vec![v4(192, 168, 1, 1)])).is_err());
    assert!(validate_with("http://172.16.0.1/", Some(vec![v4(172, 16, 0, 1)])).is_err());
}

#[test]
fn test_allows_public_urls() {
    assert!(validate_with("https://example.com/", Some(vec![v4(93, 184, 215, 14)])).is_ok());
    assert!(validate_with("https://www.google.com/", Some(vec![v4(142, 250, 74, 36)])).is_ok());
}

#[test]
fn test_rejects_invalid_scheme() {
    assert!(validate_with("ftp://example.com/", Some(vec![v4(93, 184, 215, 14)])).is_err());
    assert!(validate_with("file:///etc/passwd", None).is_err());
    assert_eq!(url_target_host("ftp://example.com/"), Err(NetworkError::InvalidScheme("ftp".to_string())));
    assert_eq!(url_target_host("file:///etc/passwd"), Err(NetworkError::InvalidScheme("file".to_string())));
}

#[test]
fn url_target_host_reports_parse_failures() {
    assert_eq!(url_target_host("not a url"), Err(NetworkError::MissingDomain));
    assert_eq!(url_target_host("https://example.com:8080/x?y=1"), Ok("example.com".to_string()));
    assert_eq!(url_target_host("HTTP://Example.COM/"), Ok("example.com".to_string()));
}

#[test]
fn resolution_failure_is_reported() {
    assert_eq!(
        check_resolved_addresses("nowhere.invalid", None),
        Err(NetworkError::UnresolvableHostname("nowhere.invalid".to_string()))
    );
}

#[test]
fn first_private_address_is_reported() {
    let addrs = vec![v4(8, 8, 8, 8), v4(10, 1, 2, 3), v4(192, 168, 0, 1)];
    assert_eq!(
        check_resolved_addresses("mixed.example", Some(&addrs)),
        Err(NetworkError::PrivateAddress("mixed.example".to_string(), v4(10, 1, 2, 3)))
    );
    assert_eq!(check_resolved_addresses("empty.example", Some(&vec![])), Ok(()));
}

#[test]
fn private_ranges_are_exact() {
    assert!(is_blocked_private(&v4(0, 1, 2, 3)));
    assert!(is_blocked_private(&v4(100, 64, 0, 0)));
    assert!(is_blocked_private(&v4(100, 127, 255, 255)));
    assert!(!is_blocked_private(&v4(100, 63, 255, 255)));
    assert!(!is_blocked_private(&v4(100, 128, 0, 0)));
    assert!(is_blocked_private(&v4(169, 254, 1, 1)));
    assert!(!is_blocked_private(&v4(169, 253, 1, 1)));
    assert!(is_blocked_private(&v4(172, 31, 255, 255)));
    assert!(!is_blocked_private(&v4(172, 32, 0, 1)));
    assert!(!is_blocked_private(&v4(172, 15, 0, 1)));
    assert!(!is_blocked_private(&v4(192, 169, 0, 1)));
    assert!(!is_blocked_private(&v4(1, 1, 1, 1)));
    assert!(is_blocked_private(&v6([0xfc00, 0, 0, 0, 0, 0, 0, 1])));
    assert!(is_blocked_private(&v6([0xfdff, 0, 0, 0, 0, 0, 0, 1])));
    assert!(is_blocked_private(&v6([0xfe80, 0, 0, 0, 0, 0, 0, 1])));
    assert!(is_blocked_private(&v6([0xfebf, 0, 0, 0, 0, 0, 0, 1])));
    assert!(!is_blocked_private(&v6([0xfec0, 0, 0, 0, 0, 0, 0, 1])));
    assert!(!is_blocked_private(&v6([0x2001, 0xdb8, 0, 0, 0, 0, 0, 1])));
    assert!(!is_blocked_private(&v6([0, 0, 0, 0, 0, 0, 0, 2])));
}

#[test]
fn resolved_url_checks() {
    assert_eq!(resolved_url_host("::garbage"), None);
    assert_eq!(resolved_url_host("https://example.com/a"), Some("example.com".to_string()));
    assert_eq!(
        check_resolved_url("10.0.0.5", Some(v4(10, 0, 0, 5)), None),
        Err(NetworkError::PrivateAddress("10.0.0.5".to_string(), v4(10, 0, 0, 5)))
    );
    assert_eq!(check_resolved_url("8.8.8.8", Some(v4(8, 8, 8, 8)), None), Ok(()));
    assert_eq!(check_resolved_url("unresolvable.example", None, None), Ok(()));
    assert!(check_resolved_url("inside.example", None, Some(&vec![v4(127, 0, 0, 2)])).is_err());
}

#[test]
fn url_candidates_are_found_in_order() {
    let found = url_candidates("see http://10.0.0.1/x and https://a.com/b;c").unwrap();
    assert_eq!(found, vec!["http://10.0.0.1/x".to_string(), "https://a.com/b".to_string()]);
    assert_eq!(url_candidates("no links here").unwrap(), Vec::<String>::new());
}

#[test]
fn address_hosts_are_checked_themselves() {
    assert_eq!(url_host_address("http://[::1]/"), Some(v6([0, 0, 0, 0, 0, 0, 0, 1])));
    assert_eq!(url_host_address("http://10.0.0.1/x"), Some(v4(10, 0, 0, 1)));
    assert_eq!(url_host_address("http://example.com/"), None);
    // a redirect to the IPv6 loopback is refused, whatever DNS says
    assert_eq!(
        check_redirect("http://[::1]/", None),
        Err(NetworkError::PrivateAddress("[::1]".to_string(), v6([0, 0, 0, 0, 0, 0, 0, 1])))
    );
    assert_eq!(check_redirect("http://[2606:4700::1111]/", None), Ok(()));
    assert_eq!(check_redirect("not a url", None), Ok(()));
    assert_eq!(check_redirect("https://example.com/", None), Ok(()));
    assert!(check_redirect("https://example.com/", Some(&vec![v4(192, 168, 1, 1)])).is_err());
    assert_eq!(
        check_target("http://[fe80::1]/", None),
        Err(NetworkError::UnresolvableHostname("[fe80::1]".to_string()))
    );
    assert_eq!(
        check_target("http://[2001:db8::1]/", Some(&vec![v4(8, 8, 8, 8)])),
        Err(NetworkError::UnresolvableHostname("[2001:db8::1]".to_string()))
    );
    assert_eq!(
        check_target("http://10.0.0.5/", None),
        Err(NetworkError::PrivateAddress("10.0.0.5".to_string(), v4(10, 0, 0, 5)))
    );
    assert_eq!(check_target("http://8.8.8.8/", None), Ok(()));
    assert_eq!(
        check_target("http://nowhere.invalid/", None),
        Err(NetworkError::UnresolvableHostname("nowhere.invalid".to_string()))
    );
    assert_eq!(check_target("ftp://example.com/", None), Err(NetworkError::InvalidScheme("ftp".to_string())));
    assert!(!any_refused(&vec![Ok(()), Ok(())]));
    assert!(any_refused(&vec![Ok(()), Err(NetworkError::MissingDomain)]));
}

#[test]
fn network_errors_read_as_displayed() {
    assert_eq!(NetworkError::InvalidScheme("ftp".to_string()).message(), "Only http/https allowed, got 'ftp'");
    assert_eq!(NetworkError::MissingDomain.message(), "Missing domain");
    assert_eq!(NetworkError::MissingHostname.message(), "Missing hostname");
    assert_eq!(
        NetworkError::UnresolvableHostname("nowhere.invalid".to_string()).message(),
        "Cannot resolve hostname: nowhere.invalid"
    );
    assert_eq!(
        NetworkError::PrivateAddress("localhost".to_string(), v4(127, 0, 0, 1)).message(),
        "Blocked: localhost resolves to private/internal address 127.0.0.1"
    );
    assert_eq!(
        NetworkError::PrivateAddress("[::1]".to_string(), v6([0, 0, 0, 0, 0, 0, 0, 1])).message(),
        "Blocked: [::1] resolves to private/internal address ::1"
    );
}

#[test]
fn addresses_are_written_canonically() {
    assert_eq!(ip_text(&v4(192, 168, 0, 10)), "192.168.0.10");
    assert_eq!(ip_text(&v6([0; 8])), "::");
    assert_eq!(ip_text(&v6([0xfe80, 0, 0, 0, 0, 0, 0, 1])), "fe80::1");
    assert_eq!(ip_text(&v6([0xfd00, 0xab, 0, 0, 1, 0, 0, 0])), "fd00:ab:0:0:1::");
    assert_eq!(ip_text(&v6([1, 0, 2, 0, 3, 0, 4, 0])), "1:0:2:0:3:0:4:0");
    assert_eq!(ip_text(&v6([0x2001, 0xdb8, 0, 0, 1, 0, 0, 1])), "2001:db8::1:0:0:1");
    assert_eq!(ip_text(&v6([0, 0, 0, 0, 0, 0xffff, 0x0a00, 0x0001])), "::ffff:10.0.0.1");
}

#[test]
fn white_space_is_the_unicode_property() {
    assert!(is_blank(" \t\n\r\u{0b}\u{0c}\u{85}\u{a0}\u{1680}\u{2000}\u{200a}\u{2028}\u{2029}\u{202f}\u{205f}\u{3000}"));
    assert!(!is_blank("\u{200b}"));
    assert!(!is_blank("\u{180e}"));
    assert!(is_blank(""));
    let t: String = trim_chars(&"\u{3000} a b\u{a0}".chars().collect()).into_iter().collect();
    assert_eq!(t, "a b");
    let mut code: u32 = 0;
    while code <= 0x10ffff {
        if let Some(c) = char::from_u32(code) {
            assert_eq!(is_blank(&c.to_string()), c.is_whitespace(), "U+{:04X}", code);
        }
        code += if code < 0x3100 { 1 } else { 97 };
    }
}

