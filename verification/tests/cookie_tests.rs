use cloaked_req::cookie::{extract_cookie_domain, is_cookie_domain_safe};

#[test]
fn extract_cookie_domain_parses_correctly() {
    assert_eq!(
        extract_cookie_domain(b"session=abc; Domain=.example.com; Path=/"),
        Some(b".example.com".to_vec())
    );
    assert_eq!(extract_cookie_domain(b"session=abc; Path=/"), None);
    assert_eq!(
        extract_cookie_domain(b"session=abc; path=/; domain=test.com; secure"),
        Some(b"test.com".to_vec())
    );
}

#[test]
fn psl_rejects_public_suffix_domain() {
    assert!(!is_cookie_domain_safe(b"evil=1; Domain=com", "example.com"));
    assert!(!is_cookie_domain_safe(b"evil=1; Domain=co.uk", "example.com"));
}

#[test]
fn psl_rejects_cross_origin_domain() {
    assert!(!is_cookie_domain_safe(b"x=1; Domain=other.com", "evil.com"));
}

#[test]
fn psl_accepts_valid_parent_domain() {
    assert!(is_cookie_domain_safe(b"x=1; Domain=example.com", "sub.example.com"));
}

#[test]
fn psl_accepts_exact_host_domain() {
    assert!(is_cookie_domain_safe(b"x=1; Domain=example.com", "example.com"));
}

#[test]
fn psl_accepts_host_only_cookie() {
    assert!(is_cookie_domain_safe(b"session=abc; Path=/", "example.com"));
}

#[test]
fn psl_rejects_non_label_boundary_match() {
    assert!(!is_cookie_domain_safe(b"x=1; Domain=example.com", "notexample.com"));
}

#[test]
fn psl_rejects_non_utf8_header() {
    assert!(!is_cookie_domain_safe(&[0xff, 0xfe], "example.com"));
}

#[test]
fn domain_attribute_is_case_insensitive_and_lowercased() {
    assert!(is_cookie_domain_safe(b"x=1; DOMAIN=EXAMPLE.com", "sub.example.com"));
}

#[test]
fn leading_dot_is_stripped_before_matching() {
    assert!(is_cookie_domain_safe(b"x=1; Domain=.example.com", "sub.example.com"));
}

#[test]
fn empty_domain_value_is_treated_as_host_only() {
    // "Domain=" with no value does not parse as a Domain attribute.
    assert_eq!(extract_cookie_domain(b"a=1; Domain="), None);
    assert!(is_cookie_domain_safe(b"a=1; Domain=", "example.com"));
}
