use dns_lib::domain::error::TryFromError;
use dns_lib::domain::name::{bytes_are_label, bytes_are_ldh_str, parse_label, Domain};

#[test]
fn bytes_are_ldh_str_works_correctly() {
    let cases: &[(&[u8], bool)] = &[
        (b"a", true),
        (b"foo", true),
        (b"mercedes-benz", true),
        (b"420", true),
        (b"4a", true),
        (b"-a", true),
        (b"-", true),
        (b"bar-", true),
        (b"", true),
        (b"under_score", false),
        (b"space here", false),
    ];
    for (input, expected) in cases {
        assert_eq!(bytes_are_ldh_str(input), *expected);
    }
}

#[test]
fn bytes_are_label_works_correctly() {
    let cases: &[(&[u8], bool)] = &[
        (b"a", true),
        (b"a4", true),
        (b"foo", true),
        (b"mercedes-benz", true),
        (b"live-365", true),
        (b"d111111abcdef8", true),
        (b"420", false),
        (b"4a", false),
        (b"-", false),
        (b"a-", false),
        (b"ab-", false),
        (b"-a", false),
        (b"bar-", false),
        (b"", false),
        (
            b"a-label-that-is-exactly-sixty-three-characters-long-as-per-spec",
            true,
        ),
        (
            b"a-label-that-exceeds-the-allowed-limit-of-sixty-three-characters",
            false,
        ),
    ];
    for (input, expected) in cases {
        assert_eq!(bytes_are_label(input), *expected);
    }
}

#[test]
fn is_label_length_boundaries() {
    // Length 0 and length 64 are rejected; length 63 with valid boundary
    // characters is accepted.
    assert!(!bytes_are_label(b""));
    let l63 = [b'a'; 63];
    assert!(bytes_are_label(&l63));
    let l64 = [b'a'; 64];
    assert!(!bytes_are_label(&l64));
}

#[test]
fn parse_label_succeeds() {
    let cases: &[&str] = &[
        "a",
        "a4",
        "foo",
        "mercedes-benz",
        "live-365",
        "d111111abcdef8",
        "a-label-that-is-exactly-sixty-three-characters-long-as-per-spec",
    ];
    for input in cases {
        let result = parse_label(input.as_bytes());
        assert!(result.is_ok());
        assert_eq!(result.unwrap(), *input);
    }
}

#[test]
fn parse_label_fails_with_invalid_format() {
    let cases: &[&str] = &["420", "4a", "-", "a-", "ab-", "-a", "bar-"];
    for input in cases {
        let result = parse_label(input.as_bytes());
        assert_eq!(
            result.unwrap_err(),
            TryFromError::LabelInvalidFormat(input.to_string())
        );
    }
}

#[test]
fn parse_label_fails_empty() {
    assert_eq!(parse_label(b"").unwrap_err(), TryFromError::LabelEmpty);
}

#[test]
fn parse_label_fails_too_long() {
    let text = "a-label-that-exceeds-the-allowed-limit-of-sixty-three-characters";
    assert_eq!(
        parse_label(text.as_bytes()).unwrap_err(),
        TryFromError::LabelTooLong(text.to_string())
    );
}

#[test]
fn parse_label_boundary_sixty_three_parses_one_more_fails() {
    let l63 = "a".repeat(63);
    assert_eq!(parse_label(l63.as_bytes()).unwrap(), l63);
    let l64 = "a".repeat(64);
    assert_eq!(
        parse_label(l64.as_bytes()).unwrap_err(),
        TryFromError::LabelTooLong(l64.clone())
    );
}

#[test]
fn parse_label_fails_invalid_encoding() {
    let bad: &[u8] = &[0xff, 0xfe];
    assert!(matches!(
        parse_label(bad).unwrap_err(),
        TryFromError::LabelInvalidEncoding(_)
    ));
}

#[test]
fn domain_try_from_byte_slice_succeeds() {
    let cases: &[&str] = &[
        "a",
        "example",
        "example.com",
        "mercedes-benz.de",
        "live-365",
        "live-365.com",
        "d111111abcdef8.cloudfront.net",
    ];
    for input in cases {
        let result = Domain::try_from(input.as_bytes());
        assert!(result.is_ok());
        assert_eq!(result.unwrap().to_string(), *input);
    }
}

#[test]
fn domain_try_from_string_succeeds() {
    let cases: &[&str] = &[
        "a",
        "example",
        "example.com",
        "mercedes-benz.de",
        "live-365",
        "live-365.com",
        "d111111abcdef8.cloudfront.net",
    ];
    for input in cases {
        let from_string = Domain::try_from_string(input.to_string());
        let from_bytes = Domain::try_from(input.as_bytes());
        assert!(from_string.is_ok());
        assert_eq!(from_string.unwrap(), from_bytes.unwrap());
    }
}

#[test]
fn domain_try_from_string_fails() {
    let cases: &[(&str, TryFromError)] = &[
        ("-.com", TryFromError::LabelInvalidFormat("-".to_string())),
        (
            "s\u{fc}bway.com",
            TryFromError::LabelInvalidFormat("s\u{fc}bway".to_string()),
        ),
        ("", TryFromError::DomainEmpty),
        (
            "a-label-that-exceeds-the-allowed-limit-of-sixty-three-characters.yahoo.com",
            TryFromError::LabelTooLong(
                "a-label-that-exceeds-the-allowed-limit-of-sixty-three-characters".to_string(),
            ),
        ),
        ("cdn..com", TryFromError::LabelEmpty),
        (".leading", TryFromError::LabelEmpty),
        ("trailing.", TryFromError::LabelEmpty),
    ];
    for (input, expected) in cases {
        let result = Domain::try_from_string(input.to_string());
        assert_eq!(result.unwrap_err(), *expected);
    }
}

#[test]
fn domain_render_round_trip() {
    // Round-trip law on concrete values: parse then render restores the
    // input, for single labels and dotted names alike.
    let cases: &[&str] = &[
        "example",
        "mercedes-benz.de",
        "live-365",
        "live-365.com",
        "d111111abcdef8.cloudfront.net",
        "a.b.c.d.e.f",
    ];
    for input in cases {
        let result = Domain::try_from_string(input.to_string());
        assert!(result.is_ok());
        assert_eq!(result.unwrap().to_string(), *input);
    }
}

#[test]
fn domain_incremental_construction() {
    let mut d = Domain::new();
    assert!(d.add_label(b"www").is_ok());
    assert!(d.add_label(b"example").is_ok());
    assert!(d.add_label(b"com").is_ok());
    assert_eq!(d.to_string(), "www.example.com");
}

#[test]
fn domain_add_label_failure_leaves_domain_unchanged() {
    let mut d = Domain::new();
    assert!(d.add_label(b"www").is_ok());
    assert_eq!(
        d.add_label(b"4bad").unwrap_err(),
        TryFromError::LabelInvalidFormat("4bad".to_string())
    );
    assert_eq!(d.to_string(), "www");
}
