use cors::rules::{cors_rule_matches, wildcard_match, CorsRule};

fn cors_rule(allow_origins: &[&str], allow_methods: &[&str], allow_headers: &[&str]) -> CorsRule {
    CorsRule {
        id: None,
        max_age_seconds: None,
        allow_origins: allow_origins.iter().map(|s| s.to_string()).collect(),
        allow_methods: allow_methods.iter().map(|s| s.to_string()).collect(),
        allow_headers: allow_headers.iter().map(|s| s.to_string()).collect(),
        expose_headers: vec![],
    }
}

#[test]
fn matches_when_origin_method_and_headers_are_explicitly_allowed() {
    let rule = cors_rule(
        &["https://app.example.test"],
        &["GET", "PUT"],
        &["content-type", "x-custom"],
    );
    let headers = vec!["content-type", "x-custom"];

    assert!(cors_rule_matches(
        &rule,
        "https://app.example.test",
        "PUT",
        &headers,
    ));
}

#[test]
fn does_not_match_when_origin_is_not_allowed() {
    let rule = cors_rule(&["https://app.example.test"], &["GET"], &["*"]);

    assert!(!cors_rule_matches(
        &rule,
        "https://evil.example.test",
        "GET",
        &[],
    ));
}

#[test]
fn does_not_match_when_method_is_not_allowed() {
    let rule = cors_rule(&["*"], &["GET"], &["*"]);

    assert!(!cors_rule_matches(
        &rule,
        "https://app.example.test",
        "DELETE",
        &[],
    ));
}

#[test]
fn does_not_match_when_a_requested_header_is_not_allowed() {
    let rule = cors_rule(&["*"], &["GET"], &["content-type"]);
    let headers = vec!["content-type", "x-not-allowed"];

    assert!(!cors_rule_matches(
        &rule,
        "https://app.example.test",
        "GET",
        &headers,
    ));
}

#[test]
fn wildcard_origin_method_and_headers_match_anything() {
    let rule = cors_rule(&["*"], &["*"], &["*"]);
    let headers = vec!["x-anything"];

    assert!(cors_rule_matches(
        &rule,
        "https://app.example.test",
        "DELETE",
        &headers,
    ));
}

#[test]
fn wildcard_origin_regex() {
    let rule = cors_rule(&["https://*.localhost.com"], &["*"], &["*"]);
    let headers = vec!["x-anything"];

    assert!(cors_rule_matches(
        &rule,
        "https://s3.localhost.com",
        "DELETE",
        &headers,
    ));
}

#[test]
fn origin_matching_cases() {
    // (allow_origins, origin, expect_match)
    let cases: &[(&[&str], &str, bool)] = &[
        // exact match
        (
            &["https://app.example.test"],
            "https://app.example.test",
            true,
        ),
        (
            &["https://app.example.test"],
            "https://other.example.test",
            false,
        ),
        // full wildcard
        (&["*"], "https://anything.example.test", true),
        // subdomain glob
        (
            &["https://*.example.test"],
            "https://foo.example.test",
            true,
        ),
        (&["https://*.example.test"], "https://example.test", false),
        (
            &["https://*.example.test"],
            "http://foo.example.test",
            false,
        ),
        // multiple allowed origins, at least one should match
        (
            &["https://a.example.test", "https://b.example.test"],
            "https://b.example.test",
            true,
        ),
        // match multiple origins
        (
            &["https://a*.example.test", "https://ab*.example.test"],
            "https://abc.example.test",
            true,
        ),
        (
            &["https://a.example.test", "https://b.example.test"],
            "https://c.example.test",
            false,
        ),
        // at most one '*' in a pattern is allowed
        (&["https://*.example.*"], "https://a.example.test", false),
        // domain changed with wildcard
        (
            &["https://*example.test"],
            "https://garageexample.test",
            true,
        ),
        // trailing '*' matches any suffix, the empty one too
        (&["https://example.*"], "https://example.test", true),
        (&["https://*example.test"], "https://example.test", true),
        (&["https://example.*"], "https://example.", true),
    ];

    for (allow_origins, origin, expect_match) in cases {
        let rule = cors_rule(allow_origins, &["GET"], &["*"]);
        let got = cors_rule_matches(&rule, origin, "GET", &[]);
        assert_eq!(
            got, *expect_match,
            "allow_origins={allow_origins:?}, origin={origin:?}: expected match={expect_match}, got {got}"
        );
    }
}

#[test]
fn header_matching_cases() {
    // (allow_headers, requested_headers, expect_match)
    let cases: &[(&[&str], &[&str], bool)] = &[
        // exact match
        (&["content-type"], &["content-type"], true),
        (&["content-type"], &["x-custom"], false),
        // full wildcard
        (&["*"], &["x-anything"], true),
        // no headers requested always matches, regardless of allow_headers
        (&["content-type"], &[], true),
        (&[], &[], true),
        // prefix glob
        (&["x-amz-*"], &["x-amz-meta-foo"], true),
        (&["x-amz-*"], &["x-amz-"], true),
        (&["x-amz-*"], &["x-other"], false),
        // suffix glob
        (&["*-meta"], &["foo-meta"], true),
        (&["*-meta"], &["-meta"], true),
        (&["*-meta"], &["foo-meta-bar"], false),
        // multiple allowed headers, at least one should match per requested header
        (
            &["content-type", "x-amz-*"],
            &["content-type", "x-amz-meta-foo"],
            true,
        ),
        (&["content-type", "x-amz-*"], &["x-other"], false),
        // all requested headers must be covered
        (&["content-type"], &["content-type", "x-custom"], false),
        // at most one '*' in a pattern is allowed
        (&["x-*-*"], &["x-a-b"], false),
    ];

    for (allow_headers, requested_headers, expect_match) in cases {
        let rule = cors_rule(&["*"], &["GET"], allow_headers);
        let got = cors_rule_matches(&rule, "https://app.example.test", "GET", requested_headers);
        assert_eq!(
            got, *expect_match,
            "allow_headers={allow_headers:?}, requested_headers={requested_headers:?}: expected match={expect_match}, got {got}"
        );
    }
}

#[test]
fn patterns_and_candidates() {
    let cases: &[(&str, &str, bool)] = &[
        ("", "", true),
        ("", "a", false),
        ("*", "", true),
        ("*", "anything at all", true),
        ("**", "anything", false),
        ("**", "", false),
        ("a*", "a", true),
        ("a*", "ba", false),
        ("*a", "ba", true),
        ("*a", "ab", false),
        ("ab*yz", "ab--yz", true),
        ("ab*yz", "abyz", true),
        ("ab*yz", "ab-y", false),
        // the part before the star and the part after it may overlap
        ("ab*bc", "abc", true),
        ("aa*aa", "aaa", true),
        ("aa*aa", "a", false),
        // characters of several bytes
        ("caf\u{e9}*\u{672c}", "caf\u{e9}-\u{65e5}\u{672c}", true),
        ("\u{e9}*", "\u{e8}", false),
        ("*\u{e9}", "\u{e8}", false),
        ("caf\u{e9}", "caf\u{e9}", true),
        ("caf\u{e9}", "caf\u{e8}", false),
        // letters are compared as they stand
        ("Content-Type", "content-type", false),
    ];
    for (pattern, candidate, expected) in cases {
        assert_eq!(
            wildcard_match(&pattern.to_string(), candidate),
            *expected,
            "{pattern:?} on {candidate:?}"
        );
    }
}

#[test]
fn a_method_is_matched_by_its_name_or_by_a_lone_star() {
    let rule = cors_rule(&["*"], &["PU*", "get"], &["*"]);
    assert!(!cors_rule_matches(&rule, "o", "PUT", &[]));
    assert!(!cors_rule_matches(&rule, "o", "GET", &[]));
    assert!(cors_rule_matches(&rule, "o", "get", &[]));
    assert!(cors_rule_matches(&rule, "o", "PU*", &[]));
}

#[test]
fn empty_lists_allow_nothing() {
    assert!(!cors_rule_matches(&cors_rule(&[], &["*"], &["*"]), "o", "GET", &[]));
    assert!(!cors_rule_matches(&cors_rule(&["*"], &[], &["*"]), "o", "GET", &[]));
    assert!(!cors_rule_matches(&cors_rule(&["*"], &["*"], &[]), "o", "GET", &["h"]));
}

#[test]
fn longer_lists_keep_what_was_allowed() {
    let short = cors_rule(&["https://a"], &["GET"], &["x-a"]);
    let long = cors_rule(&["https://b", "https://a"], &["PUT", "GET"], &["x-b", "x-a"]);
    assert!(cors_rule_matches(&short, "https://a", "GET", &["x-a", "x-a"]));
    assert!(cors_rule_matches(&long, "https://a", "GET", &["x-a", "x-a"]));
    assert!(cors_rule_matches(&long, "https://b", "PUT", &["x-a", "x-b"]));
    assert!(!cors_rule_matches(&short, "https://b", "PUT", &["x-a", "x-b"]));
}
