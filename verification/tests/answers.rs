use std::cell::Cell;

use cors::error::{CommonError, InvalidValue};
use cors::grant::{add_cors_headers, try_add_cors_headers};
use cors::message::{Request, Response};
use cors::preflight::{
    find_matching_cors_rule, handle_options_api, handle_options_for_bucket,
    handle_options_resolved,
};
use cors::rules::{BucketParams, CorsRule};
use http::header::{
    ACCESS_CONTROL_ALLOW_HEADERS, ACCESS_CONTROL_ALLOW_METHODS, ACCESS_CONTROL_ALLOW_ORIGIN,
    ACCESS_CONTROL_EXPOSE_HEADERS, ACCESS_CONTROL_REQUEST_HEADERS, ACCESS_CONTROL_REQUEST_METHOD,
    CONTENT_TYPE, ORIGIN, VARY,
};
use http::{HeaderMap, HeaderName, HeaderValue};

const FULL_VARY: &str = "Origin, Access-Control-Request-Method, Access-Control-Request-Headers";

fn strings(list: &[&str]) -> Vec<String> {
    list.iter().map(|s| s.to_string()).collect()
}

fn rule(origins: &[&str], methods: &[&str], headers: &[&str], exposed: &[&str]) -> CorsRule {
    CorsRule {
        id: None,
        max_age_seconds: Some(60),
        allow_origins: strings(origins),
        allow_methods: strings(methods),
        allow_headers: strings(headers),
        expose_headers: strings(exposed),
    }
}

fn bucket_params_with_rule(allow_origins: Vec<&str>) -> BucketParams {
    BucketParams {
        cors_config: Some(vec![CorsRule {
            id: Some("cors-test".into()),
            max_age_seconds: None,
            allow_origins: allow_origins.into_iter().map(str::to_string).collect(),
            allow_methods: vec!["GET".into(), "PUT".into()],
            allow_headers: vec!["*".into()],
            expose_headers: vec![],
        }]),
    }
}

fn preflight_headers(origin: &str) -> HeaderMap {
    let mut headers = HeaderMap::new();
    headers.insert("Origin", origin.parse().unwrap());
    headers.insert(ACCESS_CONTROL_REQUEST_METHOD, "PUT".parse().unwrap());
    headers
}

fn preflight(headers: &HeaderMap) -> Request<'_> {
    Request {
        method: "OPTIONS",
        headers,
    }
}

fn values(headers: &HeaderMap, name: HeaderName) -> Vec<&str> {
    headers
        .get_all(name)
        .iter()
        .map(|value| value.to_str().unwrap())
        .collect()
}

#[test]
fn preflight_with_single_allowed_origin_returns_request_origin() {
    let bucket_params = bucket_params_with_rule(vec!["https://app.example.test"]);
    let headers = preflight_headers("https://app.example.test");

    let resp = handle_options_for_bucket(&preflight(&headers), &bucket_params).unwrap();

    assert_eq!(
        resp.headers.get(ACCESS_CONTROL_ALLOW_ORIGIN).unwrap(),
        "https://app.example.test"
    );
    let vary_values: Vec<_> = resp
        .headers
        .get_all(VARY)
        .iter()
        .map(|value| value.to_str().unwrap())
        .collect();
    assert_eq!(
        vary_values,
        vec!["Origin, Access-Control-Request-Method, Access-Control-Request-Headers",]
    );
}

#[test]
fn preflight_with_multiple_allowed_origins_reflects_request_origin() {
    let bucket_params = bucket_params_with_rule(vec![
        "https://app.example.test",
        "https://admin.example.test",
    ]);
    let headers = preflight_headers("https://app.example.test");

    let resp = handle_options_for_bucket(&preflight(&headers), &bucket_params).unwrap();

    // Browsers expect the request origin, even where several origins are allowed, and not a
    // comma-separated list.
    assert_eq!(
        resp.headers.get(ACCESS_CONTROL_ALLOW_ORIGIN).unwrap(),
        "https://app.example.test"
    );
}

#[test]
fn preflight_with_wildcard_allowed_origin_returns_wildcard() {
    let bucket_params = bucket_params_with_rule(vec!["*"]);
    let headers = preflight_headers("https://app.example.test");

    let resp = handle_options_for_bucket(&preflight(&headers), &bucket_params).unwrap();

    assert_eq!(
        resp.headers.get(ACCESS_CONTROL_ALLOW_ORIGIN).unwrap(),
        "*"
    );
    let vary_values: Vec<_> = resp
        .headers
        .get_all(VARY)
        .iter()
        .map(|value| value.to_str().unwrap())
        .collect();
    assert_eq!(
        vary_values,
        vec!["Origin, Access-Control-Request-Method, Access-Control-Request-Headers",]
    );
}

#[test]
fn a_preflight_response_has_five_headers() {
    let params = BucketParams {
        cors_config: Some(vec![rule(
            &["https://*.test"],
            &["GET", "PUT"],
            &["x-a", "x-b*", "x-c"],
            &["etag", "x-d"],
        )]),
    };
    let mut headers = preflight_headers("https://a.test");
    headers.insert(
        ACCESS_CONTROL_REQUEST_HEADERS,
        HeaderValue::from_static("x-a,\tx-b-long , x-c"),
    );
    let resp = handle_options_for_bucket(&preflight(&headers), &params).unwrap();
    assert_eq!(resp.status, 200);
    assert_eq!(resp.headers.len(), 5);
    assert_eq!(values(&resp.headers, ACCESS_CONTROL_ALLOW_ORIGIN), ["https://a.test"]);
    assert_eq!(values(&resp.headers, ACCESS_CONTROL_ALLOW_METHODS), ["GET, PUT"]);
    assert_eq!(values(&resp.headers, ACCESS_CONTROL_ALLOW_HEADERS), ["x-a, x-b*, x-c"]);
    assert_eq!(values(&resp.headers, ACCESS_CONTROL_EXPOSE_HEADERS), ["etag, x-d"]);
    assert_eq!(values(&resp.headers, VARY), [FULL_VARY]);
}

#[test]
fn a_preflight_request_needs_an_origin_and_a_method() {
    let params = bucket_params_with_rule(vec!["*"]);
    let mut headers = preflight_headers("https://a.test");
    headers.remove(ORIGIN);
    assert_eq!(
        handle_options_for_bucket(&preflight(&headers), &params).unwrap_err(),
        CommonError::BadRequest("Missing Origin header".to_string())
    );
    let mut headers = preflight_headers("https://a.test");
    headers.remove(ACCESS_CONTROL_REQUEST_METHOD);
    assert_eq!(
        handle_options_for_bucket(&preflight(&headers), &params).unwrap_err(),
        CommonError::BadRequest("Missing Access-Control-Request-Method header".to_string())
    );
}

#[test]
fn unreadable_headers_are_invalid() {
    let params = bucket_params_with_rule(vec!["*"]);
    let opaque = HeaderValue::from_bytes(b"caf\xe9").unwrap();
    for name in [
        ORIGIN,
        ACCESS_CONTROL_REQUEST_METHOD,
        ACCESS_CONTROL_REQUEST_HEADERS,
    ] {
        let mut headers = preflight_headers("https://a.test");
        headers.insert(name, opaque.clone());
        assert_eq!(
            handle_options_for_bucket(&preflight(&headers), &params).unwrap_err(),
            CommonError::InvalidHeader
        );
    }
    for name in [ORIGIN, ACCESS_CONTROL_REQUEST_HEADERS] {
        let mut headers = preflight_headers("https://a.test");
        headers.insert(name, opaque.clone());
        assert_eq!(
            find_matching_cors_rule(&params, &preflight(&headers)),
            Err(CommonError::InvalidHeader)
        );
        // without a configuration no header is looked at
        let none = BucketParams { cors_config: None };
        assert_eq!(find_matching_cors_rule(&none, &preflight(&headers)), Ok(None));
    }
}

#[test]
fn preflight_requests_that_no_rule_allows_are_forbidden() {
    let refusal = CommonError::Forbidden("This CORS request is not allowed.".to_string());
    let headers = preflight_headers("https://a.test");
    for cors_config in [
        None,
        Some(vec![]),
        Some(vec![rule(&["https://b.test"], &["*"], &["*"], &[])]),
        Some(vec![rule(&["*"], &["GET"], &["*"], &[])]),
    ] {
        let params = BucketParams { cors_config };
        assert_eq!(
            handle_options_for_bucket(&preflight(&headers), &params).unwrap_err(),
            refusal
        );
    }
    // An empty list of headers is a list of one header without a name.
    let mut headers = preflight_headers("https://a.test");
    headers.insert(ACCESS_CONTROL_REQUEST_HEADERS, HeaderValue::from_static(""));
    let params = BucketParams {
        cors_config: Some(vec![rule(&["*"], &["*"], &["x-a"], &[])]),
    };
    assert_eq!(
        handle_options_for_bucket(&preflight(&headers), &params).unwrap_err(),
        refusal
    );
    assert!(
        handle_options_for_bucket(&preflight(&headers), &bucket_params_with_rule(vec!["*"]))
            .is_ok()
    );
}

#[test]
fn lists_that_cannot_be_header_values_are_a_server_fault() {
    let headers = preflight_headers("https://a.test");
    for bad in [
        rule(&["*"], &["PUT", "G\nT"], &["*"], &[]),
        rule(&["*"], &["PUT"], &["x\r"], &[]),
        rule(&["*"], &["PUT"], &["x"], &["\u{7f}"]),
    ] {
        let params = BucketParams {
            cors_config: Some(vec![bad]),
        };
        assert_eq!(
            handle_options_for_bucket(&preflight(&headers), &params).unwrap_err(),
            CommonError::InternalError("Invalid CORS configuration".to_string())
        );
    }
}

#[test]
fn the_first_matching_rule_decides() {
    let params = BucketParams {
        cors_config: Some(vec![
            rule(&["https://b.test"], &["*"], &["*"], &[]),
            rule(&["https://*"], &["GET"], &["x-a"], &[]),
            rule(&["*"], &["*"], &["*"], &[]),
        ]),
    };
    let rules = params.cors_config.as_ref().unwrap();
    let mut headers = HeaderMap::new();
    assert_eq!(
        find_matching_cors_rule(&params, &Request { method: "GET", headers: &headers }),
        Ok(None)
    );
    headers.insert(ORIGIN, HeaderValue::from_static("https://a.test"));
    headers.append(ORIGIN, HeaderValue::from_static("https://b.test"));
    let found = |method: &'static str, headers: &HeaderMap| -> Option<usize> {
        let req = Request { method, headers };
        let (rule, origin) = find_matching_cors_rule(&params, &req).unwrap()?;
        assert_eq!(origin, "https://a.test");
        rules.iter().position(|r| std::ptr::eq(r, rule))
    };
    assert_eq!(found("GET", &headers), Some(1));
    assert_eq!(found("PUT", &headers), Some(2));
    headers.insert(ACCESS_CONTROL_REQUEST_HEADERS, HeaderValue::from_static("x-b"));
    assert_eq!(found("GET", &headers), Some(2));
    headers.insert(ACCESS_CONTROL_REQUEST_HEADERS, HeaderValue::from_static(" x-a "));
    assert_eq!(found("GET", &headers), Some(1));
}

#[test]
fn a_preflight_and_its_request_come_under_the_same_rule() {
    let params = BucketParams {
        cors_config: Some(vec![
            rule(&["https://a.test"], &["GET"], &["*"], &["x-get"]),
            rule(&["https://a.test"], &["PUT"], &["*"], &["x-put"]),
        ]),
    };
    let headers = preflight_headers("https://a.test");
    let answer = handle_options_for_bucket(&preflight(&headers), &params).unwrap();
    let (rule, origin) = find_matching_cors_rule(
        &params,
        &Request { method: "PUT", headers: &headers },
    )
    .unwrap()
    .unwrap();
    let mut resp = Response { status: 200, headers: HeaderMap::new() };
    add_cors_headers(&mut resp, rule, origin).unwrap();
    resp.headers.insert(VARY, HeaderValue::from_static(FULL_VARY));
    assert_eq!(answer.headers, resp.headers);
    assert_eq!(values(&resp.headers, ACCESS_CONTROL_EXPOSE_HEADERS), ["x-put"]);
}

#[test]
fn the_answer_depends_on_three_headers_only() {
    let params = bucket_params_with_rule(vec!["https://a.test"]);
    let headers = preflight_headers("https://a.test");
    let mut more = headers.clone();
    more.insert(CONTENT_TYPE, HeaderValue::from_static("text/plain"));
    let one = handle_options_for_bucket(&preflight(&headers), &params).unwrap();
    let two = handle_options_for_bucket(
        &Request { method: "GET", headers: &more },
        &params,
    )
    .unwrap();
    assert_eq!(one.status, two.status);
    assert_eq!(one.headers, two.headers);
}

#[test]
fn headers_are_added_to_a_response() {
    let granted = rule(&["https://*.test"], &["GET"], &["x-a", "x-b"], &[]);
    let mut resp = Response { status: 206, headers: HeaderMap::new() };
    resp.headers.insert(CONTENT_TYPE, HeaderValue::from_static("text/plain"));
    resp.headers.append(VARY, HeaderValue::from_static("Accept"));
    resp.headers.append(VARY, HeaderValue::from_static("Cookie"));
    assert_eq!(add_cors_headers(&mut resp, &granted, "https://a.test"), Ok(()));
    assert_eq!(resp.status, 206);
    assert_eq!(resp.headers.len(), 6);
    assert_eq!(values(&resp.headers, CONTENT_TYPE), ["text/plain"]);
    assert_eq!(values(&resp.headers, VARY), ["Origin"]);
    assert_eq!(values(&resp.headers, ACCESS_CONTROL_ALLOW_ORIGIN), ["https://a.test"]);
    assert_eq!(values(&resp.headers, ACCESS_CONTROL_ALLOW_METHODS), ["GET"]);
    assert_eq!(values(&resp.headers, ACCESS_CONTROL_ALLOW_HEADERS), ["x-a, x-b"]);
    assert_eq!(values(&resp.headers, ACCESS_CONTROL_EXPOSE_HEADERS), [""]);
    // granting again changes nothing
    let before = resp.headers.clone();
    assert_eq!(add_cors_headers(&mut resp, &granted, "https://a.test"), Ok(()));
    assert_eq!(resp.headers, before);
}

#[test]
fn a_rule_for_all_origins_leaves_vary_alone() {
    let granted = rule(&["https://a.test", "*"], &["*"], &["*"], &["*"]);
    let mut one = Response { status: 200, headers: HeaderMap::new() };
    one.headers.insert(VARY, HeaderValue::from_static("Accept"));
    let mut two = Response { status: 200, headers: one.headers.clone() };
    assert_eq!(add_cors_headers(&mut one, &granted, "https://a.test"), Ok(()));
    assert_eq!(values(&one.headers, ACCESS_CONTROL_ALLOW_ORIGIN), ["*"]);
    assert_eq!(values(&one.headers, VARY), ["Accept"]);
    // the origin makes no difference, not even one that cannot be a header value
    assert_eq!(add_cors_headers(&mut two, &granted, "\n"), Ok(()));
    assert_eq!(one.headers, two.headers);
}

#[test]
fn headers_before_an_invalid_one_stay_set() {
    let with = |methods: &[&str], headers: &[&str], exposed: &[&str], origin: &str| {
        let mut resp = Response { status: 200, headers: HeaderMap::new() };
        let granted = rule(&["https://a.test"], methods, headers, exposed);
        assert_eq!(add_cors_headers(&mut resp, &granted, origin), Err(InvalidValue));
        let mut names: Vec<String> = resp.headers.keys().map(|n| n.to_string()).collect();
        names.sort();
        names
    };
    assert!(with(&["GET"], &["*"], &["*"], "a\u{0}b").is_empty());
    assert_eq!(
        with(&["\n"], &["*"], &["*"], "https://a.test"),
        ["access-control-allow-origin"]
    );
    assert_eq!(
        with(&["GET"], &["\n"], &["*"], "https://a.test"),
        ["access-control-allow-methods", "access-control-allow-origin"]
    );
    assert_eq!(
        with(&["GET"], &["*"], &["\n"], "https://a.test"),
        [
            "access-control-allow-headers",
            "access-control-allow-methods",
            "access-control-allow-origin"
        ]
    );
}

#[test]
fn characters_beyond_ascii_can_be_header_values() {
    let granted = rule(&["x"], &["\u{e9}\t"], &["*"], &["*"]);
    let mut resp = Response { status: 200, headers: HeaderMap::new() };
    assert_eq!(add_cors_headers(&mut resp, &granted, "caf\u{e9}"), Ok(()));
    let origin = resp.headers.get(ACCESS_CONTROL_ALLOW_ORIGIN).unwrap();
    assert_eq!(origin.as_bytes(), "caf\u{e9}".as_bytes());
    let methods = resp.headers.get(ACCESS_CONTROL_ALLOW_METHODS).unwrap();
    assert_eq!(methods.as_bytes(), "\u{e9}\t".as_bytes());
}

fn response_with_names(count: usize) -> Response {
    let mut headers = HeaderMap::new();
    for i in 0..count {
        let name: HeaderName = format!("x-{i}").parse().unwrap();
        headers.insert(name, HeaderValue::from_static("v"));
    }
    Response { status: 200, headers }
}

#[test]
fn a_response_with_all_names_but_one_of_the_limit_is_served_again() {
    let granted = rule(&["https://*"], &["GET"], &["*"], &[]);
    let mut resp = response_with_names(6548);
    assert_eq!(add_cors_headers(&mut resp, &granted, "https://a.test"), Ok(()));
    assert_eq!(resp.headers.len(), 6553);
    let before = resp.headers.clone();
    assert_eq!(add_cors_headers(&mut resp, &granted, "https://a.test"), Ok(()));
    assert_eq!(resp.headers, before);
}

#[test]
fn a_response_beyond_the_limit_is_served_while_it_can_grow() {
    let granted = rule(&["https://*"], &["GET"], &["*"], &[]);
    let mut resp = response_with_names(7000);
    for _ in 0..2 {
        assert_eq!(
            try_add_cors_headers(&mut resp, &granted, "https://a.test"),
            Some(Ok(()))
        );
        assert_eq!(resp.headers.len(), 7005);
        assert_eq!(values(&resp.headers, ACCESS_CONTROL_ALLOW_ORIGIN), ["https://a.test"]);
        assert_eq!(values(&resp.headers, VARY), ["Origin"]);
    }
}

#[test]
fn a_response_that_cannot_grow_keeps_what_was_set() {
    let granted = rule(&["*"], &["GET"], &["*"], &[]);
    // The greatest table has room for 24576 names.
    let mut full = response_with_names(24576);
    let before = full.headers.clone();
    assert_eq!(try_add_cors_headers(&mut full, &granted, "https://a.test"), None);
    assert_eq!(full.headers, before);
    let mut resp = response_with_names(24574);
    assert_eq!(try_add_cors_headers(&mut resp, &granted, "https://a.test"), None);
    assert_eq!(resp.headers.len(), 24576);
    assert_eq!(values(&resp.headers, ACCESS_CONTROL_ALLOW_ORIGIN), ["*"]);
    assert_eq!(values(&resp.headers, ACCESS_CONTROL_ALLOW_METHODS), ["GET"]);
    assert!(resp.headers.get(ACCESS_CONTROL_ALLOW_HEADERS).is_none());
    // A text that cannot be a header value stops it before the map is asked.
    let invalid = rule(&["*"], &["\n"], &["*"], &[]);
    let mut resp = response_with_names(24575);
    assert_eq!(
        try_add_cors_headers(&mut resp, &invalid, "https://a.test"),
        Some(Err(InvalidValue))
    );
    assert_eq!(resp.headers.len(), 24576);
}

#[test]
fn a_grant_depends_on_the_lists_and_the_star_of_a_rule() {
    let one = rule(&["https://a.test"], &["GET"], &["x-a"], &["x-b"]);
    let mut two = rule(&["https://b.test", "https://*"], &["GET"], &["x-a"], &["x-b"]);
    two.id = Some("two".to_string());
    two.max_age_seconds = None;
    let granted = |rule: &CorsRule, origin: &str| {
        let mut resp = Response { status: 200, headers: HeaderMap::new() };
        assert_eq!(add_cors_headers(&mut resp, rule, origin), Ok(()));
        resp.headers
    };
    assert_eq!(granted(&one, "https://a.test"), granted(&two, "https://a.test"));
    two.allow_origins.push("*".to_string());
    assert_ne!(granted(&one, "https://a.test"), granted(&two, "https://a.test"));
    assert_eq!(granted(&two, "https://a.test"), granted(&two, "https://b.test"));
}

#[test]
fn options_without_a_bucket_name_allow_listing_buckets() {
    let headers = HeaderMap::new();
    let called = Cell::new(false);
    let resp = handle_options_api(&preflight(&headers), None, |_| {
        called.set(true);
        Ok(None)
    })
    .unwrap();
    assert!(!called.get());
    assert_eq!(resp.status, 200);
    assert_eq!(resp.headers.len(), 2);
    assert_eq!(values(&resp.headers, ACCESS_CONTROL_ALLOW_ORIGIN), ["*"]);
    assert_eq!(values(&resp.headers, ACCESS_CONTROL_ALLOW_METHODS), ["GET"]);
}

#[test]
fn options_for_a_name_that_is_not_global_allow_everything() {
    let headers = HeaderMap::new();
    let resp = handle_options_api(&preflight(&headers), Some("local".to_string()), |name| {
        assert_eq!(name, "local");
        Ok(None)
    })
    .unwrap();
    assert_eq!(resp.status, 200);
    assert_eq!(resp.headers.len(), 3);
    assert_eq!(values(&resp.headers, ACCESS_CONTROL_ALLOW_ORIGIN), ["*"]);
    assert_eq!(values(&resp.headers, ACCESS_CONTROL_ALLOW_METHODS), ["*"]);
    assert_eq!(values(&resp.headers, ACCESS_CONTROL_ALLOW_HEADERS), ["*"]);
}

#[test]
fn options_for_a_global_name_follow_the_rules_of_the_bucket() {
    let headers = preflight_headers("https://a.test");
    let resp = handle_options_api(&preflight(&headers), Some("photos".to_string()), |_| {
        Ok(Some(bucket_params_with_rule(vec!["https://a.test"])))
    })
    .unwrap();
    assert_eq!(values(&resp.headers, ACCESS_CONTROL_ALLOW_ORIGIN), ["https://a.test"]);
    assert_eq!(values(&resp.headers, VARY), [FULL_VARY]);
    let refused = handle_options_resolved(
        &preflight(&headers),
        Ok(Some(bucket_params_with_rule(vec!["https://b.test"]))),
    );
    assert_eq!(
        refused.unwrap_err(),
        CommonError::Forbidden("This CORS request is not allowed.".to_string())
    );
}

#[test]
fn a_failed_lookup_is_reported() {
    let headers = preflight_headers("https://a.test");
    let failed = handle_options_api(&preflight(&headers), Some("photos".to_string()), |_| {
        Err(CommonError::InternalError("database is closed".to_string()))
    });
    assert_eq!(
        failed.unwrap_err(),
        CommonError::InternalError("database is closed".to_string())
    );
}
