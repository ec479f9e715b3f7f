//! Which rule is for a request, and the answers to preflight (`OPTIONS`) requests.
use crate::error::{CommonError, ErrorModel};
use crate::grant::{add_cors_headers, grant, lemma_fits, lemma_room_after, set_in_order};
use crate::headers::{header_fields, header_insert, is_field_name, lemma_names};
use crate::headers::{lemma_readable_text, lemma_room, read_header, reading, with_field};
use crate::headers::{Fields, Reading};
use crate::headers::{ACCESS_CONTROL_ALLOW_HEADERS, ACCESS_CONTROL_ALLOW_METHODS};
use crate::headers::{ACCESS_CONTROL_ALLOW_ORIGIN, ACCESS_CONTROL_REQUEST_HEADERS};
use crate::headers::{ACCESS_CONTROL_REQUEST_METHOD, ORIGIN, VARY};
use crate::message::{Request, RequestModel, Response, ResponseModel, OK};
use crate::rules::{first_match, first_matching_rule, rule_models, BucketParams, CorsRule, RuleModel};
use crate::text::{list_items, split_list, str_texts};
use http::{HeaderMap, HeaderValue};
use vstd::prelude::*;

verus! {

/// A preflight response depends on the origin, the method and the headers that were asked for,
/// so a cache must not give it to a request that differs in any of them.
pub const PREFLIGHT_VARY: &'static str =
    "Origin, Access-Control-Request-Method, Access-Control-Request-Headers";

/// The outcome of a request, as texts and bytes.
pub open spec fn outcome(result: Result<Response, CommonError>) -> Result<
    ResponseModel,
    ErrorModel,
> {
    match result {
        Ok(resp) => Ok(resp@),
        Err(e) => Err(e@),
    }
}

/// The headers that the request asks leave to send: the items of the list that it gives, or none
/// where it gives no list.
pub open spec fn requested_headers(fields: Fields) -> Result<Seq<Seq<char>>, ErrorModel> {
    match reading(fields, ACCESS_CONTROL_REQUEST_HEADERS@) {
        Reading::Missing => Ok(Seq::empty()),
        Reading::Unreadable => Err(ErrorModel::InvalidHeader),
        Reading::Text(text) => Ok(list_items(text)),
    }
}

/// The text of a header without which the request is malformed.
pub open spec fn required_header(fields: Fields, name: Seq<char>, complaint: Seq<char>) -> Result<
    Seq<char>,
    ErrorModel,
> {
    match reading(fields, name) {
        Reading::Missing => Err(ErrorModel::BadRequest(complaint)),
        Reading::Unreadable => Err(ErrorModel::InvalidHeader),
        Reading::Text(text) => Ok(text),
    }
}

/// The index of the rule that is for a request, with the request's origin. Without a CORS
/// configuration no header is looked at, and a request without an origin has no rule.
pub open spec fn matching_rule(config: Option<Seq<RuleModel>>, request: RequestModel) -> Result<
    Option<(int, Seq<char>)>,
    ErrorModel,
> {
    match config {
        None => Ok(None),
        Some(rules) => match reading(request.fields, ORIGIN@) {
            Reading::Missing => Ok(None),
            Reading::Unreadable => Err(ErrorModel::InvalidHeader),
            Reading::Text(origin) => match requested_headers(request.fields) {
                Err(e) => Err(e),
                Ok(headers) => match first_match(rules, origin, request.method, headers) {
                    None => Ok(None),
                    Some(at) => Ok(Some((at, origin))),
                },
            },
        },
    }
}

/// The answer to a preflight request from `origin` for `method` and `headers`.
pub open spec fn preflight_answer(
    config: Option<Seq<RuleModel>>,
    origin: Seq<char>,
    method: Seq<char>,
    headers: Seq<Seq<char>>,
) -> Result<ResponseModel, ErrorModel> {
    let refusal = Err(ErrorModel::Forbidden("This CORS request is not allowed."@));
    match config {
        None => refusal,
        Some(rules) => match first_match(rules, origin, method, headers) {
            None => refusal,
            Some(at) => {
                let (fields, complete) = set_in_order(Fields::empty(), grant(rules[at], origin));
                if complete {
                    Ok(
                        ResponseModel {
                            status: OK,
                            fields: with_field(fields, VARY@, PREFLIGHT_VARY@),
                        },
                    )
                } else {
                    Err(ErrorModel::InternalError("Invalid CORS configuration"@))
                }
            },
        },
    }
}

/// The outcome of a preflight request to a bucket.
pub open spec fn preflight(config: Option<Seq<RuleModel>>, request: RequestModel) -> Result<
    ResponseModel,
    ErrorModel,
> {
    match required_header(request.fields, ORIGIN@, "Missing Origin header"@) {
        Err(e) => Err(e),
        Ok(origin) => match required_header(
            request.fields,
            ACCESS_CONTROL_REQUEST_METHOD@,
            "Missing Access-Control-Request-Method header"@,
        ) {
            Err(e) => Err(e),
            Ok(method) => match requested_headers(request.fields) {
                Err(e) => Err(e),
                Ok(headers) => preflight_answer(config, origin, method, headers),
            },
        },
    }
}

/// The answer where no bucket is named: listing buckets is allowed to all origins.
pub open spec fn list_buckets_answer() -> ResponseModel {
    ResponseModel {
        status: OK,
        fields: with_field(
            with_field(Fields::empty(), ACCESS_CONTROL_ALLOW_ORIGIN@, "*"@),
            ACCESS_CONTROL_ALLOW_METHODS@,
            "GET"@,
        ),
    }
}

/// The answer where the bucket's name is not a global one: everything is allowed.
pub open spec fn permissive_answer() -> ResponseModel {
    ResponseModel {
        status: OK,
        fields: with_field(
            with_field(
                with_field(Fields::empty(), ACCESS_CONTROL_ALLOW_ORIGIN@, "*"@),
                ACCESS_CONTROL_ALLOW_METHODS@,
                "*"@,
            ),
            ACCESS_CONTROL_ALLOW_HEADERS@,
            "*"@,
        ),
    }
}

/// The outcome of an `OPTIONS` request that names a bucket, given what the name was found to
/// stand for.
pub open spec fn resolved_outcome(
    request: RequestModel,
    found: Result<Option<BucketParams>, CommonError>,
) -> Result<ResponseModel, ErrorModel> {
    match found {
        Err(e) => Err(e@),
        Ok(None) => Ok(permissive_answer()),
        Ok(Some(params)) => preflight(params@, request),
    }
}

/// Reads the list of headers that the request asks leave to send.
fn read_requested_headers<'a>(map: &'a HeaderMap<HeaderValue>) -> (result: Result<
    Vec<&'a str>,
    CommonError,
>)
    ensures
        match (result, requested_headers(header_fields(*map))) {
            (Ok(items), Ok(headers)) => str_texts(items@) == headers,
            (Err(e), Err(model)) => e@ == model,
            _ => false,
        },
{
    proof {
        lemma_names();
    }
    match read_header(map, ACCESS_CONTROL_REQUEST_HEADERS) {
        Err(e) => Err(e),
        Ok(None) => {
            let items: Vec<&'a str> = Vec::new();
            assert(str_texts(items@) =~= Seq::empty());
            Ok(items)
        },
        Ok(Some(text)) => Ok(split_list(text)),
    }
}

/// Reads a header without which the request is malformed.
fn read_required_header<'a>(
    map: &'a HeaderMap<HeaderValue>,
    name: &str,
    complaint: &str,
) -> (result: Result<&'a str, CommonError>)
    requires
        is_field_name(name@),
    ensures
        match (result, required_header(header_fields(*map), name@, complaint@)) {
            (Ok(text), Ok(model)) => text@ == model,
            (Err(e), Err(model)) => e@ == model,
            _ => false,
        },
{
    match read_header(map, name) {
        Err(e) => Err(e),
        Ok(None) => Err(CommonError::BadRequest(complaint.to_owned())),
        Ok(Some(text)) => Ok(text),
    }
}

/// Finds the rule that is for a request. The request's origin comes with it, so that who sets
/// the CORS headers need not read and check it again.
pub fn find_matching_cors_rule<'a>(bucket_params: &'a BucketParams, req: &Request<'a>) -> (result:
    Result<Option<(&'a CorsRule, &'a str)>, CommonError>)
    ensures
        match (result, matching_rule(bucket_params@, req@)) {
            (Ok(Some((rule, origin))), Ok(Some((at, text)))) => {
                &&& bucket_params.cors_config matches Some(rules)
                &&& 0 <= at < rules@.len()
                &&& *rule == rules@[at]
                &&& origin@ == text
            },
            (Ok(None), Ok(None)) => true,
            (Err(e), Err(model)) => e@ == model,
            _ => false,
        },
{
    proof {
        lemma_names();
    }
    match &bucket_params.cors_config {
        None => Ok(None),
        Some(rules) => match read_header(req.headers, ORIGIN) {
            Err(e) => Err(e),
            Ok(None) => Ok(None),
            Ok(Some(origin)) => match read_requested_headers(req.headers) {
                Err(e) => Err(e),
                Ok(headers) => match first_matching_rule(
                    rules,
                    origin,
                    req.method,
                    headers.as_slice(),
                ) {
                    None => Ok(None),
                    Some(at) => Ok(Some((&rules[at], origin))),
                },
            },
        },
    }
}

/// The response to a preflight request that the rule allows.
fn granting_response(rule: &CorsRule, origin: &str) -> (result: Result<Response, CommonError>)
    ensures
        ({
            let (fields, complete) = set_in_order(Fields::empty(), grant(rule@, origin@));
            outcome(result) == if complete {
                Ok::<ResponseModel, ErrorModel>(
                    ResponseModel {
                        status: OK,
                        fields: with_field(fields, VARY@, PREFLIGHT_VARY@),
                    },
                )
            } else {
                Err(ErrorModel::InternalError("Invalid CORS configuration"@))
            }
        }),
{
    let mut resp = Response { status: OK, headers: HeaderMap::new() };
    proof {
        lemma_fits(Fields::empty(), grant(rule@, origin@));
    }
    match add_cors_headers(&mut resp, rule, origin) {
        Err(_) => Err(CommonError::InternalError("Invalid CORS configuration".to_owned())),
        Ok(()) => {
            proof {
                lemma_names();
                reveal_strlit("Origin, Access-Control-Request-Method, Access-Control-Request-Headers");
                lemma_readable_text(PREFLIGHT_VARY@);
                lemma_room_after(Fields::empty(), grant(rule@, origin@), 6);
            }
            header_insert(&mut resp.headers, VARY, HeaderValue::from_static(PREFLIGHT_VARY));
            Ok(resp)
        },
    }
}

/// Answers a preflight request to a bucket.
pub fn handle_options_for_bucket(req: &Request, bucket_params: &BucketParams) -> (result: Result<
    Response,
    CommonError,
>)
    ensures
        outcome(result) == preflight(bucket_params@, req@),
{
    proof {
        lemma_names();
    }
    let origin = match read_required_header(req.headers, ORIGIN, "Missing Origin header") {
        Err(e) => {
            return Err(e);
        },
        Ok(text) => text,
    };
    let request_method = match read_required_header(
        req.headers,
        ACCESS_CONTROL_REQUEST_METHOD,
        "Missing Access-Control-Request-Method header",
    ) {
        Err(e) => {
            return Err(e);
        },
        Ok(text) => text,
    };
    let request_headers = match read_requested_headers(req.headers) {
        Err(e) => {
            return Err(e);
        },
        Ok(items) => items,
    };
    if let Some(rules) = &bucket_params.cors_config {
        if let Some(at) = first_matching_rule(
            rules,
            origin,
            request_method,
            request_headers.as_slice(),
        ) {
            assert(rule_models(rules@)[at as int] == rules@[at as int]@);
            return granting_response(&rules[at], origin);
        }
    }
    Err(CommonError::Forbidden("This CORS request is not allowed.".to_owned()))
}

/// Answers an `OPTIONS` request that names a bucket, given what the name was found to stand for:
/// the parameters of the bucket that has it as its global name, nothing where no bucket has, or
/// the error that came up in looking.
///
/// A name that is not a global one belongs to no bucket, or to one that only an authenticated
/// user can tell. `OPTIONS` requests are not authenticated, so all of them are allowed then, lest
/// web applications that use local bucket names be locked out.
pub fn handle_options_resolved(
    req: &Request,
    found: Result<Option<BucketParams>, CommonError>,
) -> (result: Result<Response, CommonError>)
    ensures
        outcome(result) == resolved_outcome(req@, found),
{
    match found {
        Err(e) => Err(e),
        Ok(None) => {
            proof {
                lemma_names();
                reveal_strlit("*");
                lemma_readable_text("*"@);
                lemma_room(Fields::empty(), ACCESS_CONTROL_ALLOW_ORIGIN@, "*"@, 3);
            }
            let mut headers = HeaderMap::new();
            header_insert(&mut headers, ACCESS_CONTROL_ALLOW_ORIGIN, HeaderValue::from_static("*"));
            proof {
                lemma_room(header_fields(headers), ACCESS_CONTROL_ALLOW_METHODS@, "*"@, 2);
            }
            header_insert(&mut headers, ACCESS_CONTROL_ALLOW_METHODS, HeaderValue::from_static("*"));
            header_insert(&mut headers, ACCESS_CONTROL_ALLOW_HEADERS, HeaderValue::from_static("*"));
            Ok(Response { status: OK, headers })
        },
        Ok(Some(bucket_params)) => handle_options_for_bucket(req, &bucket_params),
    }
}

/// Answers an `OPTIONS` request. Where the request names a bucket, `resolve` is called once, on
/// that name, to look up what it stands for; the rules of buckets that have it as a local name
/// do not count.
pub fn handle_options_api<F>(req: &Request, bucket_name: Option<String>, resolve: F) -> (result:
    Result<Response, CommonError>) where
    F: FnOnce(String) -> Result<Option<BucketParams>, CommonError>,

    requires
        bucket_name matches Some(name) ==> call_requires(resolve, (name,)),
    ensures
        match bucket_name {
            None => outcome(result) == Ok::<ResponseModel, ErrorModel>(list_buckets_answer()),
            Some(name) => exists|found: Result<Option<BucketParams>, CommonError>| #[trigger]
                call_ensures(resolve, (name,), found) && outcome(result) == resolved_outcome(
                    req@,
                    found,
                ),
        },
{
    match bucket_name {
        Some(name) => {
            let found = resolve(name);
            handle_options_resolved(req, found)
        },
        None => {
            proof {
                lemma_names();
                reveal_strlit("*");
                reveal_strlit("GET");
                lemma_readable_text("*"@);
                lemma_readable_text("GET"@);
                lemma_room(Fields::empty(), ACCESS_CONTROL_ALLOW_ORIGIN@, "*"@, 2);
            }
            let mut headers = HeaderMap::new();
            header_insert(&mut headers, ACCESS_CONTROL_ALLOW_ORIGIN, HeaderValue::from_static("*"));
            header_insert(
                &mut headers,
                ACCESS_CONTROL_ALLOW_METHODS,
                HeaderValue::from_static("GET"),
            );
            Ok(Response { status: OK, headers })
        },
    }
}

} // verus!
