//! Laws of the answers to requests.
use crate::error::{CommonError, ErrorModel};
use crate::grant::{grant, set_in_order};
use crate::headers::{is_value_text, is_visible_ascii, lemma_readable_text, reading, with_field};
use crate::headers::{Fields, Reading, ORIGIN, VARY};
use crate::headers::{ACCESS_CONTROL_ALLOW_HEADERS, ACCESS_CONTROL_ALLOW_METHODS};
use crate::headers::{ACCESS_CONTROL_ALLOW_ORIGIN, ACCESS_CONTROL_EXPOSE_HEADERS};
use crate::headers::{ACCESS_CONTROL_REQUEST_HEADERS, ACCESS_CONTROL_REQUEST_METHOD};
use crate::laws::granting::{has_valid_lists, is_grant_header, law_complete_grant};
use crate::laws::granting::{law_grant_leaves_other_headers, law_readable_origin_can_be_granted};
use crate::laws::granting::lemma_different_names;
use crate::laws::matching::law_first_match_decides;
use crate::message::{RequestModel, ResponseModel};
use crate::preflight::{list_buckets_answer, matching_rule, preflight, requested_headers};
use crate::preflight::{resolved_outcome, PREFLIGHT_VARY};
use crate::rules::{first_match, is_first_match, rule_allows, BucketParams, RuleModel};
use crate::text::{is_readable, joined};
use vstd::prelude::*;
use vstd::utf8::{encode_utf8, is_ascii_chars_encode_utf8};

verus! {

/// A preflight request with these readable headers: its origin, the method it asks for, and the
/// headers it asks for.
pub open spec fn asks_for(
    request: RequestModel,
    origin: Seq<char>,
    method: Seq<char>,
    headers: Seq<Seq<char>>,
) -> bool {
    &&& reading(request.fields, ORIGIN@) == Reading::Text(origin)
    &&& reading(request.fields, ACCESS_CONTROL_REQUEST_METHOD@) == Reading::Text(method)
    &&& requested_headers(request.fields) == Ok::<Seq<Seq<char>>, ErrorModel>(headers)
}

/// Some rule of the configuration allows the request.
pub open spec fn is_allowed(
    config: Option<Seq<RuleModel>>,
    origin: Seq<char>,
    method: Seq<char>,
    headers: Seq<Seq<char>>,
) -> bool {
    config matches Some(rules) && exists|i: int|
        0 <= i < rules.len() && rule_allows(#[trigger] rules[i], origin, method, headers)
}

/// What is read of a header is readable, and its encoding is the bytes that were read.
pub proof fn law_reading_keeps_the_bytes(fields: Fields, name: Seq<char>)
    ensures
        reading(fields, name) matches Reading::Text(text) ==> is_readable(text) && encode_utf8(text)
            == fields[name][0],
{
    if let Reading::Text(text) = reading(fields, name) {
        let bytes = fields[name][0];
        assert forall|i: int| 0 <= i < text.len() implies (' ' <= #[trigger] text[i] <= '~'
            || text[i] == '\t') by {
            assert(is_visible_ascii(bytes[i]));
        }
        lemma_readable_text(text);
        is_ascii_chars_encode_utf8(text);
        assert(encode_utf8(text) =~= bytes);
    }
}

/// A preflight request is malformed exactly where it names no origin or, with a readable origin,
/// no method; it is invalid exactly where the first of its headers that is not there as it should
/// be is unreadable.
pub proof fn law_malformed_preflight(config: Option<Seq<RuleModel>>, request: RequestModel)
    ensures
        ({
            let answer = preflight(config, request);
            let origin = reading(request.fields, ORIGIN@);
            let method = reading(request.fields, ACCESS_CONTROL_REQUEST_METHOD@);
            let headers = reading(request.fields, ACCESS_CONTROL_REQUEST_HEADERS@);
            &&& answer == Err::<ResponseModel, ErrorModel>(
                ErrorModel::BadRequest("Missing Origin header"@),
            ) <==> origin is Missing
            &&& answer == Err::<ResponseModel, ErrorModel>(
                ErrorModel::BadRequest("Missing Access-Control-Request-Method header"@),
            ) <==> origin is Text && method is Missing
            &&& answer == Err::<ResponseModel, ErrorModel>(ErrorModel::InvalidHeader) <==> {
                ||| origin is Unreadable
                ||| origin is Text && method is Unreadable
                ||| origin is Text && method is Text && headers is Unreadable
            }
        }),
{
    reveal_strlit("Missing Origin header");
    reveal_strlit("Missing Access-Control-Request-Method header");
    assert("Missing Origin header"@.len() != "Missing Access-Control-Request-Method header"@.len());
}

/// A preflight request that no rule allows is refused, and no other is.
pub proof fn law_disallowed_preflight_is_forbidden(
    config: Option<Seq<RuleModel>>,
    request: RequestModel,
    origin: Seq<char>,
    method: Seq<char>,
    headers: Seq<Seq<char>>,
)
    requires
        asks_for(request, origin, method, headers),
    ensures
        preflight(config, request) == Err::<ResponseModel, ErrorModel>(
            ErrorModel::Forbidden("This CORS request is not allowed."@),
        ) <==> !is_allowed(config, origin, method, headers),
{
    if let Some(rules) = config {
        law_first_match_decides(rules, origin, method, headers);
    }
}

/// A preflight request succeeds exactly where it names an origin and a method, all that it says is
/// readable, a rule allows it, and the lists of the first such rule can go into headers.
pub proof fn law_preflight_succeeds_where_a_rule_allows(
    config: Option<Seq<RuleModel>>,
    request: RequestModel,
)
    ensures
        preflight(config, request) is Ok <==> exists|
            rules: Seq<RuleModel>,
            at: int,
            origin: Seq<char>,
            method: Seq<char>,
            headers: Seq<Seq<char>>,
        |
            {
                &&& config == Some(rules)
                &&& asks_for(request, origin, method, headers)
                &&& #[trigger] is_first_match(rules, at, origin, method, headers)
                &&& has_valid_lists(rules[at])
            },
{
    law_reading_keeps_the_bytes(request.fields, ORIGIN@);
    assert forall|
        rules: Seq<RuleModel>,
        at: int,
        origin: Seq<char>,
        method: Seq<char>,
        headers: Seq<Seq<char>>,
    |
        config == Some(rules) && asks_for(request, origin, method, headers)
            && #[trigger] is_first_match(rules, at, origin, method, headers) implies (preflight(
        config,
        request,
    ) is Ok <==> has_valid_lists(rules[at])) by {
        law_first_match_decides(rules, origin, method, headers);
        law_readable_origin_can_be_granted(Fields::empty(), rules[at], origin);
    }
    if preflight(config, request) is Ok {
        let rules = config->Some_0;
        let origin = reading(request.fields, ORIGIN@)->Text_0;
        let method = reading(request.fields, ACCESS_CONTROL_REQUEST_METHOD@)->Text_0;
        let headers = requested_headers(request.fields)->Ok_0;
        assert(asks_for(request, origin, method, headers));
        law_first_match_decides(rules, origin, method, headers);
        let at = first_match(rules, origin, method, headers)->Some_0;
        assert(is_first_match(rules, at, origin, method, headers));
    }
}

/// The response to a preflight request that a rule allows, and none before it, has status 200 and
/// exactly five headers, with one value each. It names `*` where a text of the rule's origins is
/// `*`, and the origin of the request where none is. It gives the rule's lists, and it varies with
/// all that it depends on, whether or not it names the request's origin.
pub proof fn law_deciding_rule_makes_the_response(
    rules: Seq<RuleModel>,
    at: int,
    request: RequestModel,
    origin: Seq<char>,
    method: Seq<char>,
    headers: Seq<Seq<char>>,
)
    requires
        asks_for(request, origin, method, headers),
        0 <= at < rules.len(),
        rule_allows(rules[at], origin, method, headers),
        forall|i: int|
            0 <= i < at ==> !rule_allows(#[trigger] rules[i], origin, method, headers),
        has_valid_lists(rules[at]),
    ensures
        preflight(Some(rules), request) matches Ok(response) && {
            let fields = response.fields;
            &&& response.status == 200
            &&& forall|name: Seq<char>| #[trigger]
                fields.dom().contains(name) <==> {
                    ||| name == ACCESS_CONTROL_ALLOW_ORIGIN@
                    ||| name == ACCESS_CONTROL_ALLOW_METHODS@
                    ||| name == ACCESS_CONTROL_ALLOW_HEADERS@
                    ||| name == ACCESS_CONTROL_EXPOSE_HEADERS@
                    ||| name == VARY@
                }
            &&& fields[ACCESS_CONTROL_ALLOW_ORIGIN@] == seq![
                if rules[at].allow_origins.contains("*"@) {
                    encode_utf8("*"@)
                } else {
                    encode_utf8(origin)
                },
            ]
            &&& fields[ACCESS_CONTROL_ALLOW_METHODS@] == seq![
                encode_utf8(joined(rules[at].allow_methods, ", "@)),
            ]
            &&& fields[ACCESS_CONTROL_ALLOW_HEADERS@] == seq![
                encode_utf8(joined(rules[at].allow_headers, ", "@)),
            ]
            &&& fields[ACCESS_CONTROL_EXPOSE_HEADERS@] == seq![
                encode_utf8(joined(rules[at].expose_headers, ", "@)),
            ]
            &&& fields[VARY@] == seq![
                encode_utf8(
                    "Origin, Access-Control-Request-Method, Access-Control-Request-Headers"@,
                ),
            ]
        },
{
    law_first_match_decides(rules, origin, method, headers);
    assert(is_first_match(rules, at, origin, method, headers));
    law_reading_keeps_the_bytes(request.fields, ORIGIN@);
    law_readable_origin_can_be_granted(Fields::empty(), rules[at], origin);
    law_complete_grant(Fields::empty(), rules[at], origin);
    lemma_different_names();
    let granted = set_in_order(Fields::empty(), grant(rules[at], origin)).0;
    let fields = with_field(granted, VARY@, PREFLIGHT_VARY@);
    assert forall|name: Seq<char>| #[trigger] fields.dom().contains(name) implies is_grant_header(
        name,
    ) by {
        if !is_grant_header(name) {
            law_grant_leaves_other_headers(Fields::empty(), rules[at], origin, name);
        }
    }
}

/// A preflight request that a rule allows, and none before it, fails exactly where a list of the
/// rule cannot go into a header, and then the configuration is at fault.
pub proof fn law_unusable_lists_are_a_server_fault(
    rules: Seq<RuleModel>,
    at: int,
    request: RequestModel,
    origin: Seq<char>,
    method: Seq<char>,
    headers: Seq<Seq<char>>,
)
    requires
        asks_for(request, origin, method, headers),
        0 <= at < rules.len(),
        rule_allows(rules[at], origin, method, headers),
        forall|i: int|
            0 <= i < at ==> !rule_allows(#[trigger] rules[i], origin, method, headers),
    ensures
        preflight(Some(rules), request) is Err <==> !(is_value_text(
            joined(rules[at].allow_methods, ", "@),
        ) && is_value_text(joined(rules[at].allow_headers, ", "@)) && is_value_text(
            joined(rules[at].expose_headers, ", "@),
        )),
        preflight(Some(rules), request) matches Err(e) ==> e == ErrorModel::InternalError(
            "Invalid CORS configuration"@,
        ),
{
    law_first_match_decides(rules, origin, method, headers);
    assert(is_first_match(rules, at, origin, method, headers));
    law_reading_keeps_the_bytes(request.fields, ORIGIN@);
    law_readable_origin_can_be_granted(Fields::empty(), rules[at], origin);
}

/// A successful preflight response has exactly the five headers of a grant, with one value each.
/// The origin that it names is `*` or, byte for byte, that of the request, and it varies with all
/// that it depends on, whether or not it names the request's origin.
pub proof fn law_preflight_response(
    config: Option<Seq<RuleModel>>,
    request: RequestModel,
    response: ResponseModel,
)
    requires
        preflight(config, request) == Ok::<ResponseModel, ErrorModel>(response),
    ensures
        response.status == 200,
        forall|name: Seq<char>| #[trigger]
            response.fields.contains_key(name) <==> is_grant_header(name),
        forall|name: Seq<char>| #[trigger]
            response.fields.contains_key(name) ==> response.fields[name].len() == 1,
        response.fields[VARY@] == seq![encode_utf8(PREFLIGHT_VARY@)],
        response.fields[ACCESS_CONTROL_ALLOW_ORIGIN@] == seq![encode_utf8("*"@)]
            || response.fields[ACCESS_CONTROL_ALLOW_ORIGIN@] == seq![request.fields[ORIGIN@][0]],
{
    let rules = config->Some_0;
    let origin = reading(request.fields, ORIGIN@)->Text_0;
    let method = reading(request.fields, ACCESS_CONTROL_REQUEST_METHOD@)->Text_0;
    let headers = requested_headers(request.fields)->Ok_0;
    let rule = rules[first_match(rules, origin, method, headers)->Some_0];
    let granted = set_in_order(Fields::empty(), grant(rule, origin)).0;
    assert(response.fields == with_field(granted, VARY@, PREFLIGHT_VARY@));
    lemma_different_names();
    law_complete_grant(Fields::empty(), rule, origin);
    law_reading_keeps_the_bytes(request.fields, ORIGIN@);
    assert forall|name: Seq<char>| #[trigger]
        response.fields.contains_key(name) implies is_grant_header(name) by {
        if !is_grant_header(name) {
            law_grant_leaves_other_headers(Fields::empty(), rule, origin, name);
        }
    }
}

/// The answer to a preflight request depends on nothing but what its response says it varies
/// with: the origin, the method asked for and the headers asked for.
pub proof fn law_preflight_varies_with_three_headers(
    config: Option<Seq<RuleModel>>,
    request: RequestModel,
    other: RequestModel,
)
    requires
        reading(request.fields, ORIGIN@) == reading(other.fields, ORIGIN@),
        reading(request.fields, ACCESS_CONTROL_REQUEST_METHOD@) == reading(
            other.fields,
            ACCESS_CONTROL_REQUEST_METHOD@,
        ),
        reading(request.fields, ACCESS_CONTROL_REQUEST_HEADERS@) == reading(
            other.fields,
            ACCESS_CONTROL_REQUEST_HEADERS@,
        ),
    ensures
        preflight(config, request) == preflight(config, other),
{
}

/// A preflight request and the request that it is made for come under the same rule: the
/// preflight is allowed exactly where a rule is found for a request of the method asked for, and
/// then grants what that rule grants.
pub proof fn law_preflight_and_request_agree(
    config: Option<Seq<RuleModel>>,
    request: RequestModel,
    origin: Seq<char>,
    method: Seq<char>,
    headers: Seq<Seq<char>>,
)
    requires
        asks_for(request, origin, method, headers),
    ensures
        match matching_rule(config, (RequestModel { method, fields: request.fields })) {
            Ok(Some((at, text))) => {
                &&& text == origin
                &&& config matches Some(rules)
                &&& is_first_match(rules, at, origin, method, headers)
                &&& match preflight(config, request) {
                    Ok(response) => response.fields == with_field(
                        set_in_order(Fields::empty(), grant(rules[at], origin)).0,
                        VARY@,
                        PREFLIGHT_VARY@,
                    ),
                    Err(e) => e == ErrorModel::InternalError("Invalid CORS configuration"@)
                        && !has_valid_lists(rules[at]),
                }
            },
            Ok(None) => preflight(config, request) == Err::<ResponseModel, ErrorModel>(
                ErrorModel::Forbidden("This CORS request is not allowed."@),
            ),
            Err(_) => false,
        },
{
    law_reading_keeps_the_bytes(request.fields, ORIGIN@);
    if let Some(rules) = config {
        law_first_match_decides(rules, origin, method, headers);
        if let Some(at) = first_match(rules, origin, method, headers) {
            law_readable_origin_can_be_granted(Fields::empty(), rules[at], origin);
        }
    }
}

/// Finding a rule, for every request. A rule is found exactly where the bucket has a
/// configuration, the request's origin and the headers it asks for are readable, and the rule is
/// the first that allows this origin, the request's own method and these headers. None is found
/// where there is no configuration or no origin, or where no rule allows the request. The request
/// is invalid where its origin or, next, its list of headers is unreadable.
pub proof fn law_found_rule_is_the_first_to_allow(
    config: Option<Seq<RuleModel>>,
    request: RequestModel,
    at: int,
    origin: Seq<char>,
)
    ensures
        matching_rule(config, request) == Ok::<Option<(int, Seq<char>)>, ErrorModel>(
            Some((at, origin)),
        ) <==> {
            &&& config matches Some(rules)
            &&& reading(request.fields, ORIGIN@) == Reading::Text(origin)
            &&& requested_headers(request.fields) matches Ok(headers)
            &&& 0 <= at < rules.len()
            &&& rule_allows(rules[at], origin, request.method, headers)
            &&& forall|i: int|
                0 <= i < at ==> !rule_allows(#[trigger] rules[i], origin, request.method, headers)
        },
        matching_rule(config, request) == Ok::<Option<(int, Seq<char>)>, ErrorModel>(None) <==> {
            ||| config is None
            ||| reading(request.fields, ORIGIN@) is Missing
            ||| {
                &&& config matches Some(rules)
                &&& reading(request.fields, ORIGIN@) matches Reading::Text(from)
                &&& requested_headers(request.fields) matches Ok(headers)
                &&& forall|i: int|
                    0 <= i < rules.len() ==> !rule_allows(
                        #[trigger] rules[i],
                        from,
                        request.method,
                        headers,
                    )
            }
        },
        matching_rule(config, request) is Err <==> config is Some && {
            ||| reading(request.fields, ORIGIN@) is Unreadable
            ||| reading(request.fields, ORIGIN@) is Text && reading(
                request.fields,
                ACCESS_CONTROL_REQUEST_HEADERS@,
            ) is Unreadable
        },
        matching_rule(config, request) matches Err(e) ==> e == ErrorModel::InvalidHeader,
{
    if let Some(rules) = config {
        if let Reading::Text(from) = reading(request.fields, ORIGIN@) {
            if let Ok(headers) = requested_headers(request.fields) {
                law_first_match_decides(rules, from, request.method, headers);
                if 0 <= at < rules.len() {
                    assert(rules[at] == rules[at]);
                }
                assert(is_first_match(rules, at, from, request.method, headers) <==> first_match(
                    rules,
                    from,
                    request.method,
                    headers,
                ) == Some(at));
            }
        }
    }
}

/// A rule that is found for a request allows it, and none before it in the configuration does.
pub proof fn law_found_rule_allows_the_request(
    config: Option<Seq<RuleModel>>,
    request: RequestModel,
)
    ensures
        matching_rule(config, request) matches Ok(Some((at, origin))) ==> {
            &&& config matches Some(rules)
            &&& reading(request.fields, ORIGIN@) == Reading::Text(origin)
            &&& requested_headers(request.fields) matches Ok(headers)
            &&& is_first_match(rules, at, origin, request.method, headers)
        },
{
    if let Ok(Some((at, origin))) = matching_rule(config, request) {
        law_first_match_decides(
            config->Some_0,
            origin,
            request.method,
            requested_headers(request.fields)->Ok_0,
        );
    }
}

/// Where some rule allows a request, one is found: the first that does, with the origin of the
/// request, whatever other headers the request has or lacks.
pub proof fn law_allowed_request_finds_a_rule(
    rules: Seq<RuleModel>,
    request: RequestModel,
    origin: Seq<char>,
    headers: Seq<Seq<char>>,
    allowing: int,
)
    requires
        reading(request.fields, ORIGIN@) == Reading::Text(origin),
        requested_headers(request.fields) == Ok::<Seq<Seq<char>>, ErrorModel>(headers),
        0 <= allowing < rules.len(),
        rule_allows(rules[allowing], origin, request.method, headers),
    ensures
        matching_rule(Some(rules), request) matches Ok(Some((at, from))) && {
            &&& from == origin
            &&& 0 <= at <= allowing
            &&& rule_allows(rules[at], origin, request.method, headers)
            &&& forall|i: int|
                0 <= i < at ==> !rule_allows(#[trigger] rules[i], origin, request.method, headers)
        },
{
    law_first_match_decides(rules, origin, request.method, headers);
}

/// Two requests with the same method, the same origin and the same list of headers come under the
/// same rule, whatever else they have.
pub proof fn law_finding_a_rule_reads_two_headers(
    config: Option<Seq<RuleModel>>,
    request: RequestModel,
    other: RequestModel,
)
    requires
        request.method == other.method,
        reading(request.fields, ORIGIN@) == reading(other.fields, ORIGIN@),
        reading(request.fields, ACCESS_CONTROL_REQUEST_HEADERS@) == reading(
            other.fields,
            ACCESS_CONTROL_REQUEST_HEADERS@,
        ),
    ensures
        matching_rule(config, request) == matching_rule(config, other),
{
}

/// A request that names a bucket by a name that is not global is answered with status 200 and
/// exactly three headers, which allow all origins, methods and headers by the one value `*`. The
/// answer does not depend on the request.
pub proof fn law_name_that_is_not_global_allows_everything(
    request: RequestModel,
    other: RequestModel,
)
    ensures
        resolved_outcome(request, Ok(None)) == resolved_outcome(other, Ok(None)),
        resolved_outcome(request, Ok(None)) matches Ok(response) && {
            &&& response.status == 200
            &&& forall|name: Seq<char>| #[trigger]
                response.fields.dom().contains(name) <==> {
                    ||| name == ACCESS_CONTROL_ALLOW_ORIGIN@
                    ||| name == ACCESS_CONTROL_ALLOW_METHODS@
                    ||| name == ACCESS_CONTROL_ALLOW_HEADERS@
                }
            &&& forall|name: Seq<char>| #[trigger]
                response.fields.dom().contains(name) ==> response.fields[name] == seq![seq![42u8]]
        },
{
    lemma_star_byte();
    lemma_different_names();
}

/// A request that names no bucket is answered with status 200 and exactly two headers, which
/// allow all origins to read.
pub proof fn law_listing_buckets_is_open_to_all()
    ensures
        list_buckets_answer().status == 200,
        forall|name: Seq<char>| #[trigger]
            list_buckets_answer().fields.dom().contains(name) <==> name
                == ACCESS_CONTROL_ALLOW_ORIGIN@ || name == ACCESS_CONTROL_ALLOW_METHODS@,
        list_buckets_answer().fields[ACCESS_CONTROL_ALLOW_ORIGIN@] == seq![seq![42u8]],
        list_buckets_answer().fields[ACCESS_CONTROL_ALLOW_METHODS@] == seq![seq![71u8, 69, 84]],
{
    lemma_star_byte();
    lemma_different_names();
    reveal_strlit("GET");
    lemma_readable_text("GET"@);
    is_ascii_chars_encode_utf8("GET"@);
    assert(encode_utf8("GET"@) =~= seq![71u8, 69, 84]);
}

/// A request that names a bucket by its global name is answered as a preflight request to that
/// bucket, and where the name cannot be looked up, the answer is the error that came up.
pub proof fn law_global_name_stands_for_its_bucket(
    request: RequestModel,
    params: BucketParams,
    error: CommonError,
)
    ensures
        resolved_outcome(request, Ok(Some(params))) == preflight(params@, request),
        resolved_outcome(request, Err(error)) == Err::<ResponseModel, ErrorModel>(error@),
{
}

proof fn lemma_star_byte()
    ensures
        encode_utf8("*"@) == seq![42u8],
{
    reveal_strlit("*");
    lemma_readable_text("*"@);
    is_ascii_chars_encode_utf8("*"@);
    assert(encode_utf8("*"@) =~= seq![42u8]);
}

} // verus!
