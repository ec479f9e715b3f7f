//! The headers by which a response tells a browser what a rule grants.
use crate::error::InvalidValue;
use crate::headers::{has_room, header_fields, is_field_name, is_value_text, lemma_names};
use crate::headers::{lemma_room, may_be_full, set_header, with_field, Fields};
use crate::headers::{ACCESS_CONTROL_ALLOW_HEADERS, ACCESS_CONTROL_ALLOW_METHODS};
use crate::headers::{ACCESS_CONTROL_ALLOW_ORIGIN, ACCESS_CONTROL_EXPOSE_HEADERS, VARY};
use crate::message::Response;
use crate::rules::{CorsRule, RuleModel};
use crate::text::{join, joined, same_text};
use http::{HeaderMap, HeaderValue};
use vstd::prelude::*;

verus! {

/// The rule names `*` among its origins, and so is for all of them.
pub open spec fn is_for_all_origins(rule: RuleModel) -> bool {
    rule.allow_origins.contains("*"@)
}

/// The origin that a response tells the browser is allowed: `*` where the rule is for all
/// origins, and that of the request where it is not.
pub open spec fn granted_origin(rule: RuleModel, origin: Seq<char>) -> Seq<char> {
    if is_for_all_origins(rule) {
        "*"@
    } else {
        origin
    }
}

/// The headers that grant `origin` what the rule allows, in the order in which they are set. A
/// response that names the origin of its request must not be served to another one from a cache,
/// so it says that it varies with the origin.
pub open spec fn grant(rule: RuleModel, origin: Seq<char>) -> Seq<(Seq<char>, Seq<char>)> {
    let granted = seq![
        (ACCESS_CONTROL_ALLOW_ORIGIN@, granted_origin(rule, origin)),
        (ACCESS_CONTROL_ALLOW_METHODS@, joined(rule.allow_methods, ", "@)),
        (ACCESS_CONTROL_ALLOW_HEADERS@, joined(rule.allow_headers, ", "@)),
        (ACCESS_CONTROL_EXPOSE_HEADERS@, joined(rule.expose_headers, ", "@)),
    ];
    if is_for_all_origins(rule) {
        granted
    } else {
        granted.push((VARY@, "Origin"@))
    }
}

/// Sets headers one after the other, each to a single text, and stops at the first text that
/// cannot be a header value. Gives the fields that come out, and whether all headers were set.
pub open spec fn set_in_order(fields: Fields, headers: Seq<(Seq<char>, Seq<char>)>) -> (Fields, bool)
    decreases headers.len(),
{
    if headers.len() == 0 {
        (fields, true)
    } else {
        let (name, text) = headers.first();
        if is_value_text(text) {
            set_in_order(with_field(fields, name, text), headers.drop_first())
        } else {
            (fields, false)
        }
    }
}

/// No header map with these fields can refuse the headers, set one after the other: it has fewer
/// names than the limit whenever one of them is set.
pub open spec fn fits(fields: Fields, headers: Seq<(Seq<char>, Seq<char>)>) -> bool
    decreases headers.len(),
{
    headers.len() == 0 || {
        let (name, text) = headers.first();
        is_value_text(text) ==> !may_be_full(fields) && fits(
            with_field(fields, name, text),
            headers.drop_first(),
        )
    }
}

/// The first `count` of the headers are set, and `fields` come out; the next one has a valid text,
/// but there are so many names that a header map can refuse to take it.
pub open spec fn stopped_after(
    before: Fields,
    headers: Seq<(Seq<char>, Seq<char>)>,
    count: int,
    fields: Fields,
) -> bool {
    &&& 0 <= count < headers.len()
    &&& set_in_order(before, headers.take(count)) == (fields, true)
    &&& is_value_text(headers[count].1)
    &&& may_be_full(fields)
}

/// A list of headers, as texts.
pub open spec fn header_texts(headers: Seq<(&'static str, String)>) -> Seq<(Seq<char>, Seq<char>)> {
    headers.map_values(|header: (&'static str, String)| (header.0@, header.1@))
}

/// Headers fit where all their names are within the limit.
pub(crate) proof fn lemma_fits(fields: Fields, headers: Seq<(Seq<char>, Seq<char>)>)
    requires
        has_room(fields, headers.len()),
    ensures
        fits(fields, headers),
    decreases headers.len(),
{
    if headers.len() > 0 {
        let (name, text) = headers.first();
        lemma_room(fields, name, text, headers.len());
        lemma_fits(with_field(fields, name, text), headers.drop_first());
    }
}

/// Where all headers of a list can be set, one more comes after them.
proof fn lemma_one_more(
    fields: Fields,
    headers: Seq<(Seq<char>, Seq<char>)>,
    header: (Seq<char>, Seq<char>),
)
    requires
        set_in_order(fields, headers).1,
        is_value_text(header.1),
    ensures
        set_in_order(fields, headers.push(header)) == (
            with_field(set_in_order(fields, headers).0, header.0, header.1),
            true,
        ),
    decreases headers.len(),
{
    reveal_with_fuel(set_in_order, 2);
    let longer = headers.push(header);
    if headers.len() > 0 {
        let (name, text) = headers.first();
        assert(longer.drop_first() =~= headers.drop_first().push(header));
        lemma_one_more(with_field(fields, name, text), headers.drop_first(), header);
    } else {
        assert(longer.drop_first() =~= Seq::empty());
    }
}

/// Setting headers takes the room of as many names at most.
pub(crate) proof fn lemma_room_after(
    fields: Fields,
    headers: Seq<(Seq<char>, Seq<char>)>,
    count: nat,
)
    requires
        has_room(fields, count),
        headers.len() <= count,
    ensures
        has_room(set_in_order(fields, headers).0, (count - headers.len()) as nat),
    decreases headers.len(),
{
    if headers.len() > 0 {
        let (name, text) = headers.first();
        if is_value_text(text) {
            lemma_room(fields, name, text, count);
            lemma_room_after(
                with_field(fields, name, text),
                headers.drop_first(),
                (count - 1) as nat,
            );
        }
    }
}

/// Whether the rule names `*` among its origins.
fn names_all_origins(rule: &CorsRule) -> (found: bool)
    ensures
        found == is_for_all_origins(rule@),
{
    let n: usize = rule.allow_origins.len();
    for i in 0..n
        invariant
            n == rule.allow_origins@.len(),
            forall|j: int| 0 <= j < i ==> #[trigger] rule@.allow_origins[j] != "*"@,
    {
        if same_text(rule.allow_origins[i].as_str(), "*") {
            assert(rule@.allow_origins[i as int] == "*"@);
            return true;
        }
    }
    false
}

/// The headers that grant `request_origin` what the rule allows, in the order in which they are
/// set.
fn grant_headers(rule: &CorsRule, request_origin: &str) -> (headers: Vec<(&'static str, String)>)
    ensures
        header_texts(headers@) == grant(rule@, request_origin@),
        forall|i: int| 0 <= i < headers@.len() ==> is_field_name((#[trigger] headers@[i]).0@),
{
    proof {
        lemma_names();
    }
    let is_wildcard_origin = names_all_origins(rule);
    let allow_origin = if is_wildcard_origin {
        "*"
    } else {
        request_origin
    };
    let mut headers: Vec<(&'static str, String)> = Vec::new();
    headers.push((ACCESS_CONTROL_ALLOW_ORIGIN, allow_origin.to_owned()));
    headers.push((ACCESS_CONTROL_ALLOW_METHODS, join(&rule.allow_methods, ", ")));
    headers.push((ACCESS_CONTROL_ALLOW_HEADERS, join(&rule.allow_headers, ", ")));
    headers.push((ACCESS_CONTROL_EXPOSE_HEADERS, join(&rule.expose_headers, ", ")));
    if !is_wildcard_origin {
        headers.push((VARY, "Origin".to_owned()));
    }
    assert(header_texts(headers@) =~= grant(rule@, request_origin@));
    headers
}

/// Sets headers one after the other, up to the first that has no valid text. Gives nothing where
/// the map cannot grow, with those before set.
fn set_headers(map: &mut HeaderMap<HeaderValue>, headers: &Vec<(&'static str, String)>) -> (result:
    Option<Result<(), InvalidValue>>)
    requires
        forall|i: int| 0 <= i < headers@.len() ==> is_field_name((#[trigger] headers@[i]).0@),
    ensures
        match result {
            Some(set) => (header_fields(*final(map)), set is Ok) == set_in_order(
                header_fields(*old(map)),
                header_texts(headers@),
            ),
            None => exists|count: int| #[trigger]
                stopped_after(
                    header_fields(*old(map)),
                    header_texts(headers@),
                    count,
                    header_fields(*final(map)),
                ),
        },
        fits(header_fields(*old(map)), header_texts(headers@)) ==> result is Some,
{
    let ghost before = header_fields(*map);
    let ghost all = header_texts(headers@);
    assert(all.skip(0) =~= all);
    assert(all.take(0) =~= Seq::empty());
    let n: usize = headers.len();
    for i in 0..n
        invariant
            n == headers@.len(),
            all == header_texts(headers@),
            forall|j: int| 0 <= j < n ==> is_field_name((#[trigger] headers@[j]).0@),
            before == header_fields(*old(map)),
            set_in_order(before, all) == set_in_order(header_fields(*map), all.skip(i as int)),
            set_in_order(before, all.take(i as int)) == (header_fields(*map), true),
            fits(before, all) ==> fits(header_fields(*map), all.skip(i as int)),
    {
        let ghost fields = header_fields(*map);
        let ghost header = all[i as int];
        assert(all.skip(i as int).first() == header);
        assert(all.skip(i as int).drop_first() =~= all.skip(i + 1));
        assert(all.take(i + 1) =~= all.take(i as int).push(header));
        assert(header == (headers@[i as int].0@, headers@[i as int].1@));
        match set_header(map, headers[i].0, headers[i].1.as_str()) {
            Some(Ok(())) => {
                proof {
                    lemma_one_more(before, all.take(i as int), header);
                }
            },
            Some(Err(e)) => {
                return Some(Err(e));
            },
            None => {
                assert(stopped_after(before, all, i as int, fields));
                return None;
            },
        }
    }
    assert(all.take(n as int) =~= all);
    Some(Ok(()))
}

/// Sets the headers that grant `request_origin` what the rule allows. Where one of them has no
/// valid value, those before it stay set and those after it are left as they were.
///
/// The response has to have few enough names that its header map surely can grow. On any other
/// response, [`try_add_cors_headers`] finds out whether it can.
pub fn add_cors_headers(resp: &mut Response, rule: &CorsRule, request_origin: &str) -> (result:
    Result<(), InvalidValue>)
    requires
        fits(old(resp)@.fields, grant(rule@, request_origin@)),
    ensures
        final(resp)@.status == old(resp)@.status,
        (final(resp)@.fields, result is Ok) == set_in_order(
            old(resp)@.fields,
            grant(rule@, request_origin@),
        ),
{
    try_add_cors_headers(resp, rule, request_origin).unwrap()
}

/// Does what [`add_cors_headers`] does, on a response with any number of names. Gives nothing
/// where the response's header map cannot grow. This takes as many names as the limit; the
/// headers before the one that the map refuses are then set.
pub fn try_add_cors_headers(resp: &mut Response, rule: &CorsRule, request_origin: &str) -> (result:
    Option<Result<(), InvalidValue>>)
    ensures
        final(resp)@.status == old(resp)@.status,
        match result {
            Some(added) => (final(resp)@.fields, added is Ok) == set_in_order(
                old(resp)@.fields,
                grant(rule@, request_origin@),
            ),
            None => exists|count: int| #[trigger]
                stopped_after(
                    old(resp)@.fields,
                    grant(rule@, request_origin@),
                    count,
                    final(resp)@.fields,
                ),
        },
        fits(old(resp)@.fields, grant(rule@, request_origin@)) ==> result is Some,
{
    let headers = grant_headers(rule, request_origin);
    let ghost before = resp@.fields;
    let result = set_headers(&mut resp.headers, &headers);
    assert(result matches Some(added) ==> (resp@.fields, added is Ok) == set_in_order(
        before,
        grant(rule@, request_origin@),
    ));
    result
}

} // verus!
