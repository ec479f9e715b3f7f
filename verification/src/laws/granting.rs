//! Laws of the headers that a response grants access by.
use crate::grant::{fits, grant, granted_origin, is_for_all_origins, set_in_order, stopped_after};
use crate::headers::{is_value_byte, is_value_text, lemma_readable_text, may_be_full, reading};
use crate::headers::{with_field, Fields, Reading, NAME_LIMIT};
use crate::headers::{ACCESS_CONTROL_ALLOW_HEADERS, ACCESS_CONTROL_ALLOW_METHODS};
use crate::headers::{ACCESS_CONTROL_ALLOW_ORIGIN, ACCESS_CONTROL_EXPOSE_HEADERS, VARY};
use crate::rules::RuleModel;
use crate::text::{is_readable, joined};
use vstd::prelude::*;
use vstd::set_lib::lemma_len_subset;
use vstd::utf8::{encode_scalar, encode_utf8};

verus! {

/// The lists of a rule that go into headers can do so.
pub open spec fn has_valid_lists(rule: RuleModel) -> bool {
    &&& is_value_text(joined(rule.allow_methods, ", "@))
    &&& is_value_text(joined(rule.allow_headers, ", "@))
    &&& is_value_text(joined(rule.expose_headers, ", "@))
}

/// One of the headers by which access is granted.
pub open spec fn is_grant_header(name: Seq<char>) -> bool {
    ||| name == ACCESS_CONTROL_ALLOW_ORIGIN@
    ||| name == ACCESS_CONTROL_ALLOW_METHODS@
    ||| name == ACCESS_CONTROL_ALLOW_HEADERS@
    ||| name == ACCESS_CONTROL_EXPOSE_HEADERS@
    ||| name == VARY@
}

/// The headers by which access is granted are five different ones.
pub(crate) proof fn lemma_different_names()
    ensures
        ACCESS_CONTROL_ALLOW_ORIGIN@ != ACCESS_CONTROL_ALLOW_METHODS@,
        ACCESS_CONTROL_ALLOW_ORIGIN@ != ACCESS_CONTROL_ALLOW_HEADERS@,
        ACCESS_CONTROL_ALLOW_ORIGIN@ != ACCESS_CONTROL_EXPOSE_HEADERS@,
        ACCESS_CONTROL_ALLOW_ORIGIN@ != VARY@,
        ACCESS_CONTROL_ALLOW_METHODS@ != ACCESS_CONTROL_ALLOW_HEADERS@,
        ACCESS_CONTROL_ALLOW_METHODS@ != ACCESS_CONTROL_EXPOSE_HEADERS@,
        ACCESS_CONTROL_ALLOW_METHODS@ != VARY@,
        ACCESS_CONTROL_ALLOW_HEADERS@ != ACCESS_CONTROL_EXPOSE_HEADERS@,
        ACCESS_CONTROL_ALLOW_HEADERS@ != VARY@,
        ACCESS_CONTROL_EXPOSE_HEADERS@ != VARY@,
{
    reveal_strlit("vary");
    reveal_strlit("access-control-allow-origin");
    reveal_strlit("access-control-allow-methods");
    reveal_strlit("access-control-allow-headers");
    reveal_strlit("access-control-expose-headers");
    assert(ACCESS_CONTROL_ALLOW_METHODS@[21] != ACCESS_CONTROL_ALLOW_HEADERS@[21]);
    assert(ACCESS_CONTROL_ALLOW_ORIGIN@.len() == 27);
    assert(ACCESS_CONTROL_ALLOW_METHODS@.len() == 28);
    assert(ACCESS_CONTROL_ALLOW_HEADERS@.len() == 28);
    assert(ACCESS_CONTROL_EXPOSE_HEADERS@.len() == 29);
    assert(VARY@.len() == 4);
}

proof fn lemma_origin_literal()
    ensures
        is_value_text("Origin"@),
        is_value_text("*"@),
{
    reveal_strlit("Origin");
    reveal_strlit("*");
    lemma_readable_text("Origin"@);
    lemma_readable_text("*"@);
}

/// A header that is set to readable text is read back as that text.
pub proof fn law_set_header_is_read_back(fields: Fields, name: Seq<char>, text: Seq<char>)
    requires
        is_readable(text),
    ensures
        reading(with_field(fields, name, text), name) == Reading::Text(text),
{
    lemma_readable_text(text);
}

/// A character that a header value can hold: no control character of ASCII but the tab.
pub open spec fn is_value_char(c: char) -> bool {
    (' ' <= c && c != '\u{7f}') || c == '\t'
}

/// A text can be the value of a header exactly where each of its characters can stand in one.
pub proof fn law_value_text_by_characters(text: Seq<char>)
    ensures
        is_value_text(text) <==> forall|i: int|
            0 <= i < text.len() ==> (' ' <= #[trigger] text[i] && text[i] != '\u{7f}') || text[i]
                == '\t',
    decreases text.len(),
{
    if text.len() > 0 {
        let rest = text.drop_first();
        let first = encode_scalar(text[0] as u32);
        let bytes = encode_utf8(text);
        law_value_text_by_characters(rest);
        lemma_scalar_bytes(text[0]);
        assert(bytes =~= first + encode_utf8(rest));
        if is_value_text(text) {
            assert forall|i: int| 0 <= i < first.len() implies is_value_byte(#[trigger] first[i]) by {
                assert(is_value_byte(bytes[i]));
            }
            assert forall|i: int| 0 <= i < encode_utf8(rest).len() implies is_value_byte(
                #[trigger] encode_utf8(rest)[i],
            ) by {
                assert(is_value_byte(bytes[first.len() + i]));
            }
            assert forall|i: int| 0 <= i < text.len() implies is_value_char(#[trigger] text[i]) by {
                if i > 0 {
                    assert(is_value_char(rest[i - 1]));
                }
            }
        }
        if forall|i: int| 0 <= i < text.len() ==> is_value_char(#[trigger] text[i]) {
            assert(is_value_char(text[0]));
            assert forall|i: int| 0 <= i < rest.len() implies is_value_char(#[trigger] rest[i]) by {
                assert(is_value_char(text[i + 1]));
            }
            assert(is_value_text(rest));
            assert forall|i: int| 0 <= i < bytes.len() implies is_value_byte(#[trigger] bytes[i]) by {
                if i >= first.len() {
                    assert(is_value_byte(encode_utf8(rest)[i - first.len()]));
                }
            }
        }
    }
}

proof fn lemma_scalar_bytes(c: char)
    ensures
        encode_scalar(c as u32).len() > 0,
        is_value_char(c) <==> forall|i: int|
            0 <= i < encode_scalar(c as u32).len() ==> is_value_byte(
                #[trigger] encode_scalar(c as u32)[i],
            ),
{
    let v = c as u32;
    assert(v <= 0x7F ==> (v & 0x7F) as u8 == v) by (bit_vector);
    assert({
        &&& 0xC0 | ((v >> 6) & 0x1F) as u8 >= 0x80
        &&& 0xE0 | ((v >> 12) & 0x0F) as u8 >= 0x80
        &&& 0xF0 | ((v >> 18) & 0x7) as u8 >= 0x80
        &&& 0x80 | (v & 0x3F) as u8 >= 0x80
        &&& 0x80 | ((v >> 6) & 0x3F) as u8 >= 0x80
        &&& 0x80 | ((v >> 12) & 0x3F) as u8 >= 0x80
    }) by (bit_vector);
    let bytes = encode_scalar(v);
    if v <= 0x7F {
        assert(bytes[0] == v);
        assert(is_value_char(c) <==> is_value_byte(bytes[0]));
    } else {
        assert(forall|i: int| 0 <= i < bytes.len() ==> #[trigger] bytes[i] >= 0x80);
    }
}

/// A list can go into a header exactly where each of its items can.
pub proof fn law_list_is_valid_item_by_item(list: Seq<Seq<char>>)
    ensures
        is_value_text(joined(list, ", "@)) <==> forall|i: int|
            0 <= i < list.len() ==> is_value_text(#[trigger] list[i]),
    decreases list.len(),
{
    let text = joined(list, ", "@);
    law_value_text_by_characters(text);
    if list.len() > 0 {
        let first = list.first();
        let rest = list.drop_first();
        law_value_text_by_characters(first);
        law_list_is_valid_item_by_item(rest);
        assert(forall|i: int| 0 < i < list.len() ==> #[trigger] list[i] == rest[i - 1]);
        if rest.len() > 0 {
            let tail = joined(rest, ", "@);
            law_value_text_by_characters(tail);
            reveal_strlit(", ");
            assert(text =~= first + (", "@ + tail));
            if is_value_text(text) {
                assert forall|i: int| 0 <= i < first.len() implies is_value_char(
                    #[trigger] first[i],
                ) by {
                    assert(text[i] == first[i]);
                }
                assert forall|i: int| 0 <= i < tail.len() implies is_value_char(
                    #[trigger] tail[i],
                ) by {
                    assert(text[first.len() + 2 + i] == tail[i]);
                }
            }
            if forall|i: int| 0 <= i < list.len() ==> is_value_text(#[trigger] list[i]) {
                assert(is_value_text(list[0]));
                assert forall|i: int| 0 <= i < rest.len() implies is_value_text(
                    #[trigger] rest[i],
                ) by {
                    assert(is_value_text(list[i + 1]));
                }
                assert(is_value_text(tail));
            }
        }
        if is_value_text(text) {
            assert forall|i: int| 0 <= i < list.len() implies is_value_text(#[trigger] list[i]) by {
                if i > 0 {
                    assert(is_value_text(rest[i - 1]));
                }
            }
        }
    } else {
        assert(text =~= Seq::empty());
    }
}

/// All headers of a grant are set exactly where each of their texts can be a header value.
pub proof fn law_grant_is_complete_with_valid_texts(
    fields: Fields,
    rule: RuleModel,
    origin: Seq<char>,
)
    ensures
        set_in_order(fields, grant(rule, origin)).1 <==> is_value_text(granted_origin(rule, origin))
            && has_valid_lists(rule),
{
    lemma_origin_literal();
    reveal_with_fuel(set_in_order, 6);
}

/// An origin that was read from a request never keeps a grant from being complete: only the
/// rule's lists can.
pub proof fn law_readable_origin_can_be_granted(
    fields: Fields,
    rule: RuleModel,
    origin: Seq<char>,
)
    requires
        is_readable(origin),
    ensures
        set_in_order(fields, grant(rule, origin)).1 <==> has_valid_lists(rule),
{
    lemma_origin_literal();
    lemma_readable_text(origin);
    law_grant_is_complete_with_valid_texts(fields, rule, origin);
}

/// A complete grant names one origin, never a list of them: `*` where the rule is for all
/// origins, and that of the request where it is not. It gives the rule's lists, and it says that
/// the response varies with the origin exactly where the origin is named.
pub proof fn law_complete_grant(fields: Fields, rule: RuleModel, origin: Seq<char>)
    requires
        set_in_order(fields, grant(rule, origin)).1,
    ensures
        ({
            let granted = set_in_order(fields, grant(rule, origin)).0;
            &&& granted.contains_pair(
                ACCESS_CONTROL_ALLOW_ORIGIN@,
                seq![encode_utf8(granted_origin(rule, origin))],
            )
            &&& granted.contains_pair(
                ACCESS_CONTROL_ALLOW_METHODS@,
                seq![encode_utf8(joined(rule.allow_methods, ", "@))],
            )
            &&& granted.contains_pair(
                ACCESS_CONTROL_ALLOW_HEADERS@,
                seq![encode_utf8(joined(rule.allow_headers, ", "@))],
            )
            &&& granted.contains_pair(
                ACCESS_CONTROL_EXPOSE_HEADERS@,
                seq![encode_utf8(joined(rule.expose_headers, ", "@))],
            )
            &&& if is_for_all_origins(rule) {
                granted.contains_key(VARY@) == fields.contains_key(VARY@) && granted[VARY@]
                    == fields[VARY@]
            } else {
                granted.contains_pair(VARY@, seq![encode_utf8("Origin"@)])
            }
        }),
{
    lemma_origin_literal();
    lemma_different_names();
    reveal_with_fuel(set_in_order, 6);
}

/// The header `name` has `text` as its only value where it is said to be set, and is as it was
/// before where it is not.
pub open spec fn is_set_or_kept(
    after: Fields,
    before: Fields,
    name: Seq<char>,
    text: Seq<char>,
    set: bool,
) -> bool {
    if set {
        after.dom().contains(name) && after[name] == seq![encode_utf8(text)]
    } else {
        after.dom().contains(name) == before.dom().contains(name) && after[name] == before[name]
    }
}

/// Where no text of the rule's origins is `*`, a grant names the origin of the request, and one
/// that is complete says that the response varies with it. Where some text of them is `*`, a
/// grant names `*`, and leaves alone what the response varies with.
pub proof fn law_origin_is_named_unless_all_are_allowed(
    fields: Fields,
    rule: RuleModel,
    origin: Seq<char>,
)
    ensures
        ({
            let (granted, complete) = set_in_order(fields, grant(rule, origin));
            &&& (forall|i: int|
                0 <= i < rule.allow_origins.len() ==> #[trigger] rule.allow_origins[i] != "*"@)
                ==> {
                &&& is_set_or_kept(
                    granted,
                    fields,
                    ACCESS_CONTROL_ALLOW_ORIGIN@,
                    origin,
                    is_value_text(origin),
                )
                &&& is_set_or_kept(granted, fields, VARY@, "Origin"@, complete)
            }
            &&& (exists|i: int|
                0 <= i < rule.allow_origins.len() && #[trigger] rule.allow_origins[i] == "*"@)
                ==> {
                &&& is_set_or_kept(granted, fields, ACCESS_CONTROL_ALLOW_ORIGIN@, "*"@, true)
                &&& is_set_or_kept(granted, fields, VARY@, "Origin"@, false)
            }
        }),
{
    lemma_origin_literal();
    lemma_different_names();
    reveal_with_fuel(set_in_order, 6);
}

/// What a grant does to each header, whatever is valid. The origin is named where its text is
/// valid; the methods, the headers and the exposed headers of the rule follow in this order, each
/// where all texts up to its own are valid; and the grant is complete where all of them are. Each
/// list is given with a comma and a space between its items.
pub proof fn law_grant_header_by_header(
    fields: Fields,
    rule: RuleModel,
    origin: Seq<char>,
    other: Seq<char>,
)
    ensures
        ({
            let (granted, complete) = set_in_order(fields, grant(rule, origin));
            let text0 = if rule.allow_origins.contains("*"@) {
                "*"@
            } else {
                origin
            };
            let text1 = joined(rule.allow_methods, ", "@);
            let text2 = joined(rule.allow_headers, ", "@);
            let text3 = joined(rule.expose_headers, ", "@);
            let set0 = is_value_text(text0);
            let set1 = set0 && is_value_text(text1);
            let set2 = set1 && is_value_text(text2);
            let set3 = set2 && is_value_text(text3);
            &&& complete == set3
            &&& is_set_or_kept(granted, fields, ACCESS_CONTROL_ALLOW_ORIGIN@, text0, set0)
            &&& is_set_or_kept(granted, fields, ACCESS_CONTROL_ALLOW_METHODS@, text1, set1)
            &&& is_set_or_kept(granted, fields, ACCESS_CONTROL_ALLOW_HEADERS@, text2, set2)
            &&& is_set_or_kept(granted, fields, ACCESS_CONTROL_EXPOSE_HEADERS@, text3, set3)
            &&& is_set_or_kept(
                granted,
                fields,
                VARY@,
                "Origin"@,
                set3 && !rule.allow_origins.contains("*"@),
            )
            &&& {
                ||| other == ACCESS_CONTROL_ALLOW_ORIGIN@
                ||| other == ACCESS_CONTROL_ALLOW_METHODS@
                ||| other == ACCESS_CONTROL_ALLOW_HEADERS@
                ||| other == ACCESS_CONTROL_EXPOSE_HEADERS@
                ||| other == VARY@
                ||| is_set_or_kept(granted, fields, other, Seq::empty(), false)
            }
        }),
{
    lemma_origin_literal();
    lemma_different_names();
    reveal_with_fuel(set_in_order, 6);
}

/// A grant that the header map refuses to take in full is refused at the limit or beyond it, and
/// no response that fits is refused. The headers before the refused one are set, and those from
/// it on are as they were.
pub proof fn law_refused_grant(
    before: Fields,
    rule: RuleModel,
    origin: Seq<char>,
    count: int,
    fields: Fields,
)
    requires
        stopped_after(before, grant(rule, origin), count, fields),
    ensures
        fields.dom().finite(),
        fields.dom().len() >= NAME_LIMIT,
        !fits(before, grant(rule, origin)),
        0 <= count < (if rule.allow_origins.contains("*"@) {
            4int
        } else {
            5int
        }),
        is_set_or_kept(
            fields,
            before,
            ACCESS_CONTROL_ALLOW_ORIGIN@,
            if rule.allow_origins.contains("*"@) {
                "*"@
            } else {
                origin
            },
            count > 0,
        ),
        is_set_or_kept(
            fields,
            before,
            ACCESS_CONTROL_ALLOW_METHODS@,
            joined(rule.allow_methods, ", "@),
            count > 1,
        ),
        is_set_or_kept(
            fields,
            before,
            ACCESS_CONTROL_ALLOW_HEADERS@,
            joined(rule.allow_headers, ", "@),
            count > 2,
        ),
        is_set_or_kept(
            fields,
            before,
            ACCESS_CONTROL_EXPOSE_HEADERS@,
            joined(rule.expose_headers, ", "@),
            count > 3,
        ),
        is_set_or_kept(fields, before, VARY@, "Origin"@, false),
        forall|name: Seq<char>|
            !is_grant_header(name) ==> #[trigger] is_set_or_kept(
                fields,
                before,
                name,
                Seq::empty(),
                false,
            ),
{
    lemma_different_names();
    let headers = grant(rule, origin);
    let taken = headers.take(count);
    lemma_headers_set(before, taken);
    assert(forall|i: int| 0 <= i < count ==> #[trigger] taken[i] == headers[i]);
    assert(count > 0 ==> taken[0] == headers[0]);
    assert(count > 1 ==> taken[1] == headers[1]);
    assert(count > 2 ==> taken[2] == headers[2]);
    assert(count > 3 ==> taken[3] == headers[3]);
    assert forall|k: int| #![trigger headers[k]] count <= k < headers.len() implies is_set_or_kept(
        fields,
        before,
        headers[k].0,
        Seq::empty(),
        false,
    ) by {
        assert(forall|i: int| 0 <= i < taken.len() ==> (#[trigger] taken[i]).0 != headers[k].0);
    }
    assert(is_set_or_kept(fields, before, VARY@, Seq::empty(), false));
    assert(headers[1].0 == ACCESS_CONTROL_ALLOW_METHODS@);
    assert(headers[2].0 == ACCESS_CONTROL_ALLOW_HEADERS@);
    assert(headers[3].0 == ACCESS_CONTROL_EXPOSE_HEADERS@);
    lemma_refused_does_not_fit(before, headers, count);
}

/// Where all headers of a list with different names can be set, each is set to its text, and no
/// other header changes.
proof fn lemma_headers_set(fields: Fields, headers: Seq<(Seq<char>, Seq<char>)>)
    requires
        set_in_order(fields, headers).1,
        forall|i: int, j: int|
            0 <= i < j < headers.len() ==> (#[trigger] headers[i]).0 != (#[trigger] headers[j]).0,
    ensures
        forall|i: int|
            0 <= i < headers.len() ==> is_set_or_kept(
                set_in_order(fields, headers).0,
                fields,
                (#[trigger] headers[i]).0,
                headers[i].1,
                true,
            ),
        forall|name: Seq<char>|
            (forall|i: int| 0 <= i < headers.len() ==> (#[trigger] headers[i]).0 != name)
                ==> #[trigger] is_set_or_kept(
                set_in_order(fields, headers).0,
                fields,
                name,
                Seq::empty(),
                false,
            ),
    decreases headers.len(),
{
    if headers.len() > 0 {
        let (name, text) = headers.first();
        let next = with_field(fields, name, text);
        let rest = headers.drop_first();
        let after = set_in_order(fields, headers).0;
        assert(headers[0] == (name, text));
        assert forall|i: int, j: int| 0 <= i < j < rest.len() implies (#[trigger] rest[i]).0 != (
        #[trigger] rest[j]).0 by {
            assert(rest[i] == headers[i + 1] && rest[j] == headers[j + 1]);
        }
        lemma_headers_set(next, rest);
        assert forall|i: int| 0 <= i < rest.len() implies (#[trigger] rest[i]).0 != name by {
            assert(rest[i] == headers[i + 1]);
        }
        assert(is_set_or_kept(after, next, name, Seq::empty(), false));
        assert forall|i: int| 0 <= i < headers.len() implies is_set_or_kept(
            after,
            fields,
            (#[trigger] headers[i]).0,
            headers[i].1,
            true,
        ) by {
            if i > 0 {
                assert(headers[i] == rest[i - 1]);
            }
        }
        assert forall|other: Seq<char>|
            (forall|i: int| 0 <= i < headers.len() ==> (#[trigger] headers[i]).0 != other) implies
            #[trigger] is_set_or_kept(after, fields, other, Seq::empty(), false) by {
            assert forall|i: int| 0 <= i < rest.len() implies (#[trigger] rest[i]).0 != other by {
                assert(rest[i] == headers[i + 1]);
            }
            assert(is_set_or_kept(after, next, other, Seq::empty(), false));
        }
    }
}

proof fn lemma_refused_does_not_fit(
    before: Fields,
    headers: Seq<(Seq<char>, Seq<char>)>,
    count: int,
)
    requires
        0 <= count < headers.len(),
        set_in_order(before, headers.take(count)).1,
        may_be_full(set_in_order(before, headers.take(count)).0),
        is_value_text(headers[count].1),
    ensures
        !fits(before, headers),
    decreases count,
{
    if count > 0 {
        let (name, text) = headers.first();
        let taken = headers.take(count);
        assert(taken.first() == headers.first());
        assert(taken.drop_first() =~= headers.drop_first().take(count - 1));
        assert(headers.drop_first()[count - 1] == headers[count]);
        lemma_refused_does_not_fit(
            with_field(before, name, text),
            headers.drop_first(),
            count - 1,
        );
    } else {
        assert(headers.take(0) =~= Seq::empty());
    }
}

/// A grant, complete or not, touches no other headers.
pub proof fn law_grant_leaves_other_headers(
    fields: Fields,
    rule: RuleModel,
    origin: Seq<char>,
    name: Seq<char>,
)
    requires
        !is_grant_header(name),
    ensures
        ({
            let granted = set_in_order(fields, grant(rule, origin)).0;
            &&& granted.contains_key(name) == fields.contains_key(name)
            &&& granted[name] == fields[name]
        }),
{
    reveal_with_fuel(set_in_order, 6);
}

/// Granting twice is granting once.
pub proof fn law_granting_again_changes_nothing(fields: Fields, rule: RuleModel, origin: Seq<char>)
    ensures
        ({
            let once = set_in_order(fields, grant(rule, origin));
            set_in_order(once.0, grant(rule, origin)) == once
        }),
{
    lemma_origin_literal();
    lemma_different_names();
    reveal_with_fuel(set_in_order, 6);
    let once = set_in_order(fields, grant(rule, origin));
    let again = set_in_order(once.0, grant(rule, origin));
    assert(again.0 =~= once.0);
}

/// A response fits the same grant a second time exactly where it is then still short of the
/// limit, or nothing is set: the second time no name is new.
pub proof fn law_granting_again_fits(fields: Fields, rule: RuleModel, origin: Seq<char>)
    ensures
        ({
            let once = set_in_order(fields, grant(rule, origin)).0;
            fits(once, grant(rule, origin)) <==> (is_value_text(granted_origin(rule, origin))
                ==> !may_be_full(once))
        }),
{
    lemma_origin_literal();
    lemma_different_names();
    reveal_with_fuel(set_in_order, 6);
    reveal_with_fuel(fits, 6);
    let once = set_in_order(fields, grant(rule, origin)).0;
    let headers = grant(rule, origin);
    let again1 = with_field(once, headers[0].0, headers[0].1);
    let again2 = with_field(again1, headers[1].0, headers[1].1);
    let again3 = with_field(again2, headers[2].0, headers[2].1);
    let again4 = with_field(again3, headers[3].0, headers[3].1);
    if is_value_text(headers[0].1) {
        assert(again1.dom() =~= once.dom());
        if is_value_text(headers[1].1) {
            assert(again2.dom() =~= once.dom());
            if is_value_text(headers[2].1) {
                assert(again3.dom() =~= once.dom());
                if is_value_text(headers[3].1) {
                    assert(again4.dom() =~= once.dom());
                }
            }
        }
    }
}

/// The names of all headers but the last, with those that are there already.
pub open spec fn names_before_last(fields: Fields, headers: Seq<(Seq<char>, Seq<char>)>) -> Set<
    Seq<char>,
> {
    fields.dom().union(headers.drop_last().map_values(|h: (Seq<char>, Seq<char>)| h.0).to_set())
}

/// Headers fit where the names that are there when the last of them is set are fewer than the
/// limit, a name that is there already counting once. Where all of them have valid texts, they fit
/// only there.
pub proof fn law_headers_fit_by_their_names(
    fields: Fields,
    headers: Seq<(Seq<char>, Seq<char>)>,
)
    requires
        headers.len() > 0,
        fields.dom().finite(),
    ensures
        names_before_last(fields, headers).len() < NAME_LIMIT ==> fits(fields, headers),
        set_in_order(fields, headers).1 && fits(fields, headers) ==> names_before_last(
            fields,
            headers,
        ).len() < NAME_LIMIT,
    decreases headers.len(),
{
    reveal_with_fuel(set_in_order, 2);
    reveal_with_fuel(fits, 2);
    let all = names_before_last(fields, headers);
    let early = headers.drop_last().map_values(|h: (Seq<char>, Seq<char>)| h.0);
    vstd::seq_lib::seq_to_set_is_finite(early);
    lemma_len_subset(fields.dom(), all);
    if headers.len() == 1 {
        assert(early.to_set() =~= Set::empty());
        assert(all =~= fields.dom());
    } else {
        let (name, text) = headers.first();
        let next = with_field(fields, name, text);
        let rest = headers.drop_first();
        let later = rest.drop_last().map_values(|h: (Seq<char>, Seq<char>)| h.0);
        assert(next.dom() =~= fields.dom().insert(name));
        law_headers_fit_by_their_names(next, rest);
        assert(early =~= seq![name] + later);
        assert forall|x: Seq<char>| #[trigger] all.contains(x) <==> names_before_last(
            next,
            rest,
        ).contains(x) by {
            if later.contains(x) {
                let i = choose|i: int| 0 <= i < later.len() && later[i] == x;
                assert(early[i + 1] == x);
            }
            if early.contains(x) {
                let i = choose|i: int| 0 <= i < early.len() && early[i] == x;
                if i > 0 {
                    assert(later[i - 1] == x);
                }
            }
            assert(early[0] == name);
        }
        assert(all =~= names_before_last(next, rest));
    }
}

/// What a rule grants depends on its three lists and on whether it is for all origins: its name,
/// its age and the other origins that it names make no difference. Where it is for all origins,
/// neither does the origin of the request.
pub proof fn law_grant_depends_on_lists_and_star(
    rule: RuleModel,
    other_rule: RuleModel,
    origin: Seq<char>,
    other_origin: Seq<char>,
)
    requires
        rule.allow_methods == other_rule.allow_methods,
        rule.allow_headers == other_rule.allow_headers,
        rule.expose_headers == other_rule.expose_headers,
        is_for_all_origins(rule) == is_for_all_origins(other_rule),
        is_for_all_origins(rule) || origin == other_origin,
    ensures
        grant(rule, origin) == grant(other_rule, other_origin),
        forall|fields: Fields| #[trigger]
            set_in_order(fields, grant(rule, origin)) == set_in_order(
                fields,
                grant(other_rule, other_origin),
            ),
        forall|fields: Fields| #[trigger]
            fits(fields, grant(rule, origin)) == fits(fields, grant(other_rule, other_origin)),
{
}

/// Where the rule is for all origins, the headers are the same for all of them, and a cache may
/// give the response to any.
pub proof fn law_grant_to_all_ignores_the_origin(
    rule: RuleModel,
    origin: Seq<char>,
    other: Seq<char>,
)
    requires
        is_for_all_origins(rule),
    ensures
        grant(rule, origin) == grant(rule, other),
{
}

} // verus!
