//! Laws of texts: lists, their items, and what is read of a header.
use crate::error::ErrorModel;
use crate::headers::{reading, with_field, Fields, Reading};
use crate::headers::ACCESS_CONTROL_REQUEST_HEADERS;
use crate::laws::matching::{law_pieces_make_up_the_text, law_trimming_takes_the_outer_blanks};
use crate::preflight::requested_headers;
use crate::text::{comma_pieces, joined, list_items, str_texts, texts, trimmed};
use vstd::prelude::*;
use vstd::utf8::encode_utf8;

verus! {

/// A list of strings is as long as the list of their texts, and holds them in the same places.
pub proof fn law_lists_hold_their_texts(owned: Seq<String>, borrowed: Seq<&str>)
    ensures
        texts(owned).len() == owned.len(),
        forall|i: int| 0 <= i < owned.len() ==> #[trigger] texts(owned)[i] == owned[i]@,
        str_texts(borrowed).len() == borrowed.len(),
        forall|i: int| 0 <= i < borrowed.len() ==> #[trigger] str_texts(borrowed)[i] == borrowed[i]@,
{
}

/// An item that is put behind a list comes behind the joined list and a separator; behind an
/// empty list, it stands alone. Nothing joined is nothing.
pub proof fn law_joining_item_by_item(
    list: Seq<Seq<char>>,
    item: Seq<char>,
    separator: Seq<char>,
)
    ensures
        joined(Seq::empty(), separator) == Seq::<char>::empty(),
        list.len() == 0 ==> joined(list.push(item), separator) == item,
        list.len() > 0 ==> joined(list.push(item), separator) == joined(list, separator) + separator
            + item,
    decreases list.len(),
{
    reveal_with_fuel(joined, 2);
    let longer = list.push(item);
    if list.len() == 0 {
        assert(longer.drop_first().len() == 0);
    } else {
        let rest = list.drop_first();
        assert(longer.drop_first() =~= rest.push(item));
        law_joining_item_by_item(rest, item, separator);
        assert(joined(longer, separator) == list.first() + (separator + joined(
            rest.push(item),
            separator,
        )));
        if rest.len() == 0 {
            assert(joined(list, separator) == list.first());
            assert(joined(longer, separator) =~= joined(list, separator) + separator + item);
        } else {
            assert(joined(list, separator) == list.first() + (separator + joined(
                rest,
                separator,
            )));
            assert(joined(longer, separator) =~= joined(list, separator) + separator + item);
        }
    }
}

/// Blanks around a text make no difference to what trimming leaves of it: the text itself, where
/// it neither starts nor ends with a blank.
pub proof fn law_trimming_undoes_padding(lead: Seq<char>, core: Seq<char>, trail: Seq<char>)
    requires
        forall|i: int| 0 <= i < lead.len() ==> #[trigger] lead[i] == ' ' || lead[i] == '\t',
        forall|i: int| 0 <= i < trail.len() ==> #[trigger] trail[i] == ' ' || trail[i] == '\t',
        core.len() > 0 ==> {
            &&& core.first() != ' '
            &&& core.first() != '\t'
            &&& core.last() != ' '
            &&& core.last() != '\t'
        },
    ensures
        trimmed(lead + core + trail) == core,
{
    let text = lead + core + trail;
    let start = lead.len() as int;
    let end = start + core.len();
    law_trimming_takes_the_outer_blanks(text);
    let (from, to) = choose|from: int, to: int|
        0 <= from <= to <= text.len() && trimmed(text) == #[trigger] text.subrange(from, to) && (
        forall|i: int|
            0 <= i < from || to <= i < text.len() ==> #[trigger] text[i] == ' ' || text[i] == '\t');
    assert forall|i: int| 0 <= i < text.len() && (i < start || end <= i) implies #[trigger] text[i]
        == ' ' || text[i] == '\t' by {
        if i < start {
            assert(text[i] == lead[i]);
        } else {
            assert(text[i] == trail[i - end]);
        }
    }
    if from < to {
        assert(trimmed(text).first() == text[from]);
        assert(trimmed(text).last() == text[to - 1]);
        assert(start <= from < end);
        assert(start < to <= end);
    }
    if core.len() > 0 {
        assert(text[start] == core.first());
        assert(text[end - 1] == core.last());
        assert(from == start && to == end);
        assert(trimmed(text) =~= core);
    } else {
        assert(trimmed(text) =~= core);
    }
}

/// A list without a comma has itself, trimmed, as its only item. What stands before the first
/// comma of a list is its first item, trimmed, and what stands behind it gives the others.
pub proof fn law_list_splits_at_its_commas(before: Seq<char>, after: Seq<char>)
    requires
        !before.contains(','),
    ensures
        list_items(before) == seq![trimmed(before)],
        list_items(before + seq![','] + after) == seq![trimmed(before)] + list_items(after),
{
    before.index_of_first_ensures(',');
    assert(comma_pieces(before) =~= seq![before]);
    assert(list_items(before) =~= seq![trimmed(before)]);
    let text = before + seq![','] + after;
    let at = before.len() as int;
    text.index_of_first_ensures(',');
    assert(text[at] == ',');
    assert forall|i: int| 0 <= i < at implies text[i] != ',' by {
        assert(text[i] == before[i]);
        assert(before.contains(before[i]));
    }
    assert(text.index_of_first(',') == Some(at));
    assert(text.take(at) =~= before);
    assert(text.skip(at + 1) =~= after);
    assert(list_items(text) =~= seq![trimmed(before)] + list_items(after));
}

/// A list that is put together from pieces without commas has as many items as there are pieces,
/// and each item is its piece, trimmed.
pub proof fn law_list_has_an_item_for_each_piece(pieces: Seq<Seq<char>>)
    requires
        pieces.len() > 0,
        forall|i: int| 0 <= i < pieces.len() ==> !(#[trigger] pieces[i]).contains(','),
    ensures
        list_items(joined(pieces, seq![','])).len() == pieces.len(),
        forall|i: int|
            0 <= i < pieces.len() ==> #[trigger] list_items(joined(pieces, seq![',']))[i] == trimmed(
                pieces[i],
            ),
    decreases pieces.len(),
{
    reveal_with_fuel(joined, 2);
    let first = pieces.first();
    let rest = pieces.drop_first();
    assert(first == pieces[0]);
    law_list_splits_at_its_commas(first, joined(rest, seq![',']));
    if rest.len() > 0 {
        assert forall|i: int| 0 <= i < rest.len() implies !(#[trigger] rest[i]).contains(',') by {
            assert(rest[i] == pieces[i + 1]);
        }
        law_list_has_an_item_for_each_piece(rest);
        assert(joined(pieces, seq![',']) =~= first + seq![','] + joined(rest, seq![',']));
        assert forall|i: int| 0 <= i < pieces.len() implies #[trigger] list_items(
            joined(pieces, seq![',']),
        )[i] == trimmed(pieces[i]) by {
            if i > 0 {
                assert(pieces[i] == rest[i - 1]);
                assert(list_items(joined(rest, seq![',']))[i - 1] == trimmed(rest[i - 1]));
            }
        }
    }
}

/// A header that is not there is missing. One that is there is readable exactly where the bytes
/// of its first value are printable ASCII characters, spaces and tabs, and then reads as a text of
/// as many characters, each of them the byte in its place.
pub proof fn law_reading_goes_by_the_first_value(fields: Fields, name: Seq<char>)
    ensures
        reading(fields, name) is Missing <==> !fields.dom().contains(name),
        reading(fields, name) is Unreadable <==> fields.dom().contains(name) && exists|i: int|
            0 <= i < fields[name][0].len() && !(32 <= #[trigger] fields[name][0][i] <= 126
                || fields[name][0][i] == 9),
        reading(fields, name) matches Reading::Text(text) ==> {
            &&& text.len() == fields[name][0].len()
            &&& forall|i: int|
                0 <= i < text.len() ==> #[trigger] text[i] as int == fields[name][0][i] as int
        },
{
}

/// A header that is set has the encoding of the text as its only value, and no other header
/// changes.
pub proof fn law_setting_a_header(
    fields: Fields,
    name: Seq<char>,
    text: Seq<char>,
    other: Seq<char>,
)
    ensures
        with_field(fields, name, text).dom().contains(name),
        with_field(fields, name, text)[name].len() == 1,
        with_field(fields, name, text)[name][0] == encode_utf8(text),
        other != name ==> {
            &&& with_field(fields, name, text).dom().contains(other) == fields.dom().contains(other)
            &&& with_field(fields, name, text)[other] == fields[other]
        },
{
}

/// A request without a list of headers asks for none, and one whose list is unreadable is
/// invalid. In any other case it asks for at least one, the empty list being that of one header
/// without a name.
pub proof fn law_asking_for_headers(fields: Fields)
    ensures
        requested_headers(fields) matches Err(e) ==> e == ErrorModel::InvalidHeader,
        requested_headers(fields) is Err <==> reading(fields, ACCESS_CONTROL_REQUEST_HEADERS@)
            is Unreadable,
        requested_headers(fields) matches Ok(headers) ==> (headers.len() == 0 <==> reading(
            fields,
            ACCESS_CONTROL_REQUEST_HEADERS@,
        ) is Missing),
{
    if let Reading::Text(text) = reading(fields, ACCESS_CONTROL_REQUEST_HEADERS@) {
        law_pieces_make_up_the_text(text);
    }
}

/// A request whose list of headers has no comma asks for that one header, without the blanks
/// around it. One whose list has a comma asks for what stands before it, without the blanks, and
/// then for all that a request with the rest of the list asks for.
pub proof fn law_all_headers_of_the_list_are_asked_for(
    fields: Fields,
    rest: Fields,
    before: Seq<char>,
    after: Seq<char>,
)
    requires
        !before.contains(','),
        reading(rest, ACCESS_CONTROL_REQUEST_HEADERS@) == Reading::Text(after),
    ensures
        reading(fields, ACCESS_CONTROL_REQUEST_HEADERS@) == Reading::Text(before)
            ==> requested_headers(fields) == Ok::<Seq<Seq<char>>, ErrorModel>(
            seq![trimmed(before)],
        ),
        reading(fields, ACCESS_CONTROL_REQUEST_HEADERS@) == Reading::Text(
            before + seq![','] + after,
        ) ==> {
            &&& requested_headers(fields) matches Ok(all)
            &&& requested_headers(rest) matches Ok(others)
            &&& all == seq![trimmed(before)] + others
        },
{
    law_list_splits_at_its_commas(before, after);
}

/// A request asks for as many headers as its list has pieces between commas, and each is its
/// piece without the blanks around it.
pub proof fn law_a_header_is_asked_for_by_each_piece(fields: Fields, pieces: Seq<Seq<char>>)
    requires
        pieces.len() > 0,
        forall|i: int| 0 <= i < pieces.len() ==> !(#[trigger] pieces[i]).contains(','),
        reading(fields, ACCESS_CONTROL_REQUEST_HEADERS@) == Reading::Text(
            joined(pieces, seq![',']),
        ),
    ensures
        requested_headers(fields) matches Ok(headers) && headers.len() == pieces.len() && (forall|
            i: int,
        |
            0 <= i < pieces.len() ==> #[trigger] headers[i] == trimmed(pieces[i])),
{
    law_list_has_an_item_for_each_piece(pieces);
}

} // verus!
