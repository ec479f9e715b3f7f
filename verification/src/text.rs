//! Text as sequences of characters: comparing, splitting, trimming and joining.
use vstd::prelude::*;
use vstd::string::*;
use vstd::utf8::*;

verus! {

/// The texts that a list of owned strings holds.
pub open spec fn texts(list: Seq<String>) -> Seq<Seq<char>> {
    list.map_values(|s: String| s@)
}

/// The texts that a list of borrowed strings holds.
pub open spec fn str_texts(list: Seq<&str>) -> Seq<Seq<char>> {
    list.map_values(|s: &str| s@)
}

/// The items of `list`, in order, with `separator` between each two neighbours.
pub open spec fn joined(list: Seq<Seq<char>>, separator: Seq<char>) -> Seq<char>
    decreases list.len(),
{
    if list.len() == 0 {
        Seq::empty()
    } else {
        let rest = list.drop_first();
        if rest.len() == 0 {
            list.first()
        } else {
            list.first() + (separator + joined(rest, separator))
        }
    }
}

/// The stretches of `text` that lie between its commas: one more than there are commas.
pub open spec fn comma_pieces(text: Seq<char>) -> Seq<Seq<char>>
    decreases text.len(),
{
    match text.index_of_first(',') {
        None => seq![text],
        Some(at) => {
            proof {
                text.index_of_first_ensures(',');
            }
            seq![text.take(at)] + comma_pieces(text.skip(at + 1))
        },
    }
}

/// Space and tab, the only white space that a readable header value can hold.
pub open spec fn is_blank(c: char) -> bool {
    c == ' ' || c == '\t'
}

/// `text` without the blanks it starts with.
pub open spec fn without_leading_blanks(text: Seq<char>) -> Seq<char>
    decreases text.len(),
{
    if text.len() > 0 && is_blank(text.first()) {
        without_leading_blanks(text.drop_first())
    } else {
        text
    }
}

/// `text` without the blanks it ends with.
pub open spec fn without_trailing_blanks(text: Seq<char>) -> Seq<char>
    decreases text.len(),
{
    if text.len() > 0 && is_blank(text.last()) {
        without_trailing_blanks(text.drop_last())
    } else {
        text
    }
}

/// `text` without the blanks at either end.
pub open spec fn trimmed(text: Seq<char>) -> Seq<char> {
    without_trailing_blanks(without_leading_blanks(text))
}

/// The items of a comma-separated list, each without the blanks around it.
pub open spec fn list_items(text: Seq<char>) -> Seq<Seq<char>> {
    comma_pieces(text).map_values(|piece: Seq<char>| trimmed(piece))
}

/// Text made of visible ASCII characters, spaces and tabs.
pub open spec fn is_readable(text: Seq<char>) -> bool {
    forall|i: int| 0 <= i < text.len() ==> (' ' <= #[trigger] text[i] <= '~' || text[i] == '\t')
}

/// Whether two texts are the same.
pub(crate) fn same_text(a: &str, b: &str) -> (same: bool)
    ensures
        same == (a@ == b@),
{
    let x = a.as_bytes();
    let y = b.as_bytes();
    proof {
        encode_utf8_decode_utf8(a@);
        encode_utf8_decode_utf8(b@);
    }
    if x.len() != y.len() {
        return false;
    }
    let n: usize = x.len();
    for i in 0..n
        invariant
            n == x@.len(),
            n == y@.len(),
            x@ == encode_utf8(a@),
            y@ == encode_utf8(b@),
            forall|j: int| 0 <= j < i ==> x@[j] == y@[j],
    {
        if x[i] != y[i] {
            return false;
        }
    }
    assert(x@ =~= y@);
    true
}

/// The characters of a text, one by one.
pub(crate) fn chars_of(text: &str) -> (chars: Vec<char>)
    ensures
        chars@ == text@,
{
    let mut chars: Vec<char> = Vec::new();
    for c in it: text.chars()
        invariant
            it.seq() == text@,
            chars@ == it.seq().take(it.index()),
    {
        chars.push(c);
    }
    assert(text@.take(text@.len() as int) =~= text@);
    chars
}

/// Puts the strings of `list` into one, with `separator` between each two neighbours.
pub(crate) fn join(list: &Vec<String>, separator: &str) -> (text: String)
    ensures
        text@ == joined(texts(list@), separator@),
{
    let ghost all = texts(list@);
    let mut text: String = String::new();
    let n: usize = list.len();
    assert(all.skip(0) =~= all);
    for i in 0..n
        invariant
            n == list@.len(),
            all == texts(list@),
            joined(all, separator@) == text@ + joined(all.skip(i as int), separator@),
    {
        let ghost before = text@;
        let ghost rest = all.skip(i as int);
        assert(rest.drop_first() =~= all.skip(i + 1));
        assert(rest.first() == list@[i as int]@);
        text.append(list[i].as_str());
        if i + 1 < n {
            text.append(separator);
            assert(text@ + joined(all.skip(i + 1), separator@) =~= before + (rest.first() + (
            separator@ + joined(rest.drop_first(), separator@))));
        } else {
            assert(joined(all.skip(i + 1), separator@) =~= Seq::empty());
        }
    }
    text
}

/// The stretch of `text` from `start` to `end`, without the blanks at either end.
fn trim_range<'a>(text: &'a str, start: usize, end: usize) -> (item: &'a str)
    requires
        text.is_ascii(),
        start <= end <= text@.len(),
    ensures
        item@ == trimmed(text@.subrange(start as int, end as int)),
{
    let mut from: usize = start;
    while from < end && (text.get_ascii(from) == 32 || text.get_ascii(from) == 9)
        invariant
            text.is_ascii(),
            start <= from <= end <= text@.len(),
            without_leading_blanks(text@.subrange(start as int, end as int))
                == without_leading_blanks(text@.subrange(from as int, end as int)),
        decreases end - from,
    {
        assert(text@.subrange(from as int, end as int).drop_first() =~= text@.subrange(
            from + 1,
            end as int,
        ));
        from = from + 1;
    }
    let ghost core = text@.subrange(from as int, end as int);
    assert(without_leading_blanks(core) == core);
    let mut to: usize = end;
    while from < to && (text.get_ascii(to - 1) == 32 || text.get_ascii(to - 1) == 9)
        invariant
            text.is_ascii(),
            from <= to <= end <= text@.len(),
            core == text@.subrange(from as int, end as int),
            without_trailing_blanks(core) == without_trailing_blanks(
                text@.subrange(from as int, to as int),
            ),
        decreases to - from,
    {
        assert(text@.subrange(from as int, to as int).drop_last() =~= text@.subrange(
            from as int,
            to - 1,
        ));
        to = to - 1;
    }
    text.substring_ascii(from, to)
}

/// The items of a comma-separated list, each without the blanks around it.
pub(crate) fn split_list<'a>(text: &'a str) -> (items: Vec<&'a str>)
    requires
        is_readable(text@),
    ensures
        str_texts(items@) == list_items(text@),
{
    let mut items: Vec<&'a str> = Vec::new();
    let n: usize = text.as_bytes().len();
    proof {
        is_ascii_spec_bytes(text);
    }
    assert(n == text@.len());
    let mut start: usize = 0;
    let mut i: usize = 0;
    assert(text@.skip(0) =~= text@);
    while i < n
        invariant
            text.is_ascii(),
            n == text@.len(),
            start <= i <= n,
            forall|j: int| start <= j < i ==> text@[j] != ',',
            list_items(text@) == str_texts(items@) + list_items(text@.skip(start as int)),
        decreases n - i,
    {
        if text.get_ascii(i) == 44 {
            let ghost rest = text@.skip(start as int);
            let ghost before = items@;
            items.push(trim_range(text, start, i));
            proof {
                let at = i - start;
                rest.index_of_first_ensures(',');
                assert(rest[at] == ',');
                assert(rest.index_of_first(',') == Some(at));
                assert(rest.take(at) =~= text@.subrange(start as int, i as int));
                assert(rest.skip(at + 1) =~= text@.skip(i + 1));
                assert(list_items(rest) =~= seq![trimmed(rest.take(at))] + list_items(
                    text@.skip(i + 1),
                ));
                assert(str_texts(items@) =~= str_texts(before).push(trimmed(rest.take(at))));
                assert(str_texts(before) + list_items(rest) =~= str_texts(items@) + list_items(
                    text@.skip(i + 1),
                ));
            }
            start = i + 1;
        }
        i = i + 1;
    }
    let ghost rest = text@.skip(start as int);
    let ghost before = items@;
    items.push(trim_range(text, start, n));
    proof {
        rest.index_of_first_ensures(',');
        assert(rest.index_of_first(',') is None);
        assert(rest =~= text@.subrange(start as int, n as int));
        assert(list_items(rest) =~= seq![trimmed(rest)]);
        assert(str_texts(items@) =~= str_texts(before) + list_items(rest));
    }
    items
}

} // verus!
