//! Laws of patterns, rules and lists.
use crate::rules::{any_matches, first_match, is_first_match, is_sole_star, method_allowed};
use crate::rules::{rule_allows, wildcard_matches, RuleModel};
use crate::text::{comma_pieces, is_blank, joined, trimmed};
use crate::text::{without_leading_blanks, without_trailing_blanks};
use vstd::prelude::*;

verus! {

/// A pattern without `*` matches itself and nothing else.
pub proof fn law_plain_pattern_matches_itself_alone(pattern: Seq<char>, candidate: Seq<char>)
    requires
        !pattern.contains('*'),
    ensures
        wildcard_matches(pattern, candidate) <==> candidate == pattern,
{
}

/// The pattern `*` matches everything.
pub proof fn law_star_matches_everything(candidate: Seq<char>)
    ensures
        wildcard_matches("*"@, candidate),
{
    reveal_strlit("*");
    let pattern = "*"@;
    assert(is_sole_star(pattern, 0));
    assert(pattern.contains('*'));
    assert(pattern.take(0).is_prefix_of(candidate));
    assert(pattern.skip(1).is_suffix_of(candidate));
}

/// A pattern with two `*` matches nothing.
pub proof fn law_two_stars_match_nothing(pattern: Seq<char>, i: int, j: int, candidate: Seq<char>)
    requires
        0 <= i < j < pattern.len(),
        pattern[i] == '*',
        pattern[j] == '*',
    ensures
        !wildcard_matches(pattern, candidate),
{
    assert(pattern.contains('*'));
}

/// A pattern with a single `*` matches exactly what starts with the part before the `*` and ends
/// with the part after it.
pub proof fn law_single_star(before: Seq<char>, after: Seq<char>, candidate: Seq<char>)
    requires
        !before.contains('*'),
        !after.contains('*'),
    ensures
        wildcard_matches(before.push('*') + after, candidate) <==> before.is_prefix_of(candidate)
            && after.is_suffix_of(candidate),
{
    let pattern = before.push('*') + after;
    let at = before.len() as int;
    assert(pattern[at] == '*');
    assert forall|i: int| 0 <= i < pattern.len() && i != at implies pattern[i] != '*' by {
        if i < at {
            assert(before.contains(before[i]));
        } else {
            assert(after.contains(after[i - at - 1]));
        }
    }
    assert(is_sole_star(pattern, at));
    assert(forall|k: int| is_sole_star(pattern, k) ==> k == at);
    assert(pattern.take(at) =~= before);
    assert(pattern.skip(at + 1) =~= after);
}

/// The `*` stands for any text, the empty one too.
pub proof fn law_star_stands_for_any_text(before: Seq<char>, middle: Seq<char>, after: Seq<char>)
    requires
        !before.contains('*'),
        !after.contains('*'),
    ensures
        wildcard_matches(before.push('*') + after, before + middle + after),
{
    let candidate = before + middle + after;
    law_single_star(before, after, candidate);
    assert(before =~= candidate.subrange(0, before.len() as int));
    assert(after =~= candidate.subrange(
        candidate.len() - after.len(),
        candidate.len() as int,
    ));
}

/// What is made of the part before the `*`, some text and the part after it is exactly what the
/// pattern matches and what has room for both parts. In a shorter match the two overlap.
pub proof fn law_match_fills_the_star(before: Seq<char>, after: Seq<char>, candidate: Seq<char>)
    requires
        !before.contains('*'),
        !after.contains('*'),
    ensures
        (exists|middle: Seq<char>| candidate == #[trigger] (before + middle) + after)
            <==> wildcard_matches(before.push('*') + after, candidate) && before.len() + after.len()
            <= candidate.len(),
{
    let cut = candidate.len() - after.len();
    if wildcard_matches(before.push('*') + after, candidate) && before.len() <= cut {
        law_single_star(before, after, candidate);
        let middle = candidate.subrange(before.len() as int, cut);
        let head = candidate.subrange(0, before.len() as int);
        let tail = candidate.subrange(cut, candidate.len() as int);
        assert(before == head && after == tail);
        assert(candidate =~= (head + middle) + tail);
        assert(candidate == (before + middle) + after);
    }
    assert forall|middle: Seq<char>| candidate == #[trigger] (before + middle)
        + after implies wildcard_matches(before.push('*') + after, candidate) by {
        law_star_stands_for_any_text(before, middle, after);
    }
}

/// A pattern matches a candidate exactly where it is the candidate and has no `*`, or where it is
/// made of two parts around its only `*`, with which the candidate starts and ends.
pub proof fn law_pattern_matches_by_its_parts(pattern: Seq<char>, candidate: Seq<char>)
    ensures
        wildcard_matches(pattern, candidate) <==> {
            ||| !pattern.contains('*') && candidate == pattern
            ||| exists|before: Seq<char>, after: Seq<char>|
                {
                    &&& pattern == #[trigger] (before.push('*') + after)
                    &&& !before.contains('*')
                    &&& !after.contains('*')
                    &&& before.is_prefix_of(candidate)
                    &&& after.is_suffix_of(candidate)
                }
        },
{
    if pattern.contains('*') && wildcard_matches(pattern, candidate) {
        let at = choose|at: int| #[trigger]
            is_sole_star(pattern, at) && pattern.take(at).is_prefix_of(candidate) && pattern.skip(
                at + 1,
            ).is_suffix_of(candidate);
        let before = pattern.take(at);
        let after = pattern.skip(at + 1);
        assert(pattern =~= before.push('*') + after);
        assert forall|i: int| 0 <= i < after.len() implies after[i] != '*' by {
            assert(after[i] == pattern[at + 1 + i]);
        }
    }
    assert forall|before: Seq<char>, after: Seq<char>|
        pattern == #[trigger] (before.push('*') + after) && !before.contains('*')
            && !after.contains('*') && before.is_prefix_of(candidate) && after.is_suffix_of(
            candidate,
        ) implies wildcard_matches(pattern, candidate) by {
        law_single_star(before, after, candidate);
    }
}

/// A rule allows a request exactly where a pattern of its origins matches the origin, its methods
/// name the method or `*`, and each requested header is matched by a pattern of its headers.
pub proof fn law_rule_allows_through_its_lists(
    rule: RuleModel,
    origin: Seq<char>,
    method: Seq<char>,
    headers: Seq<Seq<char>>,
)
    ensures
        rule_allows(rule, origin, method, headers) <==> {
            &&& exists|p: Seq<char>|
                rule.allow_origins.contains(p) && #[trigger] wildcard_matches(p, origin)
            &&& rule.allow_methods.contains(method) || rule.allow_methods.contains("*"@)
            &&& forall|h: Seq<char>| #[trigger]
                headers.contains(h) ==> exists|p: Seq<char>|
                    rule.allow_headers.contains(p) && #[trigger] wildcard_matches(p, h)
        },
{
    lemma_any_matches(rule.allow_origins, origin);
    assert forall|h: Seq<char>|
        any_matches(rule.allow_headers, h) <==> exists|p: Seq<char>|
            rule.allow_headers.contains(p) && #[trigger] wildcard_matches(p, h) by {
        lemma_any_matches(rule.allow_headers, h);
    }
    if method_allowed(rule.allow_methods, method) {
        let i = choose|i: int|
            0 <= i < rule.allow_methods.len() && (#[trigger] rule.allow_methods[i] == "*"@
                || rule.allow_methods[i] == method);
        assert(rule.allow_methods.contains(rule.allow_methods[i]));
    }
    if rule_allows(rule, origin, method, headers) {
        assert forall|h: Seq<char>| #[trigger] headers.contains(h) implies any_matches(
            rule.allow_headers,
            h,
        ) by {
            let i = choose|i: int| 0 <= i < headers.len() && headers[i] == h;
            assert(any_matches(rule.allow_headers, headers[i]));
        }
    }
    if forall|h: Seq<char>| #[trigger]
        headers.contains(h) ==> exists|p: Seq<char>|
            rule.allow_headers.contains(p) && #[trigger] wildcard_matches(p, h) {
        assert forall|i: int| 0 <= i < headers.len() implies any_matches(
            rule.allow_headers,
            #[trigger] headers[i],
        ) by {
            assert(headers.contains(headers[i]));
        }
    }
}

proof fn lemma_any_matches(patterns: Seq<Seq<char>>, candidate: Seq<char>)
    ensures
        any_matches(patterns, candidate) <==> exists|p: Seq<char>|
            patterns.contains(p) && #[trigger] wildcard_matches(p, candidate),
{
    if any_matches(patterns, candidate) {
        let i = choose|i: int|
            0 <= i < patterns.len() && wildcard_matches(#[trigger] patterns[i], candidate);
        assert(patterns.contains(patterns[i]));
    }
    if exists|p: Seq<char>| patterns.contains(p) && #[trigger] wildcard_matches(p, candidate) {
        let p = choose|p: Seq<char>|
            patterns.contains(p) && #[trigger] wildcard_matches(p, candidate);
        let i = choose|i: int| 0 <= i < patterns.len() && patterns[i] == p;
        assert(wildcard_matches(patterns[i], candidate));
    }
}

/// A rule whose origins have no `*` and do not name the origin does not allow the request; nor
/// does one whose headers have no `*` and do not name one of the requested headers, or one whose
/// methods name neither the method nor `*`.
pub proof fn law_what_is_not_listed_is_not_allowed(
    rule: RuleModel,
    origin: Seq<char>,
    method: Seq<char>,
    headers: Seq<Seq<char>>,
    header: Seq<char>,
)
    requires
        ({
            ||| forall|i: int|
                0 <= i < rule.allow_origins.len() ==> !(#[trigger] rule.allow_origins[i]).contains(
                    '*',
                ) && rule.allow_origins[i] != origin
            ||| !rule.allow_methods.contains(method) && !rule.allow_methods.contains("*"@)
            ||| headers.contains(header) && forall|i: int|
                0 <= i < rule.allow_headers.len() ==> !(#[trigger] rule.allow_headers[i]).contains(
                    '*',
                ) && rule.allow_headers[i] != header
        }),
    ensures
        !rule_allows(rule, origin, method, headers),
{
    law_rule_allows_through_its_lists(rule, origin, method, headers);
}

/// What is listed is allowed: a rule that names the origin, the method and each requested header,
/// all of them without `*`, allows the request.
pub proof fn law_what_is_listed_is_allowed(
    rule: RuleModel,
    origin: Seq<char>,
    method: Seq<char>,
    headers: Seq<Seq<char>>,
)
    requires
        rule.allow_origins.contains(origin),
        !origin.contains('*'),
        rule.allow_methods.contains(method),
        forall|i: int|
            0 <= i < headers.len() ==> rule.allow_headers.contains(#[trigger] headers[i])
                && !headers[i].contains('*'),
    ensures
        rule_allows(rule, origin, method, headers),
{
    assert(wildcard_matches(origin, origin));
    assert forall|h: Seq<char>| #[trigger] headers.contains(h) implies exists|p: Seq<char>|
        rule.allow_headers.contains(p) && #[trigger] wildcard_matches(p, h) by {
        let i = choose|i: int| 0 <= i < headers.len() && headers[i] == h;
        assert(rule.allow_headers.contains(headers[i]));
        assert(wildcard_matches(h, h));
    }
    law_rule_allows_through_its_lists(rule, origin, method, headers);
}

/// A rule with a single pattern for its origins, which allows all methods, allows a request
/// without headers exactly from the origins that the pattern matches: itself where it has no `*`,
/// and what starts with the part before its only `*` and ends with the part after it.
pub proof fn law_rule_with_one_origin(
    rule: RuleModel,
    plain: Seq<char>,
    before: Seq<char>,
    after: Seq<char>,
    origin: Seq<char>,
    method: Seq<char>,
)
    requires
        rule.allow_methods.contains("*"@),
        !plain.contains('*'),
        !before.contains('*'),
        !after.contains('*'),
    ensures
        rule.allow_origins == seq![plain] ==> (rule_allows(rule, origin, method, Seq::empty())
            <==> origin == plain),
        rule.allow_origins == seq![before.push('*') + after] ==> (rule_allows(
            rule,
            origin,
            method,
            Seq::empty(),
        ) <==> before.is_prefix_of(origin) && after.is_suffix_of(origin)),
{
    law_rule_allows_through_its_lists(rule, origin, method, Seq::empty());
    law_single_star(before, after, origin);
    if rule.allow_origins == seq![plain] {
        assert(rule.allow_origins[0] == plain);
        assert(wildcard_matches(plain, origin) <==> origin == plain);
    }
    if rule.allow_origins == seq![before.push('*') + after] {
        assert(rule.allow_origins[0] == before.push('*') + after);
    }
}

/// A rule with a single pattern for its headers allows a request for one header, of those that it
/// allows otherwise, exactly where the pattern matches the header.
pub proof fn law_rule_with_one_header(
    rule: RuleModel,
    plain: Seq<char>,
    before: Seq<char>,
    after: Seq<char>,
    origin: Seq<char>,
    method: Seq<char>,
    header: Seq<char>,
)
    requires
        rule_allows(rule, origin, method, Seq::empty()),
        !plain.contains('*'),
        !before.contains('*'),
        !after.contains('*'),
    ensures
        rule.allow_headers == seq![plain] ==> (rule_allows(rule, origin, method, seq![header])
            <==> header == plain),
        rule.allow_headers == seq![before.push('*') + after] ==> (rule_allows(
            rule,
            origin,
            method,
            seq![header],
        ) <==> before.is_prefix_of(header) && after.is_suffix_of(header)),
{
    law_rule_allows_through_its_lists(rule, origin, method, Seq::empty());
    law_rule_allows_through_its_lists(rule, origin, method, seq![header]);
    law_single_star(before, after, header);
    assert(seq![header][0] == header);
    assert(seq![header].contains(header));
    if rule.allow_headers == seq![plain] {
        assert(rule.allow_headers[0] == plain);
        assert(wildcard_matches(plain, header) <==> header == plain);
    }
    if rule.allow_headers == seq![before.push('*') + after] {
        assert(rule.allow_headers[0] == before.push('*') + after);
    }
}

/// A rule that names `*` for its origins, its methods and its headers allows every request.
pub proof fn law_all_wildcards_allow_everything(
    rule: RuleModel,
    origin: Seq<char>,
    method: Seq<char>,
    headers: Seq<Seq<char>>,
)
    requires
        rule.allow_origins.contains("*"@),
        rule.allow_methods.contains("*"@),
        rule.allow_headers.contains("*"@),
    ensures
        rule_allows(rule, origin, method, headers),
{
    let i = choose|i: int| 0 <= i < rule.allow_origins.len() && rule.allow_origins[i] == "*"@;
    law_star_matches_everything(origin);
    assert(wildcard_matches(rule.allow_origins[i], origin));
    let k = choose|k: int| 0 <= k < rule.allow_headers.len() && rule.allow_headers[k] == "*"@;
    assert forall|h: int| 0 <= h < headers.len() implies any_matches(
        rule.allow_headers,
        #[trigger] headers[h],
    ) by {
        law_star_matches_everything(headers[h]);
        assert(wildcard_matches(rule.allow_headers[k], headers[h]));
    }
}

/// A request that asks for no headers is allowed whatever headers the rule allows.
pub proof fn law_no_headers_asked_for(rule: RuleModel, origin: Seq<char>, method: Seq<char>)
    ensures
        rule_allows(rule, origin, method, Seq::empty()) <==> any_matches(rule.allow_origins, origin)
            && method_allowed(rule.allow_methods, method),
{
}

/// All headers that a request asks for must be allowed: two lists are allowed together exactly
/// where each of them is allowed.
pub proof fn law_every_header_counts(
    rule: RuleModel,
    origin: Seq<char>,
    method: Seq<char>,
    some: Seq<Seq<char>>,
    others: Seq<Seq<char>>,
)
    ensures
        rule_allows(rule, origin, method, some + others) <==> rule_allows(
            rule,
            origin,
            method,
            some,
        ) && rule_allows(rule, origin, method, others),
{
    let all = some + others;
    if rule_allows(rule, origin, method, all) {
        assert forall|i: int| 0 <= i < some.len() implies any_matches(
            rule.allow_headers,
            #[trigger] some[i],
        ) by {
            assert(all[i] == some[i]);
        }
        assert forall|i: int| 0 <= i < others.len() implies any_matches(
            rule.allow_headers,
            #[trigger] others[i],
        ) by {
            assert(all[some.len() + i] == others[i]);
        }
    }
}

/// A rule that allows more origins, methods and headers allows more requests.
pub proof fn law_longer_lists_allow_more(
    rule: RuleModel,
    wider: RuleModel,
    origin: Seq<char>,
    method: Seq<char>,
    headers: Seq<Seq<char>>,
)
    requires
        forall|x: Seq<char>|
            rule.allow_origins.contains(x) ==> #[trigger] wider.allow_origins.contains(x),
        forall|x: Seq<char>|
            rule.allow_methods.contains(x) ==> #[trigger] wider.allow_methods.contains(x),
        forall|x: Seq<char>|
            rule.allow_headers.contains(x) ==> #[trigger] wider.allow_headers.contains(x),
        rule_allows(rule, origin, method, headers),
    ensures
        rule_allows(wider, origin, method, headers),
{
    lemma_more_patterns(rule.allow_origins, wider.allow_origins, origin);
    let m = choose|i: int|
        0 <= i < rule.allow_methods.len() && (#[trigger] rule.allow_methods[i] == "*"@
            || rule.allow_methods[i] == method);
    assert(wider.allow_methods.contains(rule.allow_methods[m]));
    assert forall|i: int| 0 <= i < headers.len() implies any_matches(
        wider.allow_headers,
        #[trigger] headers[i],
    ) by {
        lemma_more_patterns(rule.allow_headers, wider.allow_headers, headers[i]);
    }
}

proof fn lemma_more_patterns(
    patterns: Seq<Seq<char>>,
    more: Seq<Seq<char>>,
    candidate: Seq<char>,
)
    requires
        forall|x: Seq<char>| patterns.contains(x) ==> #[trigger] more.contains(x),
        any_matches(patterns, candidate),
    ensures
        any_matches(more, candidate),
{
    let i = choose|i: int|
        0 <= i < patterns.len() && wildcard_matches(#[trigger] patterns[i], candidate);
    assert(more.contains(patterns[i]));
    let j = choose|j: int| 0 <= j < more.len() && more[j] == patterns[i];
    assert(wildcard_matches(more[j], candidate));
}

/// The rule that decides is the first one that allows the request; there is none exactly where no
/// rule allows it.
pub proof fn law_first_match_decides(
    rules: Seq<RuleModel>,
    origin: Seq<char>,
    method: Seq<char>,
    headers: Seq<Seq<char>>,
)
    ensures
        forall|at: int| #[trigger]
            is_first_match(rules, at, origin, method, headers) <==> first_match(
                rules,
                origin,
                method,
                headers,
            ) == Some(at),
        forall|at: int|
            #![trigger rules[at]]
            first_match(rules, origin, method, headers) == Some(at) <==> {
                &&& 0 <= at < rules.len()
                &&& rule_allows(rules[at], origin, method, headers)
                &&& forall|i: int|
                    0 <= i < at ==> !rule_allows(#[trigger] rules[i], origin, method, headers)
            },
        first_match(rules, origin, method, headers) is None <==> forall|i: int|
            0 <= i < rules.len() ==> !rule_allows(#[trigger] rules[i], origin, method, headers),
{
    assert forall|at: int|
        #![trigger rules[at]]
        (0 <= at < rules.len() && rule_allows(rules[at], origin, method, headers) && (forall|i: int|
            0 <= i < at ==> !rule_allows(#[trigger] rules[i], origin, method, headers))) implies
        first_match(rules, origin, method, headers) == Some(at) by {
        assert(is_first_match(rules, at, origin, method, headers));
    }
    if first_match(rules, origin, method, headers) is None {
        assert forall|i: int| 0 <= i < rules.len() implies !rule_allows(
            #[trigger] rules[i],
            origin,
            method,
            headers,
        ) by {
            lemma_none_before(rules, i + 1, origin, method, headers);
        }
    }
}

/// Rules are tried in their order: the rules that come behind those that allow a request make no
/// difference, and behind rules that do not allow it they decide as if they stood alone.
pub proof fn law_rules_are_tried_in_order(
    rules: Seq<RuleModel>,
    more: Seq<RuleModel>,
    origin: Seq<char>,
    method: Seq<char>,
    headers: Seq<Seq<char>>,
)
    ensures
        first_match(rules + more, origin, method, headers) == match first_match(
            rules,
            origin,
            method,
            headers,
        ) {
            Some(at) => Some(at),
            None => match first_match(more, origin, method, headers) {
                Some(at) => Some(rules.len() + at),
                None => None,
            },
        },
{
    let all = rules + more;
    law_first_match_decides(rules, origin, method, headers);
    law_first_match_decides(more, origin, method, headers);
    law_first_match_decides(all, origin, method, headers);
    if let Some(at) = first_match(rules, origin, method, headers) {
        assert(rules[at] == all[at]);
        assert forall|i: int| 0 <= i < at implies !rule_allows(
            #[trigger] all[i],
            origin,
            method,
            headers,
        ) by {
            assert(all[i] == rules[i]);
        }
    } else {
        assert forall|i: int| 0 <= i < rules.len() implies !rule_allows(
            #[trigger] all[i],
            origin,
            method,
            headers,
        ) by {
            assert(all[i] == rules[i]);
        }
        if let Some(at) = first_match(more, origin, method, headers) {
            let here = rules.len() + at;
            assert(more[at] == all[here]);
            assert forall|i: int| 0 <= i < here implies !rule_allows(
                #[trigger] all[i],
                origin,
                method,
                headers,
            ) by {
                if i >= rules.len() {
                    assert(all[i] == more[i - rules.len()]);
                }
            }
        } else {
            assert forall|i: int| 0 <= i < all.len() implies !rule_allows(
                #[trigger] all[i],
                origin,
                method,
                headers,
            ) by {
                if i >= rules.len() {
                    assert(all[i] == more[i - rules.len()]);
                }
            }
        }
    }
}

proof fn lemma_none_before(
    rules: Seq<RuleModel>,
    end: int,
    origin: Seq<char>,
    method: Seq<char>,
    headers: Seq<Seq<char>>,
)
    requires
        0 <= end <= rules.len(),
        forall|at: int| !is_first_match(rules, at, origin, method, headers),
    ensures
        forall|i: int|
            0 <= i < end ==> !rule_allows(#[trigger] rules[i], origin, method, headers),
    decreases end,
{
    if end > 0 {
        lemma_none_before(rules, end - 1, origin, method, headers);
        assert(!is_first_match(rules, end - 1, origin, method, headers));
    }
}

/// The pieces of a text, with commas put back between them, are the text, and none of them holds
/// a comma.
pub proof fn law_pieces_make_up_the_text(text: Seq<char>)
    ensures
        comma_pieces(text).len() > 0,
        joined(comma_pieces(text), seq![',']) == text,
        forall|i: int| 0 <= i < comma_pieces(text).len() ==> !(#[trigger] comma_pieces(text)[i]).contains(','),
    decreases text.len(),
{
    text.index_of_first_ensures(',');
    match text.index_of_first(',') {
        None => {
            assert(comma_pieces(text) =~= seq![text]);
            assert(comma_pieces(text).drop_first().len() == 0);
        },
        Some(at) => {
            let rest = text.skip(at + 1);
            law_pieces_make_up_the_text(rest);
            let pieces = comma_pieces(text);
            assert(pieces =~= seq![text.take(at)] + comma_pieces(rest));
            assert(pieces.drop_first() =~= comma_pieces(rest));
            assert(joined(pieces, seq![',']) == text.take(at) + (seq![','] + rest));
            assert(text =~= text.take(at) + (seq![','] + rest));
            assert forall|i: int| 0 <= i < pieces.len() implies !(#[trigger] pieces[i]).contains(',') by {
                if i > 0 {
                    assert(pieces[i] == comma_pieces(rest)[i - 1]);
                }
            }
        },
    }
}

/// Trimming takes nothing but blanks off the ends of a text, and leaves none there.
pub proof fn law_trimming_takes_the_outer_blanks(text: Seq<char>)
    ensures
        exists|from: int, to: int|
            0 <= from <= to <= text.len() && trimmed(text) == #[trigger] text.subrange(from, to) && (
            forall|i: int|
                0 <= i < from || to <= i < text.len() ==> #[trigger] text[i] == ' ' || text[i]
                    == '\t'),
        trimmed(text).len() > 0 ==> {
            &&& trimmed(text).first() != ' '
            &&& trimmed(text).first() != '\t'
            &&& trimmed(text).last() != ' '
            &&& trimmed(text).last() != '\t'
        },
{
    let from = lemma_leading(text);
    let core = without_leading_blanks(text);
    let to = lemma_trailing(core);
    assert(trimmed(text) =~= text.subrange(from, from + to));
    assert forall|i: int| 0 <= i < from || from + to <= i < text.len() implies is_blank(
        #[trigger] text[i],
    ) by {
        if i >= from + to {
            assert(core[i - from] == text[i]);
        }
    }
    if trimmed(text).len() > 0 {
        assert(trimmed(text).first() == core.first());
    }
}

proof fn lemma_leading(text: Seq<char>) -> (from: int)
    ensures
        0 <= from <= text.len(),
        without_leading_blanks(text) == text.subrange(from, text.len() as int),
        forall|i: int| 0 <= i < from ==> is_blank(#[trigger] text[i]),
        from < text.len() ==> !is_blank(text[from]),
    decreases text.len(),
{
    if text.len() > 0 && is_blank(text.first()) {
        let rest = text.drop_first();
        let from = lemma_leading(rest);
        assert(rest.subrange(from, rest.len() as int) =~= text.subrange(
            from + 1,
            text.len() as int,
        ));
        assert forall|i: int| 0 <= i < from + 1 implies is_blank(#[trigger] text[i]) by {
            if i > 0 {
                assert(rest[i - 1] == text[i]);
            }
        }
        from + 1
    } else {
        assert(text.subrange(0, text.len() as int) =~= text);
        0
    }
}

proof fn lemma_trailing(text: Seq<char>) -> (to: int)
    ensures
        0 <= to <= text.len(),
        without_trailing_blanks(text) == text.subrange(0, to),
        forall|i: int| to <= i < text.len() ==> is_blank(#[trigger] text[i]),
        to > 0 ==> !is_blank(text[to - 1]),
    decreases text.len(),
{
    if text.len() > 0 && is_blank(text.last()) {
        let rest = text.drop_last();
        let to = lemma_trailing(rest);
        assert(rest.subrange(0, to) =~= text.subrange(0, to));
        assert forall|i: int| to <= i < text.len() implies is_blank(#[trigger] text[i]) by {
            if i < rest.len() {
                assert(rest[i] == text[i]);
            }
        }
        to
    } else {
        assert(text.subrange(0, text.len() as int) =~= text);
        text.len() as int
    }
}

} // verus!
