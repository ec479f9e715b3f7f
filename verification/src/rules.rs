//! The CORS rules of a bucket, and which requests they allow.
use crate::text::{chars_of, same_text};
use crate::text::{str_texts, texts};
use vstd::prelude::*;

verus! {

/// One rule of a bucket's CORS configuration.
#[derive(Debug, PartialEq, Eq)]
pub struct CorsRule {
    /// Name that the bucket's owner gave to the rule.
    pub id: Option<String>,
    /// How long a browser may remember a preflight response.
    pub max_age_seconds: Option<u64>,
    /// Patterns of the origins that the rule is for, with at most one `*` in each.
    pub allow_origins: Vec<String>,
    /// Methods that the rule allows; `*` stands for all of them.
    pub allow_methods: Vec<String>,
    /// Patterns of the request headers that the rule allows, with at most one `*` in each.
    pub allow_headers: Vec<String>,
    /// Response headers that a script may read.
    pub expose_headers: Vec<String>,
}

/// A CORS rule, as texts.
pub struct RuleModel {
    pub id: Option<Seq<char>>,
    pub max_age_seconds: Option<u64>,
    pub allow_origins: Seq<Seq<char>>,
    pub allow_methods: Seq<Seq<char>>,
    pub allow_headers: Seq<Seq<char>>,
    pub expose_headers: Seq<Seq<char>>,
}

impl View for CorsRule {
    type V = RuleModel;

    open spec fn view(&self) -> RuleModel {
        RuleModel {
            id: match self.id {
                Some(id) => Some(id@),
                None => None,
            },
            max_age_seconds: self.max_age_seconds,
            allow_origins: texts(self.allow_origins@),
            allow_methods: texts(self.allow_methods@),
            allow_headers: texts(self.allow_headers@),
            expose_headers: texts(self.expose_headers@),
        }
    }
}

/// What the CORS logic reads of a bucket's parameters.
#[derive(Debug, PartialEq, Eq)]
pub struct BucketParams {
    /// The bucket's CORS rules in their order of precedence, if it has a CORS configuration.
    pub cors_config: Option<Vec<CorsRule>>,
}

impl View for BucketParams {
    type V = Option<Seq<RuleModel>>;

    open spec fn view(&self) -> Option<Seq<RuleModel>> {
        match self.cors_config {
            Some(rules) => Some(rule_models(rules@)),
            None => None,
        }
    }
}

/// The rules of a list, as texts.
pub open spec fn rule_models(rules: Seq<CorsRule>) -> Seq<RuleModel> {
    rules.map_values(|rule: CorsRule| rule@)
}

/// `pattern` has its one and only `*` at the index `at`.
pub open spec fn is_sole_star(pattern: Seq<char>, at: int) -> bool {
    &&& 0 <= at < pattern.len()
    &&& pattern[at] == '*'
    &&& forall|i: int| 0 <= i < pattern.len() && i != at ==> pattern[i] != '*'
}

/// A pattern without `*` matches itself alone. One with a single `*` matches what starts with
/// the part before the `*` and ends with the part after it. One with more matches nothing.
pub open spec fn wildcard_matches(pattern: Seq<char>, candidate: Seq<char>) -> bool {
    if pattern.contains('*') {
        exists|at: int| #[trigger]
            is_sole_star(pattern, at) && pattern.take(at).is_prefix_of(candidate) && pattern.skip(
                at + 1,
            ).is_suffix_of(candidate)
    } else {
        candidate == pattern
    }
}

/// Some pattern of the list matches `candidate`.
pub open spec fn any_matches(patterns: Seq<Seq<char>>, candidate: Seq<char>) -> bool {
    exists|i: int| 0 <= i < patterns.len() && wildcard_matches(#[trigger] patterns[i], candidate)
}

/// The list names `method`, or `*`.
pub open spec fn method_allowed(methods: Seq<Seq<char>>, method: Seq<char>) -> bool {
    exists|i: int| 0 <= i < methods.len() && (#[trigger] methods[i] == "*"@ || methods[i] == method)
}

/// The rule is for `origin`, allows `method` and allows each of `headers`.
pub open spec fn rule_allows(
    rule: RuleModel,
    origin: Seq<char>,
    method: Seq<char>,
    headers: Seq<Seq<char>>,
) -> bool {
    &&& any_matches(rule.allow_origins, origin)
    &&& method_allowed(rule.allow_methods, method)
    &&& forall|i: int| 0 <= i < headers.len() ==> any_matches(rule.allow_headers, #[trigger] headers[i])
}

/// The rule at `at` allows the request, and none before it does.
pub open spec fn is_first_match(
    rules: Seq<RuleModel>,
    at: int,
    origin: Seq<char>,
    method: Seq<char>,
    headers: Seq<Seq<char>>,
) -> bool {
    &&& 0 <= at < rules.len()
    &&& rule_allows(rules[at], origin, method, headers)
    &&& forall|i: int| 0 <= i < at ==> !rule_allows(#[trigger] rules[i], origin, method, headers)
}

/// The index of the first rule that allows the request, if any does.
pub open spec fn first_match(
    rules: Seq<RuleModel>,
    origin: Seq<char>,
    method: Seq<char>,
    headers: Seq<Seq<char>>,
) -> Option<int> {
    if exists|at: int| is_first_match(rules, at, origin, method, headers) {
        Some(choose|at: int| is_first_match(rules, at, origin, method, headers))
    } else {
        None
    }
}

/// Where the first `*` of a pattern stands, or the pattern's length where it has none.
fn first_star(pattern: &Vec<char>) -> (at: usize)
    ensures
        at <= pattern@.len(),
        at < pattern@.len() ==> pattern@[at as int] == '*',
        forall|i: int| 0 <= i < at ==> pattern@[i] != '*',
{
    let n: usize = pattern.len();
    for i in 0..n
        invariant
            n == pattern@.len(),
            forall|j: int| 0 <= j < i ==> pattern@[j] != '*',
    {
        if pattern[i] == '*' {
            return i;
        }
    }
    n
}

/// Whether `a` from the index `i` and `b` from the index `j` go on with the same `n` characters.
fn same_stretch(a: &Vec<char>, i: usize, b: &Vec<char>, j: usize, n: usize) -> (same: bool)
    requires
        i + n <= a.len(),
        j + n <= b.len(),
    ensures
        same == (a@.subrange(i as int, i + n) == b@.subrange(j as int, j + n)),
{
    let ghost x = a@.subrange(i as int, i + n);
    let ghost y = b@.subrange(j as int, j + n);
    for k in 0..n
        invariant
            i + n <= a.len(),
            j + n <= b.len(),
            x == a@.subrange(i as int, i + n),
            y == b@.subrange(j as int, j + n),
            forall|l: int| 0 <= l < k ==> x[l] == y[l],
    {
        if a[i + k] != b[j + k] {
            assert(x[k as int] != y[k as int]);
            return false;
        }
    }
    assert(x =~= y);
    true
}

/// Checks whether `candidate` matches the pattern `allowed_wildcard`.
pub fn wildcard_match(allowed_wildcard: &String, candidate: &str) -> (matched: bool)
    ensures
        matched == wildcard_matches(allowed_wildcard@, candidate@),
{
    let pattern = chars_of(allowed_wildcard.as_str());
    let text = chars_of(candidate);
    let at: usize = first_star(&pattern);
    if at == pattern.len() {
        assert(!pattern@.contains('*'));
        return same_text(allowed_wildcard.as_str(), candidate);
    }
    assert(pattern@.contains('*'));
    let n: usize = pattern.len();
    for i in at + 1..n
        invariant
            at < n,
            n == pattern@.len(),
            pattern@ == allowed_wildcard@,
            pattern@.contains('*'),
            pattern@[at as int] == '*',
            forall|j: int| at < j < i ==> pattern@[j] != '*',
    {
        if pattern[i] == '*' {
            assert forall|k: int| !is_sole_star(pattern@, k) by {
                assert(pattern@[i as int] == '*');
            }
            return false;
        }
    }
    assert(is_sole_star(pattern@, at as int));
    assert(forall|k: int| is_sole_star(pattern@, k) ==> k == at);
    let tail: usize = n - at - 1;
    assert(pattern@.take(at as int) =~= pattern@.subrange(0, at as int));
    assert(pattern@.skip(at + 1) =~= pattern@.subrange(at + 1, n as int));
    at <= text.len() && tail <= text.len() && same_stretch(&pattern, 0, &text, 0, at)
        && same_stretch(&pattern, at + 1, &text, text.len() - tail, tail)
}

/// Whether some pattern of the list matches `candidate`.
fn any_match(patterns: &Vec<String>, candidate: &str) -> (found: bool)
    ensures
        found == any_matches(texts(patterns@), candidate@),
{
    let n: usize = patterns.len();
    for i in 0..n
        invariant
            n == patterns@.len(),
            forall|j: int| 0 <= j < i ==> !wildcard_matches(#[trigger] texts(patterns@)[j], candidate@),
    {
        if wildcard_match(&patterns[i], candidate) {
            assert(wildcard_matches(texts(patterns@)[i as int], candidate@));
            return true;
        }
    }
    false
}

/// Whether the list names `method`, or `*`.
fn allows_method(methods: &Vec<String>, method: &str) -> (found: bool)
    ensures
        found == method_allowed(texts(methods@), method@),
{
    let n: usize = methods.len();
    for i in 0..n
        invariant
            n == methods@.len(),
            forall|j: int|
                0 <= j < i ==> #[trigger] texts(methods@)[j] != "*"@ && texts(methods@)[j] != method@,
    {
        let allowed = methods[i].as_str();
        if same_text(allowed, "*") || same_text(allowed, method) {
            assert(texts(methods@)[i as int] == allowed@);
            return true;
        }
    }
    false
}

/// Whether the rule is for `origin`, allows `method` and allows each of `request_headers`.
pub fn cors_rule_matches(rule: &CorsRule, origin: &str, method: &str, request_headers: &[&str]) -> (matched: bool)
    ensures
        matched == rule_allows(rule@, origin@, method@, str_texts(request_headers@)),
{
    if !any_match(&rule.allow_origins, origin) || !allows_method(&rule.allow_methods, method) {
        return false;
    }
    let n: usize = request_headers.len();
    for i in 0..n
        invariant
            n == request_headers@.len(),
            forall|j: int|
                0 <= j < i ==> any_matches(
                    rule@.allow_headers,
                    #[trigger] str_texts(request_headers@)[j],
                ),
    {
        if !any_match(&rule.allow_headers, request_headers[i]) {
            assert(!any_matches(rule@.allow_headers, str_texts(request_headers@)[i as int]));
            return false;
        }
    }
    true
}

/// The index of the first rule that allows the request, if any does.
pub(crate) fn first_matching_rule(
    rules: &Vec<CorsRule>,
    origin: &str,
    method: &str,
    request_headers: &[&str],
) -> (found: Option<usize>)
    ensures
        match found {
            Some(at) => at < rules@.len() && first_match(
                rule_models(rules@),
                origin@,
                method@,
                str_texts(request_headers@),
            ) == Some(at as int),
            None => first_match(
                rule_models(rules@),
                origin@,
                method@,
                str_texts(request_headers@),
            ) is None,
        },
{
    let ghost models = rule_models(rules@);
    let ghost headers = str_texts(request_headers@);
    let n: usize = rules.len();
    for i in 0..n
        invariant
            n == rules@.len(),
            models == rule_models(rules@),
            headers == str_texts(request_headers@),
            forall|j: int| 0 <= j < i ==> !rule_allows(#[trigger] models[j], origin@, method@, headers),
    {
        if cors_rule_matches(&rules[i], origin, method, request_headers) {
            assert(is_first_match(models, i as int, origin@, method@, headers));
            return Some(i);
        }
    }
    None
}

} // verus!
