//! Weighted search over the components of the loaded collections.

use crate::catalog::{
    icon_of, name_text, share, summary_text, Collection, Icon, MetadataStore, StoreEntry,
};
use crate::ranking::{keeps_ties, ranked, rearranged, sort_ranked, Ranked};
use std::sync::Arc;
use vstd::prelude::*;

verus! {

#[verifier::external_type_specification]
#[verifier::external_body]
pub struct ExRegex(regex::Regex);

#[verifier::external_type_specification]
#[verifier::external_body]
pub struct ExRegexError(regex::Error);

/// Whether `c` has a meaning of its own in a pattern.
pub open spec fn is_meta(c: char) -> bool {
    c == '\\' || c == '.' || c == '+' || c == '*' || c == '?' || c == '(' || c == ')' || c == '|'
        || c == '[' || c == ']' || c == '{' || c == '}' || c == '^' || c == '$' || c == '#'
        || c == '&' || c == '-' || c == '~'
}

/// The pattern source that matches `text` literally: the characters of
/// `text` in order, each one that has a meaning in a pattern behind a
/// backslash.
pub open spec fn escaped(text: Seq<char>) -> Seq<char>
    decreases text.len(),
{
    if text.len() == 0 {
        Seq::empty()
    } else if is_meta(text.last()) {
        escaped(text.drop_last()).push('\\').push(text.last())
    } else {
        escaped(text.drop_last()).push(text.last())
    }
}

/// The first match in `haystack` of the pattern that `source` compiles to
/// when case is ignored, as the byte offsets at which it starts and ends;
/// `None` where nothing matches.
pub uninterp spec fn leftmost_match(source: Seq<char>, haystack: Seq<char>) -> Option<(int, int)>;

/// A compiled case-insensitive pattern. Its view is the pattern's source.
pub struct Matcher {
    source: String,
    regex: regex::Regex,
}

/// Why a query could not be turned into a matcher.
pub struct PatternError {
    /// The pattern source that did not compile.
    pub source: String,
    /// What the pattern compiler reported.
    pub message: String,
}

/// The backend name under which results from the metadata store are filed.
/// Such a result belongs to no package backend, so the name is a fixed one
/// of the library's own choosing.
pub open spec fn store_backend() -> Seq<char> {
    seq!['a', 'p', 'p', 's', 't', 'r', 'e', 'a', 'm']
}

/// One match of a search: the component found, what is shown of it, and how
/// well it matched.
pub struct SearchResult {
    pub backend_name: String,
    /// The identifier of the collection that holds the component.
    pub id: String,
    pub icon: Icon,
    pub name: String,
    pub summary: String,
    pub collection: Arc<Collection>,
    /// The place of the collection in the store.
    pub collection_index: usize,
    /// The place of the component in its collection.
    pub component_index: usize,
    /// The relevance tier; lower is more relevant.
    pub weight: usize,
}

/// The length of `text` in bytes.
pub open spec fn byte_len(text: Seq<char>) -> int {
    vstd::utf8::encode_utf8(text).len() as int
}

/// The tier of a match within one text of `len` bytes: 0 where the match is
/// the whole text, 1 where it starts the text, 2 where it stands elsewhere.
pub open spec fn tier_of(found: Option<(int, int)>, len: int) -> Option<nat> {
    match found {
        Some((start, end)) => Some(
            if start == 0 {
                if end == len {
                    0nat
                } else {
                    1nat
                }
            } else {
                2nat
            },
        ),
        None => None,
    }
}

/// The weight of a component from the matches in its name and its summary:
/// the tier of the name's match, else 3 more than the tier of the summary's,
/// else none.
pub open spec fn weight_of(
    name_found: Option<(int, int)>,
    name_len: int,
    summary_found: Option<(int, int)>,
    summary_len: int,
) -> Option<nat> {
    match tier_of(name_found, name_len) {
        Some(tier) => Some(tier),
        None => match tier_of(summary_found, summary_len) {
            Some(tier) => Some(tier + 3),
            None => None,
        },
    }
}

/// The weight that the pattern `source` gives a component with this name and
/// this summary.
pub open spec fn component_weight(source: Seq<char>, name: Seq<char>, summary: Seq<char>) -> Option<
    nat,
> {
    weight_of(
        leftmost_match(source, name),
        byte_len(name),
        leftmost_match(source, summary),
        byte_len(summary),
    )
}

/// The offsets of a match as mathematical integers.
pub open spec fn span_of(found: Option<(usize, usize)>) -> Option<(int, int)> {
    match found {
        Some((start, end)) => Some((start as int, end as int)),
        None => None,
    }
}

/// A weight as a natural number.
pub open spec fn weight_value(weight: Option<usize>) -> Option<nat> {
    match weight {
        Some(w) => Some(w as nat),
        None => None,
    }
}

/// Calls `regex::escape`. Trusted: the result holds the characters of `text`
/// in order, with a backslash in front of each of the eighteen that have a
/// meaning in a pattern.
#[verifier::external_body]
fn escape(text: &str) -> (r: String)
    ensures
        r@ == escaped(text@),
{
    regex::escape(text)
}

/// Calls `regex::RegexBuilder::new`, `case_insensitive(true)` and `build`,
/// and puts the compiled pattern and its source into a `Matcher`. Trusted:
/// a matcher that comes back records `source`. No other place makes a
/// `Matcher`, so each one holds the pattern that its source compiled to.
/// When the pattern compiles is not claimed. Besides the syntax a size limit
/// decides: the builder of the automaton compares the number of its states,
/// multiplied by the size of one state in memory, with the limit. That size
/// is 32 bytes with 64-bit pointers and 16 with 32-bit ones, so one source
/// may compile on one machine and fail on another.
#[verifier::external_body]
fn compile(source: &str) -> (r: Result<Matcher, regex::Error>)
    ensures
        r matches Ok(matcher) ==> matcher@ == source@,
{
    match regex::RegexBuilder::new(source).case_insensitive(true).build() {
        Ok(regex) => Ok(Matcher { source: source.to_string(), regex }),
        Err(error) => Err(error),
    }
}

/// Calls `to_string` on a `regex::Error`. Nothing is claimed of the text.
#[verifier::external_body]
fn describe(error: &regex::Error) -> (r: String) {
    error.to_string()
}

/// Calls `regex::Regex::find` and reads `start` and `end` of the match.
/// Trusted: the result is the first match of the matcher's pattern in
/// `haystack`; a match starts no later than it ends, and ends within the
/// haystack. The pattern is the one that the matcher's source compiled to:
/// `compile` alone makes matchers.
#[verifier::external_body]
fn find(matcher: &Matcher, haystack: &str) -> (r: Option<(usize, usize)>)
    ensures
        span_of(r) == leftmost_match(matcher@, haystack@),
        r matches Some((start, end)) ==> start <= end <= byte_len(haystack@),
{
    match matcher.regex.find(haystack) {
        Some(found) => Some((found.start(), found.end())),
        None => None,
    }
}

impl View for Matcher {
    type V = Seq<char>;

    closed spec fn view(&self) -> Seq<char> {
        self.source@
    }
}

impl Matcher {
    /// Compiles a case-insensitive matcher for the literal text `query`.
    /// Either way the pattern is the escaped query: the matcher holds it, or
    /// the error names it. Whether it compiles is the pattern compiler's to
    /// decide, on this machine's size limit.
    pub fn new(query: &str) -> (r: Result<Matcher, PatternError>)
        ensures
            match r {
                Ok(matcher) => matcher@ == escaped(query@),
                Err(error) => error.source@ == escaped(query@),
            },
    {
        let source = escape(query);
        let built = compile(source.as_str());
        outcome_of(source, built)
    }

    /// The source of the compiled pattern.
    pub fn source(&self) -> (r: &str)
        ensures
            r@ == self@,
    {
        self.source.as_str()
    }
}

/// What the outcome of compiling `source` stands for: the matcher as it
/// is, or the error with the source that did not compile.
fn outcome_of(source: String, built: Result<Matcher, regex::Error>) -> (r: Result<
    Matcher,
    PatternError,
>)
    ensures
        built is Ok <==> r is Ok,
        built matches Ok(matcher) ==> r == Ok::<Matcher, PatternError>(matcher),
        r matches Err(error) ==> error.source@ == source@,
{
    match built {
        Ok(matcher) => Ok(matcher),
        Err(error) => {
            let message = describe(&error);
            Err(PatternError { source, message })
        },
    }
}

/// The tier of a match within one text of `len` bytes.
pub fn tier(found: Option<(usize, usize)>, len: usize) -> (r: Option<usize>)
    ensures
        weight_value(r) == tier_of(span_of(found), len as int),
{
    match found {
        Some((start, end)) => {
            if start == 0 {
                if end == len {
                    Some(0)
                } else {
                    Some(1)
                }
            } else {
                Some(2)
            }
        },
        None => None,
    }
}

/// The weight of a component from the matches found in its name and in its
/// summary: 0, 1 or 2 for a match in the name, 3, 4 or 5 for one in the
/// summary only, none where neither matched.
pub fn weight(
    name_found: Option<(usize, usize)>,
    name_len: usize,
    summary_found: Option<(usize, usize)>,
    summary_len: usize,
) -> (r: Option<usize>)
    ensures
        weight_value(r) == weight_of(
            span_of(name_found),
            name_len as int,
            span_of(summary_found),
            summary_len as int,
        ),
        r matches Some(w) ==> w <= 5,
{
    match tier(name_found, name_len) {
        Some(t) => Some(t),
        None => match tier(summary_found, summary_len) {
            Some(t) => Some(t + 3),
            None => None,
        },
    }
}

/// The weight that `matcher` gives a component with this name and summary.
/// The summary is searched only where the name has no match.
pub fn weigh(matcher: &Matcher, name: &str, summary: &str) -> (r: Option<usize>)
    ensures
        weight_value(r) == component_weight(matcher@, name@, summary@),
{
    let name_found = find(matcher, name);
    let summary_found = match name_found {
        Some(_) => None,
        None => find(matcher, summary),
    };
    weight(name_found, byte_length(name), summary_found, byte_length(summary))
}

/// The length of `text` in bytes.
pub fn byte_length(text: &str) -> (n: usize)
    ensures
        n == byte_len(text@),
{
    text.as_bytes().len()
}

impl Ranked for SearchResult {
    open spec fn rank_weight(&self) -> nat {
        self.weight as nat
    }

    open spec fn rank_name(&self) -> Seq<char> {
        self.name@
    }

    fn weight(&self) -> (w: usize) {
        self.weight
    }

    fn name(&self) -> (n: &str) {
        self.name.as_str()
    }
}

/// Whether `store` has a component at place `k` of collection `c` that the
/// pattern `source` matches for `locale`.
pub open spec fn matches_at(
    store: Seq<StoreEntry>,
    source: Seq<char>,
    locale: Seq<char>,
    c: int,
    k: int,
) -> bool {
    &&& 0 <= c < store.len()
    &&& 0 <= k < store[c].collection.components@.len()
    &&& component_weight(
        source,
        name_text(&store[c].collection.components@[k], locale),
        summary_text(&store[c].collection.components@[k], locale),
    ) is Some
}

/// Whether `result` is the search result for the component that it points
/// to: that component matches, with the result's weight, and the result holds
/// the component's texts for `locale` and its collection.
pub open spec fn is_hit(
    store: Seq<StoreEntry>,
    source: Seq<char>,
    locale: Seq<char>,
    result: &SearchResult,
) -> bool {
    let c = result.collection_index as int;
    let k = result.component_index as int;
    &&& matches_at(store, source, locale, c, k)
    &&& component_weight(
        source,
        name_text(&store[c].collection.components@[k], locale),
        summary_text(&store[c].collection.components@[k], locale),
    ) == Some(result.weight as nat)
    &&& result.name@ == name_text(&store[c].collection.components@[k], locale)
    &&& result.summary@ == summary_text(&store[c].collection.components@[k], locale)
    &&& result.icon == icon_of(
        store[c].collection.origin,
        store[c].collection.components@[k].icon,
    )
    &&& result.id@ == store[c].id@
    &&& result.collection == store[c].collection
    &&& result.backend_name@ == store_backend()
}

/// Whether `result` points to the component at place `k` of collection `c`.
pub open spec fn located(result: &SearchResult, c: int, k: int) -> bool {
    result.collection_index == c && result.component_index == k
}

/// Whether place `k` of collection `c` comes before place `k2` of `c2` when
/// the store is walked.
pub open spec fn walked_before(c: int, k: int, c2: int, k2: int) -> bool {
    c < c2 || (c == c2 && k < k2)
}

/// Whether one of `hits` points to the component at place `k` of collection `c`.
pub open spec fn covers(hits: Seq<SearchResult>, c: int, k: int) -> bool {
    exists|i: int| 0 <= i < hits.len() && located(&#[trigger] hits[i], c, k)
}

/// Whether `hits` are the results of walking the store: one result for each
/// component that matches and for no other, in the order of the walk.
pub open spec fn scanned(
    store: Seq<StoreEntry>,
    source: Seq<char>,
    locale: Seq<char>,
    hits: Seq<SearchResult>,
) -> bool {
    &&& forall|i: int| 0 <= i < hits.len() ==> is_hit(store, source, locale, &#[trigger] hits[i])
    &&& forall|i: int, j: int|
        #![trigger hits[i], hits[j]]
        0 <= i < j < hits.len() ==> walked_before(
            hits[i].collection_index as int,
            hits[i].component_index as int,
            hits[j].collection_index as int,
            hits[j].component_index as int,
        )
    &&& forall|c: int, k: int| #[trigger]
        matches_at(store, source, locale, c, k) ==> covers(hits, c, k)
}

/// Whether `hits` are the results of walking the store up to, and without,
/// place `k` of collection `c`.
spec fn scanned_until(
    store: Seq<StoreEntry>,
    source: Seq<char>,
    locale: Seq<char>,
    hits: Seq<SearchResult>,
    c: int,
    k: int,
) -> bool {
    &&& forall|i: int| 0 <= i < hits.len() ==> is_hit(store, source, locale, &#[trigger] hits[i])
    &&& forall|i: int|
        0 <= i < hits.len() ==> walked_before(
            (#[trigger] hits[i]).collection_index as int,
            hits[i].component_index as int,
            c,
            k,
        )
    &&& forall|i: int, j: int|
        #![trigger hits[i], hits[j]]
        0 <= i < j < hits.len() ==> walked_before(
            hits[i].collection_index as int,
            hits[i].component_index as int,
            hits[j].collection_index as int,
            hits[j].component_index as int,
        )
    &&& forall|c2: int, k2: int| #[trigger]
        matches_at(store, source, locale, c2, k2) && walked_before(c2, k2, c, k) ==> covers(
            hits,
            c2,
            k2,
        )
}

proof fn lemma_covers_kept(hits: Seq<SearchResult>, hit: SearchResult, c: int, k: int)
    requires
        covers(hits, c, k),
    ensures
        covers(hits.push(hit), c, k),
{
    let i = choose|i: int| 0 <= i < hits.len() && located(&#[trigger] hits[i], c, k);
    assert(hits.push(hit)[i] == hits[i]);
    assert(located(&hits.push(hit)[i], c, k));
}

proof fn lemma_scan_extends(
    store: Seq<StoreEntry>,
    source: Seq<char>,
    locale: Seq<char>,
    hits: Seq<SearchResult>,
    hit: SearchResult,
    c: int,
    k: int,
)
    requires
        scanned_until(store, source, locale, hits, c, k),
        is_hit(store, source, locale, &hit),
        located(&hit, c, k),
    ensures
        scanned_until(store, source, locale, hits.push(hit), c, k + 1),
{
    let out = hits.push(hit);
    assert forall|c2: int, k2: int| #[trigger]
        matches_at(store, source, locale, c2, k2) && walked_before(
            c2,
            k2,
            c,
            k + 1,
        ) implies covers(out, c2, k2) by {
        if walked_before(c2, k2, c, k) {
            lemma_covers_kept(hits, hit, c2, k2);
        } else {
            assert(located(&out[hits.len() as int], c2, k2));
        }
    }
}

/// Walks the store and collects, in the order of the walk, one result for
/// each component whose name or summary `matcher` matches for `locale`.
pub fn collect_hits(store: &MetadataStore, matcher: &Matcher, locale: &str) -> (hits: Vec<
    SearchResult,
>)
    ensures
        scanned(store@, matcher@, locale@, hits@),
{
    let mut hits: Vec<SearchResult> = Vec::new();
    let mut c: usize = 0;
    while c < store.len()
        invariant
            c <= store@.len(),
            scanned_until(store@, matcher@, locale@, hits@, c as int, 0),
        decreases store@.len() - c,
    {
        let entry = store.entry(c);
        let n: usize = entry.collection.components.len();
        let mut k: usize = 0;
        while k < n
            invariant
                c < store@.len(),
                *entry == store@[c as int],
                n == entry.collection.components@.len(),
                k <= n,
                scanned_until(store@, matcher@, locale@, hits@, c as int, k as int),
            decreases n - k,
        {
            let component = &entry.collection.components[k];
            let name = component.localized_name(locale);
            let summary = component.localized_summary(locale);
            match weigh(matcher, name, summary) {
                Some(weight) => {
                    proof {
                        reveal_strlit("appstream");
                        assert("appstream"@ =~= store_backend());
                    }
                    let hit = SearchResult {
                        backend_name: "appstream".to_owned(),
                        id: entry.id.clone(),
                        icon: MetadataStore::icon(&entry.collection.origin, component),
                        name: name.to_owned(),
                        summary: summary.to_owned(),
                        collection: share(&entry.collection),
                        collection_index: c,
                        component_index: k,
                        weight,
                    };
                    proof {
                        lemma_scan_extends(
                            store@,
                            matcher@,
                            locale@,
                            hits@,
                            hit,
                            c as int,
                            k as int,
                        );
                    }
                    hits.push(hit);
                },
                None => {},
            }
            k = k + 1;
        }
        c = c + 1;
    }
    hits
}

/// Searches the store: the components that `matcher` matches for `locale`,
/// ranked by weight and, within a weight, by name. Results that neither rank
/// before the other stay in the order of the walk.
pub fn search(store: &MetadataStore, matcher: &Matcher, locale: &str) -> (results: Vec<
    SearchResult,
>)
    ensures
        ranked(results@),
        exists|hits: Seq<SearchResult>, origin: Seq<int>|
            #![trigger scanned(store@, matcher@, locale@, hits), keeps_ties(results@, origin)]
            scanned(store@, matcher@, locale@, hits) && results@.to_multiset()
                == hits.to_multiset() && rearranged(hits, results@, origin) && keeps_ties(
                results@,
                origin,
            ),
{
    let mut results = collect_hits(store, matcher, locale);
    let ghost hits = results@;
    sort_ranked(&mut results);
    proof {
        let origin = choose|origin: Seq<int>|
            #![trigger keeps_ties(results@, origin)]
            rearranged(hits, results@, origin) && keeps_ties(results@, origin);
        assert(scanned(store@, matcher@, locale@, hits) && keeps_ties(results@, origin));
    }
    results
}

/// The tiers of a weight: a match in the name weighs 0 where it is the whole
/// name, 1 where it starts the name and 2 elsewhere; with no match in the
/// name, a match in the summary weighs 3, 4 or 5 in the same way; with no
/// match in either there is no weight.
pub proof fn lemma_weight_tiers(
    name_found: Option<(int, int)>,
    name_len: int,
    summary_found: Option<(int, int)>,
    summary_len: int,
)
    ensures
        name_found matches Some((start, end)) ==> weight_of(
            name_found,
            name_len,
            summary_found,
            summary_len,
        ) == Some(
            if start == 0 && end == name_len {
                0nat
            } else if start == 0 {
                1nat
            } else {
                2nat
            },
        ),
        name_found is None ==> (summary_found matches Some((start, end)) ==> weight_of(
            name_found,
            name_len,
            summary_found,
            summary_len,
        ) == Some(
            if start == 0 && end == summary_len {
                3nat
            } else if start == 0 {
                4nat
            } else {
                5nat
            },
        )),
        name_found is None && summary_found is None ==> weight_of(
            name_found,
            name_len,
            summary_found,
            summary_len,
        ) is None,
{
}

/// Every entry of a ranking of the walk's results is the result of a
/// component that matches: a component that matches neither in its name nor
/// in its summary is absent.
pub proof fn lemma_results_are_hits(
    store: Seq<StoreEntry>,
    source: Seq<char>,
    locale: Seq<char>,
    hits: Seq<SearchResult>,
    results: Seq<SearchResult>,
    i: int,
)
    requires
        scanned(store, source, locale, hits),
        results.to_multiset() == hits.to_multiset(),
        0 <= i < results.len(),
    ensures
        is_hit(store, source, locale, &results[i]),
{
    results.to_multiset_ensures();
    hits.to_multiset_ensures();
    assert(results.contains(results[i]));
    assert(results.to_multiset().count(results[i]) > 0);
    assert(hits.to_multiset().count(results[i]) > 0);
    assert(hits.contains(results[i]));
    let j = choose|j: int| 0 <= j < hits.len() && hits[j] == results[i];
    assert(is_hit(store, source, locale, &hits[j]));
}

/// Every component that matches has its result in a ranking of the walk's
/// results.
pub proof fn lemma_matches_are_found(
    store: Seq<StoreEntry>,
    source: Seq<char>,
    locale: Seq<char>,
    hits: Seq<SearchResult>,
    results: Seq<SearchResult>,
    c: int,
    k: int,
)
    requires
        scanned(store, source, locale, hits),
        results.to_multiset() == hits.to_multiset(),
        matches_at(store, source, locale, c, k),
    ensures
        covers(results, c, k),
{
    results.to_multiset_ensures();
    hits.to_multiset_ensures();
    assert(covers(hits, c, k));
    let j = choose|j: int| 0 <= j < hits.len() && located(&#[trigger] hits[j], c, k);
    assert(hits.contains(hits[j]));
    assert(hits.to_multiset().count(hits[j]) > 0);
    assert(results.to_multiset().count(hits[j]) > 0);
    assert(results.contains(hits[j]));
    let i = choose|i: int| 0 <= i < results.len() && results[i] == hits[j];
    assert(located(&results[i], c, k));
}

} // verus!
