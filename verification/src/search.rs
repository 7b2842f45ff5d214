//! Typo-tolerant search over named items.
//!
//! A query and a display name are compared in a normal form: in lower case
//! and without spaces. A name passes a query if each character of the query
//! occurs somewhere in the name, in whatever order. The names that pass are
//! ranked by a score that counts the characters of the query found in order
//! in the name, and that favours names which begin as the query does.
//!
//! Scores are counted in half points, so that they stay whole numbers: a
//! score of `9` stands for four and a half points.

use crate::m3u::{channel_models, group_models, Channel, ChannelModel, Group, GroupModel, Named};
use crate::text::{
    is_blank, is_whitespace, lemma_blank_means_all_whitespace, to_chars, trimmed,
};
use vstd::prelude::*;

verus! {

/// The lower-case form of a text, as `str::to_lowercase` computes it.
pub uninterp spec fn lowercase(s: Seq<char>) -> Seq<char>;

/// `str::to_lowercase` of the standard library. Its result is determined by
/// the characters of the string alone, and is known here only by its name,
/// `lowercase`.
pub assume_specification[ str::to_lowercase ](s: &str) -> (lower: String)
    ensures
        lower@ == lowercase(s@),
;

/// A text without its space characters. Other white space stays.
pub open spec fn without_spaces(s: Seq<char>) -> Seq<char> {
    s.filter(|c: char| c != ' ')
}

/// The normal form in which queries and names are compared: in lower case
/// and without spaces.
pub open spec fn normalized(s: Seq<char>) -> Seq<char> {
    without_spaces(lowercase(s))
}

/// Removes the space characters from a text.
pub fn strip_spaces(s: &[char]) -> (out: Vec<char>)
    ensures
        out@ == without_spaces(s@),
{
    let mut out: Vec<char> = Vec::new();
    let mut i: usize = 0;
    assert(s@.take(0).filter(|c: char| c != ' ') == Seq::<char>::empty()) by {
        reveal(Seq::filter);
    }
    while i < s.len()
        invariant
            i <= s.len(),
            out@ == without_spaces(s@.take(i as int)),
        decreases s.len() - i,
    {
        proof {
            reveal(Seq::filter);
            assert(s@.take(i + 1).drop_last() == s@.take(i as int));
        }
        if s[i] != ' ' {
            out.push(s[i]);
        }
        i += 1;
    }
    assert(s@.take(s.len() as int) == s@);
    out
}

/// Brings a text into the normal form.
pub fn normalize(s: &str) -> (out: Vec<char>)
    ensures
        out@ == normalized(s@),
{
    let lower = s.to_lowercase();
    let chars = to_chars(lower.as_str());
    strip_spaces(chars.as_slice())
}

/// Whether each character of `query` occurs somewhere in `candidate`.
pub open spec fn contains_all(query: Seq<char>, candidate: Seq<char>) -> bool {
    forall|i: int| 0 <= i < query.len() ==> candidate.contains(#[trigger] query[i])
}

/// Whether a name passes a query: whether each character of the query, in
/// normal form, occurs in the name, in normal form.
pub open spec fn fuzzy_match(query: Seq<char>, candidate: Seq<char>) -> bool {
    contains_all(normalized(query), normalized(candidate))
}

/// Whether a character occurs in a text.
pub fn has_char(s: &[char], c: char) -> (found: bool)
    ensures
        found == s@.contains(c),
{
    let mut i: usize = 0;
    while i < s.len()
        invariant
            i <= s.len(),
            forall|j: int| 0 <= j < i ==> s@[j] != c,
        decreases s.len() - i,
    {
        if s[i] == c {
            return true;
        }
        i += 1;
    }
    false
}

/// Decides `contains_all` for texts that are in normal form already.
pub fn has_all(query: &[char], candidate: &[char]) -> (all: bool)
    ensures
        all == contains_all(query@, candidate@),
{
    let mut i: usize = 0;
    while i < query.len()
        invariant
            i <= query.len(),
            forall|j: int| 0 <= j < i ==> candidate@.contains(#[trigger] query@[j]),
        decreases query.len() - i,
    {
        if !has_char(candidate, query[i]) {
            return false;
        }
        i += 1;
    }
    true
}

/// Whether a name passes a query.
///
/// Both are compared in lower case and without spaces, and the name passes
/// if each character of the query occurs somewhere in it. The order of the
/// characters plays no part, and an empty query is passed by every name.
pub fn matches(query: &str, candidate: &str) -> (hit: bool)
    ensures
        hit == fuzzy_match(query@, candidate@),
{
    let q = normalize(query);
    let c = normalize(candidate);
    has_all(q.as_slice(), c.as_slice())
}

/// How many characters of `query` a scan of `candidate` from left to right
/// finds in order: the scan looks for the first character of the query, then,
/// further right, for the second, and so on.
pub open spec fn matched(query: Seq<char>, candidate: Seq<char>) -> nat
    decreases candidate.len(),
{
    if candidate.len() == 0 {
        0
    } else {
        let before = matched(query, candidate.drop_last());
        if before < query.len() && candidate.last() == query[before as int] {
            before + 1
        } else {
            before
        }
    }
}

/// The length of the longest text with which both `a` and `b` begin.
pub open spec fn common_prefix_len(a: Seq<char>, b: Seq<char>) -> nat
    decreases a.len(),
{
    if a.len() > 0 && b.len() > 0 && a[0] == b[0] {
        1 + common_prefix_len(a.drop_first(), b.drop_first())
    } else {
        0
    }
}

/// The score of a name for a query, both in normal form, in half points: one
/// point for each character of the query that is found in order, and half a
/// point more for each character with which the name begins as the query
/// does.
pub open spec fn points(query: Seq<char>, candidate: Seq<char>) -> nat {
    2 * matched(query, candidate) + common_prefix_len(query, candidate)
}

/// The score of a name for a query, as given, in half points.
pub open spec fn score_of(query: Seq<char>, candidate: Seq<char>) -> nat {
    points(normalized(query), normalized(candidate))
}

/// The common prefix of two texts is a prefix of both, the texts agree on it,
/// and they differ right after it, if both go on.
pub proof fn lemma_common_prefix(a: Seq<char>, b: Seq<char>)
    ensures
        common_prefix_len(a, b) <= a.len(),
        common_prefix_len(a, b) <= b.len(),
        forall|i: int| 0 <= i < common_prefix_len(a, b) ==> a[i] == b[i],
        common_prefix_len(a, b) < a.len() && common_prefix_len(a, b) < b.len()
            ==> a[common_prefix_len(a, b) as int] != b[common_prefix_len(a, b) as int],
    decreases a.len(),
{
    if a.len() > 0 && b.len() > 0 && a[0] == b[0] {
        let ra = a.drop_first();
        let rb = b.drop_first();
        lemma_common_prefix(ra, rb);
        assert forall|i: int| 0 <= i < common_prefix_len(a, b) implies a[i] == b[i] by {
            if i > 0 {
                assert(ra[i - 1] == rb[i - 1]);
            }
        }
    }
}

/// A length up to which two texts agree and after which they differ or one
/// of them ends is the length of their common prefix.
pub proof fn lemma_common_prefix_is(a: Seq<char>, b: Seq<char>, n: nat)
    requires
        n <= a.len(),
        n <= b.len(),
        forall|i: int| 0 <= i < n ==> a[i] == b[i],
        n == a.len() || n == b.len() || a[n as int] != b[n as int],
    ensures
        common_prefix_len(a, b) == n,
    decreases n,
{
    if n > 0 {
        let ra = a.drop_first();
        let rb = b.drop_first();
        assert(a[0] == b[0]);
        assert forall|i: int| 0 <= i < n - 1 implies ra[i] == rb[i] by {
            assert(a[i + 1] == b[i + 1]);
        }
        lemma_common_prefix_is(ra, rb, (n - 1) as nat);
    }
}

/// The scan finds no more characters than the query or the name has, and it
/// finds every character of the name exactly when the query begins with the
/// name.
pub proof fn lemma_matched(query: Seq<char>, candidate: Seq<char>)
    ensures
        matched(query, candidate) <= query.len(),
        matched(query, candidate) <= candidate.len(),
        matched(query, candidate) == candidate.len() <==> common_prefix_len(query, candidate)
            == candidate.len(),
    decreases candidate.len(),
{
    lemma_common_prefix(query, candidate);
    if candidate.len() > 0 {
        let head = candidate.drop_last();
        let n = head.len();
        lemma_matched(query, head);
        lemma_common_prefix(query, head);
        if common_prefix_len(query, candidate) == candidate.len() {
            assert forall|i: int| 0 <= i < n implies query[i] == head[i] by {
                assert(head[i] == candidate[i]);
            }
            lemma_common_prefix_is(query, head, n);
            assert(candidate.last() == query[n as int]);
        }
        if matched(query, candidate) == candidate.len() {
            assert(matched(query, head) == n);
            assert forall|i: int| 0 <= i < candidate.len() implies query[i] == candidate[i] by {
                if i < n {
                    assert(head[i] == candidate[i]);
                }
            }
            lemma_common_prefix_is(query, candidate, candidate.len());
        }
    }
}

/// How the score grows with one more character of the name: by a point if
/// the character is the next one of the query that the scan looks for, and
/// by half a point more if up to here the name has been the beginning of the
/// query.
pub proof fn lemma_points_step(query: Seq<char>, candidate: Seq<char>, next: char)
    ensures
        points(query, candidate.push(next)) == points(query, candidate) + if matched(
            query,
            candidate,
        ) < query.len() && next == query[matched(query, candidate) as int] {
            if matched(query, candidate) == candidate.len() {
                3nat
            } else {
                2nat
            }
        } else {
            0nat
        },
{
    let longer = candidate.push(next);
    let m = matched(query, candidate);
    let p = common_prefix_len(query, candidate);
    let n = candidate.len();
    assert(longer.drop_last() == candidate);
    lemma_matched(query, candidate);
    lemma_common_prefix(query, candidate);
    lemma_common_prefix(query, longer);
    let hit = m < query.len() && next == query[m as int];
    if p == n && n < query.len() && query[n as int] == next {
        assert forall|i: int| 0 <= i < n + 1 implies query[i] == longer[i] by {
            if i < n {
                assert(longer[i] == candidate[i]);
            }
        }
        lemma_common_prefix_is(query, longer, n + 1);
    } else {
        assert forall|i: int| 0 <= i < p implies query[i] == longer[i] by {
            assert(longer[i] == candidate[i]);
        }
        if p < n {
            assert(longer[p as int] == candidate[p as int]);
        }
        lemma_common_prefix_is(query, longer, p);
    }
}

/// The score of a name for a query, both in normal form, in half points.
///
/// The name is scanned from left to right for the characters of the query in
/// their order. Each character found counts a point, and half a point more
/// if it stands in the name where it stands in the query, which can only be
/// so while the name has been the beginning of the query.
pub fn calculate_match_score(query: &[char], candidate: &[char]) -> (score: u128)
    ensures
        score == points(query@, candidate@),
{
    let mut score: u128 = 0;
    let mut match_index: usize = 0;
    let mut i: usize = 0;
    assert(candidate@.take(0) == Seq::<char>::empty());
    while i < candidate.len()
        invariant
            i <= candidate.len(),
            match_index == matched(query@, candidate@.take(i as int)),
            match_index <= i,
            score == points(query@, candidate@.take(i as int)),
            score <= 3 * i,
        decreases candidate.len() - i,
    {
        proof {
            lemma_points_step(query@, candidate@.take(i as int), candidate@[i as int]);
            assert(candidate@.take(i + 1) == candidate@.take(i as int).push(candidate@[i as int]));
            assert(candidate@.take(i + 1).drop_last() == candidate@.take(i as int));
        }
        if match_index < query.len() && candidate[i] == query[match_index] {
            match_index += 1;
            score += 2;
            if i == match_index - 1 {
                score += 1;
            }
        }
        i += 1;
    }
    assert(candidate@.take(candidate.len() as int) == candidate@);
    score
}

/// The score of a name for a query, in half points.
///
/// Both are brought into normal form first. The score only orders names that
/// pass the query; it is no test of its own.
pub fn score(query: &str, candidate: &str) -> (score: u128)
    ensures
        score == score_of(query@, candidate@),
{
    let q = normalize(query);
    let c = normalize(candidate);
    calculate_match_score(q.as_slice(), c.as_slice())
}

/// Whether the name at `i` comes before the name at `j` in a ranking: it has
/// the higher score, or the same score and the earlier place among the names.
pub open spec fn outranks(query: Seq<char>, names: Seq<Seq<char>>, i: int, j: int) -> bool {
    points(query, names[i]) > points(query, names[j]) || (points(query, names[i]) == points(
        query,
        names[j],
    ) && i < j)
}

/// Whether `order` ranks the first `n` names for a query, all in normal
/// form: it lists the places of the names that pass the query, and no
/// others, each before all those that it outranks.
pub open spec fn ranks(query: Seq<char>, names: Seq<Seq<char>>, n: int, order: Seq<int>) -> bool {
    &&& forall|k: int|
        0 <= k < order.len() ==> 0 <= (#[trigger] order[k]) < n && contains_all(
            query,
            names[order[k]],
        )
    &&& forall|i: int| 0 <= i < n && contains_all(query, #[trigger] names[i]) ==> order.contains(i)
    &&& forall|k: int, l: int|
        0 <= k < l < order.len() ==> outranks(
            query,
            names,
            #[trigger] order[k],
            #[trigger] order[l],
        )
}

/// Whether `order` is the ranking of all the names for a query.
pub open spec fn is_ranking(query: Seq<char>, names: Seq<Seq<char>>, order: Seq<int>) -> bool {
    ranks(query, names, names.len() as int, order)
}

/// The ranking of names for a query, all in normal form: the places of the
/// names that pass the query, by falling score, and by place where scores
/// are equal.
pub open spec fn search_order(query: Seq<char>, names: Seq<Seq<char>>) -> Seq<int> {
    choose|order: Seq<int>| is_ranking(query, names, order)
}

/// The items at the places that an order lists.
pub open spec fn picked<T>(items: Seq<T>, order: Seq<int>) -> Seq<T> {
    Seq::new(order.len(), |k: int| items[order[k]])
}

/// The display names of items, in normal form.
pub open spec fn normal_names<T: Named>(items: Seq<T>) -> Seq<Seq<char>> {
    items.map_values(|item: T| normalized(item.name_spec()))
}

/// The places that a search returns: all of them in their order for a blank
/// query, and the ranking of the names for any other query.
pub open spec fn found_places(query: Seq<char>, names: Seq<Seq<char>>) -> Seq<int> {
    if is_blank(query) {
        Seq::new(names.len(), |i: int| i)
    } else {
        search_order(normalized(query), names)
    }
}

/// The texts that a sequence of character vectors holds.
pub open spec fn texts(names: Seq<Vec<char>>) -> Seq<Seq<char>> {
    names.map_values(|name: Vec<char>| name@)
}

/// The places that a vector of indices holds.
pub open spec fn places(order: Seq<usize>) -> Seq<int> {
    order.map_values(|i: usize| i as int)
}

/// A ranking of the first `n` names is one of the first `n + 1` names too,
/// where the name at `n` does not pass the query.
pub proof fn lemma_ranks_without(query: Seq<char>, names: Seq<Seq<char>>, n: int, order: Seq<int>)
    requires
        0 <= n < names.len(),
        ranks(query, names, n, order),
        !contains_all(query, names[n]),
    ensures
        ranks(query, names, n + 1, order),
{
}

/// A ranking of the first `n` names becomes one of the first `n + 1` names
/// when `n` is put behind the places whose score is not lower and before
/// those whose score is.
pub proof fn lemma_ranks_with(
    query: Seq<char>,
    names: Seq<Seq<char>>,
    n: int,
    order: Seq<int>,
    at: int,
)
    requires
        0 <= n < names.len(),
        ranks(query, names, n, order),
        contains_all(query, names[n]),
        0 <= at <= order.len(),
        forall|k: int|
            0 <= k < at ==> points(query, names[#[trigger] order[k]]) >= points(query, names[n]),
        forall|k: int|
            at <= k < order.len() ==> points(query, names[#[trigger] order[k]]) < points(
                query,
                names[n],
            ),
    ensures
        ranks(query, names, n + 1, order.insert(at, n)),
{
    let longer = order.insert(at, n);
    assert forall|k: int| 0 <= k < longer.len() implies 0 <= (#[trigger] longer[k]) < n + 1
        && contains_all(query, names[longer[k]]) by {
        if k < at {
            assert(longer[k] == order[k]);
        } else if k > at {
            assert(longer[k] == order[k - 1]);
        }
    }
    assert forall|i: int| 0 <= i < n + 1 && contains_all(
        query,
        #[trigger] names[i],
    ) implies longer.contains(i) by {
        if i < n {
            let k = choose|k: int| 0 <= k < order.len() && order[k] == i;
            if k < at {
                assert(longer[k] == i);
            } else {
                assert(longer[k + 1] == i);
            }
        } else {
            assert(longer[at] == i);
        }
    }
    assert forall|k: int, l: int| 0 <= k < l < longer.len() implies outranks(
        query,
        names,
        #[trigger] longer[k],
        #[trigger] longer[l],
    ) by {
        let a = if k < at {
            k
        } else {
            k - 1
        };
        let b = if l < at {
            l
        } else {
            l - 1
        };
        if k != at {
            assert(longer[k] == order[a]);
        }
        if l != at {
            assert(longer[l] == order[b]);
        }
    }
}

/// Two orders that rank the same names for the same query are equal: the
/// ranking is determined.
pub proof fn lemma_ranking_is_unique(
    query: Seq<char>,
    names: Seq<Seq<char>>,
    n: int,
    first: Seq<int>,
    second: Seq<int>,
)
    requires
        ranks(query, names, n, first),
        ranks(query, names, n, second),
    ensures
        first == second,
{
    lemma_same_places_same_order(query, names, first, second);
}

/// Two orders that list the same places, each place before all those that it
/// outranks, are equal.
proof fn lemma_same_places_same_order(
    query: Seq<char>,
    names: Seq<Seq<char>>,
    first: Seq<int>,
    second: Seq<int>,
)
    requires
        forall|k: int, l: int|
            0 <= k < l < first.len() ==> outranks(
                query,
                names,
                #[trigger] first[k],
                #[trigger] first[l],
            ),
        forall|k: int, l: int|
            0 <= k < l < second.len() ==> outranks(
                query,
                names,
                #[trigger] second[k],
                #[trigger] second[l],
            ),
        forall|i: int| first.contains(i) <==> second.contains(i),
    ensures
        first == second,
    decreases first.len(),
{
    if first.len() == 0 {
        if second.len() > 0 {
            assert(second.contains(second[0]));
        }
        assert(first == second);
    } else {
        assert(first.contains(first[0]));
        let at = choose|k: int| 0 <= k < second.len() && second[k] == first[0];
        assert(second.contains(second[0]));
        let back = choose|k: int| 0 <= k < first.len() && first[k] == second[0];
        if at > 0 {
            assert(outranks(query, names, second[0], second[at]));
            if back > 0 {
                assert(outranks(query, names, first[0], first[back]));
            }
        }
        assert(first[0] == second[0]);
        let first_rest = first.drop_first();
        let second_rest = second.drop_first();
        assert forall|i: int| first_rest.contains(i) <==> second_rest.contains(i) by {
            if first_rest.contains(i) {
                let k = choose|k: int| 0 <= k < first_rest.len() && first_rest[k] == i;
                assert(first[k + 1] == i);
                assert(outranks(query, names, first[0], first[k + 1]));
                assert(first.contains(i));
                let l = choose|l: int| 0 <= l < second.len() && second[l] == i;
                assert(second_rest[l - 1] == i);
            }
            if second_rest.contains(i) {
                let k = choose|k: int| 0 <= k < second_rest.len() && second_rest[k] == i;
                assert(second[k + 1] == i);
                assert(outranks(query, names, second[0], second[k + 1]));
                assert(second.contains(i));
                let l = choose|l: int| 0 <= l < first.len() && first[l] == i;
                assert(first_rest[l - 1] == i);
            }
        }
        assert forall|k: int, l: int| 0 <= k < l < first_rest.len() implies outranks(
            query,
            names,
            #[trigger] first_rest[k],
            #[trigger] first_rest[l],
        ) by {
            assert(outranks(query, names, first[k + 1], first[l + 1]));
        }
        assert forall|k: int, l: int| 0 <= k < l < second_rest.len() implies outranks(
            query,
            names,
            #[trigger] second_rest[k],
            #[trigger] second_rest[l],
        ) by {
            assert(outranks(query, names, second[k + 1], second[l + 1]));
        }
        lemma_same_places_same_order(query, names, first_rest, second_rest);
        assert(first == seq![first[0]] + first_rest);
        assert(second == seq![second[0]] + second_rest);
    }
}

/// In an order that is ranked, the places whose score is at least `score`
/// come first. The result is where they end.
proof fn lemma_where_score_falls(
    query: Seq<char>,
    names: Seq<Seq<char>>,
    order: Seq<int>,
    score: nat,
    end: int,
) -> (at: int)
    requires
        0 <= end <= order.len(),
        forall|k: int, l: int|
            0 <= k < l < order.len() ==> outranks(
                query,
                names,
                #[trigger] order[k],
                #[trigger] order[l],
            ),
        forall|k: int| end <= k < order.len() ==> points(query, names[#[trigger] order[k]]) < score,
    ensures
        0 <= at <= order.len(),
        forall|k: int| 0 <= k < at ==> points(query, names[#[trigger] order[k]]) >= score,
        forall|k: int| at <= k < order.len() ==> points(query, names[#[trigger] order[k]]) < score,
    decreases end,
{
    if end == 0 {
        0
    } else if points(query, names[order[end - 1]]) >= score {
        assert forall|k: int| 0 <= k < end implies points(query, names[#[trigger] order[k]])
            >= score by {
            if k < end - 1 {
                assert(outranks(query, names, order[k], order[end - 1]));
            }
        }
        end
    } else {
        lemma_where_score_falls(query, names, order, score, end - 1)
    }
}

/// Some order ranks the first `n` names.
proof fn lemma_some_order_ranks(query: Seq<char>, names: Seq<Seq<char>>, n: int) -> (order: Seq<
    int,
>)
    requires
        0 <= n <= names.len(),
    ensures
        ranks(query, names, n, order),
    decreases n,
{
    if n == 0 {
        Seq::empty()
    } else {
        let before = lemma_some_order_ranks(query, names, n - 1);
        if contains_all(query, names[n - 1]) {
            let at = lemma_where_score_falls(
                query,
                names,
                before,
                points(query, names[n - 1]),
                before.len() as int,
            );
            lemma_ranks_with(query, names, n - 1, before, at);
            before.insert(at, n - 1)
        } else {
            lemma_ranks_without(query, names, n - 1, before);
            before
        }
    }
}

/// Every list of names has a ranking for every query, and `search_order` is
/// that ranking.
pub proof fn lemma_search_order_ranks(query: Seq<char>, names: Seq<Seq<char>>)
    ensures
        is_ranking(query, names, search_order(query, names)),
{
    let order = lemma_some_order_ranks(query, names, names.len() as int);
    assert(is_ranking(query, names, order));
}

/// Ranks names for a query, all in normal form.
///
/// The result lists the places of the names that pass the query. A name
/// with a higher score comes before one with a lower score, and names of
/// equal score keep the order in which they were given.
pub fn rank(query: &[char], names: &Vec<Vec<char>>) -> (order: Vec<usize>)
    ensures
        is_ranking(query@, texts(names@), places(order@)),
        places(order@) == search_order(query@, texts(names@)),
{
    let ghost all = texts(names@);
    let mut order: Vec<usize> = Vec::new();
    let mut scores: Vec<u128> = Vec::new();
    let mut i: usize = 0;
    while i < names.len()
        invariant
            i <= names.len(),
            all == texts(names@),
            ranks(query@, all, i as int, places(order@)),
            scores.len() == order.len(),
            forall|k: int|
                0 <= k < order.len() ==> (#[trigger] scores[k]) == points(
                    query@,
                    all[places(order@)[k]],
                ),
        decreases names.len() - i,
    {
        let name = names[i].as_slice();
        assert(name@ == all[i as int]);
        if has_all(query, name) {
            let score = calculate_match_score(query, name);
            let mut at: usize = order.len();
            while at > 0 && scores[at - 1] < score
                invariant
                    at <= order.len(),
                    scores.len() == order.len(),
                    forall|k: int| at <= k < order.len() ==> (#[trigger] scores[k]) < score,
                decreases at,
            {
                at -= 1;
            }
            proof {
                let was = places(order@);
                assert forall|k: int| 0 <= k < at implies points(query@, all[#[trigger] was[k]])
                    >= score by {
                    if k < at - 1 {
                        assert(outranks(query@, all, was[k], was[at - 1]));
                    }
                    assert(scores[at - 1] == points(query@, all[was[at - 1]]));
                    assert(scores[k] == points(query@, all[was[k]]));
                }
                assert forall|k: int| at <= k < was.len() implies points(
                    query@,
                    all[#[trigger] was[k]],
                ) < score by {
                    assert(scores[k] == points(query@, all[was[k]]));
                }
                lemma_ranks_with(query@, all, i as int, was, at as int);
                assert(places(order@.insert(at as int, i)) == was.insert(at as int, i as int));
            }
            let ghost old_scores = scores@;
            let ghost old_places = places(order@);
            order.insert(at, i);
            scores.insert(at, score);
            proof {
                assert forall|k: int| 0 <= k < order.len() implies (#[trigger] scores[k])
                    == points(query@, all[places(order@)[k]]) by {
                    if k < at {
                        assert(scores[k] == old_scores[k]);
                        assert(places(order@)[k] == old_places[k]);
                    } else if k > at {
                        assert(scores[k] == old_scores[k - 1]);
                        assert(places(order@)[k] == old_places[k - 1]);
                    }
                }
            }
        } else {
            proof {
                lemma_ranks_without(query@, all, i as int, places(order@));
            }
        }
        i += 1;
    }
    proof {
        let chosen = search_order(query@, all);
        assert(is_ranking(query@, all, places(order@)));
        lemma_ranking_is_unique(query@, all, all.len() as int, places(order@), chosen);
    }
    order
}

/// Whether `copy` holds a clone of each of `items`, in their order.
pub open spec fn is_copy<T: Clone>(items: Seq<T>, copy: Seq<T>) -> bool {
    &&& copy.len() == items.len()
    &&& forall|i: int| 0 <= i < items.len() ==> cloned::<T>(#[trigger] items[i], copy[i])
}

/// Whether `found` holds a clone of the item at each place that `order`
/// lists, in the order of `order`.
pub open spec fn is_selection<T: Clone>(items: Seq<T>, order: Seq<int>, found: Seq<T>) -> bool {
    &&& found.len() == order.len()
    &&& forall|k: int|
        0 <= k < order.len() ==> 0 <= order[k] < items.len() && cloned::<T>(
            items[order[k]],
            #[trigger] found[k],
        )
}

/// Whether `copy` is a clone of one of `items` whose display name passes the
/// query.
pub open spec fn is_clone_of_match<T: Named + Clone>(
    query: Seq<char>,
    items: Seq<T>,
    copy: T,
) -> bool {
    exists|i: int|
        0 <= i < items.len() && fuzzy_match(query, (#[trigger] items[i]).name_spec()) && cloned::<
            T,
        >(items[i], copy)
}

/// The display names of items, in normal form.
pub fn normalize_names<T: Named>(items: &Vec<T>) -> (names: Vec<Vec<char>>)
    ensures
        texts(names@) == normal_names(items@),
{
    let mut names: Vec<Vec<char>> = Vec::new();
    let mut i: usize = 0;
    while i < items.len()
        invariant
            i <= items.len(),
            texts(names@) == normal_names(items@.take(i as int)),
        decreases items.len() - i,
    {
        let ghost before = names@;
        names.push(normalize(items[i].name()));
        proof {
            let name = normalized(items@[i as int].name_spec());
            assert(items@.take(i + 1) == items@.take(i as int).push(items@[i as int]));
            assert(texts(names@) == texts(before).push(name));
            assert(normal_names(items@.take(i + 1)) == normal_names(items@.take(i as int)).push(
                name,
            ));
        }
        i += 1;
    }
    assert(items@.take(items.len() as int) == items@);
    names
}

/// The places of the items that a search for `query` returns, in the order
/// in which it returns them.
pub fn find<T: Named>(query: &str, items: &Vec<T>) -> (order: Vec<usize>)
    ensures
        places(order@) == found_places(query@, normal_names(items@)),
        forall|k: int| 0 <= k < order.len() ==> (#[trigger] order[k]) < items.len(),
        !is_blank(query@) ==> is_ranking(
            normalized(query@),
            normal_names(items@),
            places(order@),
        ),
{
    let chars = to_chars(query);
    if trimmed(chars.as_slice()).len() == 0 {
        let mut order: Vec<usize> = Vec::new();
        let mut i: usize = 0;
        while i < items.len()
            invariant
                i <= items.len(),
                order.len() == i,
                forall|k: int| 0 <= k < i ==> (#[trigger] order[k]) == k,
            decreases items.len() - i,
        {
            order.push(i);
            i += 1;
        }
        assert(places(order@) == found_places(query@, normal_names(items@)));
        order
    } else {
        let q = normalize(query);
        let names = normalize_names(items);
        let order = rank(q.as_slice(), &names);
        assert forall|k: int| 0 <= k < order.len() implies (#[trigger] order[k])
            < items.len() by {
            assert(places(order@)[k] == order[k]);
        }
        order
    }
}

/// Filters and ranks items by a query.
///
/// A query that holds nothing but white space returns the items as they
/// are. Any other query returns the items whose display name passes it,
/// those with a higher score first, and those of equal score in the order
/// in which they were given.
pub fn filter<T: Named + Clone>(query: &str, items: &Vec<T>) -> (found: Vec<T>)
    ensures
        is_selection(items@, found_places(query@, normal_names(items@)), found@),
        is_blank(query@) ==> is_copy(items@, found@),
        !is_blank(query@) ==> is_ranking(
            normalized(query@),
            normal_names(items@),
            found_places(query@, normal_names(items@)),
        ),
        !is_blank(query@) ==> forall|k: int|
            0 <= k < found.len() ==> is_clone_of_match(query@, items@, #[trigger] found[k]),
{
    let order = find(query, items);
    let mut found: Vec<T> = Vec::new();
    let mut k: usize = 0;
    while k < order.len()
        invariant
            k <= order.len(),
            found.len() == k,
            forall|j: int| 0 <= j < order.len() ==> (#[trigger] order[j]) < items.len(),
            forall|j: int|
                0 <= j < k ==> cloned::<T>(items[order[j] as int], #[trigger] found[j]),
        decreases order.len() - k,
    {
        found.push(items[order[k]].clone());
        k += 1;
    }
    proof {
        let listed = found_places(query@, normal_names(items@));
        assert forall|j: int| 0 <= j < listed.len() implies 0 <= listed[j] < items.len()
            && cloned::<T>(items[listed[j]], #[trigger] found[j]) by {
            assert(places(order@)[j] == order[j]);
        }
        if !is_blank(query@) {
            assert forall|j: int| 0 <= j < found.len() implies is_clone_of_match(
                query@,
                items@,
                #[trigger] found[j],
            ) by {
                let i = listed[j];
                assert(normal_names(items@)[i] == normalized(items[i].name_spec()));
                assert(contains_all(normalized(query@), normal_names(items@)[listed[j]]));
                assert(fuzzy_match(query@, items[i].name_spec()));
                assert(cloned::<T>(items[i], found[j]));
            }
        }
    }
    found
}

/// A query that passes no name of an item lets the search leave that item
/// out: for a query that is not blank, a place whose name fails the query is
/// not among the places found.
pub proof fn lemma_search_leaves_out_what_fails<T: Named>(query: Seq<char>, items: Seq<T>, i: int)
    requires
        !is_blank(query),
        0 <= i < items.len(),
        !fuzzy_match(query, items[i].name_spec()),
    ensures
        !found_places(query, normal_names(items)).contains(i),
{
    let order = found_places(query, normal_names(items));
    lemma_search_order_ranks(normalized(query), normal_names(items));
    if order.contains(i) {
        let k = choose|k: int| 0 <= k < order.len() && order[k] == i;
        assert(contains_all(normalized(query), normal_names(items)[order[k]]));
    }
}

/// A query that holds nothing but white space lets the search return the
/// items as they are: the same items in the same order.
pub proof fn lemma_blank_query_returns_items<T: Named>(query: Seq<char>, items: Seq<T>)
    requires
        forall|i: int| 0 <= i < query.len() ==> is_whitespace(#[trigger] query[i]),
    ensures
        picked(items, found_places(query, normal_names(items))) == items,
{
    lemma_blank_means_all_whitespace(query);
}

/// The empty query is a blank one.
pub proof fn lemma_empty_query_is_blank()
    ensures
        is_blank(""@),
{
    reveal_strlit("");
    lemma_blank_means_all_whitespace(""@);
}

/// Along what a search finds the score never rises, and where two items
/// have the same score, the one that was given first comes first.
pub proof fn lemma_search_order_falls(query: Seq<char>, names: Seq<Seq<char>>, k: int, l: int)
    requires
        0 <= k < l < search_order(query, names).len(),
    ensures
        outranks(query, names, search_order(query, names)[k], search_order(query, names)[l]),
        points(query, names[search_order(query, names)[k]]) >= points(
            query,
            names[search_order(query, names)[l]],
        ),
{
    lemma_search_order_ranks(query, names);
}

/// Texts in normal form, one for one.
pub open spec fn normalized_all(names: Seq<Seq<char>>) -> Seq<Seq<char>> {
    names.map_values(|name: Seq<char>| normalized(name))
}

/// What a search for `query` among channels returns.
pub open spec fn search_channels(query: Seq<char>, channels: Seq<ChannelModel>) -> Seq<
    ChannelModel,
> {
    picked(
        channels,
        found_places(query, normalized_all(channels.map_values(|c: ChannelModel| c.name))),
    )
}

/// What a search for `query` among groups returns.
pub open spec fn search_groups(query: Seq<char>, groups: Seq<GroupModel>) -> Seq<GroupModel> {
    picked(groups, found_places(query, normalized_all(groups.map_values(|g: GroupModel| g.name))))
}

/// Searches channels by their display names.
pub fn filter_channels(query: &str, channels: &Vec<Channel>) -> (found: Vec<Channel>)
    ensures
        channel_models(found@) == search_channels(query@, channel_models(channels@)),
        is_blank(query@) ==> found@ == channels@,
{
    let found = filter(query, channels);
    proof {
        let models = channel_models(channels@);
        assert(normal_names(channels@) == normalized_all(
            models.map_values(|c: ChannelModel| c.name),
        ));
        if is_blank(query@) {
            assert(found@ == channels@);
        }
        assert(channel_models(found@) == search_channels(query@, models));
    }
    found
}

/// Searches groups by their names.
pub fn filter_groups(query: &str, groups: &Vec<Group>) -> (found: Vec<Group>)
    ensures
        group_models(found@) == search_groups(query@, group_models(groups@)),
{
    let found = filter(query, groups);
    proof {
        let models = group_models(groups@);
        assert(normal_names(groups@) == normalized_all(models.map_values(|g: GroupModel| g.name)));
        assert(group_models(found@) == search_groups(query@, models));
    }
    found
}

} // verus!
