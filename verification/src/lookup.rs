//! Searching a list of names: which names a query selects, and in which order
//! they are reported.

use vstd::prelude::*;
use crate::text::{
    chars_of, comes_first, contains, is_substring, lemma_lex_le_total, lemma_lex_le_transitive,
    lex_le, lowercase, to_lowercase,
};

verus! {

/// The views of a sequence of strings, in the same order.
pub open spec fn name_views(names: Seq<String>) -> Seq<Seq<char>> {
    Seq::new(names.len(), |i: int| names[i]@)
}

/// Positions as mathematical integers.
pub open spec fn positions(order: Seq<usize>) -> Seq<int> {
    Seq::new(order.len(), |k: int| order[k] as int)
}

/// A query selects a name when its lower-case form stands somewhere in the
/// lower-case form of the name. The empty query selects every name.
pub open spec fn matches(name: Seq<char>, query: Seq<char>) -> bool {
    query.len() == 0 || is_substring(lowercase(query), lowercase(name))
}

/// The name at position `a` is reported before the name at position `b`: its
/// lower-case form comes first, or the two forms are equal and `a` is the
/// earlier position.
pub open spec fn ranks_before(names: Seq<Seq<char>>, a: int, b: int) -> bool {
    &&& lex_le(lowercase(names[a]), lowercase(names[b]))
    &&& lex_le(lowercase(names[b]), lowercase(names[a])) ==> a < b
}

/// `order` lists exactly the positions of the names that `query` selects,
/// each once, in reporting order.
pub open spec fn is_ranking(names: Seq<Seq<char>>, query: Seq<char>, order: Seq<int>) -> bool {
    &&& forall|k: int|
        0 <= k < order.len() ==> 0 <= #[trigger] order[k] < names.len() && matches(
            names[order[k]],
            query,
        )
    &&& forall|i: int|
        0 <= i < names.len() && matches(names[i], query) ==> #[trigger] order.contains(i)
    &&& forall|j: int, k: int|
        0 <= j < k < order.len() ==> ranks_before(names, #[trigger] order[j], #[trigger] order[k])
}

/// A key is selected when every key is, or when `wanted` stands somewhere in
/// it.
pub open spec fn key_selected(key: Seq<char>, wanted: Seq<char>, every: bool) -> bool {
    every || is_substring(wanted, key)
}

/// The key at position `a` is reported before the key at position `b`: it
/// comes first, or the two are equal and `a` is the earlier position.
pub open spec fn key_ranks_before(keys: Seq<Seq<char>>, a: int, b: int) -> bool {
    &&& lex_le(keys[a], keys[b])
    &&& lex_le(keys[b], keys[a]) ==> a < b
}

/// `order` lists exactly the positions of the selected keys, each once, in
/// reporting order.
pub open spec fn is_key_ranking(
    keys: Seq<Seq<char>>,
    wanted: Seq<char>,
    every: bool,
    order: Seq<int>,
) -> bool {
    &&& forall|k: int|
        0 <= k < order.len() ==> 0 <= #[trigger] order[k] < keys.len() && key_selected(
            keys[order[k]],
            wanted,
            every,
        )
    &&& forall|i: int|
        0 <= i < keys.len() && key_selected(keys[i], wanted, every) ==> #[trigger] order.contains(i)
    &&& forall|j: int, k: int|
        0 <= j < k < order.len() ==> key_ranks_before(
            keys,
            #[trigger] order[j],
            #[trigger] order[k],
        )
}

/// The characters of each key, in the same order.
pub open spec fn key_views(keys: Seq<Vec<char>>) -> Seq<Seq<char>> {
    Seq::new(keys.len(), |i: int| keys[i]@)
}

/// The positions of the selected keys, ordered by key; equal keys keep the
/// order in which they stand in `keys`. A key is selected when `every` is
/// set, or when `wanted` stands somewhere in it.
pub fn rank_keys(keys: &Vec<Vec<char>>, wanted: &Vec<char>, every: bool) -> (order: Vec<usize>)
    ensures
        is_key_ranking(key_views(keys@), wanted@, every, positions(order@)),
{
    let ghost all = key_views(keys@);
    let mut order: Vec<usize> = Vec::new();
    let mut i: usize = 0;
    while i < keys.len()
        invariant
            i <= keys.len(),
            all == key_views(keys@),
            forall|k: int|
                0 <= k < order.len() ==> (#[trigger] order[k]) < i && key_selected(
                    all[order[k] as int],
                    wanted@,
                    every,
                ),
            forall|p: int|
                0 <= p < i && key_selected(all[p], wanted@, every) ==> #[trigger] positions(
                    order@,
                ).contains(p),
            forall|j: int, k: int|
                0 <= j < k < order.len() ==> key_ranks_before(
                    all,
                    (#[trigger] order[j]) as int,
                    (#[trigger] order[k]) as int,
                ),
        decreases keys.len() - i,
    {
        let key = &keys[i];
        assert(key@ == all[i as int]);
        if every || contains(key, wanted) {
            let mut at: usize = order.len();
            while at > 0 && !comes_first(&keys[order[at - 1]], key)
                invariant
                    at <= order.len(),
                    i < keys.len(),
                    all == key_views(keys@),
                    forall|k: int| 0 <= k < order.len() ==> (#[trigger] order[k]) < i,
                    forall|k: int|
                        at <= k < order.len() ==> !lex_le(all[(#[trigger] order[k]) as int], key@),
                decreases at,
            {
                at -= 1;
            }
            let ghost before = order@;
            order.insert(at, i);
            proof {
                let after = order@;
                assert(after == before.insert(at as int, i));
                assert forall|k: int| 0 <= k < after.len() implies (#[trigger] after[k]) < i + 1
                    && key_selected(all[after[k] as int], wanted@, every) by {
                    if k < at {
                        assert(after[k] == before[k]);
                    } else if k > at {
                        assert(after[k] == before[k - 1]);
                    }
                }
                assert forall|p: int|
                    0 <= p < i + 1 && key_selected(all[p], wanted@, every) implies #[trigger]
                    positions(after).contains(p) by {
                    if p < i {
                        assert(positions(before).contains(p));
                        let k = choose|k: int|
                            0 <= k < positions(before).len() && positions(before)[k] == p;
                        if k < at {
                            assert(positions(after)[k] == p);
                        } else {
                            assert(after[k + 1] == before[k]);
                            assert(positions(after)[k + 1] == p);
                        }
                    } else {
                        assert(positions(after)[at as int] == p);
                    }
                }
                assert forall|j: int, k: int| 0 <= j < k < after.len() implies key_ranks_before(
                    all,
                    (#[trigger] after[j]) as int,
                    (#[trigger] after[k]) as int,
                ) by {
                    if k < at {
                        assert(after[j] == before[j] && after[k] == before[k]);
                    } else if j > at {
                        assert(after[j] == before[j - 1] && after[k] == before[k - 1]);
                    } else if j < at && k > at {
                        assert(after[j] == before[j] && after[k] == before[k - 1]);
                    } else if k == at {
                        // an earlier key against the new one
                        assert(after[j] == before[j]);
                        let last = before[at - 1] as int;
                        assert(lex_le(all[last], key@));
                        if j < at - 1 {
                            assert(key_ranks_before(all, before[j] as int, before[at - 1] as int));
                            lemma_lex_le_transitive(all[before[j] as int], all[last], key@);
                        }
                    } else {
                        // the new key against a later one
                        assert(j == at);
                        assert(after[k] == before[k - 1]);
                        lemma_lex_le_total(all[before[k - 1] as int], key@);
                    }
                }
            }
        }
        i += 1;
    }
    proof {
        assert forall|k: int| 0 <= k < positions(order@).len() implies 0 <= #[trigger] positions(
            order@,
        )[k] < all.len() && key_selected(all[positions(order@)[k]], wanted@, every) by {
            assert(order[k] < i);
        }
        assert forall|j: int, k: int|
            0 <= j < k < positions(order@).len() implies key_ranks_before(
            all,
            #[trigger] positions(order@)[j],
            #[trigger] positions(order@)[k],
        ) by {
            assert(key_ranks_before(all, order[j] as int, order[k] as int));
        }
    }
    order
}

/// The lower-case form of each name.
pub open spec fn lowered_names(names: Seq<Seq<char>>) -> Seq<Seq<char>> {
    Seq::new(names.len(), |i: int| lowercase(names[i]))
}

/// A ranking of names is a ranking of their lower-case forms as keys, for
/// the lower-case form of the query.
pub proof fn lemma_ranking_by_keys(names: Seq<Seq<char>>, query: Seq<char>, order: Seq<int>)
    ensures
        is_ranking(names, query, order) <==> is_key_ranking(
            lowered_names(names),
            lowercase(query),
            query.len() == 0,
            order,
        ),
{
    let keys = lowered_names(names);
    let wanted = lowercase(query);
    let every = query.len() == 0;
    if is_ranking(names, query, order) {
        assert forall|k: int| 0 <= k < order.len() implies 0 <= #[trigger] order[k] < keys.len()
            && key_selected(keys[order[k]], wanted, every) by {
            assert(matches(names[order[k]], query));
        }
        assert forall|i: int|
            0 <= i < keys.len() && key_selected(keys[i], wanted, every) implies #[trigger]
            order.contains(i) by {
            assert(matches(names[i], query));
        }
        assert forall|j: int, k: int| 0 <= j < k < order.len() implies key_ranks_before(
            keys,
            #[trigger] order[j],
            #[trigger] order[k],
        ) by {
            assert(ranks_before(names, order[j], order[k]));
        }
    }
    if is_key_ranking(keys, wanted, every, order) {
        assert forall|k: int| 0 <= k < order.len() implies 0 <= #[trigger] order[k] < names.len()
            && matches(names[order[k]], query) by {
            assert(key_selected(keys[order[k]], wanted, every));
        }
        assert forall|i: int| 0 <= i < names.len() && matches(names[i], query) implies #[trigger]
            order.contains(i) by {
            assert(key_selected(keys[i], wanted, every));
        }
        assert forall|j: int, k: int| 0 <= j < k < order.len() implies ranks_before(
            names,
            #[trigger] order[j],
            #[trigger] order[k],
        ) by {
            assert(key_ranks_before(keys, order[j], order[k]));
        }
    }
}

/// The lower-case form of a text, as characters.
fn lowered(text: &str) -> (chars: Vec<char>)
    ensures
        chars@ == lowercase(text@),
{
    let lower = to_lowercase(text);
    chars_of(lower.as_str())
}

/// The positions of the names that `query` selects, ordered by the lower-case
/// form of the name; names with the same lower-case form keep the order in
/// which they stand in `names`.
pub fn rank_matches(query: &str, names: &Vec<String>) -> (order: Vec<usize>)
    ensures
        is_ranking(name_views(names@), query@, positions(order@)),
{
    let wanted = lowered(query);
    let mut keys: Vec<Vec<char>> = Vec::new();
    let mut i: usize = 0;
    while i < names.len()
        invariant
            i <= names.len(),
            keys.len() == i,
            forall|k: int| 0 <= k < i ==> (#[trigger] keys[k])@ == lowercase(names[k]@),
        decreases names.len() - i,
    {
        keys.push(lowered(names[i].as_str()));
        i += 1;
    }
    let order = rank_keys(&keys, &wanted, query.is_empty());
    proof {
        assert(key_views(keys@) =~= lowered_names(name_views(names@)));
        lemma_ranking_by_keys(name_views(names@), query@, positions(order@));
    }
    order
}


/// No position is reported before itself, and of two positions at most one is
/// reported before the other.
pub proof fn lemma_ranks_before_is_strict(names: Seq<Seq<char>>, a: int, b: int)
    ensures
        !ranks_before(names, a, a),
        !(ranks_before(names, a, b) && ranks_before(names, b, a)),
{
    crate::text::lemma_lex_le_reflexive(lowercase(names[a]));
}

/// Where `order` is a ranking, the position `p` of a selected name stands in
/// it at a place that this function returns.
proof fn lemma_ranking_place(
    names: Seq<Seq<char>>,
    query: Seq<char>,
    order: Seq<int>,
    p: int,
) -> (place: int)
    requires
        is_ranking(names, query, order),
        0 <= p < names.len(),
        matches(names[p], query),
    ensures
        0 <= place < order.len(),
        order[place] == p,
{
    assert(order.contains(p));
    choose|k: int| 0 <= k < order.len() && order[k] == p
}

/// Two rankings of the same names for the same query agree on their first
/// `upto` places.
proof fn lemma_rankings_agree_upto(
    names: Seq<Seq<char>>,
    query: Seq<char>,
    first: Seq<int>,
    second: Seq<int>,
    upto: int,
)
    requires
        is_ranking(names, query, first),
        is_ranking(names, query, second),
        0 <= upto <= first.len(),
        upto <= second.len(),
    ensures
        forall|k: int| 0 <= k < upto ==> first[k] == second[k],
    decreases upto,
{
    if upto > 0 {
        lemma_rankings_agree_upto(names, query, first, second, upto - 1);
        let k = upto - 1;
        let x = first[k];
        let y = second[k];
        if x != y {
            // x stands in `second` behind place k, and y in `first` behind place k
            let m = lemma_ranking_place(names, query, second, x);
            let n = lemma_ranking_place(names, query, first, y);
            lemma_ranks_before_is_strict(names, x, x);
            lemma_ranks_before_is_strict(names, y, y);
            if m < k {
                assert(first[m] == second[m]);
                assert(ranks_before(names, first[m], first[k]));
            }
            if n < k {
                assert(first[n] == second[n]);
                assert(ranks_before(names, second[n], second[k]));
            }
            assert(m > k && n > k);
            assert(ranks_before(names, second[k], second[m]));
            assert(ranks_before(names, first[k], first[n]));
            lemma_ranks_before_is_strict(names, x, y);
        }
    }
}

/// A query has one ranking only: two sequences that both list the selected
/// positions in reporting order are the same sequence.
pub proof fn lemma_ranking_is_unique(
    names: Seq<Seq<char>>,
    query: Seq<char>,
    first: Seq<int>,
    second: Seq<int>,
)
    requires
        is_ranking(names, query, first),
        is_ranking(names, query, second),
    ensures
        first == second,
{
    let shorter = if first.len() <= second.len() {
        first.len() as int
    } else {
        second.len() as int
    };
    lemma_rankings_agree_upto(names, query, first, second, shorter);
    if first.len() < second.len() {
        let extra = second[shorter];
        let m = lemma_ranking_place(names, query, first, extra);
        assert(second[m] == first[m]);
        assert(ranks_before(names, second[m], second[shorter]));
        lemma_ranks_before_is_strict(names, extra, extra);
    }
    if second.len() < first.len() {
        let extra = first[shorter];
        let m = lemma_ranking_place(names, query, second, extra);
        assert(second[m] == first[m]);
        assert(ranks_before(names, first[m], first[shorter]));
        lemma_ranks_before_is_strict(names, extra, extra);
    }
    assert(first =~= second);
}

/// The empty query selects every name: its ranking lists every position.
pub proof fn lemma_empty_query_selects_all(names: Seq<Seq<char>>, order: Seq<int>)
    requires
        is_ranking(names, Seq::<char>::empty(), order),
    ensures
        forall|i: int| 0 <= i < names.len() ==> #[trigger] order.contains(i),
{
}

/// A ranking is sorted: the lower-case forms of the names never step down
/// from one place to the next.
pub proof fn lemma_ranking_is_sorted(
    names: Seq<Seq<char>>,
    query: Seq<char>,
    order: Seq<int>,
    j: int,
    k: int,
)
    requires
        is_ranking(names, query, order),
        0 <= j <= k < order.len(),
    ensures
        lex_le(lowercase(names[order[j]]), lowercase(names[order[k]])),
{
    if j == k {
        crate::text::lemma_lex_le_reflexive(lowercase(names[order[j]]));
    } else {
        assert(ranks_before(names, order[j], order[k]));
    }
}


/// The entries at the positions that `order` lists, in that order.
pub open spec fn picked<T>(entries: Seq<T>, order: Seq<int>) -> Seq<T> {
    Seq::new(order.len(), |k: int| entries[order[k]])
}

/// `found` is what a search for `query` reports of `entries`, whose names are
/// `names`: the entries that the query selects, in reporting order.
pub open spec fn is_search_result<T>(
    names: Seq<Seq<char>>,
    entries: Seq<T>,
    query: Seq<char>,
    found: Seq<T>,
) -> bool {
    exists|order: Seq<int>| #[trigger]
        is_ranking(names, query, order) && found == picked(entries, order)
}

/// A search has one result only.
pub proof fn lemma_search_result_is_unique<T>(
    names: Seq<Seq<char>>,
    entries: Seq<T>,
    query: Seq<char>,
    first: Seq<T>,
    second: Seq<T>,
)
    requires
        is_search_result(names, entries, query, first),
        is_search_result(names, entries, query, second),
    ensures
        first == second,
{
    let a = choose|order: Seq<int>| #[trigger]
        is_ranking(names, query, order) && first == picked(entries, order);
    let b = choose|order: Seq<int>| #[trigger]
        is_ranking(names, query, order) && second == picked(entries, order);
    lemma_ranking_is_unique(names, query, a, b);
}

/// A search with the empty query reports every entry: the result is as long
/// as the list, and each entry stands in it.
pub proof fn lemma_empty_query_reports_all<T>(
    names: Seq<Seq<char>>,
    entries: Seq<T>,
    found: Seq<T>,
)
    requires
        names.len() == entries.len(),
        is_search_result(names, entries, Seq::<char>::empty(), found),
    ensures
        forall|i: int| 0 <= i < entries.len() ==> found.contains(#[trigger] entries[i]),
{
    let order = choose|order: Seq<int>| #[trigger]
        is_ranking(names, Seq::<char>::empty(), order) && found == picked(entries, order);
    assert forall|i: int| 0 <= i < entries.len() implies found.contains(#[trigger] entries[i]) by {
        assert(order.contains(i));
        let k = choose|k: int| 0 <= k < order.len() && order[k] == i;
        assert(found[k] == entries[i]);
    }
}

/// A search reports nothing but entries of the list whose names the query
/// selects.
pub proof fn lemma_search_reports_matches_only<T>(
    names: Seq<Seq<char>>,
    entries: Seq<T>,
    query: Seq<char>,
    found: Seq<T>,
    k: int,
)
    requires
        names.len() == entries.len(),
        is_search_result(names, entries, query, found),
        0 <= k < found.len(),
    ensures
        exists|i: int|
            0 <= i < entries.len() && found[k] == #[trigger] entries[i] && matches(names[i], query),
{
    let order = choose|order: Seq<int>| #[trigger]
        is_ranking(names, query, order) && found == picked(entries, order);
    assert(found[k] == entries[order[k]]);
}


/// The lowest position at which `name` stands in `names`; the length where it
/// stands nowhere.
pub open spec fn lowest_place(names: Seq<Seq<char>>, name: Seq<char>) -> int
    decreases names.len(),
{
    if names.len() == 0 {
        0
    } else if names[0] == name {
        0
    } else {
        1 + lowest_place(names.drop_first(), name)
    }
}

/// What the lowest place is: a position of `name` that no position of `name`
/// precedes, or the length where `name` stands nowhere.
pub proof fn lemma_lowest_place(names: Seq<Seq<char>>, name: Seq<char>)
    ensures
        0 <= lowest_place(names, name) <= names.len(),
        forall|j: int| 0 <= j < lowest_place(names, name) ==> names[j] != name,
        lowest_place(names, name) < names.len() ==> names[lowest_place(names, name)] == name,
    decreases names.len(),
{
    if names.len() > 0 && names[0] != name {
        let rest = names.drop_first();
        lemma_lowest_place(rest, name);
        assert forall|j: int| 0 <= j < lowest_place(names, name) implies names[j] != name by {
            if j > 0 {
                assert(rest[j - 1] == names[j]);
            }
        }
    }
}

/// A position of `name` that no position of `name` precedes is its lowest
/// place.
pub proof fn lemma_lowest_place_is(names: Seq<Seq<char>>, name: Seq<char>, k: int)
    requires
        0 <= k <= names.len(),
        forall|j: int| 0 <= j < k ==> names[j] != name,
        k < names.len() ==> names[k] == name,
    ensures
        lowest_place(names, name) == k,
{
    lemma_lowest_place(names, name);
}

} // verus!
