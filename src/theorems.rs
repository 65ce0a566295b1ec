//! What holds of every search, proved over the specifications the search
//! functions are verified against.
use vstd::prelude::*;

use crate::text::lower_of;
use crate::{exact_match, exact_pass, has_exact, near_match, search_result, selection, DbCard};

verus! {

broadcast use vstd::seq_lib::group_filter_ensures;

/// `idx` places each element of `s` in `c`, at strictly increasing indices.
pub open spec fn placed_at<A>(idx: Seq<int>, s: Seq<A>, c: Seq<A>) -> bool {
    &&& idx.len() == s.len()
    &&& forall|k: int| 0 <= k < s.len() ==> 0 <= #[trigger] idx[k] < c.len() && s[k] == c[idx[k]]
    &&& forall|k: int, l: int| 0 <= k < l < s.len() ==> #[trigger] idx[k] < #[trigger] idx[l]
}

/// `s` is `c` with some elements left out, the others kept in order.
pub open spec fn is_subsequence<A>(s: Seq<A>, c: Seq<A>) -> bool {
    exists|idx: Seq<int>| placed_at(idx, s, c)
}

/// Filtering keeps a subsequence.
pub proof fn lemma_filter_is_subsequence<A>(c: Seq<A>, pred: spec_fn(A) -> bool)
    ensures
        is_subsequence(c.filter(pred), c),
    decreases c.len(),
{
    reveal(Seq::filter);
    if c.len() == 0 {
        let idx = Seq::<int>::empty();
        assert(placed_at(idx, c.filter(pred), c));
    } else {
        let rest = c.drop_last();
        lemma_filter_is_subsequence(rest, pred);
        let sub = rest.filter(pred);
        let idx = choose|idx: Seq<int>| placed_at(idx, sub, rest);
        if pred(c.last()) {
            let idx2 = idx.push(c.len() - 1);
            let s = sub.push(c.last());
            assert(c.filter(pred) == s);
            assert forall|k: int| 0 <= k < s.len() implies 0 <= #[trigger] idx2[k] < c.len() && s[k] == c[idx2[k]] by {
                if k < sub.len() {
                    assert(idx2[k] == idx[k]);
                }
            }
            assert forall|k: int, l: int| 0 <= k < l < s.len() implies #[trigger] idx2[k] < #[trigger] idx2[l] by {
                if l < sub.len() {
                    assert(idx2[k] == idx[k] && idx2[l] == idx[l]);
                } else {
                    assert(idx2[k] == idx[k]);
                }
            }
            assert(placed_at(idx2, c.filter(pred), c));
        } else {
            assert forall|k: int| 0 <= k < sub.len() implies 0 <= #[trigger] idx[k] < c.len() && sub[k] == c[idx[k]] by {
            }
            assert(placed_at(idx, c.filter(pred), c));
        }
    }
}

/// A subsequence of a subsequence of `c` is a subsequence of `c`.
pub proof fn lemma_subsequence_transitive<A>(s: Seq<A>, m: Seq<A>, c: Seq<A>)
    requires
        is_subsequence(s, m),
        is_subsequence(m, c),
    ensures
        is_subsequence(s, c),
{
    let i1 = choose|idx: Seq<int>| placed_at(idx, s, m);
    let i2 = choose|idx: Seq<int>| placed_at(idx, m, c);
    let idx = Seq::new(s.len(), |k: int| i2[i1[k]]);
    assert forall|k: int| 0 <= k < s.len() implies 0 <= #[trigger] idx[k] < c.len() && s[k] == c[idx[k]] by {
        assert(0 <= i1[k] < m.len());
    }
    assert forall|k: int, l: int| 0 <= k < l < s.len() implies #[trigger] idx[k] < #[trigger] idx[l] by {
        assert(i1[k] < i1[l]);
        assert(0 <= i1[l] < m.len());
    }
    assert(placed_at(idx, s, c));
}

/// Every search result is a subsequence of the catalog: its cards come from
/// the catalog, in catalog order, whatever the policy.
pub proof fn search_is_subsequence<T: DbCard>(keeps: spec_fn(T) -> bool, cards: Seq<T>, query: Seq<char>)
    ensures
        is_subsequence(search_result(keeps, cards, query), cards),
{
    let sel = selection(cards, query);
    if has_exact(cards, query) {
        lemma_filter_is_subsequence(cards, |c: T| exact_match(c.name_view(), query));
    } else {
        lemma_filter_is_subsequence(cards, |c: T| near_match(c.name_view(), query));
    }
    lemma_filter_is_subsequence(sel, keeps);
    lemma_subsequence_transitive(search_result(keeps, cards, query), sel, cards);
}

/// When some card matches the query exactly, the result is the exact pass
/// under the policy, and every card in it matches exactly: the fuzzy pass
/// adds nothing.
pub proof fn exact_match_takes_precedence<T: DbCard>(
    keeps: spec_fn(T) -> bool,
    cards: Seq<T>,
    query: Seq<char>,
)
    requires
        has_exact(cards, query),
    ensures
        search_result(keeps, cards, query) == exact_pass(cards, query).filter(keeps),
        forall|k: int|
            0 <= k < search_result(keeps, cards, query).len() ==> exact_match(
                (#[trigger] search_result(keeps, cards, query)[k]).name_view(),
                query,
            ),
{
    let r = search_result(keeps, cards, query);
    let pred = |c: T| exact_match(c.name_view(), query);
    assert forall|k: int| 0 <= k < r.len() implies exact_match((#[trigger] r[k]).name_view(), query) by {
        assert(cards.filter(pred).filter(keeps).contains(r[k]));
        cards.filter(pred).lemma_filter_contains_rev(keeps, r[k]);
        let j = choose|j: int| 0 <= j < cards.filter(pred).len() && cards.filter(pred)[j] == r[k];
        assert(pred(cards.filter(pred)[j]));
    }
}

/// When no card matches the query exactly, every card in the result is
/// within the edit distance of the query, and no card farther away is in
/// it.
pub proof fn fuzzy_results_are_near<T: DbCard>(keeps: spec_fn(T) -> bool, cards: Seq<T>, query: Seq<char>)
    requires
        !has_exact(cards, query),
    ensures
        forall|k: int|
            0 <= k < search_result(keeps, cards, query).len() ==> near_match(
                (#[trigger] search_result(keeps, cards, query)[k]).name_view(),
                query,
            ),
        forall|card: T|
            !near_match(card.name_view(), query) ==> !(#[trigger] search_result(keeps, cards, query).contains(card)),
{
    let r = search_result(keeps, cards, query);
    let pred = |c: T| near_match(c.name_view(), query);
    assert forall|k: int| 0 <= k < r.len() implies near_match((#[trigger] r[k]).name_view(), query) by {
        assert(cards.filter(pred).filter(keeps).contains(r[k]));
        cards.filter(pred).lemma_filter_contains_rev(keeps, r[k]);
        let j = choose|j: int| 0 <= j < cards.filter(pred).len() && cards.filter(pred)[j] == r[k];
        assert(pred(cards.filter(pred)[j]));
    }
    assert forall|card: T| !near_match(card.name_view(), query) implies !(#[trigger] r.contains(card)) by {
        if r.contains(card) {
            let k = choose|k: int| 0 <= k < r.len() && r[k] == card;
            assert(near_match(r[k].name_view(), query));
        }
    }
}

/// A policy only removes cards, keeping the rest in order, and applying it a
/// second time changes nothing.
pub proof fn policy_only_removes<T>(keeps: spec_fn(T) -> bool, selected: Seq<T>)
    ensures
        is_subsequence(selected.filter(keeps), selected),
        selected.filter(keeps).filter(keeps) == selected.filter(keeps),
    decreases selected.len(),
{
    lemma_filter_is_subsequence(selected, keeps);
    reveal(Seq::filter);
    if selected.len() > 0 {
        policy_only_removes(keeps, selected.drop_last());
        let sub = selected.drop_last().filter(keeps);
        if keeps(selected.last()) {
            assert(sub.push(selected.last()).drop_last() =~= sub);
        }
    }
}

/// Two queries that fold to the same lowercase text find the same cards.
pub proof fn search_ignores_case<T: DbCard>(
    keeps: spec_fn(T) -> bool,
    cards: Seq<T>,
    query: Seq<char>,
    other: Seq<char>,
)
    requires
        lower_of(query) == lower_of(other),
    ensures
        search_result(keeps, cards, query) == search_result(keeps, cards, other),
{
    assert((|c: T| exact_match(c.name_view(), query)) =~= (|c: T| exact_match(c.name_view(), other)));
    assert((|c: T| near_match(c.name_view(), query)) =~= (|c: T| near_match(c.name_view(), other)));
    assert(has_exact(cards, query) == has_exact(cards, other));
}

} // verus!
