//! Card lookup by name over in-memory card catalogs.
//!
//! A query is resolved against a catalog in two passes: every card whose
//! case-folded name equals the case-folded query, or, when there is none,
//! every card whose case-folded name lies within `EDIT_DISTANCE` edits of
//! it. The catalog's own policy then drops non-canonical cards from what was
//! selected. Results are references into the catalog, in catalog order.
pub mod discord;
pub mod lotr;
pub mod marvel_champions;
pub mod text;
pub mod theorems;

use vstd::prelude::*;

use crate::text::{levenshtein, levenshtein_of, lower_of, lowercase};

verus! {

broadcast use vstd::seq_lib::group_filter_ensures;

/// The largest edit distance at which the fuzzy pass still selects a card.
pub const EDIT_DISTANCE: usize = 3;

/// A card of either game.
pub enum Card {
    LOTR(lotr::Card),
    MarvelChampions(marvel_champions::Card),
}

/// The view of an optional borrowed string.
pub open spec fn opt_str_view(o: Option<&str>) -> Option<Seq<char>> {
    match o {
        Some(s) => Some(s@),
        None => None,
    }
}

/// The view of an optional owned string.
pub open spec fn opt_string_view(o: Option<String>) -> Option<Seq<char>> {
    match o {
        Some(s) => Some(s@),
        None => None,
    }
}

/// The absolute image address of a card whose image path is `image`, served
/// from `host`.
pub open spec fn image_url_of(host: Seq<char>, image: Option<Seq<char>>) -> Option<Seq<char>> {
    match image {
        Some(path) => Some(host + path),
        None => None,
    }
}

/// A card record as the matcher and the presentation side see it.
pub trait DbCard {
    spec fn name_view(&self) -> Seq<char>;

    spec fn image_view(&self) -> Option<Seq<char>>;

    spec fn host_view(&self) -> Seq<char>;

    fn name(&self) -> (r: &str)
        ensures
            r@ == self.name_view(),
    ;

    fn image(&self) -> (r: Option<&str>)
        ensures
            opt_str_view(r) == self.image_view(),
    ;

    fn image_host(&self) -> (r: &str)
        ensures
            r@ == self.host_view(),
    ;

    /// The card's image path resolved against its host, if it has one.
    fn image_url(&self) -> (r: Option<String>)
        ensures
            opt_string_view(r) == image_url_of(self.host_view(), self.image_view()),
    {
        match self.image() {
            Some(image) => {
                let host = String::from_str(self.image_host());
                Some(host.concat(image))
            },
            None => None,
        }
    }
}


impl DbCard for Card {
    open spec fn name_view(&self) -> Seq<char> {
        match self {
            Card::LOTR(card) => card.name_view(),
            Card::MarvelChampions(card) => card.name_view(),
        }
    }

    open spec fn image_view(&self) -> Option<Seq<char>> {
        match self {
            Card::LOTR(card) => card.image_view(),
            Card::MarvelChampions(card) => card.image_view(),
        }
    }

    open spec fn host_view(&self) -> Seq<char> {
        match self {
            Card::LOTR(card) => card.host_view(),
            Card::MarvelChampions(card) => card.host_view(),
        }
    }

    fn name(&self) -> (r: &str) {
        match self {
            Card::LOTR(card) => card.name(),
            Card::MarvelChampions(card) => card.name(),
        }
    }

    fn image(&self) -> (r: Option<&str>) {
        match self {
            Card::LOTR(card) => card.image(),
            Card::MarvelChampions(card) => card.image(),
        }
    }

    fn image_host(&self) -> (r: &str) {
        match self {
            Card::LOTR(card) => card.image_host(),
            Card::MarvelChampions(card) => card.image_host(),
        }
    }
}

/// The cards behind a sequence of references.
pub open spec fn derefs<T>(s: Seq<&T>) -> Seq<T> {
    s.map_values(|c: &T| *c)
}

/// A card name that equals the query once both are case-folded.
pub open spec fn exact_match(name: Seq<char>, query: Seq<char>) -> bool {
    lower_of(name) == lower_of(query)
}

/// A card name within `EDIT_DISTANCE` edits of the query once both are
/// case-folded.
pub open spec fn near_match(name: Seq<char>, query: Seq<char>) -> bool {
    levenshtein_of(lower_of(name), lower_of(query)) <= EDIT_DISTANCE
}

/// Whether some card of the catalog matches the query exactly.
pub open spec fn has_exact<T: DbCard>(cards: Seq<T>, query: Seq<char>) -> bool {
    exists|i: int| 0 <= i < cards.len() && exact_match(#[trigger] cards[i].name_view(), query)
}

/// The exact pass: the cards whose name matches the query exactly.
pub open spec fn exact_pass<T: DbCard>(cards: Seq<T>, query: Seq<char>) -> Seq<T> {
    cards.filter(|c: T| exact_match(c.name_view(), query))
}

/// The fuzzy pass: the cards whose name is near the query.
pub open spec fn fuzzy_pass<T: DbCard>(cards: Seq<T>, query: Seq<char>) -> Seq<T> {
    cards.filter(|c: T| near_match(c.name_view(), query))
}

/// The cards selected for a query before the catalog's policy is applied:
/// the exact pass, or the fuzzy pass when the exact pass is empty.
pub open spec fn selection<T: DbCard>(cards: Seq<T>, query: Seq<char>) -> Seq<T> {
    if has_exact(cards, query) {
        exact_pass(cards, query)
    } else {
        fuzzy_pass(cards, query)
    }
}

/// The result of a search whose catalog policy keeps the cards that satisfy
/// `keeps`: the selection, with every card the policy drops removed.
pub open spec fn search_result<T: DbCard>(
    keeps: spec_fn(T) -> bool,
    cards: Seq<T>,
    query: Seq<char>,
) -> Seq<T> {
    selection(cards, query).filter(keeps)
}

/// One catalog: where its cards are fetched from, and which of the selected
/// cards its policy keeps.
pub trait CardSearch<T: DbCard> {
    /// Whether the policy keeps `card`.
    spec fn keeps(&self, card: T) -> bool;

    spec fn api_view(&self) -> Seq<char>;

    /// The address the whole catalog is fetched from.
    fn cards_api(&self) -> (r: &'static str)
        ensures
            r@ == self.api_view(),
    ;

    fn keep(&self, card: &T) -> (r: bool)
        ensures
            r == self.keeps(*card),
    ;

    /// Applies the policy: drops every card it does not keep, in order.
    fn process_search<'a>(&self, results: Vec<&'a T>) -> (r: Vec<&'a T>)
        ensures
            derefs(r@) == derefs(results@).filter(|c: T| self.keeps(c)),
    {
        let ghost input = derefs(results@);
        let mut kept: Vec<&'a T> = Vec::new();
        let mut i: usize = 0;
        while i < results.len()
            invariant
                i <= results.len(),
                input == derefs(results@),
                derefs(kept@) == input.take(i as int).filter(|c: T| self.keeps(c)),
            decreases results.len() - i,
        {
            let card = results[i];
            if self.keep(card) {
                kept.push(card);
            }
            proof {
                lemma_filter_step(input, |c: T| self.keeps(c), i as int);
                assert(derefs(kept@) =~= input.take(i + 1).filter(|c: T| self.keeps(c)));
            }
            i += 1;
        }
        assert(input.take(results.len() as int) =~= input);
        kept
    }

    /// Searches `cards` for `query`: the exact pass, or the fuzzy pass when
    /// the exact pass is empty, then the policy.
    fn search<'a>(&self, cards: &'a Vec<T>, query: &str) -> (r: Vec<&'a T>)
        ensures
            derefs(r@) == search_result(|c: T| self.keeps(c), cards@, query@),
    {
        let folded = lowercase(query);
        let names = folded_names(cards);
        let exact = exact_matches(cards, &names, &folded);
        proof {
            lemma_picked_is_filter(
                cards@,
                exact_marks(names@, folded@),
                |c: T| exact_match(c.name_view(), query@),
            );
            lemma_exact_pass_nonempty(cards@, query@);
        }
        if exact.len() > 0 {
            self.process_search(exact)
        } else {
            let distances = distances_to(&names, &folded);
            let near = near_matches(cards, &distances);
            proof {
                lemma_picked_is_filter(
                    cards@,
                    near_marks(distances@),
                    |c: T| near_match(c.name_view(), query@),
                );
            }
            self.process_search(near)
        }
    }
}

/// Extending a prefix by one element extends its filter by that element, if
/// the element passes.
pub proof fn lemma_filter_step<A>(s: Seq<A>, pred: spec_fn(A) -> bool, i: int)
    requires
        0 <= i < s.len(),
    ensures
        s.take(i + 1).filter(pred) == (if pred(s[i]) {
            s.take(i).filter(pred).push(s[i])
        } else {
            s.take(i).filter(pred)
        }),
{
    reveal(Seq::filter);
    assert(s.take(i + 1).drop_last() =~= s.take(i));
}

/// The exact pass is empty exactly when no card matches exactly.
proof fn lemma_exact_pass_nonempty<T: DbCard>(cards: Seq<T>, query: Seq<char>)
    ensures
        exact_pass(cards, query).len() > 0 <==> has_exact(cards, query),
{
    let pred = |c: T| exact_match(c.name_view(), query);
    if exact_pass(cards, query).len() > 0 {
        assert(pred(cards.filter(pred)[0]));
        let c = cards.filter(pred)[0];
        assert(cards.filter(pred).contains(c));
        cards.lemma_filter_contains_rev(pred, c);
        let i = choose|i: int| 0 <= i < cards.len() && cards[i] == c;
        assert(exact_match(cards[i].name_view(), query));
    }
    if has_exact(cards, query) {
        let i = choose|i: int| 0 <= i < cards.len() && exact_match(#[trigger] cards[i].name_view(), query);
        assert(cards.filter(pred).contains(cards[i]));
    }
}

/// The cards at the positions that `chosen` marks, in catalog order.
pub open spec fn picked<T>(cards: Seq<T>, chosen: Seq<bool>) -> Seq<T>
    decreases cards.len(),
{
    if cards.len() == 0 || chosen.len() == 0 {
        Seq::empty()
    } else {
        let rest = picked(cards.drop_last(), chosen.drop_last());
        if chosen.last() {
            rest.push(cards.last())
        } else {
            rest
        }
    }
}

/// Picking the cards whose mark is `pred` of the card filters by `pred`.
proof fn lemma_picked_is_filter<T>(cards: Seq<T>, chosen: Seq<bool>, pred: spec_fn(T) -> bool)
    requires
        chosen.len() == cards.len(),
        forall|i: int| 0 <= i < cards.len() ==> chosen[i] == pred(#[trigger] cards[i]),
    ensures
        picked(cards, chosen) == cards.filter(pred),
    decreases cards.len(),
{
    reveal(Seq::filter);
    if cards.len() > 0 {
        let (c, f) = (cards.drop_last(), chosen.drop_last());
        assert forall|i: int| 0 <= i < c.len() implies f[i] == pred(#[trigger] c[i]) by {
            assert(cards[i] == c[i]);
        }
        lemma_picked_is_filter(c, f, pred);
        assert(chosen.last() == pred(cards[cards.len() - 1]));
    }
}

/// The cards that `chosen` marks, in catalog order.
fn pick<'a, T>(cards: &'a Vec<T>, chosen: &Vec<bool>) -> (r: Vec<&'a T>)
    requires
        chosen.len() == cards.len(),
    ensures
        derefs(r@) == picked(cards@, chosen@),
{
    let mut found: Vec<&'a T> = Vec::new();
    let mut i: usize = 0;
    while i < cards.len()
        invariant
            i <= cards.len(),
            chosen.len() == cards.len(),
            derefs(found@) == picked(cards@.take(i as int), chosen@.take(i as int)),
        decreases cards.len() - i,
    {
        if chosen[i] {
            found.push(&cards[i]);
        }
        proof {
            assert(cards@.take(i + 1).drop_last() =~= cards@.take(i as int));
            assert(chosen@.take(i + 1).drop_last() =~= chosen@.take(i as int));
            assert(derefs(found@) =~= picked(cards@.take(i + 1), chosen@.take(i + 1)));
        }
        i += 1;
    }
    assert(cards@.take(cards.len() as int) =~= cards@);
    assert(chosen@.take(cards.len() as int) =~= chosen@);
    found
}

/// Marks of the exact pass: the positions whose case-folded name equals the
/// case-folded query.
pub open spec fn exact_marks(folded_names: Seq<String>, folded_query: Seq<char>) -> Seq<bool> {
    Seq::new(folded_names.len(), |i: int| folded_names[i]@ == folded_query)
}

/// Marks of the fuzzy pass: the positions whose name lies within
/// `EDIT_DISTANCE` edits of the query.
pub open spec fn near_marks(distances: Seq<usize>) -> Seq<bool> {
    Seq::new(distances.len(), |i: int| distances[i] <= EDIT_DISTANCE)
}

/// The exact pass over `cards`, given the case-folded name of each card and
/// the case-folded query.
pub fn exact_matches<'a, T>(cards: &'a Vec<T>, folded_names: &Vec<String>, folded_query: &String) -> (r: Vec<&'a T>)
    requires
        folded_names.len() == cards.len(),
    ensures
        derefs(r@) == picked(cards@, exact_marks(folded_names@, folded_query@)),
{
    let mut chosen: Vec<bool> = Vec::new();
    let mut i: usize = 0;
    while i < folded_names.len()
        invariant
            i <= folded_names.len(),
            chosen@ == exact_marks(folded_names@, folded_query@).take(i as int),
        decreases folded_names.len() - i,
    {
        chosen.push(folded_names[i] == *folded_query);
        assert(chosen@ =~= exact_marks(folded_names@, folded_query@).take(i + 1));
        i += 1;
    }
    assert(chosen@ =~= exact_marks(folded_names@, folded_query@));
    pick(cards, &chosen)
}

/// The fuzzy pass over `cards`, given the edit distance between each card's
/// case-folded name and the case-folded query.
pub fn near_matches<'a, T>(cards: &'a Vec<T>, distances: &Vec<usize>) -> (r: Vec<&'a T>)
    requires
        distances.len() == cards.len(),
    ensures
        derefs(r@) == picked(cards@, near_marks(distances@)),
{
    let mut chosen: Vec<bool> = Vec::new();
    let mut i: usize = 0;
    while i < distances.len()
        invariant
            i <= distances.len(),
            chosen@ == near_marks(distances@).take(i as int),
        decreases distances.len() - i,
    {
        chosen.push(distances[i] <= EDIT_DISTANCE);
        assert(chosen@ =~= near_marks(distances@).take(i + 1));
        i += 1;
    }
    assert(chosen@ =~= near_marks(distances@));
    pick(cards, &chosen)
}

/// The case-folded name of each card.
fn folded_names<T: DbCard>(cards: &Vec<T>) -> (r: Vec<String>)
    ensures
        r.len() == cards.len(),
        forall|i: int| 0 <= i < cards.len() ==> (#[trigger] r@[i])@ == lower_of(cards@[i].name_view()),
{
    let mut folded: Vec<String> = Vec::new();
    let mut i: usize = 0;
    while i < cards.len()
        invariant
            i <= cards.len(),
            folded.len() == i,
            forall|j: int| 0 <= j < i ==> (#[trigger] folded@[j])@ == lower_of(cards@[j].name_view()),
        decreases cards.len() - i,
    {
        folded.push(lowercase(cards[i].name()));
        i += 1;
    }
    folded
}

/// The edit distance between each case-folded name and the case-folded query.
fn distances_to(folded_names: &Vec<String>, folded_query: &String) -> (r: Vec<usize>)
    ensures
        r.len() == folded_names.len(),
        forall|i: int|
            0 <= i < folded_names.len() ==> (#[trigger] r@[i]) as nat == levenshtein_of(folded_names@[i]@, folded_query@),
{
    let mut distances: Vec<usize> = Vec::new();
    let mut i: usize = 0;
    while i < folded_names.len()
        invariant
            i <= folded_names.len(),
            distances.len() == i,
            forall|j: int|
                0 <= j < i ==> (#[trigger] distances@[j]) as nat == levenshtein_of(folded_names@[j]@, folded_query@),
        decreases folded_names.len() - i,
    {
        distances.push(levenshtein(folded_names[i].as_str(), folded_query.as_str()));
        i += 1;
    }
    distances
}

} // verus!
