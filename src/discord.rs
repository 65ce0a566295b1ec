//! Chooses a catalog by the game a user names and searches it.
use vstd::prelude::*;

use crate::text::{lower_of, lowercase};
use crate::{derefs, image_url_of, lotr, marvel_champions, opt_string_view, search_result, CardSearch, DbCard};

verus! {

/// The loaded Lord of the Rings catalog.
pub struct LOTRCards(pub Vec<lotr::Card>);

/// The loaded Marvel Champions catalog.
pub struct MarvelChampionsCards(pub Vec<marvel_champions::Card>);

/// A game whose catalog can be searched.
pub enum Game {
    LOTR,
    MarvelChampions,
}

/// The game a user's token names, if any: `lotr` or `marvel`, in any case.
pub open spec fn game_of(token: Seq<char>) -> Option<Game> {
    if lower_of(token) == "lotr"@ {
        Some(Game::LOTR)
    } else if lower_of(token) == "marvel"@ {
        Some(Game::MarvelChampions)
    } else {
        None
    }
}

/// What is shown of a found card: its name and its image address.
pub struct CardDisplay<'a> {
    pub name: &'a str,
    pub image_url: Option<String>,
}

/// `display` shows `card`.
pub open spec fn shows<T: DbCard>(display: CardDisplay, card: T) -> bool {
    &&& display.name@ == card.name_view()
    &&& opt_string_view(display.image_url) == image_url_of(card.host_view(), card.image_view())
}

/// `displays` shows `cards`, one for one and in order.
pub open spec fn shows_all<T: DbCard>(displays: Seq<CardDisplay>, cards: Seq<T>) -> bool {
    &&& displays.len() == cards.len()
    &&& forall|i: int| 0 <= i < cards.len() ==> shows(#[trigger] displays[i], cards[i])
}

/// What a search for `query` in the game named by `token` finds: `None` when
/// the token names no game, else the cards the game's catalog search returns.
pub open spec fn found_by(
    found: Option<Vec<CardDisplay>>,
    lotr_cards: Seq<lotr::Card>,
    marvel_cards: Seq<marvel_champions::Card>,
    token: Seq<char>,
    query: Seq<char>,
) -> bool {
    match game_of(token) {
        Some(Game::LOTR) => found is Some && shows_all(
            found->0@,
            search_result(|c: lotr::Card| lotr::Search.keeps(c), lotr_cards, query),
        ),
        Some(Game::MarvelChampions) => found is Some && shows_all(
            found->0@,
            search_result(
                |c: marvel_champions::Card| marvel_champions::Search.keeps(c),
                marvel_cards,
                query,
            ),
        ),
        None => found is None,
    }
}

impl<'a> CardDisplay<'a> {
    /// What is shown of `card`.
    pub fn from_card<T: DbCard>(card: &'a T) -> (r: CardDisplay<'a>)
        ensures
            shows(r, *card),
    {
        CardDisplay { name: card.name(), image_url: card.image_url() }
    }

    /// What is shown of each of `cards`, in order.
    pub fn from_cards<T: DbCard>(cards: Vec<&'a T>) -> (r: Vec<CardDisplay<'a>>)
        ensures
            shows_all(r@, derefs(cards@)),
    {
        let mut shown: Vec<CardDisplay<'a>> = Vec::new();
        let mut i: usize = 0;
        while i < cards.len()
            invariant
                i <= cards.len(),
                shown@.len() == i,
                forall|j: int| 0 <= j < i ==> shows(#[trigger] shown@[j], derefs(cards@)[j]),
            decreases cards.len() - i,
        {
            shown.push(CardDisplay::from_card(cards[i]));
            i += 1;
        }
        shown
    }
}

impl Game {
    /// The game that `input` names: `lotr` or `marvel`, in any case.
    pub fn from_str(input: &str) -> (r: Result<Game, ()>)
        ensures
            match game_of(input@) {
                Some(game) => r == Ok::<Game, ()>(game),
                None => r is Err,
            },
    {
        let folded = lowercase(input);
        if folded == String::from_str("lotr") {
            Ok(Game::LOTR)
        } else if folded == String::from_str("marvel") {
            Ok(Game::MarvelChampions)
        } else {
            Err(())
        }
    }

    /// Searches the catalog of the game that `game` names for `query`.
    /// `None` when `game` names no game; an empty list when the game's
    /// catalog has no card for the query.
    pub fn search<'a>(
        lotr_cards: &'a LOTRCards,
        marvel_cards: &'a MarvelChampionsCards,
        game: &str,
        query: &str,
    ) -> (r: Option<Vec<CardDisplay<'a>>>)
        ensures
            found_by(r, lotr_cards.0@, marvel_cards.0@, game@, query@),
    {
        match Game::from_str(game) {
            Ok(Game::LOTR) => {
                let found = lotr::Search.search(&lotr_cards.0, query);
                Some(CardDisplay::from_cards(found))
            },
            Ok(Game::MarvelChampions) => {
                let found = marvel_champions::Search.search(&marvel_cards.0, query);
                Some(CardDisplay::from_cards(found))
            },
            Err(()) => None,
        }
    }
}

} // verus!
