//! The Marvel Champions card catalog, as published by MarvelCDB.
use vstd::prelude::*;

use crate::{derefs, image_url_of, opt_string_view, search_result, CardSearch, DbCard};

verus! {

/// The host that card image paths are relative to.
pub const IMAGE_HOST: &'static str = "https://marvelcdb.com";

/// Where the whole catalog is fetched from.
pub const CARDS_API: &'static str = "https://marvelcdb.com/api/public/cards/";

pub struct Card {
    pub code: String,
    pub name: String,
    /// The code of the canonical card when this entry is a reprint of it.
    pub duplicate_of_code: Option<String>,
    pub duplicate_of_name: Option<String>,
    pub real_text: Option<String>,
    pub imagesrc: Option<String>,
}

impl DbCard for Card {
    open spec fn name_view(&self) -> Seq<char> {
        self.name@
    }

    open spec fn image_view(&self) -> Option<Seq<char>> {
        opt_string_view(self.imagesrc)
    }

    open spec fn host_view(&self) -> Seq<char> {
        IMAGE_HOST@
    }

    fn name(&self) -> (r: &str) {
        self.name.as_str()
    }

    fn image(&self) -> (r: Option<&str>) {
        match &self.imagesrc {
            Some(image) => Some(image.as_str()),
            None => None,
        }
    }

    fn image_host(&self) -> (r: &str) {
        IMAGE_HOST
    }
}

impl Card {
    /// The card's image path resolved against the catalog's image host.
    pub fn image_url(&self) -> (r: Option<String>)
        ensures
            opt_string_view(r) == image_url_of(IMAGE_HOST@, opt_string_view(self.imagesrc)),
    {
        match &self.imagesrc {
            Some(image) => Some(String::from_str(IMAGE_HOST).concat(image.as_str())),
            None => None,
        }
    }
}

/// The catalog's search. Its policy drops the entries that duplicate a
/// canonical card.
pub struct Search;

impl CardSearch<Card> for Search {
    open spec fn keeps(&self, card: Card) -> bool {
        card.duplicate_of_code.is_none()
    }

    open spec fn api_view(&self) -> Seq<char> {
        CARDS_API@
    }

    fn cards_api(&self) -> (r: &'static str) {
        CARDS_API
    }

    fn keep(&self, card: &Card) -> (r: bool) {
        card.duplicate_of_code.is_none()
    }
}

/// Searches the catalog for `query` under the catalog's policy.
pub fn search<'a>(cards: &'a Vec<Card>, query: &str) -> (r: Vec<&'a Card>)
    ensures
        derefs(r@) == search_result(|c: Card| Search.keeps(c), cards@, query@),
{
    Search.search(cards, query)
}

} // verus!
