//! The Lord of the Rings card catalog, as published by RingsDB.
use vstd::prelude::*;

use crate::{opt_string_view, CardSearch, DbCard};

verus! {

/// Where the whole catalog is fetched from.
pub const CARDS_API: &'static str = "https://ringsdb.com/api/public/cards/";

/// The host that card image paths are relative to.
pub const IMAGE_HOST: &'static str = "https://ringsdb.com";

pub struct Card {
    pub code: String,
    pub name: String,
    pub text: Option<String>,
    pub imagesrc: Option<String>,
    /// Set on cards that belong to a starter deck rather than to a pack sold
    /// on its own; such entries repeat cards found elsewhere.
    pub starter: bool,
}

impl DbCard for Card {
    open spec fn name_view(&self) -> Seq<char> {
        self.name@
    }

    open spec fn image_view(&self) -> Option<Seq<char>> {
        opt_string_view(self.imagesrc)
    }

    open spec fn host_view(&self) -> Seq<char> {
        IMAGE_HOST@
    }

    fn name(&self) -> (r: &str) {
        self.name.as_str()
    }

    fn image(&self) -> (r: Option<&str>) {
        match &self.imagesrc {
            Some(image) => Some(image.as_str()),
            None => None,
        }
    }

    fn image_host(&self) -> (r: &str) {
        IMAGE_HOST
    }
}

/// The catalog's search. Its policy drops starter-deck cards.
pub struct Search;

impl CardSearch<Card> for Search {
    open spec fn keeps(&self, card: Card) -> bool {
        !card.starter
    }

    open spec fn api_view(&self) -> Seq<char> {
        CARDS_API@
    }

    fn cards_api(&self) -> (r: &'static str) {
        CARDS_API
    }

    fn keep(&self, card: &Card) -> (r: bool) {
        !card.starter
    }
}

} // verus!
