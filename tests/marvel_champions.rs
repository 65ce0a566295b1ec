use jarvis::marvel_champions::{search, Card, Search, CARDS_API};
use jarvis::{CardSearch, DbCard};

fn card(code: &str, name: &str, duplicate_of: Option<&str>, imagesrc: Option<&str>) -> Card {
    Card {
        code: code.to_string(),
        name: name.to_string(),
        duplicate_of_code: duplicate_of.map(|d| d.to_string()),
        duplicate_of_name: duplicate_of.map(|_| name.to_string()),
        real_text: None,
        imagesrc: imagesrc.map(|i| i.to_string()),
    }
}

fn cards_from_fixtures() -> Vec<Card> {
    vec![
        card("01001a", "Spider-Man", None, Some("/bundles/cards/01001a.png")),
        card("01002", "Spider-Tracer", None, None),
        card("01022", "Enhanced Physique", None, Some("/bundles/cards/01022.png")),
        card("02015", "Enhanced Physique", Some("01022"), None),
        card("01050", "Swinging Web Kick", None, None),
    ]
}

#[test]
fn it_searches_removing_dupes() {
    let cards = cards_from_fixtures();
    let search = Search {};

    let results: Vec<&Card> = search.search(&cards, "Enhanced Physique");
    assert_eq!(results.len(), 1);
}

#[test]
fn it_searches_doesnt_care_baout_case() {
    let cards = cards_from_fixtures();
    let search = Search {};

    let results: Vec<&Card> = search.search(&cards, "enhanced physique");
    assert_eq!(results.len(), 1);
}

#[test]
fn it_searches_for_dashed_names() {
    let cards = cards_from_fixtures();
    let search = Search {};

    let results: Vec<&Card> = search.search(&cards, "spider tracer");
    assert_eq!(results.len(), 1);
}

#[test]
fn duplicate_is_dropped_and_canonical_kept() {
    let cards = cards_from_fixtures();
    let results = search(&cards, "Enhanced Physique");
    assert_eq!(results.len(), 1);
    assert_eq!(results[0].code, "01022");
}

#[test]
fn exact_pass_of_only_duplicates_leaves_nothing() {
    let cards = vec![card("02015", "Enhanced Physique", Some("01022"), None), card("09000", "Enhanced Physiques", None, None)];
    assert!(search(&cards, "enhanced physique").is_empty());
}

#[test]
fn free_search_agrees_with_catalog_search() {
    let cards = cards_from_fixtures();
    for query in ["spider tracer", "Spider-Man", "kick", ""] {
        let a: Vec<&str> = search(&cards, query).iter().map(|c| c.code.as_str()).collect();
        let b: Vec<&str> = Search.search(&cards, query).iter().map(|c| c.code.as_str()).collect();
        assert_eq!(a, b);
    }
}

#[test]
fn marvel_image_url_joins_host_and_path() {
    let cards = cards_from_fixtures();
    assert_eq!(cards[0].image_url(), Some("https://marvelcdb.com/bundles/cards/01001a.png".to_string()));
    assert_eq!(DbCard::image_url(&cards[2]), Some("https://marvelcdb.com/bundles/cards/01022.png".to_string()));
    assert_eq!(cards[1].image_url(), None);
    assert_eq!(Search.cards_api(), CARDS_API);
}
