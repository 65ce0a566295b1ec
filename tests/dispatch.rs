use jarvis::discord::{CardDisplay, Game, LOTRCards, MarvelChampionsCards};
use jarvis::{lotr, marvel_champions, Card, DbCard};

fn catalogs() -> (LOTRCards, MarvelChampionsCards) {
    let lotr_cards = vec![lotr::Card {
        code: "08011".to_string(),
        name: "Yazan".to_string(),
        text: None,
        imagesrc: Some("/bundles/cards/08011.png".to_string()),
        starter: false,
    }];
    let marvel_cards = vec![marvel_champions::Card {
        code: "01022".to_string(),
        name: "Enhanced Physique".to_string(),
        duplicate_of_code: None,
        duplicate_of_name: None,
        real_text: None,
        imagesrc: None,
    }];
    (LOTRCards(lotr_cards), MarvelChampionsCards(marvel_cards))
}

#[test]
fn unknown_game_is_not_an_empty_result() {
    let (l, m) = catalogs();
    assert!(Game::search(&l, &m, "chess", "yazan").is_none());
    assert!(Game::from_str("chess").is_err());
}

#[test]
fn game_names_ignore_case() {
    assert!(matches!(Game::from_str("LOTR"), Ok(Game::LOTR)));
    assert!(matches!(Game::from_str("Marvel"), Ok(Game::MarvelChampions)));
    assert!(Game::from_str("lotr ").is_err());
}

#[test]
fn search_goes_to_the_named_catalog() {
    let (l, m) = catalogs();
    let found: Vec<CardDisplay> = Game::search(&l, &m, "lotr", "Yazan").unwrap();
    assert_eq!(found.len(), 1);
    assert_eq!(found[0].name, "Yazan");
    assert_eq!(found[0].image_url, Some("https://ringsdb.com/bundles/cards/08011.png".to_string()));
    assert!(Game::search(&l, &m, "lotr", "Enhanced Physique").unwrap().is_empty());
    let found = Game::search(&l, &m, "MARVEL", "enhanced physique").unwrap();
    assert_eq!(found.len(), 1);
    assert_eq!(found[0].name, "Enhanced Physique");
    assert_eq!(found[0].image_url, None);
}

#[test]
fn known_game_without_match_is_empty() {
    let (l, m) = catalogs();
    let found = Game::search(&l, &m, "marvel", "zzzzzzzzzz");
    assert!(found.is_some());
    assert!(found.unwrap().is_empty());
}

#[test]
fn either_card_reports_its_own_host() {
    let (l, m) = catalogs();
    let a = Card::LOTR(l.0.into_iter().next().unwrap());
    let b = Card::MarvelChampions(m.0.into_iter().next().unwrap());
    assert_eq!(a.name(), "Yazan");
    assert_eq!(a.image_host(), "https://ringsdb.com");
    assert_eq!(b.image_host(), "https://marvelcdb.com");
    assert_eq!(b.image(), None);
    let shown = CardDisplay::from_card(&a);
    assert_eq!(shown.image_url, Some("https://ringsdb.com/bundles/cards/08011.png".to_string()));
}
