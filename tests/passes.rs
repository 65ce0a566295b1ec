use jarvis::{exact_matches, near_matches, EDIT_DISTANCE};

#[test]
fn exact_pass_takes_the_positions_whose_folded_name_equals_the_query() {
    let cards = vec![10, 20, 30, 40];
    let names: Vec<String> = ["gimli", "legolas", "gimli", "gimle"].iter().map(|s| s.to_string()).collect();
    let found: Vec<i32> = exact_matches(&cards, &names, &"gimli".to_string()).into_iter().copied().collect();
    assert_eq!(found, vec![10, 30]);
    assert!(exact_matches(&cards, &names, &"Gimli".to_string()).is_empty());
}

#[test]
fn near_pass_takes_the_positions_within_the_edit_distance() {
    let cards = vec!['a', 'b', 'c', 'd'];
    let distances = vec![0, EDIT_DISTANCE, EDIT_DISTANCE + 1, 7];
    let found: Vec<char> = near_matches(&cards, &distances).into_iter().copied().collect();
    assert_eq!(found, vec!['a', 'b']);
    assert_eq!(EDIT_DISTANCE, 3);
}

#[test]
fn passes_over_an_empty_catalog_are_empty() {
    let cards: Vec<u8> = Vec::new();
    assert!(exact_matches(&cards, &Vec::new(), &String::new()).is_empty());
    assert!(near_matches(&cards, &Vec::new()).is_empty());
}
