use boxbreaker::card::{Card, CardGame, Rarity};
use boxbreaker::search::search;

fn c(name: &str, game: CardGame, num: &str) -> Card {
    Card::new(name, game, "Set", "s", num, Rarity::Common, "Type", "")
}

fn sample() -> Vec<Card> {
    vec![
        c("Pikachu", CardGame::Pokemon, "1"),
        c("Raichu", CardGame::Pokemon, "2"),
        c("Pikachu V", CardGame::Pokemon, "3"),
        c("Flying Pikachu", CardGame::Pokemon, "4"),
        c("Pikachu's Blade", CardGame::MagicTheGathering, "5"),
    ]
}

#[test]
fn empty_query_without_game_finds_nothing() {
    let cards = sample();
    assert!(search(&cards, "", None).is_empty());
    assert!(search(&cards, "", Some("All")).is_empty());
}

#[test]
fn empty_query_with_game_lists_that_game() {
    let cards = sample();
    assert_eq!(search(&cards, "", Some("Pokemon")).len(), 4);
    assert_eq!(search(&cards, "", Some("Magic")).len(), 1);
    assert_eq!(search(&cards, "", Some("MagicTheGathering")).len(), 1);
    assert_eq!(search(&cards, "", Some("Yugioh")).len(), 0);
}

#[test]
fn prefix_matches_come_before_contains_matches() {
    let cards = sample();
    let r = search(&cards, "PIKA", None);
    let names: Vec<&str> = r.iter().map(|c| c.name.as_str()).collect();
    assert_eq!(names, vec!["Pikachu", "Pikachu V", "Pikachu's Blade", "Flying Pikachu"]);
    let r = search(&cards, "chu", Some("Pokemon"));
    let names: Vec<&str> = r.iter().map(|c| c.name.as_str()).collect();
    assert_eq!(names, vec!["Pikachu", "Raichu", "Pikachu V", "Flying Pikachu"]);
}

#[test]
fn search_limits_ten_prefix_and_forty_contains() {
    let mut cards = Vec::new();
    for i in 0..30 {
        cards.push(c(&format!("Bolt {}", i), CardGame::MagicTheGathering, &format!("p{}", i)));
    }
    for i in 0..60 {
        cards.push(c(&format!("Lightning Bolt {}", i), CardGame::MagicTheGathering, &format!("f{}", i)));
    }
    let r = search(&cards, "bolt", None);
    assert_eq!(r.len(), 50);
    assert_eq!(r[0].name, "Bolt 0");
    assert_eq!(r[9].name, "Bolt 9");
    assert_eq!(r[10].name, "Bolt 10");
    assert_eq!(r[29].name, "Bolt 29");
    assert_eq!(r[30].name, "Lightning Bolt 0");
}

#[test]
fn contains_part_skips_identifiers_already_found() {
    let cards = vec![
        c("Mew", CardGame::Pokemon, "1"),
        c("Mewtwo", CardGame::Pokemon, "1"),
        c("Shiny Mew", CardGame::Pokemon, "1"),
        c("Shiny Mew", CardGame::Pokemon, "2"),
    ];
    let r = search(&cards, "mew", None);
    let ids: Vec<&str> = r.iter().map(|c| c.id.as_str()).collect();
    assert_eq!(ids, vec!["s-1", "s-1", "s-2"]);
}
