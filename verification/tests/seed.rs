use boxbreaker::card::CardGame;
use boxbreaker::seed::build_seed_database_at;

/// The moment the sample prices are recorded at in these tests.
const NOW: i64 = 1_700_000_000;

#[test]
fn seed_database_has_cards() {
    let db = build_seed_database_at(NOW);
    assert_eq!(db.card_count(), 20);
}

#[test]
fn seed_database_search_works() {
    let db = build_seed_database_at(NOW);
    let results = db.search("charizard");
    assert_eq!(results.len(), 1);
    assert_eq!(results[0].name, "Charizard VMAX");
}

#[test]
fn seed_database_filter_by_game() {
    let db = build_seed_database_at(NOW);
    let pokemon = db.filter_by_game(CardGame::Pokemon);
    assert_eq!(pokemon.len(), 10);
    let mtg = db.filter_by_game(CardGame::MagicTheGathering);
    assert_eq!(mtg.len(), 10);
}

#[test]
fn seed_database_has_prices() {
    let db = build_seed_database_at(NOW);
    let charizard = db.search("charizard")[0];
    let price = db.price_index.latest_price(&charizard.id);
    assert!(price.is_some());
    assert_eq!(price.unwrap().price_cents, 27500);
}

#[test]
fn price_dollars_conversion() {
    let db = build_seed_database_at(NOW);
    let charizard = db.search("charizard")[0];
    let price = db.price_index.latest_price(&charizard.id).unwrap();
    let price_dollars = price.price_cents as f64 / 100.0;
    assert!((price_dollars - 275.00).abs() < f64::EPSILON);
}

#[test]
fn multi_term_search() {
    let db = build_seed_database_at(NOW);
    let results = db.search("pikachu v");
    assert_eq!(results.len(), 1);
    assert_eq!(results[0].name, "Pikachu V");
}

#[test]
fn search_by_set() {
    let db = build_seed_database_at(NOW);
    let results = db.search("evolving skies");
    assert_eq!(results.len(), 2);
}

#[test]
fn empty_search_returns_all() {
    let db = build_seed_database_at(NOW);
    let results = db.search("");
    assert_eq!(results.len(), 20);
}

#[test]
fn seed_prices_all_recorded_at_one_time() {
    let db = build_seed_database_at(NOW);
    let entries = &db.price_index.entries;
    assert_eq!(entries.len(), 20);
    assert!(entries.iter().all(|e| e.recorded_at == NOW));
    let lotus = db.search("black lotus")[0];
    assert_eq!(db.price_index.latest_price(&lotus.id).unwrap().price_cents, 50000000);
    assert_eq!(lotus.id, "LEA-232");
    assert_eq!(lotus.rarity.as_deref(), Some("Rare"));
}

#[test]
fn seed_search_is_case_insensitive_over_type() {
    let db = build_seed_database_at(NOW);
    assert_eq!(db.search("PLANESWALKER").len(), 3);
    assert_eq!(db.search("  vmax   pokémon ").len(), 4);
    assert_eq!(db.search("nothing-like-this").len(), 0);
}
