use boxbreaker::card::{Card, CardGame, Rarity};
use boxbreaker::paths::{cache_path, data_file, join_path};
use boxbreaker::pricer::{
    cardmarket_source_url, price_lookup_id, price_source, ptcg_card_url, ptcg_search_url,
    scryfall_named_url, scryfall_page_url, tcgplayer_source_url, urlencoded, PriceSource,
};
use boxbreaker::text::{decimal_string, join_strings, split_whitespace, string_of};

#[test]
fn paths() {
    assert_eq!(data_file("/home/u", "cards.json"), "/home/u/.local/share/boxbreaker/cards.json");
    assert_eq!(cache_path("/tmp/prices", "base1-4"), "/tmp/prices/base1-4.json");
    assert_eq!(cache_path("/tmp/prices/", "x"), "/tmp/prices/x.json");
    assert_eq!(cache_path("", "x"), "x.json");
    assert_eq!(join_path("/a", "/etc/b"), "/etc/b");
}

#[test]
fn price_urls() {
    assert_eq!(urlencoded("Black Lotus"), "Black+Lotus");
    assert_eq!(urlencoded("a  b"), "a++b");
    assert_eq!(
        scryfall_named_url("Jace, the Mind Sculptor"),
        "https://api.scryfall.com/cards/named?exact=Jace,+the+Mind+Sculptor"
    );
    assert_eq!(scryfall_page_url("Force of Will"), "https://scryfall.com/cards/named?exact=Force+of+Will");
    assert_eq!(ptcg_card_url("swsh4-20"), "https://api.pokemontcg.io/v2/cards/swsh4-20");
    assert_eq!(
        ptcg_search_url("Pikachu V"),
        "https://api.pokemontcg.io/v2/cards?q=name:\"Pikachu V\"&pageSize=1"
    );
    assert_eq!(tcgplayer_source_url("a-1"), "https://prices.pokemontcg.io/tcgplayer/a-1");
    assert_eq!(cardmarket_source_url("a-1"), "https://prices.pokemontcg.io/cardmarket/a-1");
}

#[test]
fn price_source_by_game() {
    assert_eq!(price_source("MagicTheGathering"), PriceSource::Scryfall);
    assert_eq!(price_source("Pokemon"), PriceSource::PokemonTcg);
    assert_eq!(price_source("Magic"), PriceSource::Unpriced);
}

#[test]
fn lookup_id_for_pokemon_uses_set_and_number() {
    let mut c = Card::new("Pikachu", CardGame::Pokemon, "S", "swsh4", "20", Rarity::Rare, "T", "");
    c.id = "own-id".to_string();
    assert_eq!(price_lookup_id(&c), "swsh4-20");
    c.card_number = None;
    assert_eq!(price_lookup_id(&c), "own-id");
    let m = Card::new("Bolt", CardGame::MagicTheGathering, "S", "lea", "1", Rarity::Rare, "T", "");
    assert_eq!(price_lookup_id(&m), "lea-1");
}

#[test]
fn text_helpers() {
    assert_eq!(decimal_string(0), "0");
    assert_eq!(decimal_string(1234567890), "1234567890");
    assert_eq!(decimal_string(u64::MAX), u64::MAX.to_string());
    let parts = vec!["a".to_string(), "b".to_string(), "c".to_string()];
    assert_eq!(join_strings(&parts, ", "), "a, b, c");
    assert_eq!(join_strings(&vec![], ", "), "");
    let ws: Vec<char> = " one\u{3000}two  three ".chars().collect();
    let words: Vec<String> = split_whitespace(&ws).iter().map(|w| string_of(w)).collect();
    assert_eq!(words, vec!["one", "two", "three"]);
}
