use boxbreaker::card::{Card, CardGame, Rarity};
use boxbreaker::database::CardDatabase;
use boxbreaker::price::{PriceIndex, PriceRecord};
use boxbreaker::collection::Condition;

fn card(name: &str, game: CardGame, set: &str, code: &str, num: &str, rarity: Rarity, typ: &str) -> Card {
    Card::new(name, game, set, code, num, rarity, typ, "")
}

#[test]
fn card_new_fills_fields() {
    let c = card("Pikachu", CardGame::Pokemon, "Base", "base1", "58", Rarity::Common, "Pokémon — Basic");
    assert_eq!(c.id, "base1-58");
    assert_eq!(c.game, "Pokemon");
    assert_eq!(c.set_name.as_deref(), Some("Base"));
    assert_eq!(c.rarity.as_deref(), Some("Common"));
    assert_eq!(c.description.as_deref(), Some(""));
    assert!(c.image_url.is_none());
}

#[test]
fn ptcg_id_needs_set_and_number() {
    let mut c = card("Pikachu", CardGame::Pokemon, "HGSS", "hgss4", "1", Rarity::Rare, "Pokémon");
    assert_eq!(c.ptcg_id().as_deref(), Some("hgss4-1"));
    c.card_number = None;
    assert_eq!(c.ptcg_id(), None);
    c.card_number = Some("2".to_string());
    c.set_code = None;
    assert_eq!(c.ptcg_id(), None);
}

#[test]
fn game_and_rarity_labels() {
    assert_eq!(CardGame::Pokemon.label(), "Pokemon");
    assert_eq!(CardGame::MagicTheGathering.label(), "MagicTheGathering");
    assert_eq!(Rarity::HoloRare.label(), "Holo Rare");
    assert_eq!(Rarity::Mythic.label(), "Mythic");
}

#[test]
fn card_duplicate_is_equal() {
    let c = card("Tarmogoyf", CardGame::MagicTheGathering, "Future Sight", "FUT", "153", Rarity::Rare, "Creature");
    let d = c.duplicate();
    assert_eq!(d.id, c.id);
    assert_eq!(d.card_type, c.card_type);
}

fn small_db() -> CardDatabase {
    let mut db = CardDatabase::new();
    db.add_card(card("Charizard", CardGame::Pokemon, "Base Set", "base1", "4", Rarity::HoloRare, "Pokémon — Stage 2"));
    db.add_card(card("Lightning Bolt", CardGame::MagicTheGathering, "Alpha", "LEA", "161", Rarity::Common, "Instant"));
    db.add_card(card("Dark Charizard", CardGame::Pokemon, "Team Rocket", "base5", "4", Rarity::HoloRare, "Pokémon — Stage 2"));
    let mut no_set = card("Mystery", CardGame::Pokemon, "", "x", "1", Rarity::Common, "");
    no_set.set_name = None;
    no_set.set_code = None;
    no_set.card_type = None;
    db.add_card(no_set);
    db
}

#[test]
fn database_search_uses_all_terms() {
    let db = small_db();
    let r = db.search("CHARIZARD rocket");
    assert_eq!(r.len(), 1);
    assert_eq!(r[0].name, "Dark Charizard");
    assert_eq!(db.search("charizard").len(), 2);
    assert_eq!(db.search("stage").len(), 2);
    assert_eq!(db.search("\tinstant\n").len(), 1);
    assert_eq!(db.search("mystery").len(), 1);
    assert_eq!(db.search("   ").len(), 4);
}

#[test]
fn database_filters() {
    let db = small_db();
    assert_eq!(db.filter_by_game(CardGame::Pokemon).len(), 3);
    assert_eq!(db.filter_by_rarity(Rarity::HoloRare).len(), 2);
    assert_eq!(db.filter_by_rarity(Rarity::Mythic).len(), 0);
    let lea = db.filter_by_set("lea");
    assert_eq!(lea.len(), 1);
    assert_eq!(lea[0].name, "Lightning Bolt");
    assert_eq!(db.filter_by_set("BASE1").len(), 1);
    assert_eq!(db.filter_by_set("bas").len(), 0);
    assert_eq!(db.card_count(), 4);
}

fn rec(id: &str, cents: u64, at: i64) -> PriceRecord {
    PriceRecord {
        card_id: id.to_string(),
        condition: Condition::NearMint,
        price_cents: cents,
        source: "TCGPlayer".to_string(),
        recorded_at: at,
    }
}

#[test]
fn latest_price_takes_newest_then_last_added() {
    let mut idx = PriceIndex::new();
    assert!(idx.latest_price("a").is_none());
    idx.add_entry(rec("a", 100, 10));
    idx.add_entry(rec("b", 900, 50));
    idx.add_entry(rec("a", 200, 30));
    idx.add_entry(rec("a", 150, 20));
    assert_eq!(idx.latest_price("a").unwrap().price_cents, 200);
    idx.add_entry(rec("a", 300, 30));
    assert_eq!(idx.latest_price("a").unwrap().price_cents, 300);
    assert_eq!(idx.latest_price("b").unwrap().price_cents, 900);
    assert!(idx.latest_price("c").is_none());
}

#[test]
fn search_ignores_word_order_and_spacing() {
    let mut db = CardDatabase::new();
    db.add_card(card("Pikachu V", CardGame::Pokemon, "Vivid Voltage", "VIV", "43", Rarity::UltraRare, "V Pokémon"));
    db.add_card(card("Pikachu", CardGame::Pokemon, "Base", "base1", "58", Rarity::Common, "Basic"));
    db.add_card(card("Raichu V", CardGame::Pokemon, "Brilliant Stars", "BRS", "45", Rarity::UltraRare, "V Pokémon"));
    let a: Vec<String> = db.search("pikachu voltage").iter().map(|c| c.id.clone()).collect();
    let b: Vec<String> = db.search("  Voltage   PIKACHU ").iter().map(|c| c.id.clone()).collect();
    assert_eq!(a, vec!["VIV-43".to_string()]);
    assert_eq!(a, b);
    let fewer: Vec<String> = db.search("pikachu").iter().map(|c| c.id.clone()).collect();
    assert_eq!(fewer, vec!["VIV-43".to_string(), "base1-58".to_string()]);
    assert!(a.iter().all(|id| fewer.contains(id)));
}

#[test]
fn from_sources_keeps_both_sources_in_order() {
    let a = card("Black Lotus", CardGame::MagicTheGathering, "Alpha", "LEA", "232", Rarity::Rare, "Artifact");
    let b = card("Pikachu", CardGame::Pokemon, "Base", "base1", "58", Rarity::Common, "Basic");
    let price = |id: &str, cents: u64| PriceRecord {
        card_id: id.to_string(),
        condition: Condition::NearMint,
        price_cents: cents,
        source: "TCGPlayer".to_string(),
        recorded_at: 1,
    };
    let db = CardDatabase::from_sources(vec![a], vec![b], vec![price("LEA-232", 5)], vec![price("base1-58", 7)]);
    assert_eq!(db.card_count(), 2);
    assert_eq!(db.cards[0].id, "LEA-232");
    assert_eq!(db.cards[1].id, "base1-58");
    assert_eq!(db.price_index.entries[1].price_cents, 7);
    assert_eq!(db.price_index.latest_price("base1-58").map(|p| p.price_cents), Some(7));
}
