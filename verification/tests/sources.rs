use boxbreaker::card::Rarity;
use boxbreaker::collection::Condition;
use boxbreaker::pokemon_tcg::{
    cards_page_url, convert_pokemon_cards_at, map_pokemon_rarity, next_page,
    PokemonTcgCard, PokemonTcgImages, PokemonTcgPriceData, PokemonTcgPriceSource, PokemonTcgSet,
};
use boxbreaker::scryfall::{
    convert_scryfall_cards_at, map_scryfall_rarity, oracle_download_uri, BulkDataEntry,
    ScryfallCard, ScryfallImageUris, ScryfallPrices,
};

#[test]
fn pokemon_rarity_mapping() {
    assert_eq!(map_pokemon_rarity("Rare Secret"), Rarity::SecretRare);
    assert_eq!(map_pokemon_rarity("Hyper Rare"), Rarity::SecretRare);
    assert_eq!(map_pokemon_rarity("Rare Ultra"), Rarity::UltraRare);
    assert_eq!(map_pokemon_rarity("Illustration Rare"), Rarity::UltraRare);
    assert_eq!(map_pokemon_rarity("Rare Holo"), Rarity::HoloRare);
    assert_eq!(map_pokemon_rarity("RARE"), Rarity::Rare);
    assert_eq!(map_pokemon_rarity("Uncommon"), Rarity::Uncommon);
    assert_eq!(map_pokemon_rarity("Common"), Rarity::Common);
    assert_eq!(map_pokemon_rarity("Promo"), Rarity::Special);
    assert_eq!(map_pokemon_rarity("Amazing Rare"), Rarity::Rare);
    assert_eq!(map_pokemon_rarity("Classic Collection"), Rarity::Common);
}

fn pc(id: &str, market: Option<u64>, subtypes: Vec<&str>) -> PokemonTcgCard {
    PokemonTcgCard {
        id: id.to_string(),
        name: "Pikachu".to_string(),
        supertype: Some("Pokémon".to_string()),
        subtypes: subtypes.into_iter().map(|s| s.to_string()).collect(),
        set: PokemonTcgSet { id: "base1".to_string(), name: "Base".to_string() },
        number: id.to_string(),
        rarity: Some("Rare Holo".to_string()),
        images: Some(PokemonTcgImages { small: Some("s.png".to_string()), large: None }),
        tcgplayer: Some(PokemonTcgPriceSource {
            prices: Some(vec![(
                "holofoil".to_string(),
                PokemonTcgPriceData { market, low: None, mid: None, high: None },
            )]),
            updated_at: None,
        }),
        flavor_text: None,
    }
}

#[test]
fn pokemon_conversion_builds_cards_and_prices() {
    let input = vec![pc("1", Some(1234), vec!["Basic", "V"]), pc("2", None, vec![])];
    let (cards, prices) = convert_pokemon_cards_at(&input, 77);
    assert_eq!(cards.len(), 2);
    assert_eq!(cards[0].id, "base1-1");
    assert_eq!(cards[0].card_type.as_deref(), Some("Pokémon — Basic, V"));
    assert_eq!(cards[1].card_type.as_deref(), Some("Pokémon"));
    assert_eq!(cards[0].rarity.as_deref(), Some("Holo Rare"));
    assert_eq!(cards[0].image_url.as_deref(), Some("s.png"));
    assert_eq!(cards[0].description.as_deref(), Some(""));
    assert_eq!(prices.len(), 1);
    assert_eq!(prices[0].card_id, "base1-1");
    assert_eq!(prices[0].price_cents, 1234);
    assert_eq!(prices[0].source, "TCGPlayer");
    assert_eq!(prices[0].recorded_at, 77);
    assert_eq!(prices[0].condition, Condition::NearMint);
}

#[test]
fn pokemon_paging() {
    assert_eq!(cards_page_url(3), "https://api.pokemontcg.io/v2/cards?pageSize=250&page=3");
    assert_eq!(next_page(1, 250), Some(2));
    assert_eq!(next_page(4, 17), None);
}

#[test]
fn scryfall_rarity_mapping() {
    assert_eq!(map_scryfall_rarity("mythic"), Rarity::Mythic);
    assert_eq!(map_scryfall_rarity("bonus"), Rarity::Special);
    assert_eq!(map_scryfall_rarity("special"), Rarity::Special);
    assert_eq!(map_scryfall_rarity("Rare"), Rarity::Common);
    assert_eq!(map_scryfall_rarity("uncommon"), Rarity::Uncommon);
}

#[test]
fn scryfall_conversion_builds_cards_and_prices() {
    let sc = ScryfallCard {
        name: "Black Lotus".to_string(),
        set: "lea".to_string(),
        set_name: "Alpha".to_string(),
        rarity: "rare".to_string(),
        collector_number: "232".to_string(),
        type_line: None,
        oracle_text: Some("Add three mana.".to_string()),
        prices: Some(ScryfallPrices { usd: Some(5000000), usd_foil: None, eur: None }),
        image_uris: Some(ScryfallImageUris {
            small: Some("s".to_string()),
            normal: Some("n".to_string()),
            large: None,
        }),
    };
    let (cards, prices) = convert_scryfall_cards_at(&[sc], 5);
    assert_eq!(cards[0].id, "lea-232");
    assert_eq!(cards[0].game, "MagicTheGathering");
    assert_eq!(cards[0].card_type.as_deref(), Some("Unknown"));
    assert_eq!(cards[0].image_url.as_deref(), Some("n"));
    assert_eq!(prices[0].source, "Scryfall/TCGPlayer");
    assert_eq!(prices[0].price_cents, 5000000);
}

#[test]
fn oracle_entry_is_found() {
    let e = |t: &str, u: &str| BulkDataEntry { data_type: t.to_string(), download_uri: u.to_string() };
    let list = vec![e("default_cards", "d"), e("oracle_cards", "o1"), e("oracle_cards", "o2")];
    assert_eq!(oracle_download_uri(&list).as_deref(), Some("o1"));
    assert_eq!(oracle_download_uri(&vec![e("all_cards", "a")]), None);
}
