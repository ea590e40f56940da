use boxbreaker::card::Card;
use boxbreaker::collection::{Collection, Condition};
use boxbreaker::index::HashIndex;
use boxbreaker::price::{CardPrice, PriceEntry};
use boxbreaker::ui::{init, update, Action, ActiveTab, Message, UiState};

type State = UiState<u32, String>;
type Msg = Message<u32, String>;

fn pokemon_card() -> Card {
    Card {
        id: "charizard-base".to_string(),
        name: "Charizard".to_string(),
        game: "Pokemon".to_string(),
        set_name: Some("Base Set".to_string()),
        set_code: Some("base1".to_string()),
        card_number: Some("4".to_string()),
        rarity: Some("Holo Rare".to_string()),
        card_type: None,
        description: None,
        image_url: Some("https://images.example/base1-4.png".to_string()),
    }
}

fn magic_card() -> Card {
    Card {
        id: "lotus".to_string(),
        name: "Black Lotus".to_string(),
        game: "MagicTheGathering".to_string(),
        set_name: None,
        set_code: None,
        card_number: None,
        rarity: None,
        card_type: None,
        description: None,
        image_url: None,
    }
}

fn quote(low: f32, mid: f32, high: f32) -> PriceEntry {
    PriceEntry {
        low: Some(low.to_bits()),
        mid: Some(mid.to_bits()),
        high: Some(high.to_bits()),
        currency: "USD".to_string(),
        source_url: String::new(),
    }
}

fn loaded() -> State {
    let (mut state, _) = init::<u32, String>();
    update(&mut state, Msg::CardsLoaded(Ok(vec![pokemon_card(), magic_card()])));
    state
}

#[test]
fn browser_starts_loading_everything() {
    let (state, actions): (State, Vec<Action>) = init();
    assert!(state.loading);
    assert!(state.collection_loading);
    assert!(!state.price_loading && !state.image_loading && !state.history_loading);
    assert!(state.cards.is_empty());
    assert!(state.selected_card_id.is_none());
    assert_eq!(state.active_tab, ActiveTab::Card);
    assert!(state.collection.entries.is_empty());
    assert!(state.hash_index.entries.is_empty());
    assert_eq!(actions.len(), 3);
    assert!(matches!(actions[0], Action::LoadCards));
    assert!(matches!(actions[1], Action::LoadCollection));
    assert!(matches!(actions[2], Action::LoadIndex));
}

#[test]
fn browser_loads_cards_and_reports_errors() {
    let mut state = loaded();
    assert!(!state.loading);
    assert_eq!(state.cards.len(), 2);
    let act = update(&mut state, Msg::CardsLoaded(Err("offline".to_string())));
    assert!(matches!(act, Action::Nothing));
    assert_eq!(state.error.as_deref(), Some("offline"));
    assert_eq!(state.cards.len(), 2);
}

#[test]
fn browser_selecting_a_card_fetches_its_details() {
    let mut state = loaded();
    let act = update(&mut state, Msg::CardSelected("charizard-base".to_string()));
    assert_eq!(state.selected_card_id.as_deref(), Some("charizard-base"));
    assert!(state.price_loading && state.image_loading && state.history_loading);
    match act {
        Action::FetchCardDetails { lookup_id, name, game, image_url } => {
            assert_eq!(lookup_id, "base1-4");
            assert_eq!(name, "Charizard");
            assert_eq!(game, "Pokemon");
            assert_eq!(image_url, "https://images.example/base1-4.png");
        }
        other => panic!("unexpected action {:?}", other),
    }

    let act = update(&mut state, Msg::CardSelected("lotus".to_string()));
    match act {
        Action::FetchCardDetails { lookup_id, image_url, .. } => {
            assert_eq!(lookup_id, "lotus");
            assert_eq!(image_url, "");
        }
        other => panic!("unexpected action {:?}", other),
    }
}

#[test]
fn browser_selecting_an_unknown_card_asks_nothing() {
    let mut state = loaded();
    update(&mut state, Msg::PricesLoaded(Ok(CardPrice {
        card_id: "x".to_string(),
        card_name: "x".to_string(),
        tcgplayer: None,
        cardmarket: None,
        ebay_sold: None,
    })));
    let act = update(&mut state, Msg::CardSelected("nope".to_string()));
    assert!(matches!(act, Action::Nothing));
    assert_eq!(state.selected_card_id.as_deref(), Some("nope"));
    assert!(state.selected_card_price.is_none());
    assert!(state.price_loading);
}

#[test]
fn browser_answers_clear_their_loading_flags() {
    let mut state = loaded();
    update(&mut state, Msg::CardSelected("charizard-base".to_string()));
    update(&mut state, Msg::PricesLoaded(Err("timeout".to_string())));
    assert!(!state.price_loading);
    assert_eq!(state.error.as_deref(), Some("timeout"));
    update(&mut state, Msg::HistoryLoaded(Ok(Some(7))));
    assert!(!state.history_loading);
    assert_eq!(state.selected_card_history, Some(7));
    let act = update(&mut state, Msg::ImageLoaded(Err("404".to_string())));
    assert!(matches!(act, Action::Nothing));
    assert!(!state.image_loading);
    assert!(state.selected_card_image.is_none());
}

#[test]
fn browser_adds_the_selected_card_with_its_prices() {
    let mut state = loaded();
    update(&mut state, Msg::CardSelected("charizard-base".to_string()));
    update(&mut state, Msg::PricesLoaded(Ok(CardPrice {
        card_id: "base1-4".to_string(),
        card_name: "Charizard".to_string(),
        tcgplayer: Some(quote(300.0, 350.5, 420.0)),
        cardmarket: None,
        ebay_sold: None,
    })));
    let act = update(&mut state, Msg::AddToCollection);
    assert!(matches!(act, Action::SaveCollection));
    assert_eq!(state.collection.entries.len(), 1);
    let e = &state.collection.entries[0];
    assert_eq!(e.card_id, "charizard-base");
    assert_eq!(e.card_name, "Charizard");
    assert_eq!(e.set_name, "Base Set");
    assert_eq!(e.game, "Pokemon");
    assert_eq!(e.quantity, 1);
    assert_eq!(e.condition, Condition::NearMint);
    assert_eq!(e.tcgplayer_mid, Some(350.5f32.to_bits()));
    assert_eq!(e.cardmarket_mid, None);

    update(&mut state, Msg::AddToCollection);
    assert_eq!(state.collection.entries.len(), 1);
    assert_eq!(state.collection.entries[0].quantity, 2);

    let act = update(
        &mut state,
        Msg::RemoveFromCollection("charizard-base".to_string(), Condition::NearMint),
    );
    assert!(matches!(act, Action::SaveCollection));
    assert_eq!(state.collection.entries[0].quantity, 1);
}

#[test]
fn browser_adds_nothing_without_a_known_selection() {
    let mut state = loaded();
    let act = update(&mut state, Msg::AddToCollection);
    assert!(matches!(act, Action::Nothing));
    assert!(state.collection.entries.is_empty());
    update(&mut state, Msg::CardSelected("missing".to_string()));
    let act = update(&mut state, Msg::AddToCollection);
    assert!(matches!(act, Action::Nothing));
    assert!(state.collection.entries.is_empty());
}

#[test]
fn browser_a_card_without_a_set_is_added_with_an_empty_set_name() {
    let mut state = loaded();
    update(&mut state, Msg::CardSelected("lotus".to_string()));
    update(&mut state, Msg::AddToCollection);
    assert_eq!(state.collection.entries[0].set_name, "");
    assert_eq!(state.collection.entries[0].tcgplayer_low, None);
}

#[test]
fn browser_tabs_follow_their_numbers() {
    let mut state = loaded();
    update(&mut state, Msg::TabSelected(2));
    assert_eq!(state.active_tab, ActiveTab::Collection);
    update(&mut state, Msg::TabSelected(3));
    assert_eq!(state.active_tab, ActiveTab::Scanner);
    update(&mut state, Msg::TabSelected(9));
    assert_eq!(state.active_tab, ActiveTab::Scanner);
    update(&mut state, Msg::TabSelected(1));
    assert_eq!(state.active_tab, ActiveTab::History);
    update(&mut state, Msg::TabSelected(0));
    assert_eq!(state.active_tab, ActiveTab::Card);
}

#[test]
fn browser_a_loaded_image_is_indexed_next() {
    let mut state = loaded();
    update(&mut state, Msg::CardSelected("charizard-base".to_string()));
    let act = update(&mut state, Msg::ImageLoaded(Ok(vec![1, 2, 3])));
    assert!(matches!(act, Action::IndexCardNext));
    assert_eq!(state.selected_card_image.as_deref(), Some(&[1u8, 2, 3][..]));
    let act = update(&mut state, Msg::IndexCard);
    match act {
        Action::IndexImage { card_id, name, game, set_name, image_url, bytes } => {
            assert_eq!(card_id, "charizard-base");
            assert_eq!(name, "Charizard");
            assert_eq!(game, "Pokemon");
            assert_eq!(set_name, "Base Set");
            assert_eq!(image_url, "https://images.example/base1-4.png");
            assert_eq!(bytes, vec![1, 2, 3]);
        }
        other => panic!("unexpected action {:?}", other),
    }
    let act = update(&mut state, Msg::HashIndexUpdated(HashIndex::new()));
    assert!(matches!(act, Action::Nothing));
}

#[test]
fn browser_index_card_needs_an_image() {
    let mut state = loaded();
    update(&mut state, Msg::CardSelected("charizard-base".to_string()));
    let act = update(&mut state, Msg::IndexCard);
    assert!(matches!(act, Action::Nothing));
}

#[test]
fn browser_scans_a_picked_image() {
    let mut state = loaded();
    let act = update(&mut state, Msg::ScanFileSelected);
    assert!(matches!(act, Action::PickScanFile));
    let act = update(&mut state, Msg::ScanImageLoaded(Ok(vec![9, 8])));
    assert!(state.scanning);
    assert_eq!(state.scan_image_bytes.as_deref(), Some(&[9u8, 8][..]));
    match act {
        Action::Scan { bytes } => assert_eq!(bytes, vec![9, 8]),
        other => panic!("unexpected action {:?}", other),
    }
    update(&mut state, Msg::ScanComplete("no match".to_string()));
    assert!(!state.scanning);
    assert_eq!(state.scan_result.as_deref(), Some("no match"));
    let act = update(&mut state, Msg::ScanImageLoaded(Err("cancelled".to_string())));
    assert!(matches!(act, Action::Nothing));
    let act = update(&mut state, Msg::WebcamCapture);
    assert!(matches!(act, Action::Nothing));
}

#[test]
fn browser_keeps_the_loaded_collection_and_search_text() {
    let mut state = loaded();
    update(&mut state, Msg::SearchChanged("char".to_string()));
    update(&mut state, Msg::GameSelected("Pokemon".to_string()));
    let act = update(&mut state, Msg::CollectionLoaded(Collection { entries: Vec::new() }));
    assert!(matches!(act, Action::Nothing));
    assert!(!state.collection_loading);
    assert_eq!(state.search_query, "char");
    assert_eq!(state.selected_game.as_deref(), Some("Pokemon"));
    let act = update(&mut state, Msg::CollectionSaved);
    assert!(matches!(act, Action::Nothing));
}
