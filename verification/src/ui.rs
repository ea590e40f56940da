//! The decisions of the card browser: how each event it receives changes what
//! it shows, and which outside work (a download, a file, a save) it asks for
//! next.  Whoever runs the browser performs each `Action` and hands the answer
//! back as the next `Message`.
//!
//! A price history (`H`) and a scan result (`R`) are only kept for display, so
//! the state holds them as they come.

use vstd::prelude::*;

use crate::card::{opt_chars, Card};
use crate::collection::{
    added, bumped, first_for, has_entry_for, is_for, lemma_first_for_exists, removed, Collection,
    CollectionEntry, Condition,
};
use crate::index::HashIndex;
use crate::price::{CardPrice, PriceEntry};
use crate::pricer::{lookup_id_of, price_lookup_id};
use crate::text::str_eq;

verus! {

/// The panel shown beside the card list.
#[derive(Debug, Clone, Copy, PartialEq, Eq, Structural, Default)]
pub enum ActiveTab {
    #[default]
    Card,
    History,
    Collection,
    Scanner,
}

/// Everything the browser shows and is waiting for.
#[derive(Debug)]
pub struct UiState<H, R> {
    pub cards: Vec<Card>,
    pub selected_game: Option<String>,
    pub selected_card_id: Option<String>,
    pub selected_card_price: Option<CardPrice>,
    pub selected_card_image: Option<Vec<u8>>,
    pub selected_card_history: Option<H>,
    pub price_loading: bool,
    pub image_loading: bool,
    pub history_loading: bool,
    pub search_query: String,
    pub loading: bool,
    pub error: Option<String>,
    pub active_tab: ActiveTab,
    pub collection: Collection,
    pub collection_loading: bool,
    pub hash_index: HashIndex,
    pub scan_result: Option<R>,
    pub scan_image_bytes: Option<Vec<u8>>,
    pub scanning: bool,
}

/// What happened: something the user did, or the answer to an `Action`.
#[derive(Debug)]
pub enum Message<H, R> {
    SearchChanged(String),
    GameSelected(String),
    CardSelected(String),
    CardsLoaded(Result<Vec<Card>, String>),
    PricesLoaded(Result<CardPrice, String>),
    ImageLoaded(Result<Vec<u8>, String>),
    HistoryLoaded(Result<Option<H>, String>),
    CollectionLoaded(Collection),
    AddToCollection,
    RemoveFromCollection(String, Condition),
    CollectionSaved,
    TabSelected(u8),
    IndexCard,
    HashIndexUpdated(HashIndex),
    ScanFileSelected,
    ScanImageLoaded(Result<Vec<u8>, String>),
    ScanComplete(R),
    WebcamCapture,
}

/// Outside work the browser asks for.
#[derive(Debug)]
pub enum Action {
    /// Nothing to do.
    Nothing,
    /// Fetch the market prices of the card filed under `lookup_id` (with its
    /// name and game), its image from `image_url` (an error when that is
    /// empty) and its price history; answer with `PricesLoaded`, `ImageLoaded`
    /// and `HistoryLoaded`.
    FetchCardDetails { lookup_id: String, name: String, game: String, image_url: String },
    /// Send `IndexCard` next.
    IndexCardNext,
    /// Save the collection as it now stands; answer with `CollectionSaved`.
    SaveCollection,
    /// Add the card's image to a copy of the hash index (`index_card`), save
    /// that copy and answer with `HashIndexUpdated` holding it.
    IndexImage {
        card_id: String,
        name: String,
        game: String,
        set_name: String,
        image_url: String,
        bytes: Vec<u8>,
    },
    /// Let the user pick an image file; answer with `ScanImageLoaded`.
    PickScanFile,
    /// Scan `bytes` against the hash index as it now stands; answer with
    /// `ScanComplete`.
    Scan { bytes: Vec<u8> },
    /// Load the card list; answer with `CardsLoaded`.
    LoadCards,
    /// Load the saved collection; answer with `CollectionLoaded`.
    LoadCollection,
    /// Load the saved hash index; answer with `HashIndexUpdated`.
    LoadIndex,
}

/// Position `i` holds the first card with identifier `id`.
pub open spec fn first_card(cards: Seq<Card>, id: Seq<char>, i: int) -> bool {
    &&& 0 <= i < cards.len()
    &&& cards[i].id@ == id
    &&& forall|j: int| 0 <= j < i ==> (#[trigger] cards[j]).id@ != id
}

/// Some card has identifier `id`.
pub open spec fn has_card(cards: Seq<Card>, id: Seq<char>) -> bool {
    exists|i: int| 0 <= i < cards.len() && (#[trigger] cards[i]).id@ == id
}

/// The first card with identifier `id`, when there is one.
pub open spec fn card_with(cards: Seq<Card>, id: Seq<char>) -> Card {
    cards[choose|i: int| first_card(cards, id, i)]
}

/// The TCGPlayer quote of the shown prices.
pub open spec fn tcgplayer_of(price: Option<CardPrice>) -> Option<PriceEntry> {
    match price {
        Some(p) => p.tcgplayer,
        None => None,
    }
}

/// The Cardmarket quote of the shown prices.
pub open spec fn cardmarket_of(price: Option<CardPrice>) -> Option<PriceEntry> {
    match price {
        Some(p) => p.cardmarket,
        None => None,
    }
}

pub open spec fn low_of(q: Option<PriceEntry>) -> Option<u32> {
    match q {
        Some(e) => e.low,
        None => None,
    }
}

pub open spec fn mid_of(q: Option<PriceEntry>) -> Option<u32> {
    match q {
        Some(e) => e.mid,
        None => None,
    }
}

pub open spec fn high_of(q: Option<PriceEntry>) -> Option<u32> {
    match q {
        Some(e) => e.high,
        None => None,
    }
}

/// `e` is the entry the card `card`, shown under `card_id` with the prices
/// `price`, adds to the collection: one near-mint copy, with the card's name,
/// set (empty when it has none), game and image, and the TCGPlayer and
/// Cardmarket prices shown.
pub open spec fn entry_for(
    e: CollectionEntry,
    card_id: String,
    card: Card,
    price: Option<CardPrice>,
) -> bool {
    &&& e.card_id == card_id
    &&& e.card_name == card.name
    &&& e.set_name@ == opt_chars(card.set_name)
    &&& e.game == card.game
    &&& e.quantity == 1
    &&& e.condition == Condition::NearMint
    &&& e.image_url == card.image_url
    &&& e.tcgplayer_low == low_of(tcgplayer_of(price))
    &&& e.tcgplayer_mid == mid_of(tcgplayer_of(price))
    &&& e.tcgplayer_high == high_of(tcgplayer_of(price))
    &&& e.cardmarket_low == low_of(cardmarket_of(price))
    &&& e.cardmarket_mid == mid_of(cardmarket_of(price))
    &&& e.cardmarket_high == high_of(cardmarket_of(price))
}

/// `a` asks for the details of the card `c`.
pub open spec fn fetches(a: Action, c: Card) -> bool {
    &&& a matches Action::FetchCardDetails { lookup_id, name, game, image_url }
    &&& lookup_id@ == lookup_id_of(c)
    &&& name == c.name
    &&& game == c.game
    &&& image_url@ == opt_chars(c.image_url)
}

/// `a` asks to index the image `bytes` of the card `c`, shown under `card_id`.
pub open spec fn indexes(a: Action, card_id: String, c: Card, bytes: Vec<u8>) -> bool {
    &&& a matches Action::IndexImage { card_id: id, name, game, set_name, image_url, bytes: b }
    &&& id == card_id
    &&& name == c.name
    &&& game == c.game
    &&& set_name@ == opt_chars(c.set_name)
    &&& image_url@ == opt_chars(c.image_url)
    &&& b@ == bytes@
}

/// The tab numbered `n` (0 to 3, in the order of the tabs).
pub open spec fn tab_of(n: u8) -> ActiveTab {
    if n == 0 {
        ActiveTab::Card
    } else if n == 1 {
        ActiveTab::History
    } else if n == 2 {
        ActiveTab::Collection
    } else {
        ActiveTab::Scanner
    }
}

/// The selected card is in the list, and adding a copy of it cannot push a
/// count past `u32::MAX`.
pub open spec fn add_fits<H, R>(s: UiState<H, R>) -> bool {
    match s.selected_card_id {
        Some(id) => has_card(s.cards@, id@) ==> forall|i: int|
            first_for(s.collection.entries@, id@, Condition::NearMint, i)
                ==> s.collection.entries@[i].quantity < u32::MAX,
        None => true,
    }
}

/// The message can be taken in this state: adding the selected card to the
/// collection does not overflow its count.
pub open spec fn accepts<H, R>(s: UiState<H, R>, m: Message<H, R>) -> bool {
    m is AddToCollection ==> add_fits(s)
}

/// Taking `m` in the state `s` leads to the state `t` and asks for `a`.
pub open spec fn next<H, R>(s: UiState<H, R>, m: Message<H, R>, t: UiState<H, R>, a: Action) -> bool {
    match m {
        Message::SearchChanged(v) => t == UiState { search_query: v, ..s } && a is Nothing,
        Message::GameSelected(v) => t == UiState { selected_game: Some(v), ..s } && a is Nothing,
        Message::CardSelected(id) => {
            &&& t == UiState {
                selected_card_id: Some(id),
                selected_card_price: None,
                selected_card_image: None,
                selected_card_history: None,
                price_loading: true,
                image_loading: true,
                history_loading: true,
                ..s
            }
            &&& if has_card(s.cards@, id@) {
                fetches(a, card_with(s.cards@, id@))
            } else {
                a is Nothing
            }
        },
        Message::CardsLoaded(Ok(cards)) => t == UiState { cards: cards, loading: false, ..s }
            && a is Nothing,
        Message::CardsLoaded(Err(e)) => t == UiState { error: Some(e), loading: false, ..s }
            && a is Nothing,
        Message::PricesLoaded(Ok(p)) => t == UiState {
            selected_card_price: Some(p),
            price_loading: false,
            ..s
        } && a is Nothing,
        Message::PricesLoaded(Err(e)) => t == UiState {
            error: Some(e),
            price_loading: false,
            ..s
        } && a is Nothing,
        Message::ImageLoaded(Ok(bytes)) => t == UiState {
            selected_card_image: Some(bytes),
            image_loading: false,
            ..s
        } && a is IndexCardNext,
        Message::ImageLoaded(Err(_)) => t == UiState { image_loading: false, ..s } && a is Nothing,
        Message::HistoryLoaded(Ok(h)) => t == UiState {
            selected_card_history: h,
            history_loading: false,
            ..s
        } && a is Nothing,
        Message::HistoryLoaded(Err(_)) => t == UiState { history_loading: false, ..s }
            && a is Nothing,
        Message::CollectionLoaded(c) => t == UiState {
            collection: c,
            collection_loading: false,
            ..s
        } && a is Nothing,
        Message::AddToCollection => match s.selected_card_id {
            Some(id) => if has_card(s.cards@, id@) {
                &&& t == UiState { collection: t.collection, ..s }
                &&& exists|e: CollectionEntry|
                    #[trigger] entry_for(e, id, card_with(s.cards@, id@), s.selected_card_price)
                        && t.collection.entries@ == added(s.collection.entries@, e)
                &&& a is SaveCollection
            } else {
                t == s && a is Nothing
            },
            None => t == s && a is Nothing,
        },
        Message::RemoveFromCollection(card_id, cond) => {
            &&& t == UiState { collection: t.collection, ..s }
            &&& t.collection.entries@ == removed(s.collection.entries@, card_id@, cond)
            &&& a is SaveCollection
        },
        Message::CollectionSaved => t == s && a is Nothing,
        Message::TabSelected(n) => {
            &&& if n < 4 {
                t == UiState { active_tab: tab_of(n), ..s }
            } else {
                t == s
            }
            &&& a is Nothing
        },
        Message::IndexCard => {
            &&& t == s
            &&& match (s.selected_card_id, s.selected_card_image) {
                (Some(id), Some(bytes)) => if has_card(s.cards@, id@) {
                    indexes(a, id, card_with(s.cards@, id@), bytes)
                } else {
                    a is Nothing
                },
                _ => a is Nothing,
            }
        },
        Message::HashIndexUpdated(index) => t == UiState { hash_index: index, ..s }
            && a is Nothing,
        Message::ScanFileSelected => t == s && a is PickScanFile,
        Message::ScanImageLoaded(Ok(bytes)) => {
            &&& t == UiState { scan_image_bytes: Some(bytes), scanning: true, ..s }
            &&& a matches Action::Scan { bytes: b } && b@ == bytes@
        },
        Message::ScanImageLoaded(Err(_)) => t == s && a is Nothing,
        Message::ScanComplete(r) => t == UiState { scan_result: Some(r), scanning: false, ..s }
            && a is Nothing,
        Message::WebcamCapture => t == s && a is Nothing,
    }
}

/// The state the browser starts in: waiting for its card list and its
/// collection, with nothing selected, the card tab shown and empty
/// collection and hash index.
pub open spec fn initial<H, R>(s: UiState<H, R>) -> bool {
    &&& s.cards@.len() == 0
    &&& s.selected_game is None
    &&& s.selected_card_id is None
    &&& s.selected_card_price is None
    &&& s.selected_card_image is None
    &&& s.selected_card_history is None
    &&& !s.price_loading
    &&& !s.image_loading
    &&& !s.history_loading
    &&& s.search_query@.len() == 0
    &&& s.loading
    &&& s.error is None
    &&& s.active_tab == ActiveTab::Card
    &&& s.collection.entries@.len() == 0
    &&& s.collection_loading
    &&& s.hash_index.entries@.len() == 0
    &&& s.scan_result is None
    &&& s.scan_image_bytes is None
    &&& !s.scanning
}

/// At most one position holds the first card with a given identifier.
proof fn lemma_first_card_unique(cards: Seq<Card>, id: Seq<char>, i: int)
    requires
        first_card(cards, id, i),
    ensures
        has_card(cards, id),
        card_with(cards, id) == cards[i],
{
    let k = choose|k: int| first_card(cards, id, k);
    assert(first_card(cards, id, k));
    if k < i {
        assert(cards[k].id@ != id);
    } else if i < k {
        assert(cards[i].id@ != id);
    }
}

/// The position of the first card with identifier `id`.
fn find_card(cards: &Vec<Card>, id: &str) -> (res: Option<usize>)
    ensures
        match res {
            Some(i) => first_card(cards@, id@, i as int),
            None => !has_card(cards@, id@),
        },
{
    let mut i: usize = 0;
    while i < cards.len()
        invariant
            i <= cards@.len(),
            forall|j: int| 0 <= j < i ==> (#[trigger] cards@[j]).id@ != id@,
        decreases cards@.len() - i,
    {
        if str_eq(cards[i].id.as_str(), id) {
            return Some(i);
        }
        i += 1;
    }
    None
}

/// The characters of an optional string, owned (empty for `None`).
fn chars_or_empty(s: &Option<String>) -> (res: String)
    ensures
        res@ == opt_chars(*s),
{
    match s {
        Some(v) => v.clone(),
        None => String::new(),
    }
}

/// The three prices of an optional quote.
fn band(q: &Option<PriceEntry>) -> (res: (Option<u32>, Option<u32>, Option<u32>))
    ensures
        res == (low_of(*q), mid_of(*q), high_of(*q)),
{
    match q {
        Some(e) => (e.low, e.mid, e.high),
        None => (None, None, None),
    }
}

/// The entry that adds the card `card`, shown under `card_id` with the prices
/// `price`, to the collection.
fn entry_for_card(card_id: &String, card: &Card, price: &Option<CardPrice>) -> (res: CollectionEntry)
    ensures
        entry_for(res, *card_id, *card, *price),
{
    let (tcg, cm) = match price {
        Some(p) => (band(&p.tcgplayer), band(&p.cardmarket)),
        None => ((None, None, None), (None, None, None)),
    };
    CollectionEntry {
        card_id: card_id.clone(),
        card_name: card.name.clone(),
        set_name: chars_or_empty(&card.set_name),
        game: card.game.clone(),
        quantity: 1,
        condition: Condition::NearMint,
        image_url: crate::card::clone_opt(&card.image_url),
        tcgplayer_low: tcg.0,
        tcgplayer_mid: tcg.1,
        tcgplayer_high: tcg.2,
        cardmarket_low: cm.0,
        cardmarket_mid: cm.1,
        cardmarket_high: cm.2,
    }
}

/// `update` for `CardSelected(id)`.
fn select_card<H, R>(state: &mut UiState<H, R>, id: String) -> (act: Action)
    ensures
        next(*old(state), Message::CardSelected(id), *final(state), act),
{
    let found = find_card(&state.cards, id.as_str());
    let act = match found {
        Some(i) => {
            let card = &state.cards[i];
            proof {
                lemma_first_card_unique(state.cards@, id@, i as int);
            }
            Action::FetchCardDetails {
                lookup_id: price_lookup_id(card),
                name: card.name.clone(),
                game: card.game.clone(),
                image_url: chars_or_empty(&card.image_url),
            }
        },
        None => Action::Nothing,
    };
    state.selected_card_id = Some(id);
    state.selected_card_price = None;
    state.selected_card_image = None;
    state.selected_card_history = None;
    state.price_loading = true;
    state.image_loading = true;
    state.history_loading = true;
    act
}

/// `update` for `AddToCollection`.
fn add_selected<H, R>(state: &mut UiState<H, R>) -> (act: Action)
    requires
        add_fits(*old(state)),
    ensures
        next(*old(state), Message::AddToCollection, *final(state), act),
{
    let entry = match &state.selected_card_id {
        Some(id) => match find_card(&state.cards, id.as_str()) {
            Some(i) => {
                proof {
                    lemma_first_card_unique(state.cards@, id@, i as int);
                }
                Some(entry_for_card(id, &state.cards[i], &state.selected_card_price))
            },
            None => None,
        },
        None => None,
    };
    match entry {
        Some(e) => {
            let ghost e0 = e;
            state.collection.add_or_increment(e);
            proof {
                let id = old(state).selected_card_id->0;
                assert(entry_for(
                    e0,
                    id,
                    card_with(old(state).cards@, id@),
                    old(state).selected_card_price,
                ));
            }
            Action::SaveCollection
        },
        None => Action::Nothing,
    }
}

/// `update` for `IndexCard`, which changes nothing in the state.
fn index_selected<H, R>(state: &UiState<H, R>) -> (act: Action)
    ensures
        next(*state, Message::IndexCard, *state, act),
{
    match (&state.selected_card_id, &state.selected_card_image) {
        (Some(id), Some(bytes)) => match find_card(&state.cards, id.as_str()) {
            Some(i) => {
                let card = &state.cards[i];
                proof {
                    lemma_first_card_unique(state.cards@, id@, i as int);
                }
                Action::IndexImage {
                    card_id: id.clone(),
                    name: card.name.clone(),
                    game: card.game.clone(),
                    set_name: chars_or_empty(&card.set_name),
                    image_url: chars_or_empty(&card.image_url),
                    bytes: bytes.clone(),
                }
            },
            None => Action::Nothing,
        },
        _ => Action::Nothing,
    }
}

/// Takes one message: changes the state as the message says and returns the
/// outside work it asks for (see `next`).
pub fn update<H, R>(state: &mut UiState<H, R>, message: Message<H, R>) -> (act: Action)
    requires
        accepts(*old(state), message),
    ensures
        next(*old(state), message, *final(state), act),
{
    match message {
        Message::SearchChanged(v) => {
            state.search_query = v;
            Action::Nothing
        },
        Message::GameSelected(v) => {
            state.selected_game = Some(v);
            Action::Nothing
        },
        Message::CardSelected(id) => select_card(state, id),
        Message::CardsLoaded(Ok(cards)) => {
            state.cards = cards;
            state.loading = false;
            Action::Nothing
        },
        Message::CardsLoaded(Err(e)) => {
            state.error = Some(e);
            state.loading = false;
            Action::Nothing
        },
        Message::PricesLoaded(Ok(p)) => {
            state.selected_card_price = Some(p);
            state.price_loading = false;
            Action::Nothing
        },
        Message::PricesLoaded(Err(e)) => {
            state.error = Some(e);
            state.price_loading = false;
            Action::Nothing
        },
        Message::ImageLoaded(Ok(bytes)) => {
            state.selected_card_image = Some(bytes);
            state.image_loading = false;
            Action::IndexCardNext
        },
        Message::ImageLoaded(Err(_)) => {
            state.image_loading = false;
            Action::Nothing
        },
        Message::HistoryLoaded(Ok(h)) => {
            state.selected_card_history = h;
            state.history_loading = false;
            Action::Nothing
        },
        Message::HistoryLoaded(Err(_)) => {
            state.history_loading = false;
            Action::Nothing
        },
        Message::CollectionLoaded(c) => {
            state.collection = c;
            state.collection_loading = false;
            Action::Nothing
        },
        Message::AddToCollection => add_selected(state),
        Message::RemoveFromCollection(card_id, cond) => {
            state.collection.remove_one(card_id.as_str(), &cond);
            Action::SaveCollection
        },
        Message::CollectionSaved => Action::Nothing,
        Message::TabSelected(n) => {
            if n == 0 {
                state.active_tab = ActiveTab::Card;
            } else if n == 1 {
                state.active_tab = ActiveTab::History;
            } else if n == 2 {
                state.active_tab = ActiveTab::Collection;
            } else if n == 3 {
                state.active_tab = ActiveTab::Scanner;
            }
            Action::Nothing
        },
        Message::IndexCard => index_selected(state),
        Message::HashIndexUpdated(index) => {
            state.hash_index = index;
            Action::Nothing
        },
        Message::ScanFileSelected => Action::PickScanFile,
        Message::ScanImageLoaded(Ok(bytes)) => {
            let copy = bytes.clone();
            state.scan_image_bytes = Some(bytes);
            state.scanning = true;
            Action::Scan { bytes: copy }
        },
        Message::ScanImageLoaded(Err(_)) => Action::Nothing,
        Message::ScanComplete(r) => {
            state.scan_result = Some(r);
            state.scanning = false;
            Action::Nothing
        },
        Message::WebcamCapture => Action::Nothing,
    }
}

/// The browser at start, and the loading it asks for first: the card list,
/// the collection and the hash index.
pub fn init<H, R>() -> (res: (UiState<H, R>, Vec<Action>))
    ensures
        initial(res.0),
        res.1@ == seq![Action::LoadCards, Action::LoadCollection, Action::LoadIndex],
{
    let state = UiState {
        cards: Vec::new(),
        selected_game: None,
        selected_card_id: None,
        selected_card_price: None,
        selected_card_image: None,
        selected_card_history: None,
        price_loading: false,
        image_loading: false,
        history_loading: false,
        search_query: String::new(),
        loading: true,
        error: None,
        active_tab: ActiveTab::Card,
        collection: Collection { entries: Vec::new() },
        collection_loading: true,
        hash_index: HashIndex::new(),
        scan_result: None,
        scan_image_bytes: None,
        scanning: false,
    };
    let mut actions: Vec<Action> = Vec::new();
    actions.push(Action::LoadCards);
    actions.push(Action::LoadCollection);
    actions.push(Action::LoadIndex);
    (state, actions)
}

/// The collection entry `e` holds the prices of `price` field for field: the
/// TCGPlayer quote's low, mid and high and the Cardmarket quote's low, mid and
/// high, none where a quote (or the prices) is missing.
pub open spec fn carries_quotes(e: CollectionEntry, price: Option<CardPrice>) -> bool {
    match price {
        Some(p) => {
            &&& match p.tcgplayer {
                Some(q) => e.tcgplayer_low == q.low && e.tcgplayer_mid == q.mid && e.tcgplayer_high
                    == q.high,
                None => e.tcgplayer_low is None && e.tcgplayer_mid is None && e.tcgplayer_high is None,
            }
            &&& match p.cardmarket {
                Some(q) => e.cardmarket_low == q.low && e.cardmarket_mid == q.mid
                    && e.cardmarket_high == q.high,
                None => e.cardmarket_low is None && e.cardmarket_mid is None && e.cardmarket_high
                    is None,
            }
        },
        None => {
            &&& e.tcgplayer_low is None && e.tcgplayer_mid is None && e.tcgplayer_high is None
            &&& e.cardmarket_low is None && e.cardmarket_mid is None && e.cardmarket_high is None
        },
    }
}

/// Adding the selected card from the browser records the prices it shows: the
/// collection's near-mint entry for that card then carries the shown TCGPlayer
/// and Cardmarket quotes field for field (low as low, mid as mid, high as
/// high), whether the entry is new or already held.
pub proof fn lemma_added_entry_carries_quotes<H, R>(s: UiState<H, R>, t: UiState<H, R>, a: Action)
    requires
        next(s, Message::AddToCollection, t, a),
        s.selected_card_id matches Some(id) && has_card(s.cards@, id@),
    ensures
        exists|i: int|
            first_for(t.collection.entries@, s.selected_card_id->0@, Condition::NearMint, i)
                && carries_quotes(#[trigger] t.collection.entries@[i], s.selected_card_price),
{
    let id = s.selected_card_id->0;
    let card = card_with(s.cards@, id@);
    let e = choose|e: CollectionEntry|
        #[trigger] entry_for(e, id, card, s.selected_card_price) && t.collection.entries@
            == added(s.collection.entries@, e);
    let old_entries = s.collection.entries@;
    let new_entries = t.collection.entries@;
    assert(e.card_id@ == id@);
    if has_entry_for(old_entries, id@, Condition::NearMint) {
        lemma_first_for_exists(old_entries, id@, Condition::NearMint);
        let i = choose|i: int| first_for(old_entries, id@, Condition::NearMint, i);
        assert(new_entries == old_entries.update(i, bumped(old_entries[i], e)));
        assert forall|j: int| 0 <= j < i implies !is_for(#[trigger] new_entries[j], id@, Condition::NearMint) by {
            assert(new_entries[j] == old_entries[j]);
        }
        assert(first_for(new_entries, id@, Condition::NearMint, i));
        assert(carries_quotes(new_entries[i], s.selected_card_price));
    } else {
        let n = old_entries.len() as int;
        assert(new_entries == old_entries.push(e));
        assert forall|j: int| 0 <= j < n implies !is_for(#[trigger] new_entries[j], id@, Condition::NearMint) by {
            assert(new_entries[j] == old_entries[j]);
        }
        assert(first_for(new_entries, id@, Condition::NearMint, n));
        assert(carries_quotes(new_entries[n], s.selected_card_price));
    }
}

} // verus!
