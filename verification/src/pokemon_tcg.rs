//! Cards from the PokémonTCG API: how its rarities, types, images and market
//! prices become catalogue cards and price records, and how its pages are
//! walked.

use vstd::prelude::*;

use crate::card::{new_card_fields, Card, CardGame, Rarity};
use crate::collection::Condition;
use crate::price::PriceRecord;
use crate::text::{
    chars_of, contains, contains_chars, join, join_strings, lowercase, lowercase_chars, to_owned,
};

verus! {

/// The API's base URL.
pub const API_BASE: &'static str = "https://api.pokemontcg.io/v2";

/// How many cards one page of the API holds.
pub const PAGE_SIZE: u32 = 250;

/// A card as the API describes it, with its prices already in cents.
#[derive(Debug)]
pub struct PokemonTcgCard {
    pub id: String,
    pub name: String,
    pub supertype: Option<String>,
    pub subtypes: Vec<String>,
    pub set: PokemonTcgSet,
    pub number: String,
    pub rarity: Option<String>,
    pub images: Option<PokemonTcgImages>,
    pub tcgplayer: Option<PokemonTcgPriceSource>,
    pub flavor_text: Option<String>,
}

/// The set a card belongs to.
#[derive(Debug)]
pub struct PokemonTcgSet {
    pub id: String,
    pub name: String,
}

/// Image URLs of a card.
#[derive(Debug)]
pub struct PokemonTcgImages {
    pub small: Option<String>,
    pub large: Option<String>,
}

/// TCGPlayer's prices of a card: one price set per printing variant, in the
/// order the API response lists them.
#[derive(Debug)]
pub struct PokemonTcgPriceSource {
    pub prices: Option<Vec<(String, PokemonTcgPriceData)>>,
    pub updated_at: Option<String>,
}

/// Prices of one printing, each in US cents: the dollar amount `x` of the API
/// becomes `(x * 100).round()`.
#[derive(Debug)]
pub struct PokemonTcgPriceData {
    pub market: Option<u64>,
    pub low: Option<u64>,
    pub mid: Option<u64>,
    pub high: Option<u64>,
}

/// The rarity a PokémonTCG rarity name stands for, decided on its lower-cased
/// text: secret and hyper rares first, then ultra and illustration rares,
/// holo rares, rares, uncommons, commons, promos and "amazing" rares; anything
/// else is common.
pub open spec fn pokemon_rarity(s: Seq<char>) -> Rarity {
    let l = lowercase(s);
    if contains(l, "secret"@) || contains(l, "hyper"@) {
        Rarity::SecretRare
    } else if contains(l, "ultra"@) || contains(l, "illustration"@) {
        Rarity::UltraRare
    } else if contains(l, "holo"@) && contains(l, "rare"@) {
        Rarity::HoloRare
    } else if contains(l, "rare"@) {
        Rarity::Rare
    } else if contains(l, "uncommon"@) {
        Rarity::Uncommon
    } else if contains(l, "common"@) {
        Rarity::Common
    } else if contains(l, "promo"@) || contains(l, "amazing"@) {
        Rarity::Special
    } else {
        Rarity::Common
    }
}

/// Whether the lower-cased text `l` contains the literal `word`.
fn has(l: &Vec<char>, word: &str) -> (res: bool)
    ensures
        res == contains(l@, word@),
{
    let w = chars_of(word);
    contains_chars(l.as_slice(), w.as_slice())
}

/// The catalogue rarity of a PokémonTCG rarity name.
pub fn map_pokemon_rarity(rarity: &str) -> (res: Rarity)
    ensures
        res == pokemon_rarity(rarity@),
{
    let l = lowercase_chars(rarity);
    if has(&l, "secret") || has(&l, "hyper") {
        Rarity::SecretRare
    } else if has(&l, "ultra") || has(&l, "illustration") {
        Rarity::UltraRare
    } else if has(&l, "holo") && has(&l, "rare") {
        Rarity::HoloRare
    } else if has(&l, "rare") {
        Rarity::Rare
    } else if has(&l, "uncommon") {
        Rarity::Uncommon
    } else if has(&l, "common") {
        Rarity::Common
    } else if has(&l, "promo") || has(&l, "amazing") {
        Rarity::Special
    } else {
        Rarity::Common
    }
}

/// The views of a list of strings.
pub open spec fn views(v: Seq<String>) -> Seq<Seq<char>> {
    v.map_values(|s: String| s@)
}

/// The type line of a card: its supertype ("Unknown" when absent), followed by
/// " — " and its subtypes separated by ", " when it has any.
pub open spec fn pokemon_card_type(pc: PokemonTcgCard) -> Seq<char> {
    let sup = match pc.supertype {
        Some(s) => s@,
        None => "Unknown"@,
    };
    if pc.subtypes@.len() == 0 {
        sup
    } else {
        sup + " — "@ + join(views(pc.subtypes@), ", "@)
    }
}

/// The catalogue rarity of a card (common when the API gives none).
pub open spec fn pokemon_card_rarity(pc: PokemonTcgCard) -> Rarity {
    match pc.rarity {
        Some(r) => pokemon_rarity(r@),
        None => Rarity::Common,
    }
}

/// The image of a card: the large one, else the small one.
pub open spec fn pokemon_image(pc: PokemonTcgCard) -> Option<String> {
    match pc.images {
        Some(imgs) => match imgs.large {
            Some(l) => Some(l),
            None => imgs.small,
        },
        None => None,
    }
}

/// The market price, in cents, of the first printing TCGPlayer lists.
pub open spec fn pokemon_market(pc: PokemonTcgCard) -> Option<u64> {
    match pc.tcgplayer {
        Some(t) => match t.prices {
            Some(v) => if v@.len() > 0 {
                v@[0].1.market
            } else {
                None
            },
            None => None,
        },
        None => None,
    }
}

/// `c` is the catalogue card made of `pc`.
pub open spec fn pokemon_card_converted(pc: PokemonTcgCard, c: Card) -> bool {
    &&& new_card_fields(
        c,
        pc.name@,
        CardGame::Pokemon,
        pc.set.name@,
        pc.set.id@,
        pc.number@,
        pokemon_card_rarity(pc),
        pokemon_card_type(pc),
        opt_text(pc.flavor_text),
    )
    &&& c.image_url == pokemon_image(pc)
}

/// The text of an optional string, empty when absent.
pub open spec fn opt_text(s: Option<String>) -> Seq<char> {
    match s {
        Some(v) => v@,
        None => Seq::empty(),
    }
}

/// `r` is the near-mint price record of `cents` for `card_id`, from `source`,
/// seen at `now`.
pub open spec fn record_of(
    r: PriceRecord,
    card_id: Seq<char>,
    cents: u64,
    source: Seq<char>,
    now: i64,
) -> bool {
    &&& r.card_id@ == card_id
    &&& r.condition == Condition::NearMint
    &&& r.price_cents == cents
    &&& r.source@ == source
    &&& r.recorded_at == now
}

/// The positions `0..n`.
pub open spec fn positions(n: nat) -> Seq<int> {
    Seq::new(n, |i: int| i)
}

/// The positions of the cards that have a market price.
pub open spec fn priced_positions(pcs: Seq<PokemonTcgCard>, n: nat) -> Seq<int> {
    positions(n).filter(|i: int| pokemon_market(pcs[i]) is Some)
}

/// `cards` and `prices` are what converting `pcs` at time `now` gives: one
/// card per API card, in order, and one TCGPlayer price record per card with a
/// market price, in the same order.
pub open spec fn pokemon_conversion(
    pcs: Seq<PokemonTcgCard>,
    cards: Seq<Card>,
    prices: Seq<PriceRecord>,
    now: i64,
) -> bool {
    let idx = priced_positions(pcs, pcs.len());
    &&& cards.len() == pcs.len()
    &&& forall|i: int| 0 <= i < pcs.len() ==> pokemon_card_converted(pcs[i], #[trigger] cards[i])
    &&& prices.len() == idx.len()
    &&& forall|k: int|
        0 <= k < idx.len() ==> record_of(
            #[trigger] prices[k],
            cards[idx[k]].id@,
            pokemon_market(pcs[idx[k]])->0,
            "TCGPlayer"@,
            now,
        )
}

/// The type line of a card.
fn card_type_of(pc: &PokemonTcgCard) -> (res: String)
    ensures
        res@ == pokemon_card_type(*pc),
{
    let mut t = match &pc.supertype {
        Some(s) => s.clone(),
        None => to_owned("Unknown"),
    };
    if pc.subtypes.len() > 0 {
        t.append(" — ");
        let subs = join_strings(&pc.subtypes, ", ");
        t.append(subs.as_str());
    }
    t
}

/// The image of a card.
fn image_of(pc: &PokemonTcgCard) -> (res: Option<String>)
    ensures
        res == pokemon_image(*pc),
{
    match &pc.images {
        Some(imgs) => match &imgs.large {
            Some(l) => Some(l.clone()),
            None => crate::card::clone_opt(&imgs.small),
        },
        None => None,
    }
}

/// The market price of the first printing.
fn market_of(pc: &PokemonTcgCard) -> (res: Option<u64>)
    ensures
        res == pokemon_market(*pc),
{
    match &pc.tcgplayer {
        Some(t) => match &t.prices {
            Some(v) => if v.len() > 0 {
                v[0].1.market
            } else {
                None
            },
            None => None,
        },
        None => None,
    }
}

/// The catalogue card of an API card.
pub fn convert_pokemon_card(pc: &PokemonTcgCard) -> (res: Card)
    ensures
        pokemon_card_converted(*pc, res),
{
    let card_type = card_type_of(pc);
    let rarity = match &pc.rarity {
        Some(r) => map_pokemon_rarity(r.as_str()),
        None => Rarity::Common,
    };
    let description = match &pc.flavor_text {
        Some(d) => d.clone(),
        None => String::new(),
    };
    let mut card = Card::new(
        pc.name.as_str(),
        CardGame::Pokemon,
        pc.set.name.as_str(),
        pc.set.id.as_str(),
        pc.number.as_str(),
        rarity,
        card_type.as_str(),
        description.as_str(),
    );
    card.image_url = image_of(pc);
    card
}

/// Converts API cards, seen at time `now`, into catalogue cards and the
/// TCGPlayer market prices of those that have one.
pub fn convert_pokemon_cards_at(pokemon_cards: &[PokemonTcgCard], now: i64) -> (res: (
    Vec<Card>,
    Vec<PriceRecord>,
))
    ensures
        pokemon_conversion(pokemon_cards@, res.0@, res.1@, now),
{
    let ghost pcs = pokemon_cards@;
    let ghost pm = |i: int| pokemon_market(pcs[i]) is Some;
    let mut cards: Vec<Card> = Vec::new();
    let mut prices: Vec<PriceRecord> = Vec::new();
    let mut i: usize = 0;
    while i < pokemon_cards.len()
        invariant
            i <= pcs.len(),
            pcs == pokemon_cards@,
            pm == (|i: int| pokemon_market(pcs[i]) is Some),
            cards@.len() == i,
            forall|j: int| 0 <= j < i ==> pokemon_card_converted(pcs[j], #[trigger] cards@[j]),
            prices@.len() == positions(i as nat).filter(pm).len(),
            forall|k: int|
                0 <= k < prices@.len() ==> record_of(
                    #[trigger] prices@[k],
                    cards@[positions(i as nat).filter(pm)[k]].id@,
                    pokemon_market(pcs[positions(i as nat).filter(pm)[k]])->0,
                    "TCGPlayer"@,
                    now,
                ),
            forall|k: int|
                0 <= k < positions(i as nat).filter(pm).len() ==> 0 <= #[trigger] positions(
                    i as nat,
                ).filter(pm)[k] < i,
        decreases pcs.len() - i,
    {
        let pc = &pokemon_cards[i];
        let card = convert_pokemon_card(pc);
        let ghost old_idx = positions(i as nat).filter(pm);
        let ghost old_cards = cards@;
        proof {
            assert(positions((i + 1) as nat) =~= positions(i as nat).push(i as int));
            positions(i as nat).lemma_filter_push(i as int, pm);
        }
        match market_of(pc) {
            Some(cents) => {
                prices.push(
                    PriceRecord {
                        card_id: card.id.clone(),
                        condition: Condition::NearMint,
                        price_cents: cents,
                        source: to_owned("TCGPlayer"),
                        recorded_at: now,
                    },
                );
            },
            None => {},
        }
        cards.push(card);
        proof {
            let new_idx = positions((i + 1) as nat).filter(pm);
            assert forall|k: int| 0 <= k < new_idx.len() implies 0 <= #[trigger] new_idx[k] < i
                + 1 by {
                if k < old_idx.len() {
                    assert(new_idx[k] == old_idx[k]);
                }
            }
            assert forall|k: int| 0 <= k < prices@.len() implies record_of(
                #[trigger] prices@[k],
                cards@[new_idx[k]].id@,
                pokemon_market(pcs[new_idx[k]])->0,
                "TCGPlayer"@,
                now,
            ) by {
                if k < old_idx.len() {
                    assert(new_idx[k] == old_idx[k]);
                    assert(cards@[old_idx[k]] == old_cards[old_idx[k]]);
                }
            }
        }
        i += 1;
    }
    (cards, prices)
}

/// The URL of page `page` of the API's card listing.
pub open spec fn page_url(page: u32) -> Seq<char> {
    API_BASE@ + "/cards?pageSize="@ + crate::text::decimal(PAGE_SIZE as nat) + "&page="@
        + crate::text::decimal(page as nat)
}

/// The URL of page `page` of the API's card listing.
pub fn cards_page_url(page: u32) -> (res: String)
    ensures
        res@ == page_url(page),
{
    let mut url = to_owned(API_BASE);
    url.append("/cards?pageSize=");
    let size = crate::text::decimal_string(PAGE_SIZE as u64);
    url.append(size.as_str());
    url.append("&page=");
    let p = crate::text::decimal_string(page as u64);
    url.append(p.as_str());
    url
}

/// After a page holding `count` cards: the next page to fetch, or none when
/// that page was not full (the listing is then complete).
pub fn next_page(page: u32, count: usize) -> (res: Option<u32>)
    requires
        count >= PAGE_SIZE ==> page < u32::MAX,
    ensures
        count < PAGE_SIZE ==> res is None,
        count >= PAGE_SIZE ==> res == Some((page + 1) as u32),
{
    if count < PAGE_SIZE as usize {
        None
    } else {
        Some(page + 1)
    }
}

/// A converted card shows the API's large image when the card has one; the
/// small image is taken only when there is no large one.
pub proof fn lemma_pokemon_image_prefers_large(pc: PokemonTcgCard, c: Card)
    requires
        pokemon_card_converted(pc, c),
    ensures
        pc.images is Some && pc.images->0.large is Some ==> c.image_url == pc.images->0.large,
        pc.images is Some && pc.images->0.large is None ==> c.image_url == pc.images->0.small,
        pc.images is None ==> c.image_url is None,
{
}

} // verus!
