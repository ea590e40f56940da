//! Where a card's prices are looked up: which service answers for which game,
//! and the URLs asked.

use vstd::prelude::*;

use crate::card::Card;
use crate::text::{replace_spaces_with_plus, spaces_to_plus, str_eq, to_owned};

verus! {

/// The service that prices a card.
#[derive(Debug, Clone, Copy, PartialEq, Eq, Structural)]
pub enum PriceSource {
    /// Scryfall, for Magic cards.
    Scryfall,
    /// The PokémonTCG API, for Pokémon cards.
    PokemonTcg,
    /// No service: the card gets an empty price.
    Unpriced,
}

/// The service that prices cards of the game named `game`.
pub open spec fn source_for(game: Seq<char>) -> PriceSource {
    if game == "MagicTheGathering"@ {
        PriceSource::Scryfall
    } else if game == "Pokemon"@ {
        PriceSource::PokemonTcg
    } else {
        PriceSource::Unpriced
    }
}

/// The service that prices cards of the game named `game`.
pub fn price_source(game: &str) -> (res: PriceSource)
    ensures
        res == source_for(game@),
{
    if str_eq(game, "MagicTheGathering") {
        PriceSource::Scryfall
    } else if str_eq(game, "Pokemon") {
        PriceSource::PokemonTcg
    } else {
        PriceSource::Unpriced
    }
}

/// A card name as it goes into a query string: spaces become `+`.
pub fn urlencoded(s: &str) -> (res: String)
    ensures
        res@ == spaces_to_plus(s@),
{
    replace_spaces_with_plus(s)
}

/// `prefix` followed by `rest`.
fn concat(prefix: &str, rest: &str) -> (res: String)
    ensures
        res@ == prefix@ + rest@,
{
    let mut s = to_owned(prefix);
    s.append(rest);
    s
}

/// Scryfall's API URL of the card named exactly `name`.
pub fn scryfall_named_url(name: &str) -> (res: String)
    ensures
        res@ == "https://api.scryfall.com/cards/named?exact="@ + spaces_to_plus(name@),
{
    let enc = urlencoded(name);
    concat("https://api.scryfall.com/cards/named?exact=", enc.as_str())
}

/// Scryfall's web page of the card named exactly `name`, shown as the source
/// of its prices.
pub fn scryfall_page_url(name: &str) -> (res: String)
    ensures
        res@ == "https://scryfall.com/cards/named?exact="@ + spaces_to_plus(name@),
{
    let enc = urlencoded(name);
    concat("https://scryfall.com/cards/named?exact=", enc.as_str())
}

/// The PokémonTCG API URL of the card with identifier `card_id`.
pub fn ptcg_card_url(card_id: &str) -> (res: String)
    ensures
        res@ == "https://api.pokemontcg.io/v2/cards/"@ + card_id@,
{
    concat("https://api.pokemontcg.io/v2/cards/", card_id)
}

/// The PokémonTCG API URL searching for one card named `name`.
pub fn ptcg_search_url(name: &str) -> (res: String)
    ensures
        res@ == "https://api.pokemontcg.io/v2/cards?q=name:\""@ + name@ + "\"&pageSize=1"@,
{
    let mut s = concat("https://api.pokemontcg.io/v2/cards?q=name:\"", name);
    s.append("\"&pageSize=1");
    s
}

/// The page of TCGPlayer prices of the Pokémon card `card_id`.
pub fn tcgplayer_source_url(card_id: &str) -> (res: String)
    ensures
        res@ == "https://prices.pokemontcg.io/tcgplayer/"@ + card_id@,
{
    concat("https://prices.pokemontcg.io/tcgplayer/", card_id)
}

/// The page of CardMarket prices of the Pokémon card `card_id`.
pub fn cardmarket_source_url(card_id: &str) -> (res: String)
    ensures
        res@ == "https://prices.pokemontcg.io/cardmarket/"@ + card_id@,
{
    concat("https://prices.pokemontcg.io/cardmarket/", card_id)
}

/// The identifier a card's prices are looked up under: a Pokémon card's
/// PokémonTCG identifier when it has one, otherwise the card's own identifier.
pub open spec fn lookup_id_of(c: Card) -> Seq<char> {
    if c.game@ == "Pokemon"@ {
        match (c.set_code, c.card_number) {
            (Some(set), Some(num)) => crate::card::set_number_id(set@, num@),
            _ => c.id@,
        }
    } else {
        c.id@
    }
}

/// The identifier a card's prices are looked up under.
pub fn price_lookup_id(card: &Card) -> (res: String)
    ensures
        res@ == lookup_id_of(*card),
{
    if str_eq(card.game.as_str(), "Pokemon") {
        match card.ptcg_id() {
            Some(id) => id,
            None => card.id.clone(),
        }
    } else {
        card.id.clone()
    }
}

} // verus!
