//! Cards from Scryfall's bulk data: how their rarities, images and prices
//! become catalogue cards and price records, and which bulk file to fetch.

use vstd::prelude::*;

use crate::card::{new_card_fields, Card, CardGame, Rarity};
use crate::collection::Condition;
use crate::pokemon_tcg::{opt_text, positions, record_of};
use crate::price::PriceRecord;
use crate::card::rarity_name;
use crate::text::{ascii_lower, str_eq, to_owned};

verus! {

/// One entry of Scryfall's bulk-data listing.
#[derive(Debug)]
pub struct BulkDataEntry {
    pub data_type: String,
    pub download_uri: String,
}

/// A Magic card as Scryfall describes it, with its prices already in cents.
#[derive(Debug)]
pub struct ScryfallCard {
    pub name: String,
    pub set: String,
    pub set_name: String,
    pub rarity: String,
    pub collector_number: String,
    pub type_line: Option<String>,
    pub oracle_text: Option<String>,
    pub prices: Option<ScryfallPrices>,
    pub image_uris: Option<ScryfallImageUris>,
}

/// Scryfall's prices of a card, each in cents: present when Scryfall's text
/// reads as a decimal number `x`, which becomes `(x * 100).round()`.
#[derive(Debug)]
pub struct ScryfallPrices {
    pub usd: Option<u64>,
    pub usd_foil: Option<u64>,
    pub eur: Option<u64>,
}

/// Image URLs of a card.
#[derive(Debug)]
pub struct ScryfallImageUris {
    pub small: Option<String>,
    pub normal: Option<String>,
    pub large: Option<String>,
}

/// The rarity a Scryfall rarity name stands for; unknown names are common.
pub open spec fn scryfall_rarity(s: Seq<char>) -> Rarity {
    if s == "common"@ {
        Rarity::Common
    } else if s == "uncommon"@ {
        Rarity::Uncommon
    } else if s == "rare"@ {
        Rarity::Rare
    } else if s == "mythic"@ {
        Rarity::Mythic
    } else if s == "special"@ || s == "bonus"@ {
        Rarity::Special
    } else {
        Rarity::Common
    }
}

/// The catalogue rarity of a Scryfall rarity name.
pub fn map_scryfall_rarity(rarity: &str) -> (res: Rarity)
    ensures
        res == scryfall_rarity(rarity@),
{
    if str_eq(rarity, "common") {
        Rarity::Common
    } else if str_eq(rarity, "uncommon") {
        Rarity::Uncommon
    } else if str_eq(rarity, "rare") {
        Rarity::Rare
    } else if str_eq(rarity, "mythic") {
        Rarity::Mythic
    } else if str_eq(rarity, "special") || str_eq(rarity, "bonus") {
        Rarity::Special
    } else {
        Rarity::Common
    }
}

/// The image of a card: the normal one, else the small one.
pub open spec fn scryfall_image(sc: ScryfallCard) -> Option<String> {
    match sc.image_uris {
        Some(imgs) => match imgs.normal {
            Some(n) => Some(n),
            None => imgs.small,
        },
        None => None,
    }
}

/// The US dollar price of a card, in cents.
pub open spec fn scryfall_usd(sc: ScryfallCard) -> Option<u64> {
    match sc.prices {
        Some(p) => p.usd,
        None => None,
    }
}

/// `c` is the catalogue card made of `sc`.
pub open spec fn scryfall_card_converted(sc: ScryfallCard, c: Card) -> bool {
    &&& new_card_fields(
        c,
        sc.name@,
        CardGame::MagicTheGathering,
        sc.set_name@,
        sc.set@,
        sc.collector_number@,
        scryfall_rarity(sc.rarity@),
        match sc.type_line {
            Some(t) => t@,
            None => "Unknown"@,
        },
        opt_text(sc.oracle_text),
    )
    &&& c.image_url == scryfall_image(sc)
}

/// The positions of the cards that have a US dollar price.
pub open spec fn usd_positions(scs: Seq<ScryfallCard>, n: nat) -> Seq<int> {
    positions(n).filter(|i: int| scryfall_usd(scs[i]) is Some)
}

/// `cards` and `prices` are what converting `scs` at time `now` gives: one
/// card per Scryfall card, in order, and one price record per card with a US
/// dollar price, in the same order.
pub open spec fn scryfall_conversion(
    scs: Seq<ScryfallCard>,
    cards: Seq<Card>,
    prices: Seq<PriceRecord>,
    now: i64,
) -> bool {
    let idx = usd_positions(scs, scs.len());
    &&& cards.len() == scs.len()
    &&& forall|i: int| 0 <= i < scs.len() ==> scryfall_card_converted(scs[i], #[trigger] cards[i])
    &&& prices.len() == idx.len()
    &&& forall|k: int|
        0 <= k < idx.len() ==> record_of(
            #[trigger] prices[k],
            cards[idx[k]].id@,
            scryfall_usd(scs[idx[k]])->0,
            "Scryfall/TCGPlayer"@,
            now,
        )
}

/// The catalogue card of a Scryfall card.
pub fn convert_scryfall_card(sc: &ScryfallCard) -> (res: Card)
    ensures
        scryfall_card_converted(*sc, res),
{
    let type_line = match &sc.type_line {
        Some(t) => t.clone(),
        None => to_owned("Unknown"),
    };
    let text = match &sc.oracle_text {
        Some(t) => t.clone(),
        None => String::new(),
    };
    let mut card = Card::new(
        sc.name.as_str(),
        CardGame::MagicTheGathering,
        sc.set_name.as_str(),
        sc.set.as_str(),
        sc.collector_number.as_str(),
        map_scryfall_rarity(sc.rarity.as_str()),
        type_line.as_str(),
        text.as_str(),
    );
    card.image_url = match &sc.image_uris {
        Some(imgs) => match &imgs.normal {
            Some(n) => Some(n.clone()),
            None => crate::card::clone_opt(&imgs.small),
        },
        None => None,
    };
    card
}

/// Converts Scryfall cards, seen at time `now`, into catalogue cards and the
/// US dollar prices of those that have one.
pub fn convert_scryfall_cards_at(scryfall_cards: &[ScryfallCard], now: i64) -> (res: (
    Vec<Card>,
    Vec<PriceRecord>,
))
    ensures
        scryfall_conversion(scryfall_cards@, res.0@, res.1@, now),
{
    let ghost scs = scryfall_cards@;
    let ghost pm = |i: int| scryfall_usd(scs[i]) is Some;
    let mut cards: Vec<Card> = Vec::new();
    let mut prices: Vec<PriceRecord> = Vec::new();
    let mut i: usize = 0;
    while i < scryfall_cards.len()
        invariant
            i <= scs.len(),
            scs == scryfall_cards@,
            pm == (|i: int| scryfall_usd(scs[i]) is Some),
            cards@.len() == i,
            forall|j: int| 0 <= j < i ==> scryfall_card_converted(scs[j], #[trigger] cards@[j]),
            prices@.len() == positions(i as nat).filter(pm).len(),
            forall|k: int|
                0 <= k < prices@.len() ==> record_of(
                    #[trigger] prices@[k],
                    cards@[positions(i as nat).filter(pm)[k]].id@,
                    scryfall_usd(scs[positions(i as nat).filter(pm)[k]])->0,
                    "Scryfall/TCGPlayer"@,
                    now,
                ),
            forall|k: int|
                0 <= k < positions(i as nat).filter(pm).len() ==> 0 <= #[trigger] positions(
                    i as nat,
                ).filter(pm)[k] < i,
        decreases scs.len() - i,
    {
        let sc = &scryfall_cards[i];
        let card = convert_scryfall_card(sc);
        let ghost old_idx = positions(i as nat).filter(pm);
        let ghost old_cards = cards@;
        proof {
            assert(positions((i + 1) as nat) =~= positions(i as nat).push(i as int));
            positions(i as nat).lemma_filter_push(i as int, pm);
        }
        let usd = match &sc.prices {
            Some(p) => p.usd,
            None => None,
        };
        match usd {
            Some(cents) => {
                prices.push(
                    PriceRecord {
                        card_id: card.id.clone(),
                        condition: Condition::NearMint,
                        price_cents: cents,
                        source: to_owned("Scryfall/TCGPlayer"),
                        recorded_at: now,
                    },
                );
            },
            None => {},
        }
        cards.push(card);
        proof {
            let new_idx = positions((i + 1) as nat).filter(pm);
            assert forall|k: int| 0 <= k < new_idx.len() implies 0 <= #[trigger] new_idx[k] < i
                + 1 by {
                if k < old_idx.len() {
                    assert(new_idx[k] == old_idx[k]);
                }
            }
            assert forall|k: int| 0 <= k < prices@.len() implies record_of(
                #[trigger] prices@[k],
                cards@[new_idx[k]].id@,
                scryfall_usd(scs[new_idx[k]])->0,
                "Scryfall/TCGPlayer"@,
                now,
            ) by {
                if k < old_idx.len() {
                    assert(new_idx[k] == old_idx[k]);
                    assert(cards@[old_idx[k]] == old_cards[old_idx[k]]);
                }
            }
        }
        i += 1;
    }
    (cards, prices)
}

/// Position `i` holds the first entry of the bulk-data listing of type
/// "oracle_cards".
pub open spec fn first_oracle(entries: Seq<BulkDataEntry>, i: int) -> bool {
    &&& 0 <= i < entries.len()
    &&& entries[i].data_type@ == "oracle_cards"@
    &&& forall|j: int| 0 <= j < i ==> (#[trigger] entries[j]).data_type@ != "oracle_cards"@
}

/// The download URL of the first "oracle_cards" entry of the bulk-data
/// listing, or none when the listing has no such entry.
pub fn oracle_download_uri(entries: &Vec<BulkDataEntry>) -> (res: Option<String>)
    ensures
        res is None <==> forall|j: int|
            0 <= j < entries@.len() ==> (#[trigger] entries@[j]).data_type@ != "oracle_cards"@,
        res matches Some(u) ==> exists|i: int|
            first_oracle(entries@, i) && u@ == entries@[i].download_uri@,
{
    let mut i: usize = 0;
    while i < entries.len()
        invariant
            i <= entries@.len(),
            forall|j: int| 0 <= j < i ==> (#[trigger] entries@[j]).data_type@ != "oracle_cards"@,
        decreases entries@.len() - i,
    {
        if str_eq(entries[i].data_type.as_str(), "oracle_cards") {
            assert(first_oracle(entries@, i as int));
            return Some(entries[i].download_uri.clone());
        }
        i += 1;
    }
    None
}

/// Scryfall's rarity names are the catalogue's rarity names in lower case:
/// "common", "uncommon", "rare", "mythic" and "special" map to the rarity whose
/// stored name they lower-case, so a converted card stores that name, and
/// "bonus" maps to Special as well.
pub proof fn lemma_scryfall_rarity_names(r: Rarity, sc: ScryfallCard, c: Card)
    requires
        r == Rarity::Common || r == Rarity::Uncommon || r == Rarity::Rare || r == Rarity::Mythic
            || r == Rarity::Special,
    ensures
        scryfall_rarity(ascii_lower(rarity_name(r))) == r,
        scryfall_rarity("bonus"@) == Rarity::Special,
        scryfall_card_converted(sc, c) && sc.rarity@ == ascii_lower(rarity_name(r)) ==> (c.rarity
            matches Some(stored) && ascii_lower(stored@) == sc.rarity@),
{
    reveal_strlit("common");
    reveal_strlit("uncommon");
    reveal_strlit("rare");
    reveal_strlit("mythic");
    reveal_strlit("special");
    reveal_strlit("bonus");
    reveal_strlit("Common");
    reveal_strlit("Uncommon");
    reveal_strlit("Rare");
    reveal_strlit("Mythic");
    reveal_strlit("Special");
    assert(ascii_lower("Common"@) =~= "common"@);
    assert(ascii_lower("Uncommon"@) =~= "uncommon"@);
    assert(ascii_lower("Rare"@) =~= "rare"@);
    assert(ascii_lower("Mythic"@) =~= "mythic"@);
    assert(ascii_lower("Special"@) =~= "special"@);
    assert("bonus"@ != "common"@ && "bonus"@ != "uncommon"@ && "bonus"@ != "rare"@ && "bonus"@
        != "mythic"@ && "bonus"@ != "special"@);
    assert("uncommon"@ != "common"@);
    assert("rare"@ != "common"@ && "rare"@ != "uncommon"@);
    assert("mythic"@[0] != "common"@[0]);
    assert("mythic"@ != "common"@ && "mythic"@ != "uncommon"@ && "mythic"@ != "rare"@);
    assert("special"@ != "common"@ && "special"@ != "uncommon"@ && "special"@ != "rare"@
        && "special"@ != "mythic"@);
}

} // verus!
