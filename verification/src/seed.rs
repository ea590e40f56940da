//! The built-in sample catalogue: ten Pokémon and ten Magic cards with a
//! near-mint TCGPlayer price each.

use vstd::prelude::*;

use crate::card::{new_card_fields, Card, CardGame, Rarity};
use crate::collection::Condition;
use crate::database::CardDatabase;
use crate::pokemon_tcg::record_of;
use crate::price::{PriceIndex, PriceRecord};
use crate::text::{str_eq, to_owned};

verus! {

/// How many cards the sample catalogue holds.
pub const SEED_CARD_COUNT: usize = 20;

/// Card `i` of the sample catalogue is `c`.
pub open spec fn seed_card(c: Card, i: int) -> bool {
    if i == 0 {
        new_card_fields(c, "Charizard VMAX"@, CardGame::Pokemon, "Darkness Ablaze"@, "DAA"@, "020/189"@, Rarity::UltraRare, "VMAX Pokémon"@, "Gigantamax Charizard. G-Max Wildfire: 300 damage."@)
    } else if i == 1 {
        new_card_fields(c, "Pikachu V"@, CardGame::Pokemon, "Vivid Voltage"@, "VIV"@, "043/185"@, Rarity::UltraRare, "V Pokémon"@, "Thunderbolt: 200 damage. Discard all Energy from this Pokémon."@)
    } else if i == 2 {
        new_card_fields(c, "Mewtwo GX"@, CardGame::Pokemon, "Shiny Vault"@, "SV"@, "SV59/SV94"@, Rarity::SecretRare, "GX Pokémon"@, "Psystrike GX: 200 damage. This attack's damage isn't affected by effects on the Defending Pokémon."@)
    } else if i == 3 {
        new_card_fields(c, "Umbreon VMAX"@, CardGame::Pokemon, "Evolving Skies"@, "EVS"@, "215/203"@, Rarity::SecretRare, "VMAX Pokémon"@, "Dark Signal Ability. Max Darkness: 160 damage."@)
    } else if i == 4 {
        new_card_fields(c, "Lugia V"@, CardGame::Pokemon, "Silver Tempest"@, "SIT"@, "138/195"@, Rarity::UltraRare, "V Pokémon"@, "Aero Dive: 130 damage. Discard a Stadium in play."@)
    } else if i == 5 {
        new_card_fields(c, "Giratina VSTAR"@, CardGame::Pokemon, "Lost Origin"@, "LOR"@, "131/196"@, Rarity::UltraRare, "VSTAR Pokémon"@, "Lost Impact: 280 damage. Put 2 Energy attached to your Pokémon in the Lost Zone."@)
    } else if i == 6 {
        new_card_fields(c, "Rayquaza VMAX"@, CardGame::Pokemon, "Evolving Skies"@, "EVS"@, "218/203"@, Rarity::SecretRare, "VMAX Pokémon"@, "Max Burst: 20+ damage. Discard any amount of basic Energy. 80 more for each."@)
    } else if i == 7 {
        new_card_fields(c, "Mew VMAX"@, CardGame::Pokemon, "Fusion Strike"@, "FST"@, "268/264"@, Rarity::SecretRare, "VMAX Pokémon"@, "Cross Fusion Strike. Max Miracle: 130 damage."@)
    } else if i == 8 {
        new_card_fields(c, "Arceus VSTAR"@, CardGame::Pokemon, "Brilliant Stars"@, "BRS"@, "123/172"@, Rarity::UltraRare, "VSTAR Pokémon"@, "Trinity Nova: 200 damage. Search your deck for up to 3 Energy and attach them."@)
    } else if i == 9 {
        new_card_fields(c, "Palkia VSTAR"@, CardGame::Pokemon, "Astral Radiance"@, "ASR"@, "040/189"@, Rarity::UltraRare, "VSTAR Pokémon"@, "Subspace Swell: 60× damage. This attack does 60 damage for each Benched Pokémon."@)
    } else if i == 10 {
        new_card_fields(c, "Black Lotus"@, CardGame::MagicTheGathering, "Alpha"@, "LEA"@, "232"@, Rarity::Rare, "Artifact"@, "Sacrifice Black Lotus: Add three mana of any one color."@)
    } else if i == 11 {
        new_card_fields(c, "Lightning Bolt"@, CardGame::MagicTheGathering, "Magic 2010"@, "M10"@, "146"@, Rarity::Common, "Instant"@, "Lightning Bolt deals 3 damage to any target."@)
    } else if i == 12 {
        new_card_fields(c, "Jace, the Mind Sculptor"@, CardGame::MagicTheGathering, "Worldwake"@, "WWK"@, "031"@, Rarity::Mythic, "Planeswalker — Jace"@, "Brainstorm, unsummon, fateseal, and mill abilities."@)
    } else if i == 13 {
        new_card_fields(c, "Liliana of the Veil"@, CardGame::MagicTheGathering, "Innistrad"@, "ISD"@, "105"@, Rarity::Mythic, "Planeswalker — Liliana"@, "+1: Each player discards. -2: Target player sacrifices a creature. -6: Separate permanents into two piles."@)
    } else if i == 14 {
        new_card_fields(c, "Ragavan, Nimble Pilferer"@, CardGame::MagicTheGathering, "Modern Horizons 2"@, "MH2"@, "138"@, Rarity::Mythic, "Legendary Creature — Monkey Pirate"@, "Whenever Ragavan deals combat damage, create a Treasure and exile the top card of defending player's library."@)
    } else if i == 15 {
        new_card_fields(c, "Sheoldred, the Apocalypse"@, CardGame::MagicTheGathering, "Dominaria United"@, "DMU"@, "107"@, Rarity::Mythic, "Legendary Creature — Phyrexian Praetor"@, "Whenever you draw a card, you gain 2 life. Whenever an opponent draws, they lose 2 life."@)
    } else if i == 16 {
        new_card_fields(c, "The One Ring"@, CardGame::MagicTheGathering, "Lord of the Rings: Tales of Middle-earth"@, "LTR"@, "246"@, Rarity::Mythic, "Legendary Artifact"@, "Indestructible. When it enters, protection from everything until your next turn. Burden counters draw cards."@)
    } else if i == 17 {
        new_card_fields(c, "Wrenn and Six"@, CardGame::MagicTheGathering, "Modern Horizons"@, "MH1"@, "217"@, Rarity::Mythic, "Planeswalker — Wrenn"@, "+1: Return land from graveyard. -1: Deal 1 damage to target. -7: Retrace emblem."@)
    } else if i == 18 {
        new_card_fields(c, "Force of Will"@, CardGame::MagicTheGathering, "Alliances"@, "ALL"@, "028"@, Rarity::Uncommon, "Instant"@, "You may pay 1 life and exile a blue card rather than pay this spell's mana cost. Counter target spell."@)
    } else {
        new_card_fields(c, "Tarmogoyf"@, CardGame::MagicTheGathering, "Future Sight"@, "FUT"@, "153"@, Rarity::Rare, "Creature — Lhurgoyf"@, "Tarmogoyf's power is equal to the number of card types among cards in all graveyards."@)
    }
}

/// The card name and price in cents of price `k` of the sample catalogue.
pub open spec fn seed_price(k: int) -> (Seq<char>, u64) {
    if k == 0 {
        ("Charizard VMAX"@, 27500u64)
    } else if k == 1 {
        ("Pikachu V"@, 850u64)
    } else if k == 2 {
        ("Mewtwo GX"@, 4200u64)
    } else if k == 3 {
        ("Umbreon VMAX"@, 32000u64)
    } else if k == 4 {
        ("Lugia V"@, 1200u64)
    } else if k == 5 {
        ("Giratina VSTAR"@, 1600u64)
    } else if k == 6 {
        ("Rayquaza VMAX"@, 18500u64)
    } else if k == 7 {
        ("Mew VMAX"@, 5500u64)
    } else if k == 8 {
        ("Arceus VSTAR"@, 900u64)
    } else if k == 9 {
        ("Palkia VSTAR"@, 750u64)
    } else if k == 10 {
        ("Black Lotus"@, 50000000u64)
    } else if k == 11 {
        ("Lightning Bolt"@, 150u64)
    } else if k == 12 {
        ("Jace, the Mind Sculptor"@, 3500u64)
    } else if k == 13 {
        ("Liliana of the Veil"@, 2200u64)
    } else if k == 14 {
        ("Ragavan, Nimble Pilferer"@, 6500u64)
    } else if k == 15 {
        ("Sheoldred, the Apocalypse"@, 7500u64)
    } else if k == 16 {
        ("The One Ring"@, 5000u64)
    } else if k == 17 {
        ("Wrenn and Six"@, 4800u64)
    } else if k == 18 {
        ("Force of Will"@, 8500u64)
    } else {
        ("Tarmogoyf"@, 1200u64)
    }
}

/// The sample cards, in catalogue order.
fn seed_cards() -> (res: Vec<Card>)
    ensures
        res@.len() == SEED_CARD_COUNT,
        forall|i: int| 0 <= i < SEED_CARD_COUNT ==> seed_card(#[trigger] res@[i], i),
        forall|i: int| 0 <= i < SEED_CARD_COUNT ==> (#[trigger] res@[i]).image_url is None,
{
    let mut v: Vec<Card> = Vec::new();
    v.push(Card::new("Charizard VMAX", CardGame::Pokemon, "Darkness Ablaze", "DAA", "020/189", Rarity::UltraRare, "VMAX Pokémon", "Gigantamax Charizard. G-Max Wildfire: 300 damage."));
    assert(seed_card(v@[0], 0));
    v.push(Card::new("Pikachu V", CardGame::Pokemon, "Vivid Voltage", "VIV", "043/185", Rarity::UltraRare, "V Pokémon", "Thunderbolt: 200 damage. Discard all Energy from this Pokémon."));
    assert(seed_card(v@[1], 1));
    v.push(Card::new("Mewtwo GX", CardGame::Pokemon, "Shiny Vault", "SV", "SV59/SV94", Rarity::SecretRare, "GX Pokémon", "Psystrike GX: 200 damage. This attack's damage isn't affected by effects on the Defending Pokémon."));
    assert(seed_card(v@[2], 2));
    v.push(Card::new("Umbreon VMAX", CardGame::Pokemon, "Evolving Skies", "EVS", "215/203", Rarity::SecretRare, "VMAX Pokémon", "Dark Signal Ability. Max Darkness: 160 damage."));
    assert(seed_card(v@[3], 3));
    v.push(Card::new("Lugia V", CardGame::Pokemon, "Silver Tempest", "SIT", "138/195", Rarity::UltraRare, "V Pokémon", "Aero Dive: 130 damage. Discard a Stadium in play."));
    assert(seed_card(v@[4], 4));
    v.push(Card::new("Giratina VSTAR", CardGame::Pokemon, "Lost Origin", "LOR", "131/196", Rarity::UltraRare, "VSTAR Pokémon", "Lost Impact: 280 damage. Put 2 Energy attached to your Pokémon in the Lost Zone."));
    assert(seed_card(v@[5], 5));
    v.push(Card::new("Rayquaza VMAX", CardGame::Pokemon, "Evolving Skies", "EVS", "218/203", Rarity::SecretRare, "VMAX Pokémon", "Max Burst: 20+ damage. Discard any amount of basic Energy. 80 more for each."));
    assert(seed_card(v@[6], 6));
    v.push(Card::new("Mew VMAX", CardGame::Pokemon, "Fusion Strike", "FST", "268/264", Rarity::SecretRare, "VMAX Pokémon", "Cross Fusion Strike. Max Miracle: 130 damage."));
    assert(seed_card(v@[7], 7));
    v.push(Card::new("Arceus VSTAR", CardGame::Pokemon, "Brilliant Stars", "BRS", "123/172", Rarity::UltraRare, "VSTAR Pokémon", "Trinity Nova: 200 damage. Search your deck for up to 3 Energy and attach them."));
    assert(seed_card(v@[8], 8));
    v.push(Card::new("Palkia VSTAR", CardGame::Pokemon, "Astral Radiance", "ASR", "040/189", Rarity::UltraRare, "VSTAR Pokémon", "Subspace Swell: 60× damage. This attack does 60 damage for each Benched Pokémon."));
    assert(seed_card(v@[9], 9));
    v.push(Card::new("Black Lotus", CardGame::MagicTheGathering, "Alpha", "LEA", "232", Rarity::Rare, "Artifact", "Sacrifice Black Lotus: Add three mana of any one color."));
    assert(seed_card(v@[10], 10));
    v.push(Card::new("Lightning Bolt", CardGame::MagicTheGathering, "Magic 2010", "M10", "146", Rarity::Common, "Instant", "Lightning Bolt deals 3 damage to any target."));
    assert(seed_card(v@[11], 11));
    v.push(Card::new("Jace, the Mind Sculptor", CardGame::MagicTheGathering, "Worldwake", "WWK", "031", Rarity::Mythic, "Planeswalker — Jace", "Brainstorm, unsummon, fateseal, and mill abilities."));
    assert(seed_card(v@[12], 12));
    v.push(Card::new("Liliana of the Veil", CardGame::MagicTheGathering, "Innistrad", "ISD", "105", Rarity::Mythic, "Planeswalker — Liliana", "+1: Each player discards. -2: Target player sacrifices a creature. -6: Separate permanents into two piles."));
    assert(seed_card(v@[13], 13));
    v.push(Card::new("Ragavan, Nimble Pilferer", CardGame::MagicTheGathering, "Modern Horizons 2", "MH2", "138", Rarity::Mythic, "Legendary Creature — Monkey Pirate", "Whenever Ragavan deals combat damage, create a Treasure and exile the top card of defending player's library."));
    assert(seed_card(v@[14], 14));
    v.push(Card::new("Sheoldred, the Apocalypse", CardGame::MagicTheGathering, "Dominaria United", "DMU", "107", Rarity::Mythic, "Legendary Creature — Phyrexian Praetor", "Whenever you draw a card, you gain 2 life. Whenever an opponent draws, they lose 2 life."));
    assert(seed_card(v@[15], 15));
    v.push(Card::new("The One Ring", CardGame::MagicTheGathering, "Lord of the Rings: Tales of Middle-earth", "LTR", "246", Rarity::Mythic, "Legendary Artifact", "Indestructible. When it enters, protection from everything until your next turn. Burden counters draw cards."));
    assert(seed_card(v@[16], 16));
    v.push(Card::new("Wrenn and Six", CardGame::MagicTheGathering, "Modern Horizons", "MH1", "217", Rarity::Mythic, "Planeswalker — Wrenn", "+1: Return land from graveyard. -1: Deal 1 damage to target. -7: Retrace emblem."));
    assert(seed_card(v@[17], 17));
    v.push(Card::new("Force of Will", CardGame::MagicTheGathering, "Alliances", "ALL", "028", Rarity::Uncommon, "Instant", "You may pay 1 life and exile a blue card rather than pay this spell's mana cost. Counter target spell."));
    assert(seed_card(v@[18], 18));
    v.push(Card::new("Tarmogoyf", CardGame::MagicTheGathering, "Future Sight", "FUT", "153", Rarity::Rare, "Creature — Lhurgoyf", "Tarmogoyf's power is equal to the number of card types among cards in all graveyards."));
    assert(seed_card(v@[19], 19));
    v
}

/// Position `i` holds the first card named `name`.
pub open spec fn first_named(cards: Seq<Card>, name: Seq<char>, i: int) -> bool {
    &&& 0 <= i < cards.len()
    &&& cards[i].name@ == name
    &&& forall|j: int| 0 <= j < i ==> (#[trigger] cards[j]).name@ != name
}

/// The `k`-th price record of the sample catalogue is `r`, seen at `now`.
pub open spec fn seed_record(cards: Seq<Card>, r: PriceRecord, k: int, now: i64) -> bool {
    exists|i: int|
        first_named(cards, seed_price(k).0, i) && record_of(
            r,
            cards[i].id@,
            seed_price(k).1,
            "TCGPlayer"@,
            now,
        )
}

/// Every price record of the sample catalogue is the one the price table
/// gives, seen at `now`.
pub open spec fn seed_records_at(cards: Seq<Card>, entries: Seq<PriceRecord>, now: i64) -> bool {
    forall|k: int| 0 <= k < entries.len() ==> seed_record(cards, #[trigger] entries[k], k, now)
}

proof fn lemma_seed_records_extend(
    cards: Seq<Card>,
    before: Seq<PriceRecord>,
    after: Seq<PriceRecord>,
    k: int,
    now: i64,
    name: Seq<char>,
    cents: u64,
)
    requires
        seed_records_at(cards, before, now),
        before.len() == k,
        after.len() == k + 1,
        after.drop_last() == before,
        name == seed_price(k).0,
        cents == seed_price(k).1,
        exists|i: int|
            first_named(cards, name, i) && record_of(
                after.last(),
                cards[i].id@,
                cents,
                "TCGPlayer"@,
                now,
            ),
    ensures
        seed_records_at(cards, after, now),
{
    let i = choose|i: int|
        first_named(cards, name, i) && record_of(after.last(), cards[i].id@, cents, "TCGPlayer"@, now);
    assert(seed_record(cards, after.last(), k, now));
    assert forall|j: int| 0 <= j < after.len() implies seed_record(cards, #[trigger] after[j], j, now) by {
        if j < k {
            assert(after[j] == before[j]);
        }
    }
}

/// Position of the first card named `name`.
fn find_named(cards: &Vec<Card>, name: &str) -> (res: Option<usize>)
    ensures
        match res {
            Some(i) => first_named(cards@, name@, i as int),
            None => forall|j: int| 0 <= j < cards@.len() ==> (#[trigger] cards@[j]).name@ != name@,
        },
{
    let mut i: usize = 0;
    while i < cards.len()
        invariant
            i <= cards@.len(),
            forall|j: int| 0 <= j < i ==> (#[trigger] cards@[j]).name@ != name@,
        decreases cards@.len() - i,
    {
        if str_eq(cards[i].name.as_str(), name) {
            return Some(i);
        }
        i += 1;
    }
    None
}

/// Records the near-mint TCGPlayer price `cents`, seen at `now`, of the first
/// card named `name`, when there is one.
fn add_seed_price(db: &mut CardDatabase, name: &str, cents: u64, now: i64)
    ensures
        final(db).cards@ == old(db).cards@,
        (exists|j: int| 0 <= j < old(db).cards@.len() && (#[trigger] old(db).cards@[j]).name@ == name@) ==> {
            &&& final(db).price_index.entries@.len() == old(db).price_index.entries@.len() + 1
            &&& final(db).price_index.entries@.drop_last() == old(db).price_index.entries@
            &&& exists|i: int|
                first_named(old(db).cards@, name@, i) && record_of(
                    final(db).price_index.entries@.last(),
                    old(db).cards@[i].id@,
                    cents,
                    "TCGPlayer"@,
                    now,
                )
        },
{
    match find_named(&db.cards, name) {
        Some(i) => {
            let record = PriceRecord {
                card_id: db.cards[i].id.clone(),
                condition: Condition::NearMint,
                price_cents: cents,
                source: to_owned("TCGPlayer"),
                recorded_at: now,
            };
            db.price_index.add_entry(record);
            assert(db.price_index.entries@.drop_last() =~= old(db).price_index.entries@);
        },
        None => {},
    }
}

/// Card name and price in cents of price `k` of the sample catalogue.
fn seed_price_of(k: usize) -> (res: (&'static str, u64))
    requires
        k < SEED_CARD_COUNT,
    ensures
        res.0@ == seed_price(k as int).0,
        res.1 == seed_price(k as int).1,
{
    match k {
        0 => ("Charizard VMAX", 27500),
        1 => ("Pikachu V", 850),
        2 => ("Mewtwo GX", 4200),
        3 => ("Umbreon VMAX", 32000),
        4 => ("Lugia V", 1200),
        5 => ("Giratina VSTAR", 1600),
        6 => ("Rayquaza VMAX", 18500),
        7 => ("Mew VMAX", 5500),
        8 => ("Arceus VSTAR", 900),
        9 => ("Palkia VSTAR", 750),
        10 => ("Black Lotus", 50000000),
        11 => ("Lightning Bolt", 150),
        12 => ("Jace, the Mind Sculptor", 3500),
        13 => ("Liliana of the Veil", 2200),
        14 => ("Ragavan, Nimble Pilferer", 6500),
        15 => ("Sheoldred, the Apocalypse", 7500),
        16 => ("The One Ring", 5000),
        17 => ("Wrenn and Six", 4800),
        18 => ("Force of Will", 8500),
        _ => ("Tarmogoyf", 1200),
    }
}

/// Price `k` of the sample catalogue is for its card `k`.
proof fn lemma_seed_price_names(c: Card, k: int)
    requires
        0 <= k < SEED_CARD_COUNT,
        seed_card(c, k),
    ensures
        c.name@ == seed_price(k).0,
{
}

/// The sample catalogue: twenty cards, ten of each game, and for each the
/// near-mint TCGPlayer price, in cents, recorded at `now` (seconds since the
/// Unix epoch).
pub fn build_seed_database_at(now: i64) -> (res: CardDatabase)
    ensures
        res.cards@.len() == SEED_CARD_COUNT,
        forall|i: int| 0 <= i < SEED_CARD_COUNT ==> seed_card(#[trigger] res.cards@[i], i),
        forall|i: int| 0 <= i < SEED_CARD_COUNT ==> (#[trigger] res.cards@[i]).image_url is None,
        res.price_index.entries@.len() == SEED_CARD_COUNT,
        seed_records_at(res.cards@, res.price_index.entries@, now),
{
    let mut db = CardDatabase { cards: seed_cards(), price_index: PriceIndex::new() };
    let ghost cards = db.cards@;
    let mut k: usize = 0;
    while k < SEED_CARD_COUNT
        invariant
            k <= SEED_CARD_COUNT,
            db.cards@ == cards,
            cards.len() == SEED_CARD_COUNT,
            forall|i: int| 0 <= i < SEED_CARD_COUNT ==> seed_card(#[trigger] cards[i], i),
            forall|i: int| 0 <= i < SEED_CARD_COUNT ==> (#[trigger] cards[i]).image_url is None,
            db.price_index.entries@.len() == k,
            seed_records_at(cards, db.price_index.entries@, now),
        decreases SEED_CARD_COUNT - k,
    {
        let (name, cents) = seed_price_of(k);
        proof {
            lemma_seed_price_names(cards[k as int], k as int);
            assert(cards[k as int].name@ == name@);
        }
        let ghost before = db.price_index.entries@;
        add_seed_price(&mut db, name, cents, now);
        proof {
            lemma_seed_records_extend(cards, before, db.price_index.entries@, k as int, now, name@, cents);
        }
        k += 1;
    }
    db
}

} // verus!
