//! Cards, the games they belong to and their rarities.

use vstd::prelude::*;

use crate::text::to_owned;

verus! {

/// The games the catalogue knows.
#[derive(Debug, Clone, Copy, PartialEq, Eq, Structural)]
pub enum CardGame {
    Pokemon,
    MagicTheGathering,
}

/// The name a game is stored under in a card's `game` field.
pub open spec fn game_name(g: CardGame) -> Seq<char> {
    match g {
        CardGame::Pokemon => "Pokemon"@,
        CardGame::MagicTheGathering => "MagicTheGathering"@,
    }
}

impl CardGame {
    /// The name this game is stored under in a card's `game` field.
    pub fn label(&self) -> (res: &'static str)
        ensures
            res@ == game_name(*self),
    {
        match self {
            CardGame::Pokemon => "Pokemon",
            CardGame::MagicTheGathering => "MagicTheGathering",
        }
    }
}

/// How rare a card is.
#[derive(Debug, Clone, Copy, PartialEq, Eq, Structural)]
pub enum Rarity {
    Common,
    Uncommon,
    Rare,
    HoloRare,
    UltraRare,
    SecretRare,
    Mythic,
    Special,
}

/// The name a rarity is stored under in a card's `rarity` field.
pub open spec fn rarity_name(r: Rarity) -> Seq<char> {
    match r {
        Rarity::Common => "Common"@,
        Rarity::Uncommon => "Uncommon"@,
        Rarity::Rare => "Rare"@,
        Rarity::HoloRare => "Holo Rare"@,
        Rarity::UltraRare => "Ultra Rare"@,
        Rarity::SecretRare => "Secret Rare"@,
        Rarity::Mythic => "Mythic"@,
        Rarity::Special => "Special"@,
    }
}

impl Rarity {
    /// The name this rarity is stored under in a card's `rarity` field.
    pub fn label(&self) -> (res: &'static str)
        ensures
            res@ == rarity_name(*self),
    {
        match self {
            Rarity::Common => "Common",
            Rarity::Uncommon => "Uncommon",
            Rarity::Rare => "Rare",
            Rarity::HoloRare => "Holo Rare",
            Rarity::UltraRare => "Ultra Rare",
            Rarity::SecretRare => "Secret Rare",
            Rarity::Mythic => "Mythic",
            Rarity::Special => "Special",
        }
    }
}

/// One printed card.
#[derive(Debug)]
pub struct Card {
    pub id: String,
    pub name: String,
    pub game: String,
    pub set_name: Option<String>,
    pub set_code: Option<String>,
    pub card_number: Option<String>,
    pub rarity: Option<String>,
    pub card_type: Option<String>,
    pub description: Option<String>,
    pub image_url: Option<String>,
}

/// The characters of an optional string (`None` is read as the empty string).
pub open spec fn opt_chars(s: Option<String>) -> Seq<char> {
    match s {
        Some(v) => v@,
        None => Seq::empty(),
    }
}

/// The identifier a card gets from its set code and number: `"{set}-{number}"`,
/// which is also the PokémonTCG API's identifier format.
pub open spec fn set_number_id(set_code: Seq<char>, number: Seq<char>) -> Seq<char> {
    set_code + seq!['-'] + number
}

/// `Some(s)` copied as a view.
pub open spec fn some_chars(s: Option<String>, v: Seq<char>) -> bool {
    s matches Some(x) && x@ == v
}

/// An owned copy of an optional string.
pub fn clone_opt(s: &Option<String>) -> (res: Option<String>)
    ensures
        res == *s,
{
    match s {
        Some(v) => Some(v.clone()),
        None => None,
    }
}

/// `c` is the card `Card::new` makes from these values, whatever its image.
pub open spec fn new_card_fields(
    c: Card,
    name: Seq<char>,
    game: CardGame,
    set_name: Seq<char>,
    set_code: Seq<char>,
    card_number: Seq<char>,
    rarity: Rarity,
    card_type: Seq<char>,
    description: Seq<char>,
) -> bool {
    &&& c.id@ == set_number_id(set_code, card_number)
    &&& c.name@ == name
    &&& c.game@ == game_name(game)
    &&& some_chars(c.set_name, set_name)
    &&& some_chars(c.set_code, set_code)
    &&& some_chars(c.card_number, card_number)
    &&& some_chars(c.rarity, rarity_name(rarity))
    &&& some_chars(c.card_type, card_type)
    &&& some_chars(c.description, description)
}

impl Card {
    /// A new card with all its descriptive fields present; its identifier is
    /// `"{set_code}-{card_number}"` and it has no image yet.
    pub fn new(
        name: &str,
        game: CardGame,
        set_name: &str,
        set_code: &str,
        card_number: &str,
        rarity: Rarity,
        card_type: &str,
        description: &str,
    ) -> (res: Card)
        ensures
            new_card_fields(
                res,
                name@,
                game,
                set_name@,
                set_code@,
                card_number@,
                rarity,
                card_type@,
                description@,
            ),
            res.image_url is None,
    {
        let mut id = to_owned(set_code);
        id.append("-");
        id.append(card_number);
        proof {
            reveal_strlit("-");
            assert(id@ =~= set_number_id(set_code@, card_number@));
        }
        Card {
            id,
            name: to_owned(name),
            game: to_owned(game.label()),
            set_name: Some(to_owned(set_name)),
            set_code: Some(to_owned(set_code)),
            card_number: Some(to_owned(card_number)),
            rarity: Some(to_owned(rarity.label())),
            card_type: Some(to_owned(card_type)),
            description: Some(to_owned(description)),
            image_url: None,
        }
    }

    /// The PokémonTCG API identifier `"{set_code}-{card_number}"`, when the
    /// card has both.
    pub fn ptcg_id(&self) -> (res: Option<String>)
        ensures
            match (self.set_code, self.card_number) {
                (Some(set), Some(num)) => some_chars(res, set_number_id(set@, num@)),
                _ => res is None,
            },
    {
        match (&self.set_code, &self.card_number) {
            (Some(set), Some(num)) => {
                let mut id = set.clone();
                id.append("-");
                id.append(num.as_str());
                proof {
                    reveal_strlit("-");
                    assert(id@ =~= set_number_id(set@, num@));
                }
                Some(id)
            },
            _ => None,
        }
    }

    /// A copy of this card, field for field.
    pub fn duplicate(&self) -> (res: Card)
        ensures
            res == *self,
    {
        Card {
            id: self.id.clone(),
            name: self.name.clone(),
            game: self.game.clone(),
            set_name: clone_opt(&self.set_name),
            set_code: clone_opt(&self.set_code),
            card_number: clone_opt(&self.card_number),
            rarity: clone_opt(&self.rarity),
            card_type: clone_opt(&self.card_type),
            description: clone_opt(&self.description),
            image_url: clone_opt(&self.image_url),
        }
    }
}

/// The list of cards as it is stored on disk by the sync tool.
#[derive(Debug)]
pub struct CardDatabase {
    pub cards: Vec<Card>,
}

} // verus!
