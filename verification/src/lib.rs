//! Card catalogue, collection bookkeeping, price records and perceptual
//! image hashing for trading-card games, with their contracts proved.

pub mod text;
pub mod card;
pub mod collection;
pub mod price;
pub mod database;
pub mod search;
pub mod hash;
pub mod grade;
pub mod index;
pub mod pokemon_tcg;
pub mod scryfall;
pub mod seed;
pub mod paths;
pub mod pricer;
pub mod ui;
