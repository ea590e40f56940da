use boxbreaker::collection::{Collection, CollectionEntry, Condition};
use boxbreaker::grade::Grade;

fn entry(id: &str, cond: Condition, qty: u32, mid: Option<u32>) -> CollectionEntry {
    CollectionEntry {
        card_id: id.to_string(),
        card_name: format!("Card {}", id),
        set_name: "Set".to_string(),
        game: "Pokemon".to_string(),
        quantity: qty,
        condition: cond,
        image_url: None,
        tcgplayer_low: None,
        tcgplayer_mid: mid,
        tcgplayer_high: None,
        cardmarket_low: None,
        cardmarket_mid: None,
        cardmarket_high: None,
    }
}

#[test]
fn condition_labels_and_parsing() {
    assert_eq!(Condition::NearMint.label(), "Near Mint");
    assert_eq!(Condition::Poor.label(), "Poor");
    assert_eq!(
        Condition::all(),
        vec!["Near Mint", "Lightly Played", "Moderately Played", "Heavily Played", "Poor"]
    );
    assert_eq!(Condition::from_str("Heavily Played"), Condition::HeavilyPlayed);
    assert_eq!(Condition::from_str("heavily played"), Condition::NearMint);
    assert_eq!(Condition::from_str(""), Condition::NearMint);
    for c in [
        Condition::NearMint,
        Condition::LightlyPlayed,
        Condition::ModeratelyPlayed,
        Condition::HeavilyPlayed,
        Condition::Poor,
    ] {
        assert_eq!(Condition::from_str(c.label()), c);
    }
}

#[test]
fn grade_labels_match_conditions() {
    assert_eq!(Grade::NearMint.label(), Condition::NearMint.label());
    assert_eq!(Grade::ModeratelyPlayed.label(), "Moderately Played");
    assert_eq!(Grade::Poor.label(), "Poor");
}

#[test]
fn add_or_increment_merges_same_card_and_condition() {
    let mut c = Collection { entries: Vec::new() };
    c.add_or_increment(entry("a", Condition::NearMint, 1, Some(1)));
    c.add_or_increment(entry("a", Condition::Poor, 1, Some(2)));
    c.add_or_increment(entry("a", Condition::NearMint, 1, Some(3)));
    assert_eq!(c.entries.len(), 2);
    assert_eq!(c.entries[0].quantity, 2);
    assert_eq!(c.entries[0].tcgplayer_mid, Some(3));
    assert_eq!(c.entries[0].card_name, "Card a");
    assert_eq!(c.entries[1].quantity, 1);
    assert_eq!(c.entries[1].condition, Condition::Poor);
}

#[test]
fn remove_one_decrements_then_removes() {
    let mut c = Collection { entries: Vec::new() };
    c.add_or_increment(entry("a", Condition::NearMint, 1, None));
    c.add_or_increment(entry("b", Condition::NearMint, 1, None));
    c.add_or_increment(entry("a", Condition::NearMint, 1, None));
    c.remove_one("a", &Condition::NearMint);
    assert_eq!(c.entries[0].quantity, 1);
    c.remove_one("a", &Condition::Poor);
    assert_eq!(c.entries.len(), 2);
    c.remove_one("a", &Condition::NearMint);
    assert_eq!(c.entries.len(), 1);
    assert_eq!(c.entries[0].card_id, "b");
    c.remove_one("zzz", &Condition::NearMint);
    assert_eq!(c.entries.len(), 1);
}

#[test]
fn add_then_remove_restores_collection() {
    let mut c = Collection { entries: vec![entry("x", Condition::LightlyPlayed, 4, Some(7))] };
    c.add_or_increment(entry("y", Condition::NearMint, 1, Some(9)));
    c.remove_one("y", &Condition::NearMint);
    assert_eq!(c.entries.len(), 1);
    c.add_or_increment(entry("x", Condition::LightlyPlayed, 1, Some(8)));
    c.remove_one("x", &Condition::LightlyPlayed);
    assert_eq!(c.entries.len(), 1);
    assert_eq!(c.entries[0].quantity, 4);
    assert_eq!(c.entries[0].tcgplayer_mid, Some(8));
}

#[test]
fn remove_one_drops_entry_with_zero_quantity() {
    let mut c = Collection { entries: vec![entry("z", Condition::Poor, 0, None)] };
    c.remove_one("z", &Condition::Poor);
    assert!(c.entries.is_empty());
}

#[test]
fn adding_raises_the_total_number_of_copies() {
    let total = |c: &Collection| c.entries.iter().map(|e| e.quantity as u64).sum::<u64>();
    let mut c = Collection { entries: Vec::new() };
    c.add_or_increment(entry("a", Condition::NearMint, 3, None));
    assert_eq!(total(&c), 3);
    c.add_or_increment(entry("a", Condition::NearMint, 3, None));
    assert_eq!(total(&c), 4);
    c.add_or_increment(entry("a", Condition::Poor, 2, None));
    assert_eq!(total(&c), 6);
}
