//! A personal collection: how many copies of which card, in which condition,
//! with the prices last seen for it.

use vstd::prelude::*;

use crate::text::str_eq;

verus! {

/// The condition a physical card is in.
#[derive(Debug, Clone, Copy, PartialEq, Eq, Structural)]
pub enum Condition {
    NearMint,
    LightlyPlayed,
    ModeratelyPlayed,
    HeavilyPlayed,
    Poor,
}

/// The display name of a condition.
pub open spec fn condition_label(c: Condition) -> Seq<char> {
    match c {
        Condition::NearMint => "Near Mint"@,
        Condition::LightlyPlayed => "Lightly Played"@,
        Condition::ModeratelyPlayed => "Moderately Played"@,
        Condition::HeavilyPlayed => "Heavily Played"@,
        Condition::Poor => "Poor"@,
    }
}

/// The condition a display name stands for; any other text means Near Mint.
pub open spec fn condition_of(s: Seq<char>) -> Condition {
    if s == "Lightly Played"@ {
        Condition::LightlyPlayed
    } else if s == "Moderately Played"@ {
        Condition::ModeratelyPlayed
    } else if s == "Heavily Played"@ {
        Condition::HeavilyPlayed
    } else if s == "Poor"@ {
        Condition::Poor
    } else {
        Condition::NearMint
    }
}

/// The conditions from best to worst.
pub open spec fn all_conditions() -> Seq<Condition> {
    seq![
        Condition::NearMint,
        Condition::LightlyPlayed,
        Condition::ModeratelyPlayed,
        Condition::HeavilyPlayed,
        Condition::Poor,
    ]
}

impl Condition {
    /// The display name of this condition.
    pub fn label(&self) -> (res: &'static str)
        ensures
            res@ == condition_label(*self),
    {
        match self {
            Condition::NearMint => "Near Mint",
            Condition::LightlyPlayed => "Lightly Played",
            Condition::ModeratelyPlayed => "Moderately Played",
            Condition::HeavilyPlayed => "Heavily Played",
            Condition::Poor => "Poor",
        }
    }

    /// The display names of all conditions, from best to worst.
    pub fn all() -> (res: Vec<&'static str>)
        ensures
            res@.len() == all_conditions().len(),
            forall|i: int|
                0 <= i < res@.len() ==> #[trigger] res@[i]@ == condition_label(
                    all_conditions()[i],
                ),
    {
        let res = vec!["Near Mint", "Lightly Played", "Moderately Played", "Heavily Played", "Poor"];
        assert forall|i: int| 0 <= i < res@.len() implies #[trigger] res@[i]@ == condition_label(
            all_conditions()[i],
        ) by {
            if i == 0 {
            } else if i == 1 {
            } else if i == 2 {
            } else if i == 3 {
            } else {
            }
        }
        res
    }

    /// The condition a display name stands for; any other text gives Near Mint.
    pub fn from_str(s: &str) -> (res: Condition)
        ensures
            res == condition_of(s@),
    {
        if str_eq(s, "Lightly Played") {
            Condition::LightlyPlayed
        } else if str_eq(s, "Moderately Played") {
            Condition::ModeratelyPlayed
        } else if str_eq(s, "Heavily Played") {
            Condition::HeavilyPlayed
        } else if str_eq(s, "Poor") {
            Condition::Poor
        } else {
            Condition::NearMint
        }
    }
}

/// Reading back the display name of a condition gives the condition, and the
/// display names are exactly the ones `Condition::all` lists.
pub proof fn lemma_condition_label_round_trip(c: Condition)
    ensures
        condition_of(condition_label(c)) == c,
        all_conditions().contains(c),
{
    reveal_strlit("Near Mint");
    reveal_strlit("Lightly Played");
    reveal_strlit("Moderately Played");
    reveal_strlit("Heavily Played");
    reveal_strlit("Poor");
    match c {
        Condition::NearMint => {
            assert("Near Mint"@ != "Lightly Played"@) by {
                assert("Near Mint"@[0] != "Lightly Played"@[0]);
            }
            assert("Near Mint"@ != "Moderately Played"@) by {
                assert("Near Mint"@[0] != "Moderately Played"@[0]);
            }
            assert("Near Mint"@ != "Heavily Played"@) by {
                assert("Near Mint"@[0] != "Heavily Played"@[0]);
            }
            assert("Near Mint"@ != "Poor"@) by {
                assert("Near Mint"@.len() != "Poor"@.len());
            }
            assert(all_conditions()[0] == c);
        },
        Condition::LightlyPlayed => {
            assert(all_conditions()[1] == c);
        },
        Condition::ModeratelyPlayed => {
            assert("Moderately Played"@ != "Lightly Played"@) by {
                assert("Moderately Played"@[0] != "Lightly Played"@[0]);
            }
            assert(all_conditions()[2] == c);
        },
        Condition::HeavilyPlayed => {
            assert("Heavily Played"@ != "Lightly Played"@) by {
                assert("Heavily Played"@[0] != "Lightly Played"@[0]);
            }
            assert("Heavily Played"@ != "Moderately Played"@) by {
                assert("Heavily Played"@.len() != "Moderately Played"@.len());
            }
            assert(all_conditions()[3] == c);
        },
        Condition::Poor => {
            assert("Poor"@ != "Lightly Played"@) by {
                assert("Poor"@.len() != "Lightly Played"@.len());
            }
            assert("Poor"@ != "Moderately Played"@) by {
                assert("Poor"@.len() != "Moderately Played"@.len());
            }
            assert("Poor"@ != "Heavily Played"@) by {
                assert("Poor"@.len() != "Heavily Played"@.len());
            }
            assert(all_conditions()[4] == c);
        },
    }
}

/// One line of the collection: a card in one condition, how many copies, and
/// the last prices seen for it.  Each price is a dollar amount held as the
/// bit pattern of an `f32` (`f32::to_bits`); the collection only carries
/// these values, it never computes with them.
#[derive(Debug)]
pub struct CollectionEntry {
    pub card_id: String,
    pub card_name: String,
    pub set_name: String,
    pub game: String,
    pub quantity: u32,
    pub condition: Condition,
    pub image_url: Option<String>,
    pub tcgplayer_low: Option<u32>,
    pub tcgplayer_mid: Option<u32>,
    pub tcgplayer_high: Option<u32>,
    pub cardmarket_low: Option<u32>,
    pub cardmarket_mid: Option<u32>,
    pub cardmarket_high: Option<u32>,
}

/// A collection of entries.
#[derive(Debug)]
pub struct Collection {
    pub entries: Vec<CollectionEntry>,
}

/// The entry is for the card `card_id` in condition `cond`.
pub open spec fn is_for(e: CollectionEntry, card_id: Seq<char>, cond: Condition) -> bool {
    e.card_id@ == card_id && e.condition == cond
}

/// Position `i` holds the first entry for `card_id` in condition `cond`.
pub open spec fn first_for(
    entries: Seq<CollectionEntry>,
    card_id: Seq<char>,
    cond: Condition,
    i: int,
) -> bool {
    &&& 0 <= i < entries.len()
    &&& is_for(entries[i], card_id, cond)
    &&& forall|j: int| 0 <= j < i ==> !is_for(#[trigger] entries[j], card_id, cond)
}

/// Some entry is for `card_id` in condition `cond`.
pub open spec fn has_entry_for(
    entries: Seq<CollectionEntry>,
    card_id: Seq<char>,
    cond: Condition,
) -> bool {
    exists|i: int| 0 <= i < entries.len() && is_for(#[trigger] entries[i], card_id, cond)
}

/// `e` with one more copy and the six prices taken from `src`.
pub open spec fn bumped(e: CollectionEntry, src: CollectionEntry) -> CollectionEntry {
    CollectionEntry {
        card_id: e.card_id,
        card_name: e.card_name,
        set_name: e.set_name,
        game: e.game,
        quantity: (e.quantity + 1) as u32,
        condition: e.condition,
        image_url: e.image_url,
        tcgplayer_low: src.tcgplayer_low,
        tcgplayer_mid: src.tcgplayer_mid,
        tcgplayer_high: src.tcgplayer_high,
        cardmarket_low: src.cardmarket_low,
        cardmarket_mid: src.cardmarket_mid,
        cardmarket_high: src.cardmarket_high,
    }
}

/// `e` with one copy less.
pub open spec fn lessened(e: CollectionEntry) -> CollectionEntry {
    CollectionEntry { quantity: (e.quantity - 1) as u32, ..e }
}

/// No two entries are for the same card in the same condition.
pub open spec fn keys_unique(entries: Seq<CollectionEntry>) -> bool {
    forall|i: int, j: int|
        0 <= i < j < entries.len() ==> !is_for(
            #[trigger] entries[j],
            #[trigger] entries[i].card_id@,
            entries[i].condition,
        )
}

/// What `add_or_increment` leaves when the first entry for the new entry's key
/// sits at `i`, or when there is none.
pub open spec fn added(entries: Seq<CollectionEntry>, entry: CollectionEntry) -> Seq<
    CollectionEntry,
> {
    if has_entry_for(entries, entry.card_id@, entry.condition) {
        let i = choose|i: int| first_for(entries, entry.card_id@, entry.condition, i);
        entries.update(i, bumped(entries[i], entry))
    } else {
        entries.push(entry)
    }
}

/// What `remove_one` leaves.
pub open spec fn removed(entries: Seq<CollectionEntry>, card_id: Seq<char>, cond: Condition) -> Seq<
    CollectionEntry,
> {
    if has_entry_for(entries, card_id, cond) {
        let i = choose|i: int| first_for(entries, card_id, cond, i);
        if entries[i].quantity <= 1 {
            entries.remove(i)
        } else {
            entries.update(i, lessened(entries[i]))
        }
    } else {
        entries
    }
}

/// When some entry is for the key, exactly one position is the first one.
pub proof fn lemma_first_for_exists(entries: Seq<CollectionEntry>, card_id: Seq<char>, cond: Condition)
    requires
        has_entry_for(entries, card_id, cond),
    ensures
        exists|i: int| first_for(entries, card_id, cond, i),
        forall|i: int, j: int|
            first_for(entries, card_id, cond, i) && first_for(entries, card_id, cond, j) ==> i
                == j,
    decreases entries.len(),
{
    let k = choose|k: int| 0 <= k < entries.len() && is_for(#[trigger] entries[k], card_id, cond);
    lemma_first_below(entries, card_id, cond, k);
    assert forall|i: int, j: int|
        first_for(entries, card_id, cond, i) && first_for(entries, card_id, cond, j) implies i
        == j by {
        if i < j {
            assert(!is_for(entries[i], card_id, cond));
        } else if j < i {
            assert(!is_for(entries[j], card_id, cond));
        }
    }
}

proof fn lemma_first_below(entries: Seq<CollectionEntry>, card_id: Seq<char>, cond: Condition, k: int)
    requires
        0 <= k < entries.len(),
        is_for(entries[k], card_id, cond),
    ensures
        exists|i: int| first_for(entries, card_id, cond, i),
    decreases k,
{
    if exists|j: int| 0 <= j < k && is_for(#[trigger] entries[j], card_id, cond) {
        let j = choose|j: int| 0 <= j < k && is_for(#[trigger] entries[j], card_id, cond);
        lemma_first_below(entries, card_id, cond, j);
    } else {
        assert(first_for(entries, card_id, cond, k));
    }
}

/// `e` with the six prices taken from `src` and nothing else changed.
pub open spec fn repriced(e: CollectionEntry, src: CollectionEntry) -> CollectionEntry {
    CollectionEntry {
        tcgplayer_low: src.tcgplayer_low,
        tcgplayer_mid: src.tcgplayer_mid,
        tcgplayer_high: src.tcgplayer_high,
        cardmarket_low: src.cardmarket_low,
        cardmarket_mid: src.cardmarket_mid,
        cardmarket_high: src.cardmarket_high,
        ..e
    }
}

/// How many copies the collection counts for a card in a condition: the
/// quantity of the first entry for it, or none.
pub open spec fn copies(entries: Seq<CollectionEntry>, card_id: Seq<char>, cond: Condition) -> int {
    if has_entry_for(entries, card_id, cond) {
        let i = choose|i: int| first_for(entries, card_id, cond, i);
        entries[i].quantity as int
    } else {
        0
    }
}

proof fn lemma_first_for_is(entries: Seq<CollectionEntry>, card_id: Seq<char>, cond: Condition, i: int)
    requires
        first_for(entries, card_id, cond, i),
    ensures
        has_entry_for(entries, card_id, cond),
        (choose|k: int| first_for(entries, card_id, cond, k)) == i,
{
    assert(is_for(entries[i], card_id, cond));
    lemma_first_for_exists(entries, card_id, cond);
}

/// Adding keeps every card-and-condition on at most one entry.
pub proof fn lemma_add_keeps_keys_unique(entries: Seq<CollectionEntry>, entry: CollectionEntry)
    requires
        keys_unique(entries),
    ensures
        keys_unique(added(entries, entry)),
{
    if has_entry_for(entries, entry.card_id@, entry.condition) {
        lemma_first_for_exists(entries, entry.card_id@, entry.condition);
        let i = choose|i: int| first_for(entries, entry.card_id@, entry.condition, i);
        let r = entries.update(i, bumped(entries[i], entry));
        assert forall|a: int, b: int| 0 <= a < b < r.len() implies !is_for(
            #[trigger] r[b],
            #[trigger] r[a].card_id@,
            r[a].condition,
        ) by {
            assert(r[a].card_id == entries[a].card_id && r[a].condition == entries[a].condition);
            assert(r[b].card_id == entries[b].card_id && r[b].condition == entries[b].condition);
            assert(!is_for(entries[b], entries[a].card_id@, entries[a].condition));
        }
    } else {
        let r = entries.push(entry);
        assert forall|a: int, b: int| 0 <= a < b < r.len() implies !is_for(
            #[trigger] r[b],
            #[trigger] r[a].card_id@,
            r[a].condition,
        ) by {
            if b == entries.len() {
                if is_for(entry, entries[a].card_id@, entries[a].condition) {
                    assert(is_for(entries[a], entry.card_id@, entry.condition));
                }
            } else {
                assert(!is_for(entries[b], entries[a].card_id@, entries[a].condition));
            }
        }
    }
}

/// Removing a copy keeps every card-and-condition on at most one entry.
pub proof fn lemma_remove_keeps_keys_unique(
    entries: Seq<CollectionEntry>,
    card_id: Seq<char>,
    cond: Condition,
)
    requires
        keys_unique(entries),
    ensures
        keys_unique(removed(entries, card_id, cond)),
{
    if has_entry_for(entries, card_id, cond) {
        lemma_first_for_exists(entries, card_id, cond);
        let i = choose|i: int| first_for(entries, card_id, cond, i);
        let r = removed(entries, card_id, cond);
        if entries[i].quantity <= 1 {
            assert forall|a: int, b: int| 0 <= a < b < r.len() implies !is_for(
                #[trigger] r[b],
                #[trigger] r[a].card_id@,
                r[a].condition,
            ) by {
                let a0 = if a < i { a } else { a + 1 };
                let b0 = if b < i { b } else { b + 1 };
                assert(r[a] == entries[a0]);
                assert(r[b] == entries[b0]);
                assert(!is_for(entries[b0], entries[a0].card_id@, entries[a0].condition));
            }
        } else {
            assert forall|a: int, b: int| 0 <= a < b < r.len() implies !is_for(
                #[trigger] r[b],
                #[trigger] r[a].card_id@,
                r[a].condition,
            ) by {
                assert(r[a].card_id == entries[a].card_id && r[a].condition
                    == entries[a].condition);
                assert(r[b].card_id == entries[b].card_id && r[b].condition
                    == entries[b].condition);
                assert(!is_for(entries[b], entries[a].card_id@, entries[a].condition));
            }
        }
    }
}

/// Adding a single copy of a card-and-condition the collection does not hold
/// yet, then removing one copy of it, gives back the collection.
pub proof fn lemma_add_then_remove_new(entries: Seq<CollectionEntry>, entry: CollectionEntry)
    requires
        !has_entry_for(entries, entry.card_id@, entry.condition),
        entry.quantity <= 1,
    ensures
        removed(added(entries, entry), entry.card_id@, entry.condition) == entries,
{
    let r = entries.push(entry);
    assert(added(entries, entry) == r);
    let n = entries.len() as int;
    assert forall|j: int| 0 <= j < n implies !is_for(#[trigger] r[j], entry.card_id@, entry.condition) by {
        assert(r[j] == entries[j]);
    }
    assert(first_for(r, entry.card_id@, entry.condition, n));
    lemma_first_for_is(r, entry.card_id@, entry.condition, n);
    assert(r.remove(n) =~= entries);
}

/// Adding a copy of a card-and-condition the collection already holds, then
/// removing one copy of it, gives back the collection with that entry's
/// prices replaced by the added entry's.
pub proof fn lemma_add_then_remove_existing(
    entries: Seq<CollectionEntry>,
    entry: CollectionEntry,
    i: int,
)
    requires
        first_for(entries, entry.card_id@, entry.condition, i),
        1 <= entries[i].quantity < u32::MAX,
    ensures
        removed(added(entries, entry), entry.card_id@, entry.condition) == entries.update(
            i,
            repriced(entries[i], entry),
        ),
{
    lemma_first_for_is(entries, entry.card_id@, entry.condition, i);
    let r = entries.update(i, bumped(entries[i], entry));
    assert(added(entries, entry) == r);
    assert forall|j: int| 0 <= j < i implies !is_for(#[trigger] r[j], entry.card_id@, entry.condition) by {
        assert(r[j] == entries[j]);
        assert(!is_for(entries[j], entry.card_id@, entry.condition));
    }
    assert(first_for(r, entry.card_id@, entry.condition, i));
    lemma_first_for_is(r, entry.card_id@, entry.condition, i);
    assert(r[i].quantity == entries[i].quantity + 1);
    assert(r.update(i, lessened(r[i])) =~= entries.update(i, repriced(entries[i], entry)));
}

/// Adding counts one more copy of a held card-and-condition, or starts it at
/// the added entry's quantity; other cards and conditions keep their counts.
pub proof fn lemma_copies_after_add(
    entries: Seq<CollectionEntry>,
    entry: CollectionEntry,
    card_id: Seq<char>,
    cond: Condition,
)
    requires
        forall|i: int|
            first_for(entries, entry.card_id@, entry.condition, i) ==> entries[i].quantity
                < u32::MAX,
    ensures
        copies(added(entries, entry), card_id, cond) == if card_id == entry.card_id@ && cond
            == entry.condition {
            if has_entry_for(entries, card_id, cond) {
                copies(entries, card_id, cond) + 1
            } else {
                entry.quantity as int
            }
        } else {
            copies(entries, card_id, cond)
        },
{
    let key_same = card_id == entry.card_id@ && cond == entry.condition;
    let r = added(entries, entry);
    if has_entry_for(entries, entry.card_id@, entry.condition) {
        lemma_first_for_exists(entries, entry.card_id@, entry.condition);
        let i = choose|i: int| first_for(entries, entry.card_id@, entry.condition, i);
        assert(r == entries.update(i, bumped(entries[i], entry)));
        assert forall|j: int| 0 <= j < r.len() implies (is_for(#[trigger] r[j], card_id, cond)
            <==> is_for(entries[j], card_id, cond)) by {
            if j == i {
            } else {
                assert(r[j] == entries[j]);
            }
        }
        if has_entry_for(entries, card_id, cond) {
            lemma_first_for_exists(entries, card_id, cond);
            let k = choose|k: int| first_for(entries, card_id, cond, k);
            assert(first_for(r, card_id, cond, k));
            lemma_first_for_is(r, card_id, cond, k);
            if key_same {
                lemma_first_for_is(entries, card_id, cond, i);
            }
        } else {
            assert(!has_entry_for(r, card_id, cond));
        }
    } else {
        assert(r == entries.push(entry));
        let n = entries.len() as int;
        if has_entry_for(entries, card_id, cond) {
            lemma_first_for_exists(entries, card_id, cond);
            let k = choose|k: int| first_for(entries, card_id, cond, k);
            assert(r[k] == entries[k]);
            assert(first_for(r, card_id, cond, k));
            lemma_first_for_is(r, card_id, cond, k);
        } else if key_same {
            assert forall|j: int| 0 <= j < n implies !is_for(#[trigger] r[j], card_id, cond) by {
                assert(r[j] == entries[j]);
            }
            assert(first_for(r, card_id, cond, n));
            lemma_first_for_is(r, card_id, cond, n);
        } else {
            assert forall|j: int| 0 <= j < r.len() implies !is_for(#[trigger] r[j], card_id, cond) by {
                if j < n {
                    assert(r[j] == entries[j]);
                }
            }
        }
    }
}

/// The number of copies over all entries.
pub open spec fn total_quantity(entries: Seq<CollectionEntry>) -> int
    decreases entries.len(),
{
    if entries.len() == 0 {
        0
    } else {
        total_quantity(entries.drop_last()) + entries.last().quantity
    }
}

proof fn lemma_total_update(entries: Seq<CollectionEntry>, i: int, e: CollectionEntry)
    requires
        0 <= i < entries.len(),
    ensures
        total_quantity(entries.update(i, e)) == total_quantity(entries) - entries[i].quantity
            + e.quantity,
    decreases entries.len(),
{
    let u = entries.update(i, e);
    if i == entries.len() - 1 {
        assert(u.drop_last() =~= entries.drop_last());
    } else {
        lemma_total_update(entries.drop_last(), i, e);
        assert(u.drop_last() =~= entries.drop_last().update(i, e));
    }
}

/// Adding a copy raises the total number of copies by one when the card and
/// condition are already held, and by the added entry's quantity otherwise.
pub proof fn lemma_total_after_add(entries: Seq<CollectionEntry>, entry: CollectionEntry)
    requires
        forall|i: int|
            first_for(entries, entry.card_id@, entry.condition, i) ==> entries[i].quantity
                < u32::MAX,
    ensures
        total_quantity(added(entries, entry)) == total_quantity(entries) + if has_entry_for(
            entries,
            entry.card_id@,
            entry.condition,
        ) {
            1
        } else {
            entry.quantity as int
        },
{
    if has_entry_for(entries, entry.card_id@, entry.condition) {
        lemma_first_for_exists(entries, entry.card_id@, entry.condition);
        let i = choose|i: int| first_for(entries, entry.card_id@, entry.condition, i);
        lemma_total_update(entries, i, bumped(entries[i], entry));
    } else {
        assert(added(entries, entry).drop_last() =~= entries);
    }
}

/// With every card-and-condition on at most one entry, removing a copy counts
/// one copy less of that card-and-condition (never below none), and other
/// cards and conditions keep their counts.
pub proof fn lemma_copies_after_remove(
    entries: Seq<CollectionEntry>,
    card_id: Seq<char>,
    cond: Condition,
    other_id: Seq<char>,
    other_cond: Condition,
)
    requires
        keys_unique(entries),
    ensures
        copies(removed(entries, card_id, cond), other_id, other_cond) == if other_id == card_id
            && other_cond == cond {
            if copies(entries, card_id, cond) > 0 {
                copies(entries, card_id, cond) - 1
            } else {
                0
            }
        } else {
            copies(entries, other_id, other_cond)
        },
{
    let key_same = other_id == card_id && other_cond == cond;
    let r = removed(entries, card_id, cond);
    if has_entry_for(entries, card_id, cond) {
        lemma_first_for_exists(entries, card_id, cond);
        let i = choose|i: int| first_for(entries, card_id, cond, i);
        if entries[i].quantity <= 1 {
            assert(r == entries.remove(i));
            if key_same {
                assert forall|j: int| 0 <= j < r.len() implies !is_for(
                    #[trigger] r[j],
                    other_id,
                    other_cond,
                ) by {
                    let j0 = if j < i { j } else { j + 1 };
                    assert(r[j] == entries[j0]);
                    if j0 > i {
                        assert(!is_for(entries[j0], entries[i].card_id@, entries[i].condition));
                    }
                }
            } else if has_entry_for(entries, other_id, other_cond) {
                lemma_first_for_exists(entries, other_id, other_cond);
                let k = choose|k: int| first_for(entries, other_id, other_cond, k);
                assert(k != i);
                let k1 = if k < i { k } else { k - 1 };
                assert(r[k1] == entries[k]);
                assert forall|j: int| 0 <= j < k1 implies !is_for(
                    #[trigger] r[j],
                    other_id,
                    other_cond,
                ) by {
                    let j0 = if j < i { j } else { j + 1 };
                    assert(r[j] == entries[j0]);
                }
                assert(first_for(r, other_id, other_cond, k1));
                lemma_first_for_is(r, other_id, other_cond, k1);
            } else {
                assert forall|j: int| 0 <= j < r.len() implies !is_for(
                    #[trigger] r[j],
                    other_id,
                    other_cond,
                ) by {
                    let j0 = if j < i { j } else { j + 1 };
                    assert(r[j] == entries[j0]);
                }
            }
        } else {
            assert(r == entries.update(i, lessened(entries[i])));
            assert forall|j: int| 0 <= j < r.len() implies (is_for(
                #[trigger] r[j],
                other_id,
                other_cond,
            ) <==> is_for(entries[j], other_id, other_cond)) by {
                if j != i {
                    assert(r[j] == entries[j]);
                }
            }
            if has_entry_for(entries, other_id, other_cond) {
                lemma_first_for_exists(entries, other_id, other_cond);
                let k = choose|k: int| first_for(entries, other_id, other_cond, k);
                assert(first_for(r, other_id, other_cond, k));
                lemma_first_for_is(r, other_id, other_cond, k);
                if key_same {
                    lemma_first_for_is(entries, card_id, cond, i);
                }
            } else {
                assert(!has_entry_for(r, other_id, other_cond));
            }
        }
    }
}

/// Position of the first entry for the key, if any.
fn find_entry(entries: &Vec<CollectionEntry>, card_id: &str, cond: Condition) -> (res: Option<
    usize,
>)
    ensures
        match res {
            Some(i) => first_for(entries@, card_id@, cond, i as int),
            None => !has_entry_for(entries@, card_id@, cond),
        },
{
    let mut i: usize = 0;
    while i < entries.len()
        invariant
            i <= entries@.len(),
            forall|j: int| 0 <= j < i ==> !is_for(#[trigger] entries@[j], card_id@, cond),
        decreases entries@.len() - i,
    {
        let e = &entries[i];
        if e.condition == cond && str_eq(e.card_id.as_str(), card_id) {
            return Some(i);
        }
        i += 1;
    }
    None
}

impl Collection {
    /// Counts one more copy of `entry`'s card in `entry`'s condition.  The first
    /// entry for that card and condition gets one more copy and `entry`'s six
    /// prices; if there is none, `entry` is appended as it is.
    pub fn add_or_increment(&mut self, entry: CollectionEntry)
        requires
            forall|i: int|
                first_for(old(self).entries@, entry.card_id@, entry.condition, i)
                    ==> old(self).entries@[i].quantity < u32::MAX,
        ensures
            final(self).entries@ == added(old(self).entries@, entry),
    {
        match find_entry(&self.entries, entry.card_id.as_str(), entry.condition) {
            Some(i) => {
                proof {
                    lemma_first_for_exists(self.entries@, entry.card_id@, entry.condition);
                }
                let mut e = self.entries.remove(i);
                e.quantity = e.quantity + 1;
                e.tcgplayer_low = entry.tcgplayer_low;
                e.tcgplayer_mid = entry.tcgplayer_mid;
                e.tcgplayer_high = entry.tcgplayer_high;
                e.cardmarket_low = entry.cardmarket_low;
                e.cardmarket_mid = entry.cardmarket_mid;
                e.cardmarket_high = entry.cardmarket_high;
                self.entries.insert(i, e);
                proof {
                    assert(self.entries@ =~= old(self).entries@.update(
                        i as int,
                        bumped(old(self).entries@[i as int], entry),
                    ));
                }
            },
            None => {
                self.entries.push(entry);
            },
        }
    }

    /// Takes one copy of the card `card_id` in condition `condition` away: the
    /// first entry for it loses a copy, or goes when it had at most one.  With
    /// no such entry nothing changes.
    pub fn remove_one(&mut self, card_id: &str, condition: &Condition)
        ensures
            final(self).entries@ == removed(old(self).entries@, card_id@, *condition),
    {
        match find_entry(&self.entries, card_id, *condition) {
            Some(i) => {
                proof {
                    lemma_first_for_exists(self.entries@, card_id@, *condition);
                }
                if self.entries[i].quantity <= 1 {
                    self.entries.remove(i);
                } else {
                    let mut e = self.entries.remove(i);
                    e.quantity = e.quantity - 1;
                    self.entries.insert(i, e);
                    proof {
                        assert(self.entries@ =~= old(self).entries@.update(
                            i as int,
                            lessened(old(self).entries@[i as int]),
                        ));
                    }
                }
            },
            None => {},
        }
    }
}

} // verus!
