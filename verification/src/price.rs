//! Recorded market prices of cards and the index that answers "what is the
//! latest price of this card".

use vstd::prelude::*;

use crate::collection::Condition;
use crate::text::str_eq;

verus! {

/// One observed price of a card, in US cents.
#[derive(Debug)]
pub struct PriceRecord {
    pub card_id: String,
    pub condition: Condition,
    pub price_cents: u64,
    pub source: String,
    /// When the price was seen, in seconds since the Unix epoch (UTC).
    pub recorded_at: i64,
}

/// One market's quote for a card.  The three prices are US-dollar `f32`
/// values, held as their bit patterns (`f32::to_bits`).
#[derive(Debug)]
pub struct PriceEntry {
    pub low: Option<u32>,
    pub mid: Option<u32>,
    pub high: Option<u32>,
    pub currency: String,
    pub source_url: String,
}

/// What the markets quote for one card.
#[derive(Debug)]
pub struct CardPrice {
    pub card_id: String,
    pub card_name: String,
    pub tcgplayer: Option<PriceEntry>,
    pub cardmarket: Option<PriceEntry>,
    pub ebay_sold: Option<PriceEntry>,
}

/// All recorded prices, in the order they were added.
#[derive(Debug)]
pub struct PriceIndex {
    pub entries: Vec<PriceRecord>,
}

/// Position `i` holds the latest price of `card_id`: the one seen last, and of
/// those seen at the same moment, the one added last.
pub open spec fn is_latest(entries: Seq<PriceRecord>, card_id: Seq<char>, i: int) -> bool {
    &&& 0 <= i < entries.len()
    &&& entries[i].card_id@ == card_id
    &&& forall|j: int|
        0 <= j < entries.len() && (#[trigger] entries[j]).card_id@ == card_id ==> entries[j].recorded_at
            < entries[i].recorded_at || (entries[j].recorded_at == entries[i].recorded_at && j
            <= i)
}

/// Some price of `card_id` is recorded.
pub open spec fn has_price(entries: Seq<PriceRecord>, card_id: Seq<char>) -> bool {
    exists|j: int| 0 <= j < entries.len() && (#[trigger] entries[j]).card_id@ == card_id
}

impl PriceIndex {
    /// An index with no prices.
    pub fn new() -> (res: PriceIndex)
        ensures
            res.entries@.len() == 0,
    {
        PriceIndex { entries: Vec::new() }
    }

    /// Records one more price.
    pub fn add_entry(&mut self, entry: PriceRecord)
        ensures
            final(self).entries@ == old(self).entries@.push(entry),
    {
        self.entries.push(entry);
    }

    /// The latest recorded price of `card_id`, if any price of it is recorded.
    pub fn latest_price(&self, card_id: &str) -> (res: Option<&PriceRecord>)
        ensures
            res is None <==> !has_price(self.entries@, card_id@),
            res matches Some(r) ==> exists|i: int|
                is_latest(self.entries@, card_id@, i) && *r == self.entries@[i],
    {
        let mut best: Option<usize> = None;
        let mut i: usize = 0;
        while i < self.entries.len()
            invariant
                i <= self.entries@.len(),
                match best {
                    Some(b) => is_latest(self.entries@.take(i as int), card_id@, b as int),
                    None => !has_price(self.entries@.take(i as int), card_id@),
                },
            decreases self.entries@.len() - i,
        {
            let ghost pre = self.entries@.take(i as int);
            let ghost post = self.entries@.take(i + 1);
            assert(post =~= pre.push(self.entries@[i as int]));
            let e = &self.entries[i];
            if str_eq(e.card_id.as_str(), card_id) {
                let take = match best {
                    Some(b) => e.recorded_at >= self.entries[b].recorded_at,
                    None => true,
                };
                if take {
                    best = Some(i);
                    proof {
                        assert forall|j: int|
                            0 <= j < post.len() && (#[trigger] post[j]).card_id@
                                == card_id@ implies post[j].recorded_at < post[i as int].recorded_at
                            || (post[j].recorded_at == post[i as int].recorded_at && j <= i) by {
                            if j < i {
                                assert(post[j] == pre[j]);
                                assert(has_price(pre, card_id@));
                            }
                        }
                    }
                } else {
                    proof {
                        let b = best->0 as int;
                        assert(post[b] == pre[b]);
                        assert forall|j: int|
                            0 <= j < post.len() && (#[trigger] post[j]).card_id@
                                == card_id@ implies post[j].recorded_at < post[b].recorded_at || (
                            post[j].recorded_at == post[b].recorded_at && j <= b) by {
                            if j < i {
                                assert(post[j] == pre[j]);
                            }
                        }
                    }
                }
            } else {
                proof {
                    match best {
                        Some(b) => {
                            assert(post[b as int] == pre[b as int]);
                            assert forall|j: int|
                                0 <= j < post.len() && (#[trigger] post[j]).card_id@
                                    == card_id@ implies post[j].recorded_at < post[b as int].recorded_at
                                || (post[j].recorded_at == post[b as int].recorded_at && j <= b) by {
                                if j < i {
                                    assert(post[j] == pre[j]);
                                }
                            }
                        },
                        None => {
                            assert forall|j: int|
                                0 <= j < post.len() implies (#[trigger] post[j]).card_id@
                                != card_id@ by {
                                if j < i {
                                    assert(post[j] == pre[j]);
                                }
                            }
                        },
                    }
                }
            }
            i += 1;
        }
        assert(self.entries@.take(i as int) =~= self.entries@);
        match best {
            Some(b) => Some(&self.entries[b]),
            None => None,
        }
    }
}

/// A price added no earlier than every price already recorded for its card is
/// what `latest_price` then answers for that card; every other card keeps the
/// latest price it had.
pub proof fn lemma_latest_after_add(
    entries: Seq<PriceRecord>,
    entry: PriceRecord,
    card_id: Seq<char>,
    i: int,
)
    requires
        forall|j: int|
            0 <= j < entries.len() && (#[trigger] entries[j]).card_id@ == entry.card_id@
                ==> entries[j].recorded_at <= entry.recorded_at,
        card_id != entry.card_id@ ==> is_latest(entries, card_id, i),
    ensures
        is_latest(entries.push(entry), entry.card_id@, entries.len() as int),
        card_id != entry.card_id@ ==> is_latest(entries.push(entry), card_id, i),
{
    let r = entries.push(entry);
    assert forall|j: int|
        0 <= j < r.len() && (#[trigger] r[j]).card_id@ == entry.card_id@ implies r[j].recorded_at
        < r[entries.len() as int].recorded_at || (r[j].recorded_at
        == r[entries.len() as int].recorded_at && j <= entries.len()) by {
        if j < entries.len() {
            assert(r[j] == entries[j]);
        }
    }
    if card_id != entry.card_id@ {
        assert forall|j: int|
            0 <= j < r.len() && (#[trigger] r[j]).card_id@ == card_id implies r[j].recorded_at
            < r[i].recorded_at || (r[j].recorded_at == r[i].recorded_at && j <= i) by {
            assert(r[i] == entries[i]);
            if j < entries.len() {
                assert(r[j] == entries[j]);
            }
        }
    }
}

} // verus!
