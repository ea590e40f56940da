//! The index of perceptual hashes of card images that a scan is matched against.

use vstd::prelude::*;

use crate::hash::{card_thumbnail, hamming, hamming_distance, is_luma_hash, phash_bytes};
use crate::search::{first_n, lemma_first_n_of_push};
use crate::text::{str_eq, to_owned};

verus! {

/// What the index knows of one card image.
#[derive(Debug)]
pub struct HashEntry {
    pub hash: u64,
    pub card_name: String,
    pub game: String,
    pub set_name: String,
    pub image_url: String,
}

/// Card identifiers with the hash of their image, in the order they were indexed.
#[derive(Debug)]
pub struct HashIndex {
    pub entries: Vec<(String, HashEntry)>,
}

/// A card of the index with its distance from a scanned image's hash.
#[derive(Debug)]
pub struct IndexMatch {
    pub card_id: String,
    pub card_name: String,
    pub game: String,
    pub set_name: String,
    pub distance: u32,
}

/// Some entry of the index is for `card_id`.
pub open spec fn has_id(entries: Seq<(String, HashEntry)>, card_id: Seq<char>) -> bool {
    exists|i: int| 0 <= i < entries.len() && (#[trigger] entries[i]).0@ == card_id
}

/// No card is indexed twice.
pub open spec fn ids_unique(entries: Seq<(String, HashEntry)>) -> bool {
    forall|i: int, j: int|
        0 <= i < j < entries.len() ==> (#[trigger] entries[i]).0@ != (#[trigger] entries[j]).0@
}

/// Appending an entry for a card the index does not hold keeps every card on
/// at most one entry.
pub proof fn lemma_add_keeps_ids_unique(entries: Seq<(String, HashEntry)>, e: (String, HashEntry))
    requires
        ids_unique(entries),
        !has_id(entries, e.0@),
    ensures
        ids_unique(entries.push(e)),
{
    let s = entries.push(e);
    assert forall|i: int, j: int| 0 <= i < j < s.len() implies s[i].0@ != s[j].0@ by {
        if j == entries.len() {
            assert(s[i] == entries[i]);
            if s[i].0@ == e.0@ {
                assert(entries[i].0@ == e.0@);
            }
        } else {
            assert(s[i] == entries[i] && s[j] == entries[j]);
        }
    }
}

/// The entry `e` describes card `card_id` with the given names and URL.
pub open spec fn describes(
    e: (String, HashEntry),
    card_id: Seq<char>,
    card_name: Seq<char>,
    game: Seq<char>,
    set_name: Seq<char>,
    image_url: Seq<char>,
) -> bool {
    &&& e.0@ == card_id
    &&& e.1.card_name@ == card_name
    &&& e.1.game@ == game
    &&& e.1.set_name@ == set_name
    &&& e.1.image_url@ == image_url
}

/// Distance of an entry's hash from `q`.
pub open spec fn entry_distance(e: (String, HashEntry), q: u64) -> nat {
    hamming_distance(e.1.hash, q)
}

/// The entries ordered by distance from `q`, nearest first, over distances
/// below `d`; entries at the same distance keep their index order.
pub open spec fn by_distance(entries: Seq<(String, HashEntry)>, q: u64, d: nat) -> Seq<
    (String, HashEntry),
>
    decreases d,
{
    if d == 0 {
        Seq::empty()
    } else {
        by_distance(entries, q, (d - 1) as nat) + entries.filter(
            |e: (String, HashEntry)| entry_distance(e, q) == (d - 1) as nat,
        )
    }
}

/// All entries ordered by distance from `q` (distances never exceed 64).
pub open spec fn ranked(entries: Seq<(String, HashEntry)>, q: u64) -> Seq<(String, HashEntry)> {
    by_distance(entries, q, 65)
}

/// The match an entry gives for a scan with hash `q`.
pub open spec fn as_match(e: (String, HashEntry), q: u64) -> IndexMatch {
    IndexMatch {
        card_id: e.0,
        card_name: e.1.card_name,
        game: e.1.game,
        set_name: e.1.set_name,
        distance: entry_distance(e, q) as u32,
    }
}

/// The `top_n` entries nearest to `q`, as matches.
pub open spec fn top_matches(entries: Seq<(String, HashEntry)>, q: u64, top_n: int) -> Seq<
    IndexMatch,
> {
    first_n(ranked(entries, q), top_n).map_values(|e: (String, HashEntry)| as_match(e, q))
}

/// No two matches are for the same card.
pub open spec fn match_ids_distinct(ms: Seq<IndexMatch>) -> bool {
    forall|i: int, j: int|
        0 <= i < j < ms.len() ==> (#[trigger] ms[i]).card_id@ != (#[trigger] ms[j]).card_id@
}

impl HashIndex {
    /// An empty index.
    pub fn new() -> (res: HashIndex)
        ensures
            res.entries@.len() == 0,
    {
        HashIndex { entries: Vec::new() }
    }

    /// A copy of the index, entry for entry.
    pub fn duplicate(&self) -> (res: HashIndex)
        ensures
            res.entries@ == self.entries@,
    {
        let mut entries: Vec<(String, HashEntry)> = Vec::new();
        let mut i: usize = 0;
        while i < self.entries.len()
            invariant
                i <= self.entries@.len(),
                entries@ == self.entries@.subrange(0, i as int),
            decreases self.entries@.len() - i,
        {
            let e = &self.entries[i];
            entries.push(
                (
                    e.0.clone(),
                    HashEntry {
                        hash: e.1.hash,
                        card_name: e.1.card_name.clone(),
                        game: e.1.game.clone(),
                        set_name: e.1.set_name.clone(),
                        image_url: e.1.image_url.clone(),
                    },
                ),
            );
            i += 1;
            assert(entries@ =~= self.entries@.subrange(0, i as int));
        }
        assert(entries@ =~= self.entries@);
        HashIndex { entries }
    }

    /// Whether the index holds an entry for `card_id`.
    pub fn contains_key(&self, card_id: &str) -> (res: bool)
        ensures
            res == has_id(self.entries@, card_id@),
    {
        let mut i: usize = 0;
        while i < self.entries.len()
            invariant
                i <= self.entries@.len(),
                forall|j: int| 0 <= j < i ==> (#[trigger] self.entries@[j]).0@ != card_id@,
            decreases self.entries@.len() - i,
        {
            if str_eq(self.entries[i].0.as_str(), card_id) {
                return true;
            }
            i += 1;
        }
        false
    }
}

/// Adds a card to the index from the bytes of its image.  A card already
/// indexed is left as it is, and so is the index when the bytes do not decode
/// as an image; otherwise an entry for the card, with the perceptual hash of
/// the image, is appended.
pub fn index_card(
    card_id: &str,
    card_name: &str,
    game: &str,
    set_name: &str,
    image_url: &str,
    image_bytes: &[u8],
    index: &mut HashIndex,
)
    ensures
        has_id(old(index).entries@, card_id@) || card_thumbnail(image_bytes@) is None
            ==> final(index).entries@ == old(index).entries@,
        !has_id(old(index).entries@, card_id@) && card_thumbnail(image_bytes@) is Some ==> {
            &&& final(index).entries@.len() == old(index).entries@.len() + 1
            &&& final(index).entries@.drop_last() == old(index).entries@
            &&& describes(
                final(index).entries@.last(),
                card_id@,
                card_name@,
                game@,
                set_name@,
                image_url@,
            )
            &&& is_luma_hash(card_thumbnail(image_bytes@)->0, final(index).entries@.last().1.hash)
        },
        ids_unique(old(index).entries@) ==> ids_unique(final(index).entries@),
{
    if index.contains_key(card_id) {
        return;
    }
    match phash_bytes(image_bytes) {
        Some(hash) => {
            index.entries.push(
                (
                    to_owned(card_id),
                    HashEntry {
                        hash,
                        card_name: to_owned(card_name),
                        game: to_owned(game),
                        set_name: to_owned(set_name),
                        image_url: to_owned(image_url),
                    },
                ),
            );
            assert(index.entries@.drop_last() =~= old(index).entries@);
            proof {
                if ids_unique(old(index).entries@) {
                    lemma_add_keeps_ids_unique(old(index).entries@, index.entries@.last());
                    assert(index.entries@ =~= old(index).entries@.push(index.entries@.last()));
                }
            }
        },
        None => {},
    }
}

/// The match an entry gives for the hash `q`.
fn to_match(e: &(String, HashEntry), q: u64) -> (res: IndexMatch)
    ensures
        res == as_match(*e, q),
{
    IndexMatch {
        card_id: e.0.clone(),
        card_name: e.1.card_name.clone(),
        game: e.1.game.clone(),
        set_name: e.1.set_name.clone(),
        distance: hamming(e.1.hash, q),
    }
}

/// The `top_n` cards of the index whose hash is nearest to `q`, nearest first;
/// cards at the same distance come in index order.
pub fn rank_matches(q: u64, index: &HashIndex, top_n: usize) -> (res: Vec<IndexMatch>)
    ensures
        res@ == top_matches(index.entries@, q, top_n as int),
        ids_unique(index.entries@) ==> match_ids_distinct(res@),
{
    proof {
        if ids_unique(index.entries@) {
            lemma_matches_distinct(index.entries@, q, top_n as int);
        }
    }
    let ghost entries = index.entries@;
    let n = index.entries.len();
    let mut dists: Vec<u32> = Vec::new();
    for p in 0..n
        invariant
            n == entries.len(),
            entries == index.entries@,
            dists@.len() == p,
            forall|k: int| 0 <= k < p ==> dists@[k] == entry_distance(#[trigger] entries[k], q),
    {
        dists.push(hamming(index.entries[p].1.hash, q));
    }
    let ghost tm = |e: (String, HashEntry)| as_match(e, q);
    let mut res: Vec<IndexMatch> = Vec::new();
    let mut d: u32 = 0;
    while d < 65
        invariant
            d <= 65,
            n == entries.len(),
            entries == index.entries@,
            dists@.len() == n,
            forall|k: int| 0 <= k < n ==> dists@[k] == entry_distance(#[trigger] entries[k], q),
            tm == (|e: (String, HashEntry)| as_match(e, q)),
            res@ == first_n(by_distance(entries, q, d as nat), top_n as int).map_values(tm),
            res@.len() <= top_n,
            res@.len() < top_n ==> res@.len() == by_distance(entries, q, d as nat).len(),
        decreases 65 - d,
    {
        let ghost cur = by_distance(entries, q, d as nat);
        let ghost pd = |e: (String, HashEntry)| entry_distance(e, q) == d as nat;
        let mut p: usize = 0;
        while p < n
            invariant
                p <= n,
                d < 65,
                n == entries.len(),
                entries == index.entries@,
                dists@.len() == n,
                forall|k: int| 0 <= k < n ==> dists@[k] == entry_distance(#[trigger] entries[k], q),
                tm == (|e: (String, HashEntry)| as_match(e, q)),
                cur == by_distance(entries, q, d as nat),
                pd == (|e: (String, HashEntry)| entry_distance(e, q) == d as nat),
                res@ == first_n(cur + entries.take(p as int).filter(pd), top_n as int).map_values(
                    tm,
                ),
                res@.len() <= top_n,
                res@.len() < top_n ==> res@.len() == (cur + entries.take(p as int).filter(
                    pd,
                )).len(),
            decreases n - p,
        {
            let ghost x = cur + entries.take(p as int).filter(pd);
            let ghost e = entries[p as int];
            proof {
                assert(entries.take(p + 1) =~= entries.take(p as int).push(e));
                entries.take(p as int).lemma_filter_push(e, pd);
                assert(cur + entries.take(p as int).filter(pd).push(e) =~= x.push(e));
                lemma_first_n_of_push(x, e, top_n as int);
            }
            if dists[p] == d && res.len() < top_n {
                let m = to_match(&index.entries[p], q);
                res.push(m);
                assert(res@ =~= first_n(x.push(e), top_n as int).map_values(tm));
            }
            p += 1;
        }
        assert(entries.take(n as int) =~= entries);
        d += 1;
    }
    res
}

/// The `top_n` cards of the index nearest to a scanned image, nearest first:
/// none when the bytes do not decode as an image, otherwise the ranking of
/// `rank_matches` for the image's perceptual hash `q` (the luma hash of its
/// grey thumbnail, unique by `lemma_luma_hash_unique`).
pub fn find_matches(query_bytes: &[u8], index: &HashIndex, top_n: usize) -> (res: Vec<IndexMatch>)
    ensures
        match card_thumbnail(query_bytes@) {
            Some(p) => exists|q: u64|
                #[trigger] is_luma_hash(p, q) && res@ == top_matches(index.entries@, q, top_n as int),
            None => res@.len() == 0,
        },
        ids_unique(index.entries@) ==> match_ids_distinct(res@),
{
    match phash_bytes(query_bytes) {
        Some(q) => rank_matches(q, index, top_n),
        None => Vec::new(),
    }
}

} // verus!
verus! {

proof fn lemma_by_distance_below(entries: Seq<(String, HashEntry)>, q: u64, d: nat)
    ensures
        forall|k: int|
            0 <= k < by_distance(entries, q, d).len() ==> entry_distance(
                #[trigger] by_distance(entries, q, d)[k],
                q,
            ) < d,
        forall|i: int, j: int|
            0 <= i < j < by_distance(entries, q, d).len() ==> entry_distance(
                #[trigger] by_distance(entries, q, d)[i],
                q,
            ) <= entry_distance(#[trigger] by_distance(entries, q, d)[j], q),
    decreases d,
{
    if d > 0 {
        let d0 = (d - 1) as nat;
        lemma_by_distance_below(entries, q, d0);
        let pd = |e: (String, HashEntry)| entry_distance(e, q) == d0;
        let prev = by_distance(entries, q, d0);
        let f = entries.filter(pd);
        let all = by_distance(entries, q, d);
        assert(all == prev + f);
        assert forall|k: int| 0 <= k < f.len() implies entry_distance(#[trigger] f[k], q) == d0 by {
            entries.lemma_filter_pred(pd, k);
        }
        assert forall|k: int| 0 <= k < all.len() implies entry_distance(#[trigger] all[k], q) < d by {
            if k < prev.len() {
                assert(all[k] == prev[k]);
            } else {
                assert(all[k] == f[k - prev.len()]);
            }
        }
        assert forall|i: int, j: int| 0 <= i < j < all.len() implies entry_distance(
            #[trigger] all[i],
            q,
        ) <= entry_distance(#[trigger] all[j], q) by {
            if j < prev.len() {
                assert(all[i] == prev[i] && all[j] == prev[j]);
            } else if i < prev.len() {
                assert(all[i] == prev[i]);
                assert(all[j] == f[j - prev.len()]);
            } else {
                assert(all[i] == f[i - prev.len()]);
                assert(all[j] == f[j - prev.len()]);
            }
        }
    }
}

proof fn lemma_by_distance_push(
    entries: Seq<(String, HashEntry)>,
    e: (String, HashEntry),
    q: u64,
    d: nat,
)
    ensures
        by_distance(entries.push(e), q, d).len() == by_distance(entries, q, d).len() + if entry_distance(e, q) < d {
            1int
        } else {
            0int
        },
    decreases d,
{
    if d > 0 {
        let d0 = (d - 1) as nat;
        lemma_by_distance_push(entries, e, q, d0);
        let pd = |x: (String, HashEntry)| entry_distance(x, q) == d0;
        entries.lemma_filter_push(e, pd);
    }
}

proof fn lemma_by_distance_contains(
    entries: Seq<(String, HashEntry)>,
    q: u64,
    d: nat,
    i: int,
)
    requires
        0 <= i < entries.len(),
        entry_distance(entries[i], q) < d,
    ensures
        by_distance(entries, q, d).contains(entries[i]),
    decreases d,
{
    let d0 = (d - 1) as nat;
    let pd = |x: (String, HashEntry)| entry_distance(x, q) == d0;
    let prev = by_distance(entries, q, d0);
    let f = entries.filter(pd);
    let all = by_distance(entries, q, d);
    assert(all == prev + f);
    if entry_distance(entries[i], q) == d0 {
        entries.lemma_filter_contains(pd, i);
        let k = choose|k: int| 0 <= k < f.len() && f[k] == entries[i];
        assert(all[prev.len() + k] == entries[i]);
    } else {
        lemma_by_distance_contains(entries, q, d0, i);
        let k = choose|k: int| 0 <= k < prev.len() && prev[k] == entries[i];
        assert(all[k] == entries[i]);
    }
}

proof fn lemma_by_distance_from_entries(
    entries: Seq<(String, HashEntry)>,
    q: u64,
    d: nat,
    k: int,
)
    requires
        0 <= k < by_distance(entries, q, d).len(),
    ensures
        entries.contains(by_distance(entries, q, d)[k]),
    decreases d,
{
    let d0 = (d - 1) as nat;
    let pd = |x: (String, HashEntry)| entry_distance(x, q) == d0;
    let prev = by_distance(entries, q, d0);
    let f = entries.filter(pd);
    let all = by_distance(entries, q, d);
    assert(all == prev + f);
    if k < prev.len() {
        lemma_by_distance_from_entries(entries, q, d0, k);
        assert(all[k] == prev[k]);
    } else {
        assert(all[k] == f[k - prev.len()]);
        entries.lemma_filter_contains_rev(pd, f[k - prev.len()]);
    }
}

proof fn lemma_ranked_len(entries: Seq<(String, HashEntry)>, q: u64)
    ensures
        ranked(entries, q).len() == entries.len(),
    decreases entries.len(),
{
    if entries.len() == 0 {
        lemma_by_distance_empty(entries, q, 65);
    } else {
        let init = entries.drop_last();
        let e = entries.last();
        lemma_ranked_len(init, q);
        assert(init.push(e) =~= entries);
        lemma_by_distance_push(init, e, q, 65);
        crate::hash::lemma_hamming_metric(e.1.hash, q);
    }
}

proof fn lemma_by_distance_empty(entries: Seq<(String, HashEntry)>, q: u64, d: nat)
    requires
        entries.len() == 0,
    ensures
        by_distance(entries, q, d).len() == 0,
    decreases d,
{
    if d > 0 {
        lemma_by_distance_empty(entries, q, (d - 1) as nat);
        let pd = |x: (String, HashEntry)| entry_distance(x, q) == (d - 1) as nat;
        reveal(Seq::filter);
    }
}

/// The ranking a scan is matched by puts every indexed card exactly in line:
/// it has as many places as the index has entries, holds every entry and
/// nothing else, and goes from nearest to farthest.  So the `top_n` matches
/// are the first `min(top_n, entries)` places, and no card left out is nearer
/// than one returned.
pub proof fn lemma_ranking_is_ordered(entries: Seq<(String, HashEntry)>, q: u64, top_n: int)
    requires
        top_n >= 0,
    ensures
        ranked(entries, q).len() == entries.len(),
        forall|i: int| 0 <= i < entries.len() ==> ranked(entries, q).contains(#[trigger] entries[i]),
        forall|k: int|
            0 <= k < ranked(entries, q).len() ==> entries.contains(#[trigger] ranked(entries, q)[k]),
        forall|i: int, j: int|
            0 <= i < j < ranked(entries, q).len() ==> entry_distance(
                #[trigger] ranked(entries, q)[i],
                q,
            ) <= entry_distance(#[trigger] ranked(entries, q)[j], q),
        top_matches(entries, q, top_n).len() == if entries.len() < top_n {
            entries.len() as int
        } else {
            top_n
        },
        forall|k: int|
            0 <= k < top_matches(entries, q, top_n).len() ==> #[trigger] top_matches(
                entries,
                q,
                top_n,
            )[k] == as_match(ranked(entries, q)[k], q),
{
    lemma_ranked_len(entries, q);
    lemma_by_distance_below(entries, q, 65);
    assert forall|i: int| 0 <= i < entries.len() implies ranked(entries, q).contains(
        #[trigger] entries[i],
    ) by {
        crate::hash::lemma_hamming_metric(entries[i].1.hash, q);
        lemma_by_distance_contains(entries, q, 65, i);
    }
    assert forall|k: int| 0 <= k < ranked(entries, q).len() implies entries.contains(
        #[trigger] ranked(entries, q)[k],
    ) by {
        lemma_by_distance_from_entries(entries, q, 65, k);
    }
}

proof fn lemma_filter_ids_unique(
    s: Seq<(String, HashEntry)>,
    pred: spec_fn((String, HashEntry)) -> bool,
)
    requires
        ids_unique(s),
    ensures
        ids_unique(s.filter(pred)),
    decreases s.len(),
{
    reveal(Seq::filter);
    if s.len() > 0 {
        let init = s.drop_last();
        assert(ids_unique(init)) by {
            assert forall|i: int, j: int| 0 <= i < j < init.len() implies (#[trigger] init[i]).0@
                != (#[trigger] init[j]).0@ by {
                assert(init[i] == s[i] && init[j] == s[j]);
            }
        }
        lemma_filter_ids_unique(init, pred);
        let fi = init.filter(pred);
        if pred(s.last()) {
            let f = fi.push(s.last());
            assert(s.filter(pred) == f);
            assert forall|i: int, j: int| 0 <= i < j < f.len() implies (#[trigger] f[i]).0@
                != (#[trigger] f[j]).0@ by {
                if j == fi.len() {
                    init.lemma_filter_contains_rev(pred, fi[i]);
                    let a = choose|a: int| 0 <= a < init.len() && init[a] == fi[i];
                    assert(s[a] == fi[i]);
                    assert(f[i] == fi[i]);
                    assert(s[s.len() - 1] == s.last());
                } else {
                    assert(f[i] == fi[i] && f[j] == fi[j]);
                }
            }
        }
    }
}

proof fn lemma_by_distance_ids_unique(entries: Seq<(String, HashEntry)>, q: u64, d: nat)
    requires
        ids_unique(entries),
    ensures
        ids_unique(by_distance(entries, q, d)),
    decreases d,
{
    if d > 0 {
        let d0 = (d - 1) as nat;
        let pd = |x: (String, HashEntry)| entry_distance(x, q) == d0;
        let prev = by_distance(entries, q, d0);
        let f = entries.filter(pd);
        let all = by_distance(entries, q, d);
        assert(all == prev + f);
        lemma_by_distance_ids_unique(entries, q, d0);
        lemma_filter_ids_unique(entries, pd);
        lemma_by_distance_below(entries, q, d0);
        assert forall|i: int, j: int| 0 <= i < j < all.len() implies (#[trigger] all[i]).0@
            != (#[trigger] all[j]).0@ by {
            if j < prev.len() {
                assert(all[i] == prev[i] && all[j] == prev[j]);
            } else if i >= prev.len() {
                assert(all[i] == f[i - prev.len()] && all[j] == f[j - prev.len()]);
            } else {
                assert(all[i] == prev[i]);
                assert(all[j] == f[j - prev.len()]);
                lemma_by_distance_from_entries(entries, q, d0, i);
                entries.lemma_filter_contains_rev(pd, f[j - prev.len()]);
                let a = choose|a: int| 0 <= a < entries.len() && entries[a] == prev[i];
                let b = choose|b: int| 0 <= b < entries.len() && entries[b] == f[j - prev.len()];
                if prev[i].0@ == f[j - prev.len()].0@ {
                    if a < b {
                        assert(entries[a].0@ != entries[b].0@);
                    } else if b < a {
                        assert(entries[b].0@ != entries[a].0@);
                    }
                    assert(entry_distance(prev[i], q) < d0);
                }
            }
        }
    }
}

/// When no card is indexed twice, no two of the `top_n` nearest matches are
/// for the same card.
pub proof fn lemma_matches_distinct(entries: Seq<(String, HashEntry)>, q: u64, top_n: int)
    requires
        ids_unique(entries),
        top_n >= 0,
    ensures
        match_ids_distinct(top_matches(entries, q, top_n)),
{
    lemma_by_distance_ids_unique(entries, q, 65);
    let r = ranked(entries, q);
    let t = first_n(r, top_n);
    let ms = top_matches(entries, q, top_n);
    assert forall|i: int, j: int| 0 <= i < j < ms.len() implies (#[trigger] ms[i]).card_id@
        != (#[trigger] ms[j]).card_id@ by {
        assert(ms[i] == as_match(t[i], q) && ms[j] == as_match(t[j], q));
        assert(t[i] == r[i] && t[j] == r[j]);
    }
}

} // verus!
