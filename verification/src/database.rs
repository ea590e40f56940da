//! The card catalogue with its price index: searching and filtering.

use vstd::prelude::*;

use crate::card::{game_name, rarity_name, Card, CardGame, Rarity};
use crate::price::{PriceIndex, PriceRecord};
use crate::text::{
    all_ascii, all_whitespace, ascii_lower, lemma_ascii_lower_join, lemma_words_join,
    chars_eq_ignore_ascii_case, chars_of, contains, contains_chars, eq_ignore_ascii_case,
    lowercase, lowercase_chars, split_whitespace, str_eq, words,
};

verus! {

/// The catalogue: every known card and the prices recorded for them.
#[derive(Debug)]
pub struct CardDatabase {
    pub cards: Vec<Card>,
    pub price_index: PriceIndex,
}

/// The cards a sequence of references points at.
pub open spec fn derefs(s: Seq<&Card>) -> Seq<Card> {
    s.map_values(|r: &Card| *r)
}

/// Lower-cased text of an optional field (an absent field reads as empty).
pub open spec fn lower_field(s: Option<String>) -> Seq<char> {
    match s {
        Some(v) => lowercase(v@),
        None => Seq::empty(),
    }
}

/// The search terms of a query: the words of its lower-cased text.
pub open spec fn query_terms(query: Seq<char>) -> Seq<Seq<char>> {
    words(lowercase(query))
}

/// The search terms of an ASCII query: the words of the query with its
/// capitals lower-cased, which is what lower-casing gives an ASCII string.
pub open spec fn ascii_query_terms(query: Seq<char>) -> Seq<Seq<char>> {
    words(ascii_lower(query))
}

/// Every term occurs in the card's lower-cased name, set name or type.
pub open spec fn matches_terms(c: Card, terms: Seq<Seq<char>>) -> bool {
    forall|k: int|
        0 <= k < terms.len() ==> {
            ||| contains(lowercase(c.name@), #[trigger] terms[k])
            ||| contains(lower_field(c.set_name), terms[k])
            ||| contains(lower_field(c.card_type), terms[k])
        }
}

/// The cards a query finds, in catalogue order.
pub open spec fn search_result(cards: Seq<Card>, query: Seq<char>) -> Seq<Card> {
    cards.filter(|c: Card| matches_terms(c, query_terms(query)))
}

/// The cards an ASCII query finds, in catalogue order.
pub open spec fn ascii_search_result(cards: Seq<Card>, query: Seq<char>) -> Seq<Card> {
    cards.filter(|c: Card| matches_terms(c, ascii_query_terms(query)))
}

/// The card belongs to `game`.
pub open spec fn in_game(c: Card, game: CardGame) -> bool {
    c.game@ == game_name(game)
}

/// The card has rarity `rarity`.
pub open spec fn has_rarity(c: Card, rarity: Rarity) -> bool {
    c.rarity matches Some(r) && r@ == rarity_name(rarity)
}

/// The card's set code equals `code` up to the case of ASCII letters.
pub open spec fn in_set(c: Card, code: Seq<char>) -> bool {
    c.set_code matches Some(s) && eq_ignore_ascii_case(s@, code)
}

/// The characters of the lower-cased field, or none when it is absent.
fn lower_opt(s: &Option<String>) -> (res: Vec<char>)
    ensures
        res@ == lower_field(*s),
{
    match s {
        Some(v) => lowercase_chars(v.as_str()),
        None => Vec::new(),
    }
}

/// Whether `c` matches every term.
fn card_matches(c: &Card, terms: &Vec<Vec<char>>) -> (res: bool)
    ensures
        res == matches_terms(*c, terms@.map_values(|t: Vec<char>| t@)),
{
    let ghost ts = terms@.map_values(|t: Vec<char>| t@);
    let name = lowercase_chars(c.name.as_str());
    let set = lower_opt(&c.set_name);
    let typ = lower_opt(&c.card_type);
    let mut k: usize = 0;
    while k < terms.len()
        invariant
            k <= terms@.len(),
            ts == terms@.map_values(|t: Vec<char>| t@),
            name@ == lowercase(c.name@),
            set@ == lower_field(c.set_name),
            typ@ == lower_field(c.card_type),
            forall|j: int|
                0 <= j < k ==> {
                    ||| contains(name@, #[trigger] ts[j])
                    ||| contains(set@, ts[j])
                    ||| contains(typ@, ts[j])
                },
        decreases terms@.len() - k,
    {
        let t = terms[k].as_slice();
        assert(ts[k as int] == t@);
        if !(contains_chars(name.as_slice(), t) || contains_chars(set.as_slice(), t)
            || contains_chars(typ.as_slice(), t)) {
            return false;
        }
        k += 1;
    }
    true
}

impl CardDatabase {
    /// An empty catalogue.
    pub fn new() -> (res: CardDatabase)
        ensures
            res.cards@.len() == 0,
            res.price_index.entries@.len() == 0,
    {
        CardDatabase { cards: Vec::new(), price_index: PriceIndex::new() }
    }

    /// Adds a card at the end of the catalogue.
    pub fn add_card(&mut self, card: Card)
        ensures
            final(self).cards@ == old(self).cards@.push(card),
            final(self).price_index == old(self).price_index,
    {
        self.cards.push(card);
    }

    /// The catalogue that a sync builds: the cards of the first source, then
    /// those of the second, and their prices in the same order.
    pub fn from_sources(
        first_cards: Vec<Card>,
        second_cards: Vec<Card>,
        first_prices: Vec<PriceRecord>,
        second_prices: Vec<PriceRecord>,
    ) -> (res: CardDatabase)
        ensures
            res.cards@ == first_cards@ + second_cards@,
            res.price_index.entries@ == first_prices@ + second_prices@,
    {
        let mut db = CardDatabase::new();
        let mut cards = first_cards;
        let mut more_cards = second_cards;
        cards.append(&mut more_cards);
        db.cards = cards;
        let mut prices = first_prices;
        let mut more_prices = second_prices;
        prices.append(&mut more_prices);
        db.price_index.entries = prices;
        db
    }

    /// The cards whose lower-cased name, set name or type contains every
    /// whitespace-separated word of the lower-cased query, in catalogue order.
    /// A query without words finds every card.
    pub fn search(&self, query: &str) -> (res: Vec<&Card>)
        ensures
            derefs(res@) == search_result(self.cards@, query@),
            all_ascii(query@) ==> query_terms(query@) == ascii_query_terms(query@),
            all_ascii(query@) ==> derefs(res@) == ascii_search_result(self.cards@, query@),
    {
        let query_lower = lowercase_chars(query);
        proof {
            if all_ascii(query@) {
                let p1 = |c: Card| matches_terms(c, query_terms(query@));
                let p2 = |c: Card| matches_terms(c, ascii_query_terms(query@));
                assert(p1 =~= p2);
            }
        }
        let terms = split_whitespace(query_lower.as_slice());
        let ghost ts = terms@.map_values(|t: Vec<char>| t@);
        assert(ts =~= query_terms(query@));
        let ghost pred = |c: Card| matches_terms(c, query_terms(query@));
        let mut res: Vec<&Card> = Vec::new();
        let mut i: usize = 0;
        while i < self.cards.len()
            invariant
                i <= self.cards@.len(),
                ts == terms@.map_values(|t: Vec<char>| t@),
                ts == query_terms(query@),
                pred == (|c: Card| matches_terms(c, query_terms(query@))),
                derefs(res@) == self.cards@.take(i as int).filter(pred),
            decreases self.cards@.len() - i,
        {
            let c = &self.cards[i];
            proof {
                assert(self.cards@.take(i + 1) =~= self.cards@.take(i as int).push(*c));
                self.cards@.take(i as int).lemma_filter_push(*c, pred);
            }
            if card_matches(c, &terms) {
                res.push(c);
                assert(derefs(res@) =~= derefs(res@.drop_last()).push(*c));
            }
            i += 1;
        }
        assert(self.cards@.take(i as int) =~= self.cards@);
        res
    }

    /// The cards of `game`, in catalogue order.
    pub fn filter_by_game(&self, game: CardGame) -> (res: Vec<&Card>)
        ensures
            derefs(res@) == self.cards@.filter(|c: Card| in_game(c, game)),
    {
        let name = game.label();
        let ghost pred = |c: Card| in_game(c, game);
        let mut res: Vec<&Card> = Vec::new();
        let mut i: usize = 0;
        while i < self.cards.len()
            invariant
                i <= self.cards@.len(),
                name@ == game_name(game),
                pred == (|c: Card| in_game(c, game)),
                derefs(res@) == self.cards@.take(i as int).filter(pred),
            decreases self.cards@.len() - i,
        {
            let c = &self.cards[i];
            proof {
                assert(self.cards@.take(i + 1) =~= self.cards@.take(i as int).push(*c));
                self.cards@.take(i as int).lemma_filter_push(*c, pred);
            }
            if str_eq(c.game.as_str(), name) {
                res.push(c);
                assert(derefs(res@) =~= derefs(res@.drop_last()).push(*c));
            }
            i += 1;
        }
        assert(self.cards@.take(i as int) =~= self.cards@);
        res
    }

    /// The cards of `rarity`, in catalogue order.
    pub fn filter_by_rarity(&self, rarity: Rarity) -> (res: Vec<&Card>)
        ensures
            derefs(res@) == self.cards@.filter(|c: Card| has_rarity(c, rarity)),
    {
        let name = rarity.label();
        let ghost pred = |c: Card| has_rarity(c, rarity);
        let mut res: Vec<&Card> = Vec::new();
        let mut i: usize = 0;
        while i < self.cards.len()
            invariant
                i <= self.cards@.len(),
                name@ == rarity_name(rarity),
                pred == (|c: Card| has_rarity(c, rarity)),
                derefs(res@) == self.cards@.take(i as int).filter(pred),
            decreases self.cards@.len() - i,
        {
            let c = &self.cards[i];
            proof {
                assert(self.cards@.take(i + 1) =~= self.cards@.take(i as int).push(*c));
                self.cards@.take(i as int).lemma_filter_push(*c, pred);
            }
            let hit = match &c.rarity {
                Some(r) => str_eq(r.as_str(), name),
                None => false,
            };
            if hit {
                res.push(c);
                assert(derefs(res@) =~= derefs(res@.drop_last()).push(*c));
            }
            i += 1;
        }
        assert(self.cards@.take(i as int) =~= self.cards@);
        res
    }

    /// The cards whose set code equals `set_code` up to ASCII case, in
    /// catalogue order.
    pub fn filter_by_set(&self, set_code: &str) -> (res: Vec<&Card>)
        ensures
            derefs(res@) == self.cards@.filter(|c: Card| in_set(c, set_code@)),
    {
        let code = chars_of(set_code);
        let ghost pred = |c: Card| in_set(c, set_code@);
        let mut res: Vec<&Card> = Vec::new();
        let mut i: usize = 0;
        while i < self.cards.len()
            invariant
                i <= self.cards@.len(),
                code@ == set_code@,
                pred == (|c: Card| in_set(c, set_code@)),
                derefs(res@) == self.cards@.take(i as int).filter(pred),
            decreases self.cards@.len() - i,
        {
            let c = &self.cards[i];
            proof {
                assert(self.cards@.take(i + 1) =~= self.cards@.take(i as int).push(*c));
                self.cards@.take(i as int).lemma_filter_push(*c, pred);
            }
            let hit = match &c.set_code {
                Some(s) => {
                    let sc = chars_of(s.as_str());
                    chars_eq_ignore_ascii_case(sc.as_slice(), code.as_slice())
                },
                None => false,
            };
            if hit {
                res.push(c);
                assert(derefs(res@) =~= derefs(res@.drop_last()).push(*c));
            }
            i += 1;
        }
        assert(self.cards@.take(i as int) =~= self.cards@);
        res
    }

    /// How many cards the catalogue holds.
    pub fn card_count(&self) -> (res: usize)
        ensures
            res == self.cards@.len(),
    {
        self.cards.len()
    }
}

/// A query without words finds every card, in catalogue order.
pub proof fn lemma_search_without_words(cards: Seq<Card>, query: Seq<char>)
    requires
        query_terms(query).len() == 0,
    ensures
        search_result(cards, query) == cards,
    decreases cards.len(),
{
    reveal(Seq::filter);
    if cards.len() > 0 {
        lemma_search_without_words(cards.drop_last(), query);
        assert(cards.drop_last().push(cards.last()) =~= cards);
    }
}

/// Adding words to a query can only narrow what it finds: every card the
/// longer query finds, the shorter one finds too.
pub proof fn lemma_search_narrows(c: Card, terms: Seq<Seq<char>>, more: Seq<Seq<char>>)
    requires
        matches_terms(c, terms + more),
    ensures
        matches_terms(c, terms),
{
    assert forall|k: int| 0 <= k < terms.len() implies {
        ||| contains(lowercase(c.name@), #[trigger] terms[k])
        ||| contains(lower_field(c.set_name), terms[k])
        ||| contains(lower_field(c.card_type), terms[k])
    } by {
        assert((terms + more)[k] == terms[k]);
    }
}

/// Every card a search finds is in the catalogue and matches every term.
pub proof fn lemma_search_sound(cards: Seq<Card>, query: Seq<char>, k: int)
    requires
        0 <= k < search_result(cards, query).len(),
    ensures
        cards.contains(search_result(cards, query)[k]),
        matches_terms(search_result(cards, query)[k], query_terms(query)),
{
    let pred = |c: Card| matches_terms(c, query_terms(query));
    cards.lemma_filter_pred(pred, k);
    cards.lemma_filter_contains_rev(pred, search_result(cards, query)[k]);
}

/// A card matching every term of `t2` matches every term of `t1` when each
/// term of `t1` is among those of `t2`.
proof fn lemma_matches_fewer_terms(c: Card, t1: Seq<Seq<char>>, t2: Seq<Seq<char>>)
    requires
        forall|w: Seq<char>| t1.contains(w) ==> t2.contains(w),
        matches_terms(c, t2),
    ensures
        matches_terms(c, t1),
{
    assert forall|k: int| 0 <= k < t1.len() implies {
        ||| contains(lowercase(c.name@), #[trigger] t1[k])
        ||| contains(lower_field(c.set_name), t1[k])
        ||| contains(lower_field(c.card_type), t1[k])
    } by {
        assert(t1.contains(t1[k]));
        let j = choose|j: int| 0 <= j < t2.len() && t2[j] == t1[k];
        assert(t2[j] == t1[k]);
    }
}

/// Filtering by `p2` alone or after `p1` is the same when `p2` implies `p1`.
proof fn lemma_filter_twice(s: Seq<Card>, p1: spec_fn(Card) -> bool, p2: spec_fn(Card) -> bool)
    requires
        forall|c: Card| #[trigger] p2(c) ==> p1(c),
    ensures
        s.filter(p2) == s.filter(p1).filter(p2),
    decreases s.len(),
{
    reveal(Seq::filter);
    if s.len() > 0 {
        lemma_filter_twice(s.drop_last(), p1, p2);
        if p1(s.last()) {
            assert(s.filter(p1) == s.drop_last().filter(p1).push(s.last()));
            assert(s.filter(p1).drop_last() =~= s.drop_last().filter(p1));
        }
    }
}

/// A search depends only on which words its query has: the order of the
/// words, and words given twice, change nothing.
pub proof fn lemma_search_word_order(cards: Seq<Card>, q1: Seq<char>, q2: Seq<char>)
    requires
        query_terms(q1).to_set() == query_terms(q2).to_set(),
    ensures
        search_result(cards, q1) == search_result(cards, q2),
{
    lemma_same_terms_same_cards(cards, query_terms(q1), query_terms(q2));
}

/// A query with more words finds the cards a query with some of them finds,
/// narrowed by the extra words: its result is a subsequence of the other's.
pub proof fn lemma_search_more_words(cards: Seq<Card>, q1: Seq<char>, q2: Seq<char>)
    requires
        query_terms(q1).to_set().subset_of(query_terms(q2).to_set()),
    ensures
        search_result(cards, q2) == search_result(cards, q1).filter(
            |c: Card| matches_terms(c, query_terms(q2)),
        ),
{
    let t1 = query_terms(q1);
    let t2 = query_terms(q2);
    assert forall|w: Seq<char>| t1.contains(w) implies t2.contains(w) by {
        assert(t1.to_set().contains(w));
    }
    let p1 = |c: Card| matches_terms(c, t1);
    let p2 = |c: Card| matches_terms(c, t2);
    assert forall|c: Card| #[trigger] p2(c) implies p1(c) by {
        lemma_matches_fewer_terms(c, t1, t2);
    }
    lemma_filter_twice(cards, p1, p2);
}

/// Queries whose terms are the same set find the same cards.
proof fn lemma_same_terms_same_cards(cards: Seq<Card>, t1: Seq<Seq<char>>, t2: Seq<Seq<char>>)
    requires
        t1.to_set() == t2.to_set(),
    ensures
        cards.filter(|c: Card| matches_terms(c, t1)) == cards.filter(|c: Card| matches_terms(c, t2)),
{
    assert forall|w: Seq<char>| t1.contains(w) <==> t2.contains(w) by {
        assert(t1.to_set().contains(w) <==> t1.contains(w));
        assert(t2.to_set().contains(w) <==> t2.contains(w));
        assert(t1.to_set().contains(w) == t2.to_set().contains(w));
    }
    assert forall|c: Card| matches_terms(c, t1) <==> matches_terms(c, t2) by {
        if matches_terms(c, t1) {
            lemma_matches_fewer_terms(c, t2, t1);
        }
        if matches_terms(c, t2) {
            lemma_matches_fewer_terms(c, t1, t2);
        }
    }
    let p1 = |c: Card| matches_terms(c, t1);
    let p2 = |c: Card| matches_terms(c, t2);
    assert(p1 =~= p2);
}

/// Joining two ASCII queries with whitespace: the joined query's words are
/// those of the first followed by those of the second; so swapping the parts
/// or changing the whitespace between them finds the same cards, and the
/// joined query finds those the first part finds, narrowed by the second
/// part's words.
pub proof fn lemma_ascii_search_join(cards: Seq<Card>, a: Seq<char>, b: Seq<char>, s1: Seq<char>, s2: Seq<char>)
    requires
        s1.len() > 0,
        s2.len() > 0,
        all_whitespace(s1),
        all_whitespace(s2),
    ensures
        ascii_query_terms(a + s1 + b) == ascii_query_terms(a) + ascii_query_terms(b),
        ascii_search_result(cards, a + s1 + b) == ascii_search_result(cards, b + s2 + a),
        ascii_search_result(cards, a + s1 + b) == ascii_search_result(cards, a).filter(
            |c: Card| matches_terms(c, ascii_query_terms(a + s1 + b)),
        ),
{
    lemma_ascii_lower_join(a, s1, b);
    lemma_ascii_lower_join(b, s2, a);
    lemma_words_join(ascii_lower(a), s1, ascii_lower(b));
    lemma_words_join(ascii_lower(b), s2, ascii_lower(a));
    let ta = ascii_query_terms(a);
    let tb = ascii_query_terms(b);
    let t1 = ascii_query_terms(a + s1 + b);
    let t2 = ascii_query_terms(b + s2 + a);
    assert(t1 == ta + tb);
    assert(t2 == tb + ta);
    assert(t1.to_set() =~= t2.to_set()) by {
        assert forall|w: Seq<char>| t1.contains(w) implies t2.contains(w) by {
            let k = choose|k: int| 0 <= k < t1.len() && t1[k] == w;
            if k < ta.len() {
                assert(t2[tb.len() + k] == w);
            } else {
                assert(t2[k - ta.len()] == w);
            }
        }
        assert forall|w: Seq<char>| t2.contains(w) implies t1.contains(w) by {
            let k = choose|k: int| 0 <= k < t2.len() && t2[k] == w;
            if k < tb.len() {
                assert(t1[ta.len() + k] == w);
            } else {
                assert(t1[k - tb.len()] == w);
            }
        }
    }
    lemma_same_terms_same_cards(cards, t1, t2);
    let p1 = |c: Card| matches_terms(c, ta);
    let p2 = |c: Card| matches_terms(c, t1);
    assert forall|c: Card| #[trigger] p2(c) implies p1(c) by {
        assert forall|w: Seq<char>| ta.contains(w) implies t1.contains(w) by {
            let k = choose|k: int| 0 <= k < ta.len() && ta[k] == w;
            assert(t1[k] == w);
        }
        lemma_matches_fewer_terms(c, ta, t1);
    }
    lemma_filter_twice(cards, p1, p2);
}

} // verus!
