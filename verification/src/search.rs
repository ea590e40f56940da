//! Name search over a list of cards, as the card browser offers it: up to ten
//! cards whose name starts with the query, then up to forty more whose name
//! contains it.

use vstd::prelude::*;

use crate::card::Card;
use crate::database::derefs;
use crate::text::{
    chars_eq, chars_of, contains, contains_chars, lowercase, lowercase_chars, occurs_at, starts_with,
    starts_with_chars, str_eq,
};

verus! {

/// How many name-prefix matches a search returns at most.
pub const PREFIX_LIMIT: usize = 10;

/// How many further name matches a search returns at most.
pub const FUZZY_LIMIT: usize = 40;

/// The game filter lets the card through.  No filter and `"All"` let every
/// card through; `"Pokemon"` and `"Magic"` stand for the two games; any other
/// text must equal the card's game.
pub open spec fn game_allows(c: Card, game: Option<Seq<char>>) -> bool {
    match game {
        None => true,
        Some(g) => if g == "All"@ {
            true
        } else if g == "Pokemon"@ {
            c.game@ == "Pokemon"@
        } else if g == "Magic"@ {
            c.game@ == "MagicTheGathering"@
        } else {
            c.game@ == g
        },
    }
}

/// The first `n` elements of `s` (all of them when there are fewer).
pub open spec fn first_n<A>(s: Seq<A>, n: int) -> Seq<A> {
    if s.len() <= n {
        s
    } else {
        s.take(n)
    }
}

/// The card passes the filter and its lower-cased name starts with `q`.
pub open spec fn prefix_hit(c: Card, q: Seq<char>, game: Option<Seq<char>>) -> bool {
    game_allows(c, game) && starts_with(lowercase(c.name@), q)
}

/// The name-prefix part of a search.
pub open spec fn prefix_part(cards: Seq<Card>, q: Seq<char>, game: Option<Seq<char>>) -> Seq<Card> {
    first_n(cards.filter(|c: Card| prefix_hit(c, q, game)), PREFIX_LIMIT as int)
}

/// The card's identifier is one of those of `found`.
pub open spec fn id_among(c: Card, found: Seq<Card>) -> bool {
    exists|k: int| 0 <= k < found.len() && (#[trigger] found[k]).id@ == c.id@
}

/// The card passes the filter, is not already found by its identifier, and its
/// lower-cased name contains `q`.
pub open spec fn fuzzy_hit(c: Card, q: Seq<char>, game: Option<Seq<char>>, found: Seq<Card>) -> bool {
    game_allows(c, game) && !id_among(c, found) && contains(lowercase(c.name@), q)
}

/// The name-contains part of a search, after the prefix part `found`.
pub open spec fn fuzzy_part(
    cards: Seq<Card>,
    q: Seq<char>,
    game: Option<Seq<char>>,
    found: Seq<Card>,
) -> Seq<Card> {
    first_n(cards.filter(|c: Card| fuzzy_hit(c, q, game, found)), FUZZY_LIMIT as int)
}

/// What a search gives: nothing for an empty query without a game filter,
/// otherwise the prefix part followed by the contains part, each in list order.
pub open spec fn name_search(cards: Seq<Card>, query: Seq<char>, game: Option<Seq<char>>) -> Seq<
    Card,
> {
    if query.len() == 0 && (game is None || game == Some("All"@)) {
        Seq::empty()
    } else {
        let q = lowercase(query);
        let pre = prefix_part(cards, q, game);
        pre + fuzzy_part(cards, q, game, pre)
    }
}

/// The view of an optional string.
pub open spec fn opt_view(game: Option<&str>) -> Option<Seq<char>> {
    match game {
        Some(g) => Some(g@),
        None => None,
    }
}

/// Whether the game filter lets `c` through.
fn game_ok(c: &Card, game: Option<&str>) -> (res: bool)
    ensures
        res == game_allows(*c, opt_view(game)),
{
    match game {
        None => true,
        Some(g) => {
            if str_eq(g, "All") {
                true
            } else if str_eq(g, "Pokemon") {
                str_eq(c.game.as_str(), "Pokemon")
            } else if str_eq(g, "Magic") {
                str_eq(c.game.as_str(), "MagicTheGathering")
            } else {
                str_eq(c.game.as_str(), g)
            }
        },
    }
}

/// Whether the identifier of `c` is that of one of `found`.
fn id_found(c: &Card, found: &Vec<&Card>) -> (res: bool)
    ensures
        res == id_among(*c, derefs(found@)),
{
    let id = chars_of(c.id.as_str());
    let mut k: usize = 0;
    while k < found.len()
        invariant
            k <= found@.len(),
            id@ == c.id@,
            forall|j: int| 0 <= j < k ==> (#[trigger] derefs(found@)[j]).id@ != c.id@,
        decreases found@.len() - k,
    {
        let other = chars_of(found[k].id.as_str());
        if chars_eq(other.as_slice(), id.as_slice()) {
            assert(derefs(found@)[k as int].id@ == c.id@);
            return true;
        }
        k += 1;
    }
    false
}

/// Taking at most `n` elements of a sequence that grows by one.
pub proof fn lemma_first_n_of_push<A>(s: Seq<A>, x: A, n: int)
    requires
        n >= 0,
    ensures
        first_n(s.push(x), n) == if s.len() < n {
            s.push(x)
        } else {
            first_n(s, n)
        },
{
    if s.len() >= n {
        assert(s.push(x).take(n) =~= first_n(s, n));
    }
}

/// Taking at most `n` of a filtered list, one more element at a time.
proof fn lemma_first_n_push(s: Seq<Card>, c: Card, pred: spec_fn(Card) -> bool, n: int)
    requires
        n >= 0,
    ensures
        first_n(s.push(c).filter(pred), n) == if pred(c) && s.filter(pred).len() < n {
            first_n(s.filter(pred), n).push(c)
        } else {
            first_n(s.filter(pred), n)
        },
{
    s.lemma_filter_push(c, pred);
    let f = s.filter(pred);
    if pred(c) {
        if f.len() < n {
        } else {
            assert(f.push(c).take(n) =~= first_n(f, n));
        }
    }
}

/// Searches `cards` by name: up to ten cards of the chosen game whose
/// lower-cased name starts with the lower-cased query, followed by up to forty
/// more of that game, with an identifier none of the first ones has, whose
/// lower-cased name contains the query.  An empty query without a game filter
/// (or with `"All"`) finds nothing.
pub fn search<'a>(cards: &'a [Card], query: &str, game: Option<&str>) -> (res: Vec<&'a Card>)
    ensures
        derefs(res@) == name_search(cards@, query@, opt_view(game)),
{
    if query.is_empty() {
        let all = match game {
            None => true,
            Some(g) => str_eq(g, "All"),
        };
        if all {
            let none: Vec<&Card> = Vec::new();
            assert(derefs(none@) =~= Seq::empty());
            return none;
        }
    }
    let ghost g = opt_view(game);
    let q = lowercase_chars(query);
    let ghost pp = |c: Card| prefix_hit(c, q@, g);
    let mut prefix: Vec<&Card> = Vec::new();
    let mut i: usize = 0;
    while i < cards.len()
        invariant
            i <= cards@.len(),
            g == opt_view(game),
            q@ == lowercase(query@),
            pp == (|c: Card| prefix_hit(c, q@, g)),
            derefs(prefix@) == first_n(cards@.take(i as int).filter(pp), PREFIX_LIMIT as int),
            prefix@.len() <= PREFIX_LIMIT,
            prefix@.len() < PREFIX_LIMIT ==> prefix@.len() == cards@.take(i as int).filter(
                pp,
            ).len(),
        decreases cards@.len() - i,
    {
        let c = &cards[i];
        proof {
            assert(cards@.take(i + 1) =~= cards@.take(i as int).push(*c));
            lemma_first_n_push(cards@.take(i as int), *c, pp, PREFIX_LIMIT as int);
            cards@.take(i as int).lemma_filter_push(*c, pp);
        }
        if prefix.len() < PREFIX_LIMIT {
            let hit = if game_ok(c, game) {
                let name = lowercase_chars(c.name.as_str());
                starts_with_chars(name.as_slice(), q.as_slice())
            } else {
                false
            };
            if hit {
                prefix.push(c);
                assert(derefs(prefix@) =~= derefs(prefix@.drop_last()).push(*c));
            }
        }
        i += 1;
    }
    assert(cards@.take(i as int) =~= cards@);
    let ghost pre = derefs(prefix@);
    let ghost fp = |c: Card| fuzzy_hit(c, q@, g, pre);
    let mut fuzzy: Vec<&Card> = Vec::new();
    let mut i: usize = 0;
    while i < cards.len()
        invariant
            i <= cards@.len(),
            g == opt_view(game),
            q@ == lowercase(query@),
            pre == derefs(prefix@),
            fp == (|c: Card| fuzzy_hit(c, q@, g, pre)),
            derefs(fuzzy@) == first_n(cards@.take(i as int).filter(fp), FUZZY_LIMIT as int),
            fuzzy@.len() <= FUZZY_LIMIT,
            fuzzy@.len() < FUZZY_LIMIT ==> fuzzy@.len() == cards@.take(i as int).filter(
                fp,
            ).len(),
        decreases cards@.len() - i,
    {
        let c = &cards[i];
        proof {
            assert(cards@.take(i + 1) =~= cards@.take(i as int).push(*c));
            lemma_first_n_push(cards@.take(i as int), *c, fp, FUZZY_LIMIT as int);
            cards@.take(i as int).lemma_filter_push(*c, fp);
        }
        if fuzzy.len() < FUZZY_LIMIT {
            let hit = if game_ok(c, game) && !id_found(c, &prefix) {
                let name = lowercase_chars(c.name.as_str());
                contains_chars(name.as_slice(), q.as_slice())
            } else {
                false
            };
            if hit {
                fuzzy.push(c);
                assert(derefs(fuzzy@) =~= derefs(fuzzy@.drop_last()).push(*c));
            }
        }
        i += 1;
    }
    assert(cards@.take(i as int) =~= cards@);
    let ghost fz = derefs(fuzzy@);
    let mut res = prefix;
    let mut k: usize = 0;
    while k < fuzzy.len()
        invariant
            k <= fuzzy@.len(),
            fz == derefs(fuzzy@),
            derefs(res@) == pre + fz.take(k as int),
        decreases fuzzy@.len() - k,
    {
        let ghost before = res@;
        res.push(fuzzy[k]);
        assert(res@ == before.push(fuzzy@[k as int]));
        assert(derefs(res@) =~= derefs(before).push(fz[k as int]));
        assert(fz.take(k + 1) =~= fz.take(k as int).push(fz[k as int]));
        assert(derefs(res@) =~= pre + fz.take(k + 1));
        k += 1;
    }
    assert(fz.take(k as int) =~= fz);
    proof {
        if query@.len() == 0 {
            assert(g != Some("All"@) && g is Some);
        }
    }
    res
}

} // verus!
verus! {

proof fn lemma_first_n_elem<A>(s: Seq<A>, n: int, k: int)
    requires
        n >= 0,
        0 <= k < first_n(s, n).len(),
    ensures
        first_n(s, n)[k] == s[k],
        k < s.len(),
        first_n(s, n).len() <= n,
{
}

/// A search returns at most fifty cards; each passes the game filter and has
/// the lower-cased query in its lower-cased name; and none of the cards after
/// the first `prefix_part` ones shares an identifier with one of those.
pub proof fn lemma_name_search_shape(cards: Seq<Card>, query: Seq<char>, game: Option<Seq<char>>)
    ensures
        name_search(cards, query, game).len() <= PREFIX_LIMIT + FUZZY_LIMIT,
        forall|k: int|
            0 <= k < name_search(cards, query, game).len() ==> {
                &&& game_allows(#[trigger] name_search(cards, query, game)[k], game)
                &&& contains(lowercase(name_search(cards, query, game)[k].name@), lowercase(query))
            },
{
    if !(query.len() == 0 && (game is None || game == Some("All"@))) {
        let q = lowercase(query);
        let pp = |c: Card| prefix_hit(c, q, game);
        let pre = prefix_part(cards, q, game);
        let fp = |c: Card| fuzzy_hit(c, q, game, pre);
        let fz = fuzzy_part(cards, q, game, pre);
        let r = name_search(cards, query, game);
        assert(r == pre + fz);
        if pre.len() > 0 {
            lemma_first_n_elem(cards.filter(pp), PREFIX_LIMIT as int, 0);
        }
        if fz.len() > 0 {
            lemma_first_n_elem(cards.filter(fp), FUZZY_LIMIT as int, 0);
        }
        assert forall|k: int| 0 <= k < r.len() implies {
            &&& game_allows(#[trigger] r[k], game)
            &&& contains(lowercase(r[k].name@), q)
        } by {
            if k < pre.len() {
                lemma_first_n_elem(cards.filter(pp), PREFIX_LIMIT as int, k);
                cards.lemma_filter_pred(pp, k);
                assert(r[k] == pre[k]);
                assert(occurs_at(lowercase(r[k].name@), q, 0));
            } else {
                let j = k - pre.len();
                lemma_first_n_elem(cards.filter(fp), FUZZY_LIMIT as int, j);
                cards.lemma_filter_pred(fp, j);
                assert(r[k] == fz[j]);
            }
        }
    }
}

/// No card of the contains part has the identifier of a card of the prefix
/// part.
pub proof fn lemma_fuzzy_part_new_ids(
    cards: Seq<Card>,
    q: Seq<char>,
    game: Option<Seq<char>>,
    k: int,
)
    requires
        0 <= k < fuzzy_part(cards, q, game, prefix_part(cards, q, game)).len(),
    ensures
        !id_among(
            fuzzy_part(cards, q, game, prefix_part(cards, q, game))[k],
            prefix_part(cards, q, game),
        ),
{
    let pre = prefix_part(cards, q, game);
    let fp = |c: Card| fuzzy_hit(c, q, game, pre);
    lemma_first_n_elem(cards.filter(fp), FUZZY_LIMIT as int, k);
    cards.lemma_filter_pred(fp, k);
}

/// The game filter `"All"` is no filter: a search with it finds exactly the
/// cards a search without a game filter finds, whatever the cards' games.
pub proof fn lemma_all_games_is_no_filter(cards: Seq<Card>, query: Seq<char>)
    ensures
        name_search(cards, query, Some("All"@)) == name_search(cards, query, None),
        forall|c: Card| #[trigger] game_allows(c, Some("All"@)),
{
    let all = Some("All"@);
    let q = lowercase(query);
    let ph_all = |c: Card| prefix_hit(c, q, all);
    let ph_none = |c: Card| prefix_hit(c, q, None);
    assert(ph_all =~= ph_none);
    let pre = prefix_part(cards, q, None);
    assert(prefix_part(cards, q, all) == pre);
    let fh_all = |c: Card| fuzzy_hit(c, q, all, pre);
    let fh_none = |c: Card| fuzzy_hit(c, q, None, pre);
    assert(fh_all =~= fh_none);
    assert(fuzzy_part(cards, q, all, pre) == fuzzy_part(cards, q, None, pre));
}

} // verus!
