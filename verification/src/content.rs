//! Random picks from the content pools: uniform picks of an index, weighted boss picks
//! and random standard cards.
use crate::cards::{Card, Rank, Suit};
use crate::effects::JokerRarity;
use crate::hand::HandKind;
use crate::text::str_eq;
use crate::deck::{plain_card, rank_at, standard_rank, standard_suit, suit_at};
use crate::rng::RngState;
use vstd::prelude::*;

verus! {

/// Selection weight of a boss when its definition gives none.
pub fn default_weight() -> (w: u32)
    ensures
        w == 1,
{
    1
}

/// Identifies whether a card modifier is an Enhancement, Edition, or Seal.
#[derive(Debug, Clone, Copy, PartialEq, Eq, Structural)]
pub enum CardModifierKind {
    Enhancement,
    Edition,
    Seal,
}

/// The item a random draw `roll` picks from `items`: the one at `roll % len`.
pub open spec fn picked_item(items: Seq<usize>, roll: u64) -> usize {
    items[(roll % (items.len() as u64)) as int]
}

/// Pick the item at position `roll % len` (no item from an empty list).
pub fn pick_index_with(items: &[usize], roll: u64) -> (r: Option<usize>)
    ensures
        items@.len() == 0 ==> r is None,
        items@.len() > 0 ==> r == Some(picked_item(items@, roll)),
{
    if items.len() == 0 {
        return None;
    }
    let idx = (roll % (items.len() as u64)) as usize;
    Some(items[idx])
}

/// A uniformly random item of `items`; draws one number from `rng` when `items` is not
/// empty, none otherwise.
pub fn pick_index(items: &[usize], rng: &mut RngState) -> (r: Option<usize>)
    ensures
        items@.len() == 0 ==> r is None && *final(rng) == *old(rng),
        items@.len() > 0 ==> r is Some && items@.contains(r->0),
        final(rng).spec_seed() == old(rng).spec_seed(),
{
    if items.len() == 0 {
        return None;
    }
    let roll = rng.next_u64();
    let r = pick_index_with(items, roll);
    proof {
        let k = (roll % (items@.len() as u64)) as int;
        assert(items@[k] == r->0);
    }
    r
}

/// The card two draws pick: suit by the first modulo 4 (spades, hearts, clubs,
/// diamonds), rank by the second modulo 13 (ace through king).
pub open spec fn card_for_rolls(suit_roll: u64, rank_roll: u64) -> Card {
    plain_card(standard_suit((suit_roll % 4) as int), standard_rank((rank_roll % 13) as int))
}

/// The standard card picked by two draws.
pub fn standard_card_for(suit_roll: u64, rank_roll: u64) -> (c: Card)
    ensures
        c == card_for_rolls(suit_roll, rank_roll),
{
    let suit = suit_at((suit_roll % 4) as usize);
    let rank = rank_at((rank_roll % 13) as usize);
    Card::standard(suit, rank)
}

/// A random face-up standard card without modifiers: two draws from `rng`, the suit
/// from the first and the rank from the second.
pub fn random_standard_card(rng: &mut RngState) -> (c: Card)
    ensures
        exists|a: u64, b: u64| c == card_for_rolls(a, b),
        final(rng).spec_seed() == old(rng).spec_seed(),
{
    let a = rng.next_u64();
    let b = rng.next_u64();
    standard_card_for(a, b)
}

/// Sum of the weights `w[0..n]`.
pub open spec fn weight_sum(w: Seq<u32>, n: int) -> int
    decreases n,
{
    if n <= 0 {
        0
    } else {
        weight_sum(w, n - 1) + w[n - 1]
    }
}

/// The boss a draw `roll` picks from bosses weighted `w`: the first whose cumulative
/// weight exceeds `roll % total`; uniform by `roll % len` when every weight is zero.
pub open spec fn weighted_pick(w: Seq<u32>, roll: u64) -> int {
    let total = weight_sum(w, w.len() as int);
    if total == 0 {
        (roll as int) % (w.len() as int)
    } else {
        choose|i: int| 0 <= i < w.len() && #[trigger] weight_sum(w, i) <= (roll as int) % total < weight_sum(w, i + 1)
    }
}

proof fn lemma_weight_sum_monotone(w: Seq<u32>, i: int, j: int)
    requires
        0 <= i <= j <= w.len(),
    ensures
        weight_sum(w, i) <= weight_sum(w, j),
    decreases j - i,
{
    if i < j {
        lemma_weight_sum_monotone(w, i, j - 1);
    }
}

/// Index of the boss that the draw `roll` picks from bosses weighted `weights` (none when
/// there are no bosses).
pub fn pick_boss_index(weights: &Vec<u32>, roll: u64) -> (r: Option<usize>)
    requires
        weight_sum(weights@, weights@.len() as int) <= u64::MAX,
    ensures
        weights@.len() == 0 ==> r is None,
        weights@.len() > 0 ==> r == Some(weighted_pick(weights@, roll) as usize),
{
    let n = weights.len();
    if n == 0 {
        return None;
    }
    let mut total: u64 = 0;
    let mut i: usize = 0;
    while i < n
        invariant
            n == weights@.len(),
            i <= n,
            total == weight_sum(weights@, i as int),
            weight_sum(weights@, n as int) <= u64::MAX,
        decreases n - i,
    {
        proof {
            lemma_weight_sum_monotone(weights@, i + 1, n as int);
        }
        total = total + weights[i] as u64;
        i = i + 1;
    }
    if total == 0 {
        return Some((roll % (n as u64)) as usize);
    }
    let target = roll % total;
    let mut acc: u64 = 0;
    let mut k: usize = 0;
    while k < n
        invariant
            n == weights@.len(),
            k <= n,
            acc == weight_sum(weights@, k as int),
            total == weight_sum(weights@, n as int),
            target < total,
            target == roll % total,
            acc <= target,
        decreases n - k,
    {
        proof {
            lemma_weight_sum_monotone(weights@, k + 1, n as int);
        }
        let next = acc + weights[k] as u64;
        if target < next {
            proof {
                assert(weight_sum(weights@, k + 1) == weight_sum(weights@, k as int) + weights@[k as int]);
                assert(next == weight_sum(weights@, k + 1));
                assert(target == (roll as int) % (total as int));
                assert(weight_sum(weights@, k as int) <= (roll as int) % (total as int) < weight_sum(weights@, k + 1));
                let c = choose|c: int| 0 <= c < weights@.len() && #[trigger] weight_sum(weights@, c) <= (roll as int) % (total as int) < weight_sum(weights@, c + 1);
                if c < k {
                    lemma_weight_sum_monotone(weights@, c + 1, k as int);
                } else if c > k {
                    lemma_weight_sum_monotone(weights@, k + 1, c);
                }
            }
            return Some(k);
        }
        acc = next;
        k = k + 1;
    }
    proof {
        assert(false);
    }
    Some(n - 1)
}

/// A boss picked at random by weight (one draw from `rng` when there are bosses).
pub fn pick_boss(weights: &Vec<u32>, rng: &mut RngState) -> (r: Option<usize>)
    requires
        weight_sum(weights@, weights@.len() as int) <= u64::MAX,
    ensures
        weights@.len() == 0 ==> r is None && *final(rng) == *old(rng),
        weights@.len() > 0 ==> exists|roll: u64| r == Some(weighted_pick(weights@, roll) as usize),
        final(rng).spec_seed() == old(rng).spec_seed(),
{
    if weights.len() == 0 {
        return None;
    }
    let roll = rng.next_u64();
    pick_boss_index(weights, roll)
}

// ---------------------------------------------------------------------------
// Picking content by kind
// ---------------------------------------------------------------------------

/// Positions `i` (in order) whose item satisfies `p`.
pub open spec fn positions_where<T>(items: Seq<T>, p: spec_fn(T) -> bool) -> Seq<usize>
    decreases items.len(),
{
    if items.len() == 0 {
        Seq::empty()
    } else if p(items.last()) {
        positions_where(items.drop_last(), p).push((items.len() - 1) as usize)
    } else {
        positions_where(items.drop_last(), p)
    }
}

/// Positions of the jokers of the given rarity.
pub fn jokers_of_rarity(rarities: &Vec<JokerRarity>, rarity: JokerRarity) -> (out: Vec<usize>)
    ensures
        out@ == positions_where(rarities@, |r: JokerRarity| r == rarity),
{
    let mut out: Vec<usize> = Vec::new();
    let mut i: usize = 0;
    while i < rarities.len()
        invariant
            i <= rarities@.len(),
            out@ == positions_where(rarities@.subrange(0, i as int), |r: JokerRarity| r == rarity),
        decreases rarities.len() - i,
    {
        let ghost sub = rarities@.subrange(0, i + 1);
        assert(sub.drop_last() =~= rarities@.subrange(0, i as int));
        if rarities[i] == rarity {
            out.push(i);
        }
        i = i + 1;
    }
    assert(rarities@.subrange(0, rarities@.len() as int) =~= rarities@);
    out
}

/// A random joker of the given rarity, by position (none when there is none of it).
pub fn pick_joker(rarities: &Vec<JokerRarity>, rarity: JokerRarity, rng: &mut RngState) -> (r: Option<usize>)
    ensures
        positions_where(rarities@, |x: JokerRarity| x == rarity).len() == 0 ==> r is None,
        positions_where(rarities@, |x: JokerRarity| x == rarity).len() > 0 ==> r is Some
            && positions_where(rarities@, |x: JokerRarity| x == rarity).contains(r->0),
        final(rng).spec_seed() == old(rng).spec_seed(),
{
    let indices = jokers_of_rarity(rarities, rarity);
    pick_index(indices.as_slice(), rng)
}

/// A random consumable of a pool of `len`, by position.
pub fn pick_consumable(len: usize, rng: &mut RngState) -> (r: Option<usize>)
    ensures
        len == 0 ==> r is None,
        len > 0 ==> r is Some && r->0 < len,
        final(rng).spec_seed() == old(rng).spec_seed(),
{
    let mut indices: Vec<usize> = Vec::new();
    let mut i: usize = 0;
    while i < len
        invariant
            i <= len,
            indices@ == Seq::new(i as nat, |k: int| k as usize),
        decreases len - i,
    {
        indices.push(i);
        i = i + 1;
        assert(indices@ =~= Seq::new(i as nat, |k: int| k as usize));
    }
    let r = pick_index(indices.as_slice(), rng);
    proof {
        if r is Some {
            let k = choose|k: int| 0 <= k < indices@.len() && indices@[k] == r->0;
        }
    }
    r
}

/// Positions of the planets for the given hand.
pub fn planets_for(hands: &Vec<Option<HandKind>>, hand: HandKind) -> (out: Vec<usize>)
    ensures
        out@ == positions_where(hands@, |h: Option<HandKind>| h == Some(hand)),
{
    let mut out: Vec<usize> = Vec::new();
    let mut i: usize = 0;
    while i < hands.len()
        invariant
            i <= hands@.len(),
            out@ == positions_where(hands@.subrange(0, i as int), |h: Option<HandKind>| h == Some(hand)),
        decreases hands.len() - i,
    {
        let ghost sub = hands@.subrange(0, i + 1);
        assert(sub.drop_last() =~= hands@.subrange(0, i as int));
        let matches = match hands[i] {
            Some(h) => h == hand,
            None => false,
        };
        if matches {
            out.push(i);
        }
        i = i + 1;
    }
    assert(hands@.subrange(0, hands@.len() as int) =~= hands@);
    out
}

/// The planet for a played hand: a random one of those for the hand, or any random
/// planet when none is for it.
pub fn planet_for_hand(hands: &Vec<Option<HandKind>>, hand: HandKind, rng: &mut RngState) -> (r: Option<usize>)
    ensures
        positions_where(hands@, |h: Option<HandKind>| h == Some(hand)).len() > 0 ==> r is Some
            && positions_where(hands@, |h: Option<HandKind>| h == Some(hand)).contains(r->0),
        positions_where(hands@, |h: Option<HandKind>| h == Some(hand)).len() == 0 ==> (hands@.len() == 0
            <==> r is None) && (r is Some ==> r->0 < hands@.len()),
        final(rng).spec_seed() == old(rng).spec_seed(),
{
    let indices = planets_for(hands, hand);
    if indices.len() > 0 {
        return pick_index(indices.as_slice(), rng);
    }
    pick_consumable(hands.len(), rng)
}

/// Position of the first entry whose id is `id`.
pub fn position_by_id(ids: &Vec<String>, id: &str) -> (r: Option<usize>)
    ensures
        match r {
            Some(i) => i < ids@.len() && ids@[i as int]@ == id@ && forall|k: int| 0 <= k < i ==> ids@[k]@ != id@,
            None => forall|k: int| 0 <= k < ids@.len() ==> ids@[k]@ != id@,
        },
{
    let mut i: usize = 0;
    while i < ids.len()
        invariant
            i <= ids@.len(),
            forall|k: int| 0 <= k < i ==> ids@[k]@ != id@,
        decreases ids.len() - i,
    {
        if str_eq(ids[i].as_str(), id) {
            return Some(i);
        }
        i = i + 1;
    }
    None
}

} // verus!
