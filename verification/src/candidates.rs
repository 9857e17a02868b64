//! The candidate actions of the autoplayer: plays are rated from the score their cards are
//! expected to make, sorted best first, and cut to a short list that shows each kind of poker
//! hand once before it repeats one; discards are rated and cut the same way; the picks from
//! an open booster pack are those that fit the free slots.
use crate::autoplay::{law_stable_keys_injective, action_keys, spec_stable_key, dedup_from, can_afford, dedup_actions, dedup_of, combinations_from, enumerate_combinations, hand_kind_weight, spec_hand_kind_weight, views, AutoAction};
use crate::hand::HandKind;
use crate::run::{BlindKind, BlindOutcome, Phase};
use std::collections::HashSet;
use vstd::prelude::*;

verus! {

broadcast use {vstd::seq_lib::to_multiset_build, vstd::seq_lib::to_multiset_insert};

// ---------------------------------------------------------------------------
// Order of index lists
// ---------------------------------------------------------------------------

/// `a` sorts strictly before `b` in the lexicographic order of index lists, a proper prefix
/// first (the order of `Vec<usize>`).
pub open spec fn indices_lt(a: Seq<usize>, b: Seq<usize>) -> bool
    decreases a.len(),
{
    if a.len() == 0 {
        b.len() > 0
    } else if b.len() == 0 {
        false
    } else if a[0] != b[0] {
        a[0] < b[0]
    } else {
        indices_lt(a.drop_first(), b.drop_first())
    }
}

/// No index list sorts before itself.
pub proof fn lemma_indices_irreflexive(a: Seq<usize>)
    ensures
        !indices_lt(a, a),
    decreases a.len(),
{
    reveal_with_fuel(indices_lt, 2);
    if a.len() > 0 {
        lemma_indices_irreflexive(a.drop_first());
    }
}

/// The order of index lists is transitive.
pub proof fn lemma_indices_transitive(a: Seq<usize>, b: Seq<usize>, c: Seq<usize>)
    requires
        indices_lt(a, b),
        indices_lt(b, c),
    ensures
        indices_lt(a, c),
    decreases a.len(),
{
    reveal_with_fuel(indices_lt, 2);
    if a.len() > 0 && b.len() > 0 && c.len() > 0 && a[0] == b[0] && b[0] == c[0] {
        lemma_indices_transitive(a.drop_first(), b.drop_first(), c.drop_first());
    }
}

proof fn lemma_indices_skip(a: Seq<usize>, b: Seq<usize>, i: int)
    requires
        0 <= i < a.len(),
        i < b.len(),
        a[i] == b[i],
    ensures
        indices_lt(a.skip(i), b.skip(i)) == indices_lt(a.skip(i + 1), b.skip(i + 1)),
{
    reveal_with_fuel(indices_lt, 2);
    assert(a.skip(i).drop_first() =~= a.skip(i + 1));
    assert(b.skip(i).drop_first() =~= b.skip(i + 1));
}

/// Whether index list `a` sorts strictly before `b`.
fn indices_less(a: &Vec<usize>, b: &Vec<usize>) -> (r: bool)
    ensures
        r == indices_lt(a@, b@),
{
    reveal_with_fuel(indices_lt, 2);
    let mut i: usize = 0;
    assert(a@.skip(0) =~= a@);
    assert(b@.skip(0) =~= b@);
    while i < a.len() && i < b.len()
        invariant
            i <= a@.len(),
            i <= b@.len(),
            indices_lt(a@, b@) == indices_lt(a@.skip(i as int), b@.skip(i as int)),
        decreases a.len() - i,
    {
        let x = a[i];
        let y = b[i];
        if x != y {
            proof {
                assert(a@.skip(i as int)[0] == x);
                assert(b@.skip(i as int)[0] == y);
            }
            return x < y;
        }
        proof {
            lemma_indices_skip(a@, b@, i as int);
        }
        i = i + 1;
    }
    i < b.len()
}

/// Every combination of `k` indices from `lo..n` has `k` entries, each at least `lo`.
proof fn lemma_combination_bounds(lo: int, n: int, k: nat)
    requires
        0 <= lo,
        n <= usize::MAX + 1,
    ensures
        forall|i: int|
            0 <= i < combinations_from(lo, n, k).len() ==> (#[trigger] combinations_from(lo, n, k)[i]).len() == k
                && forall|t: int| 0 <= t < k ==> lo <= combinations_from(lo, n, k)[i][t],
    decreases k, n - lo,
{
    if k > 0 && lo + k <= n {
        lemma_combination_bounds(lo + 1, n, (k - 1) as nat);
        lemma_combination_bounds(lo + 1, n, k);
        let inner = combinations_from(lo + 1, n, (k - 1) as nat);
        let a = inner.map_values(|c: Seq<usize>| seq![lo as usize] + c);
        let b = combinations_from(lo + 1, n, k);
        let all = combinations_from(lo, n, k);
        assert(all == a + b);
        assert forall|i: int| 0 <= i < all.len() implies (#[trigger] all[i]).len() == k && forall|t: int|
            0 <= t < k ==> lo <= all[i][t] by {
            if i < a.len() {
                assert(all[i] == seq![lo as usize] + inner[i]);
                assert(inner[i].len() == k - 1);
                assert forall|t: int| 0 <= t < k implies lo <= all[i][t] by {
                    if t > 0 {
                        assert(all[i][t] == inner[i][t - 1]);
                        assert(lo + 1 <= inner[i][t - 1]);
                    } else {
                        assert(all[i][0] == lo as usize);
                    }
                }
            } else {
                assert(all[i] == b[i - a.len()]);
            }
        }
    }
}

/// Combinations come out in lexicographic order: each sorts strictly before the next.
pub proof fn law_combinations_ascending(lo: int, n: int, k: nat)
    requires
        0 <= lo,
        n <= usize::MAX + 1,
    ensures
        forall|i: int, j: int|
            0 <= i < j < combinations_from(lo, n, k).len() ==> indices_lt(
                #[trigger] combinations_from(lo, n, k)[i],
                #[trigger] combinations_from(lo, n, k)[j],
            ),
    decreases k, n - lo,
{
    if k > 0 && lo + k <= n {
        law_combinations_ascending(lo + 1, n, (k - 1) as nat);
        law_combinations_ascending(lo + 1, n, k);
        lemma_combination_bounds(lo + 1, n, k);
        let inner = combinations_from(lo + 1, n, (k - 1) as nat);
        let a = inner.map_values(|c: Seq<usize>| seq![lo as usize] + c);
        let b = combinations_from(lo + 1, n, k);
        let all = combinations_from(lo, n, k);
        assert(all == a + b);
        assert forall|i: int, j: int| 0 <= i < j < all.len() implies indices_lt(
            #[trigger] all[i],
            #[trigger] all[j],
        ) by {
            if j < a.len() {
                assert(indices_lt(inner[i], inner[j]));
                assert((seq![lo as usize] + inner[i]).drop_first() =~= inner[i]);
                assert((seq![lo as usize] + inner[j]).drop_first() =~= inner[j]);
                assert(all[i] == seq![lo as usize] + inner[i]);
                assert(all[j] == seq![lo as usize] + inner[j]);
            } else if i >= a.len() {
                assert(all[i] == b[i - a.len()]);
                assert(all[j] == b[j - a.len()]);
            } else {
                assert(all[i] == seq![lo as usize] + inner[i]);
                assert(all[j] == b[j - a.len()]);
                assert(b[j - a.len()].len() == k);
                assert(lo + 1 <= b[j - a.len()][0]);
                assert(all[i][0] == lo);
            }
        }
    }
}

// ---------------------------------------------------------------------------
// Rating a play
// ---------------------------------------------------------------------------

/// A play the autoplayer weighs: its rating, the score it is expected to add, the poker hand
/// it makes and the positions of its cards in the hand.
pub struct PlayCandidate {
    pub score: i64,
    pub expected_total: i64,
    pub hand: HandKind,
    pub indices: Vec<usize>,
}

/// Rating of a play: 100000 when its expected total covers the blind's deficit, plus twenty
/// times that total, ten times the weight of its poker hand and the value of its cards.
pub open spec fn spec_play_score(total: int, card_value: int, hand: HandKind, deficit: int) -> int {
    (if total >= deficit {
        100_000int
    } else {
        0int
    }) + total * 20 + spec_hand_kind_weight(hand) * 10 + card_value
}

/// The partial sums of a play's rating, in the order they are added, all fit in an `i64`.
pub open spec fn play_score_fits(total: int, card_value: int, hand: HandKind, deficit: int) -> bool {
    let bonus: int = if total >= deficit {
        100_000int
    } else {
        0int
    };
    &&& i64::MIN <= total * 20 <= i64::MAX
    &&& i64::MIN <= bonus + total * 20 <= i64::MAX
    &&& i64::MIN <= bonus + total * 20 + spec_hand_kind_weight(hand) * 10 <= i64::MAX
    &&& i64::MIN <= spec_play_score(total, card_value, hand, deficit) <= i64::MAX
}

/// Rate the play of the cards at `indices`, whose expected total is `expected_total`, whose
/// poker hand is `hand` and whose cards are worth `card_value`, against a blind that still
/// lacks `blind_deficit` chips.
pub fn play_candidate(
    indices: Vec<usize>,
    expected_total: i64,
    hand: HandKind,
    card_value: i64,
    blind_deficit: i64,
) -> (c: PlayCandidate)
    requires
        play_score_fits(expected_total as int, card_value as int, hand, blind_deficit as int),
    ensures
        c.score == spec_play_score(expected_total as int, card_value as int, hand, blind_deficit as int),
        c.expected_total == expected_total,
        c.hand == hand,
        c.indices@ == indices@,
{
    let finisher_bonus: i64 = if expected_total >= blind_deficit {
        100_000
    } else {
        0
    };
    let hand_bonus = hand_kind_weight(hand) * 10;
    let score = finisher_bonus + expected_total * 20 + hand_bonus + card_value;
    PlayCandidate { score, expected_total, hand, indices }
}

// ---------------------------------------------------------------------------
// Sorting plays
// ---------------------------------------------------------------------------

/// `a` is tried before `b`: the higher rating first, then the higher expected total, then
/// the stronger poker hand, then the smaller index list.
pub open spec fn play_before(a: PlayCandidate, b: PlayCandidate) -> bool {
    ||| a.score > b.score
    ||| (a.score == b.score && a.expected_total > b.expected_total)
    ||| (a.score == b.score && a.expected_total == b.expected_total && spec_hand_kind_weight(a.hand)
        > spec_hand_kind_weight(b.hand))
    ||| (a.score == b.score && a.expected_total == b.expected_total && spec_hand_kind_weight(a.hand)
        == spec_hand_kind_weight(b.hand) && indices_lt(a.indices@, b.indices@))
}

proof fn lemma_play_irreflexive(a: PlayCandidate)
    ensures
        !play_before(a, a),
{
    lemma_indices_irreflexive(a.indices@);
}

proof fn lemma_play_transitive(a: PlayCandidate, b: PlayCandidate, c: PlayCandidate)
    requires
        play_before(a, b),
        play_before(b, c),
    ensures
        play_before(a, c),
{
    if a.score == b.score && b.score == c.score && a.expected_total == b.expected_total
        && b.expected_total == c.expected_total && spec_hand_kind_weight(a.hand) == spec_hand_kind_weight(b.hand)
        && spec_hand_kind_weight(b.hand) == spec_hand_kind_weight(c.hand) {
        lemma_indices_transitive(a.indices@, b.indices@, c.indices@);
    }
}

fn play_less(a: &PlayCandidate, b: &PlayCandidate) -> (r: bool)
    ensures
        r == play_before(*a, *b),
{
    if a.score != b.score {
        return a.score > b.score;
    }
    if a.expected_total != b.expected_total {
        return a.expected_total > b.expected_total;
    }
    let wa = hand_kind_weight(a.hand);
    let wb = hand_kind_weight(b.hand);
    if wa != wb {
        return wa > wb;
    }
    indices_less(&a.indices, &b.indices)
}

/// No play of `s` is tried before an earlier one.
pub open spec fn play_sorted(s: Seq<PlayCandidate>) -> bool {
    forall|i: int, j: int| 0 <= i < j < s.len() ==> !play_before(#[trigger] s[j], #[trigger] s[i])
}

/// Inserting `a` at `p`, before the first play it is tried before, keeps the order.
proof fn lemma_play_insert(out: Seq<PlayCandidate>, a: PlayCandidate, p: int)
    requires
        play_sorted(out),
        0 <= p <= out.len(),
        forall|q: int| 0 <= q < p ==> !play_before(a, #[trigger] out[q]),
        p < out.len() ==> play_before(a, out[p]),
    ensures
        play_sorted(out.insert(p, a)),
{
    let next = out.insert(p, a);
    assert forall|q: int| p <= q < out.len() implies !play_before(#[trigger] out[q], a) by {
        if play_before(out[q], a) {
            lemma_play_transitive(out[q], a, out[p]);
            if q == p {
                lemma_play_irreflexive(out[p]);
            }
        }
    }
    assert forall|i: int, j: int| 0 <= i < j < next.len() implies !play_before(#[trigger] next[j], #[trigger] next[i]) by {
        if j < p {
            assert(!play_before(out[j], out[i]));
        } else if j == p {
            assert(!play_before(a, out[i]));
        } else if i < p {
            assert(!play_before(out[j - 1], out[i]));
        } else if i == p {
            assert(!play_before(out[j - 1], a));
        } else {
            assert(!play_before(out[j - 1], out[i - 1]));
        }
    }
}

/// The plays of `cands`, best first; plays that tie on every key keep their order.
fn sort_plays(cands: Vec<PlayCandidate>) -> (out: Vec<PlayCandidate>)
    ensures
        out@.to_multiset() == cands@.to_multiset(),
        play_sorted(out@),
{
    let ghost orig = cands@;
    let n = cands.len();
    let mut rest = cands;
    let mut out: Vec<PlayCandidate> = Vec::new();
    let mut i: usize = 0;
    assert(out@ =~= orig.take(0));
    while rest.len() > 0
        invariant
            orig.len() == n,
            i <= orig.len(),
            rest@ == orig.skip(i as int),
            out@.to_multiset() == orig.take(i as int).to_multiset(),
            play_sorted(out@),
        decreases rest.len(),
    {
        let a = rest.remove(0);
        assert(a == orig[i as int]);
        let mut p: usize = 0;
        let mut found = false;
        while p < out.len() && !found
            invariant
                p <= out.len(),
                forall|q: int| 0 <= q < p ==> !play_before(a, #[trigger] out@[q]),
                found ==> p < out.len() && play_before(a, out@[p as int]),
            decreases out.len() - p + (if found {
                0int
            } else {
                1int
            }),
        {
            if play_less(&a, &out[p]) {
                found = true;
            } else {
                p = p + 1;
            }
        }
        proof {
            lemma_play_insert(out@, a, p as int);
            assert(orig.take(i + 1) =~= orig.take(i as int).push(a));
            assert(orig.skip(i + 1) =~= orig.skip(i as int).remove(0));
        }
        out.insert(p, a);
        i = i + 1;
    }
    assert(orig.take(orig.len() as int) =~= orig);
    out
}


// ---------------------------------------------------------------------------
// Cutting the short list
// ---------------------------------------------------------------------------

/// The poker hands of the plays `p`.
pub open spec fn hands_of(p: Seq<PlayCandidate>) -> Seq<HandKind> {
    p.map_values(|c: PlayCandidate| c.hand)
}

/// The index lists of the plays `p`.
pub open spec fn indices_of(p: Seq<PlayCandidate>) -> Seq<Seq<usize>> {
    p.map_values(|c: PlayCandidate| c.indices@)
}

/// First round over the sorted plays `s`: the first play of each poker hand, in order, until
/// `n` are chosen.
pub open spec fn best_per_hand(s: Seq<PlayCandidate>, n: int) -> Seq<PlayCandidate>
    decreases s.len(),
{
    if s.len() == 0 {
        Seq::empty()
    } else {
        let prev = best_per_hand(s.drop_last(), n);
        if prev.len() < n && !hands_of(prev).contains(s.last().hand) {
            prev.push(s.last())
        } else {
            prev
        }
    }
}

/// Second round: after `start`, the index lists of the plays of `s` in order that are not
/// chosen yet, until `n` are chosen.
pub open spec fn fill_plays(s: Seq<PlayCandidate>, start: Seq<Seq<usize>>, n: int) -> Seq<Seq<usize>>
    decreases s.len(),
{
    if s.len() == 0 {
        start
    } else {
        let prev = fill_plays(s.drop_last(), start, n);
        if prev.len() < n && !prev.contains(s.last().indices@) {
            prev.push(s.last().indices@)
        } else {
            prev
        }
    }
}

/// The index lists offered from the sorted plays `s`, at most `n` of them: one per poker hand
/// first, then the best of the rest.
pub open spec fn play_selection(s: Seq<PlayCandidate>, n: int) -> Seq<Seq<usize>> {
    fill_plays(s, indices_of(best_per_hand(s, n)), n)
}

/// `out` plays the index lists of `r`, in order.
pub open spec fn plays_of(out: Seq<AutoAction>, r: Seq<Seq<usize>>) -> bool {
    &&& out.len() == r.len()
    &&& forall|i: int|
        0 <= i < out.len() ==> (#[trigger] out[i] matches AutoAction::Play { indices } && indices@ == r[i])
}

fn same_indices(a: &Vec<usize>, b: &Vec<usize>) -> (r: bool)
    ensures
        r == (a@ == b@),
{
    if a.len() != b.len() {
        return false;
    }
    let mut i: usize = 0;
    while i < a.len()
        invariant
            a@.len() == b@.len(),
            i <= a@.len(),
            forall|k: int| 0 <= k < i ==> a@[k] == b@[k],
        decreases a.len() - i,
    {
        if a[i] != b[i] {
            return false;
        }
        i = i + 1;
    }
    assert(a@ =~= b@);
    true
}

/// Distinct poker hands have distinct weights, so a set of weights stands for a set of hands.
proof fn lemma_weight_injective(a: HandKind, b: HandKind)
    ensures
        spec_hand_kind_weight(a) == spec_hand_kind_weight(b) ==> a == b,
{
}

/// A hand is in a list with one more entry exactly when it is that entry or was in the list.
proof fn lemma_push_contains(l: Seq<HandKind>, x: HandKind, h: HandKind)
    ensures
        l.push(x).contains(h) <==> (l.contains(h) || h == x),
{
    if h == x {
        assert(l.push(x)[l.len() as int] == x);
    }
    if l.contains(h) {
        let k = choose|k: int| 0 <= k < l.len() && l[k] == h;
        assert(l.push(x)[k] == h);
    }
    if l.push(x).contains(h) && h != x {
        let k = choose|k: int| 0 <= k < l.len() + 1 && l.push(x)[k] == h;
        assert(l[k] == h);
    }
}

fn indices_in(picked: &Vec<Vec<usize>>, x: &Vec<usize>) -> (r: bool)
    ensures
        r == views(picked@).contains(x@),
{
    let mut i: usize = 0;
    while i < picked.len()
        invariant
            i <= picked@.len(),
            forall|k: int| 0 <= k < i ==> views(picked@)[k] != x@,
        decreases picked.len() - i,
    {
        if same_indices(&picked[i], x) {
            assert(views(picked@)[i as int] == x@);
            return true;
        }
        i = i + 1;
    }
    false
}

/// The plays the autoplayer offers from `candidates`: sorted best first, then the first play
/// of each poker hand, then the best remaining plays, `cap` in all (at least one).
pub fn select_play_actions(candidates: Vec<PlayCandidate>, cap: usize) -> (out: Vec<AutoAction>)
    ensures
        exists|s: Seq<PlayCandidate>|
            s.to_multiset() == candidates@.to_multiset() && play_sorted(s) && plays_of(
                out@,
                play_selection(s, if cap < 1 { 1 } else { cap as int }),
            ),
{
    let sorted = sort_plays(candidates);
    let ghost s = sorted@;
    let n: usize = if cap < 1 {
        1
    } else {
        cap
    };
    let mut seen: HashSet<i64> = HashSet::new();
    let mut picked: Vec<Vec<usize>> = Vec::new();
    let mut i: usize = 0;
    assert(s.take(0) =~= Seq::<PlayCandidate>::empty());
    assert(hands_of(best_per_hand(s.take(0), n as int)) =~= Seq::<HandKind>::empty());
    assert(views(picked@) =~= indices_of(best_per_hand(s.take(0), n as int)));
    while i < sorted.len()
        invariant
            s == sorted@,
            i <= s.len(),
            forall|h: HandKind|
                #[trigger] seen@.contains(spec_hand_kind_weight(h)) <==> hands_of(
                    best_per_hand(s.take(i as int), n as int),
                ).contains(h),
            views(picked@) == indices_of(best_per_hand(s.take(i as int), n as int)),
        decreases sorted.len() - i,
    {
        let ghost prev = best_per_hand(s.take(i as int), n as int);
        assert(s.take(i + 1).drop_last() =~= s.take(i as int));
        assert(s.take(i + 1).last() == s[i as int]);
        let c = &sorted[i];
        let weight = hand_kind_weight(c.hand);
        let taken = seen.contains(&weight);
        assert(taken == hands_of(prev).contains(c.hand));
        if picked.len() < n && !taken {
            let ghost before = picked@;
            let ghost old_seen = seen@;
            seen.insert(weight);
            assert(hands_of(prev.push(s[i as int])) =~= hands_of(prev).push(c.hand));
            assert forall|h: HandKind|
                #[trigger] seen@.contains(spec_hand_kind_weight(h)) <==> hands_of(prev.push(s[i as int])).contains(h) by {
                lemma_weight_injective(h, c.hand);
                lemma_push_contains(hands_of(prev), c.hand, h);
                assert(old_seen.contains(spec_hand_kind_weight(h)) <==> hands_of(prev).contains(h));
            }
            let copy = c.indices.clone();
            assert(copy@ =~= c.indices@);
            picked.push(copy);
            assert(picked@ == before.push(copy));
            assert(views(picked@) =~= views(before).push(copy@));
            assert(views(picked@) =~= indices_of(prev.push(s[i as int])));
        }
        i = i + 1;
    }
    assert(s.take(s.len() as int) =~= s);
    let ghost start = views(picked@);
    let mut j: usize = 0;
    assert(s.take(0) =~= Seq::<PlayCandidate>::empty());
    while j < sorted.len()
        invariant
            s == sorted@,
            j <= s.len(),
            views(picked@) == fill_plays(s.take(j as int), start, n as int),
        decreases sorted.len() - j,
    {
        let ghost prev = fill_plays(s.take(j as int), start, n as int);
        assert(s.take(j + 1).drop_last() =~= s.take(j as int));
        assert(s.take(j + 1).last() == s[j as int]);
        let c = &sorted[j];
        let seen = indices_in(&picked, &c.indices);
        if picked.len() < n && !seen {
            let ghost before = picked@;
            let copy = c.indices.clone();
            assert(copy@ =~= c.indices@);
            picked.push(copy);
            assert(picked@ == before.push(copy));
            assert(views(picked@) =~= views(before).push(copy@));
            assert(views(picked@) =~= prev.push(s[j as int].indices@));
        }
        j = j + 1;
    }
    let mut out: Vec<AutoAction> = Vec::new();
    let mut k: usize = 0;
    while k < picked.len()
        invariant
            k <= picked@.len(),
            out@.len() == k,
            forall|q: int|
                0 <= q < k ==> (#[trigger] out@[q] matches AutoAction::Play { indices } && indices@
                    == views(picked@)[q]),
        decreases picked.len() - k,
    {
        let copy = picked[k].clone();
        assert(copy@ =~= picked@[k as int]@);
        out.push(AutoAction::Play { indices: copy });
        k = k + 1;
    }
    assert(plays_of(out@, play_selection(s, n as int)));
    out
}


/// No two plays of `s` use the same index list.
pub open spec fn distinct_plays(s: Seq<PlayCandidate>) -> bool {
    forall|i: int, j: int| 0 <= i < j < s.len() ==> (#[trigger] s[i]).indices@ != (#[trigger] s[j]).indices@
}

proof fn lemma_best_per_hand(s: Seq<PlayCandidate>, n: int)
    requires
        n >= 0,
        distinct_plays(s),
    ensures
        indices_of(best_per_hand(s, n)).no_duplicates(),
        best_per_hand(s, n).len() <= n,
        forall|x: Seq<usize>| #[trigger]
            indices_of(best_per_hand(s, n)).contains(x) ==> indices_of(s).contains(x),
    decreases s.len(),
{
    if s.len() > 0 {
        let d = s.drop_last();
        assert(distinct_plays(d)) by {
            assert forall|i: int, j: int| 0 <= i < j < d.len() implies (#[trigger] d[i]).indices@
                != (#[trigger] d[j]).indices@ by {
                assert(d[i] == s[i] && d[j] == s[j]);
            }
        }
        lemma_best_per_hand(d, n);
        let prev = best_per_hand(d, n);
        let last = s.last();
        assert forall|x: Seq<usize>| #[trigger] indices_of(d).contains(x) implies indices_of(s).contains(
            x,
        ) by {
            let k = choose|k: int| 0 <= k < indices_of(d).len() && indices_of(d)[k] == x;
            assert(indices_of(s)[k] == x);
        }
        assert(indices_of(s)[s.len() - 1] == last.indices@);
        if prev.len() < n && !hands_of(prev).contains(last.hand) {
            let b = indices_of(prev.push(last));
            assert(b =~= indices_of(prev).push(last.indices@));
            assert(!indices_of(prev).contains(last.indices@)) by {
                if indices_of(prev).contains(last.indices@) {
                    assert(indices_of(d).contains(last.indices@));
                    let k = choose|k: int| 0 <= k < indices_of(d).len() && indices_of(d)[k] == last.indices@;
                    assert(s[k].indices@ == s[s.len() - 1].indices@);
                }
            }
            assert forall|x: Seq<usize>| #[trigger] b.contains(x) implies indices_of(s).contains(x) by {
                let k = choose|k: int| 0 <= k < b.len() && b[k] == x;
                if k < b.len() - 1 {
                    assert(indices_of(prev).contains(x));
                }
            }
        }
    }
}

proof fn lemma_fill_plays(s: Seq<PlayCandidate>, start: Seq<Seq<usize>>, n: int)
    requires
        start.no_duplicates(),
        start.len() <= n,
    ensures
        fill_plays(s, start, n).no_duplicates(),
        fill_plays(s, start, n).len() <= n,
        forall|x: Seq<usize>| #[trigger]
            fill_plays(s, start, n).contains(x) ==> start.contains(x) || indices_of(s).contains(x),
        fill_plays(s, start, n).len() == n || forall|j: int|
            0 <= j < s.len() ==> fill_plays(s, start, n).contains(#[trigger] s[j].indices@),
    decreases s.len(),
{
    if s.len() > 0 {
        let d = s.drop_last();
        lemma_fill_plays(d, start, n);
        let prev = fill_plays(d, start, n);
        let last = s.last();
        assert forall|x: Seq<usize>| #[trigger] indices_of(d).contains(x) implies indices_of(s).contains(
            x,
        ) by {
            let k = choose|k: int| 0 <= k < indices_of(d).len() && indices_of(d)[k] == x;
            assert(indices_of(s)[k] == x);
        }
        assert(indices_of(s)[s.len() - 1] == last.indices@);
        if prev.len() < n && !prev.contains(last.indices@) {
            let r = prev.push(last.indices@);
            assert forall|x: Seq<usize>| #[trigger] r.contains(x) implies start.contains(x)
                || indices_of(s).contains(x) by {
                let k = choose|k: int| 0 <= k < r.len() && r[k] == x;
                if k < r.len() - 1 {
                    assert(prev.contains(x));
                }
            }
            assert forall|j: int| 0 <= j < s.len() implies r.contains(#[trigger] s[j].indices@) by {
                if j < s.len() - 1 {
                    assert(d[j] == s[j]);
                    let k = choose|k: int| 0 <= k < prev.len() && prev[k] == d[j].indices@;
                    assert(r[k] == s[j].indices@);
                } else {
                    assert(r[r.len() - 1] == s[j].indices@);
                }
            }
        } else if prev.len() < n {
            assert forall|j: int| 0 <= j < s.len() implies prev.contains(#[trigger] s[j].indices@) by {
                if j < s.len() - 1 {
                    assert(d[j] == s[j]);
                }
            }
        }
    }
}

/// When no two plays share an index list, the short list offers as many plays as the cap
/// allows, or all of them when there are fewer, and never the same cards twice.
pub proof fn law_play_selection_size(s: Seq<PlayCandidate>, n: int)
    requires
        n >= 1,
        distinct_plays(s),
    ensures
        play_selection(s, n).no_duplicates(),
        play_selection(s, n).len() == if s.len() < n {
            s.len() as int
        } else {
            n
        },
{
    lemma_best_per_hand(s, n);
    let start = indices_of(best_per_hand(s, n));
    lemma_fill_plays(s, start, n);
    let r = play_selection(s, n);
    let all = indices_of(s);
    assert(r.to_set().subset_of(all.to_set())) by {
        assert forall|x: Seq<usize>| r.to_set().contains(x) implies all.to_set().contains(x) by {
            assert(r.contains(x));
            if start.contains(x) {
                assert(indices_of(best_per_hand(s, n)).contains(x));
            }
        }
    }
    r.unique_seq_to_set();
    all.lemma_cardinality_of_set();
    vstd::seq_lib::seq_to_set_is_finite(all);
    vstd::set_lib::lemma_len_subset(r.to_set(), all.to_set());
    if r.len() < n {
        assert(all.no_duplicates()) by {
            assert forall|i: int, j: int| 0 <= i < all.len() && 0 <= j < all.len() && i != j implies all[i]
                != all[j] by {
                if i < j {
                    assert(s[i].indices@ != s[j].indices@);
                } else {
                    assert(s[j].indices@ != s[i].indices@);
                }
            }
        }
        assert(r.to_set() =~= all.to_set()) by {
            assert forall|x: Seq<usize>| all.to_set().contains(x) implies r.to_set().contains(x) by {
                assert(all.contains(x));
                let k = choose|k: int| 0 <= k < all.len() && all[k] == x;
                assert(r.contains(s[k].indices@));
            }
        }
        all.unique_seq_to_set();
    }
}

// ---------------------------------------------------------------------------
// Discards
// ---------------------------------------------------------------------------

/// A discard the autoplayer weighs: its rating and the positions of the cards it throws away.
pub struct DiscardCandidate {
    pub score: i64,
    pub indices: Vec<usize>,
}

/// Rating of a discard: ten times the potential of the cards kept, less the value of the
/// cards thrown away.
pub fn discard_candidate(indices: Vec<usize>, keep_potential: i64, discard_value: i64) -> (c: DiscardCandidate)
    requires
        i64::MIN <= keep_potential * 10 <= i64::MAX,
        i64::MIN <= keep_potential * 10 - discard_value <= i64::MAX,
    ensures
        c.score == keep_potential * 10 - discard_value,
        c.indices@ == indices@,
{
    DiscardCandidate { score: keep_potential * 10 - discard_value, indices }
}

/// `a` is tried before `b`: the higher rating first, then the fewer cards, then the smaller
/// index list.
pub open spec fn discard_before(a: DiscardCandidate, b: DiscardCandidate) -> bool {
    ||| a.score > b.score
    ||| (a.score == b.score && a.indices@.len() < b.indices@.len())
    ||| (a.score == b.score && a.indices@.len() == b.indices@.len() && indices_lt(a.indices@, b.indices@))
}

proof fn lemma_discard_irreflexive(a: DiscardCandidate)
    ensures
        !discard_before(a, a),
{
    lemma_indices_irreflexive(a.indices@);
}

proof fn lemma_discard_transitive(a: DiscardCandidate, b: DiscardCandidate, c: DiscardCandidate)
    requires
        discard_before(a, b),
        discard_before(b, c),
    ensures
        discard_before(a, c),
{
    if a.score == b.score && b.score == c.score && a.indices@.len() == b.indices@.len() && b.indices@.len()
        == c.indices@.len() {
        lemma_indices_transitive(a.indices@, b.indices@, c.indices@);
    }
}

fn discard_less(a: &DiscardCandidate, b: &DiscardCandidate) -> (r: bool)
    ensures
        r == discard_before(*a, *b),
{
    if a.score != b.score {
        return a.score > b.score;
    }
    if a.indices.len() != b.indices.len() {
        return a.indices.len() < b.indices.len();
    }
    indices_less(&a.indices, &b.indices)
}

/// No discard of `s` is tried before an earlier one.
pub open spec fn discard_sorted(s: Seq<DiscardCandidate>) -> bool {
    forall|i: int, j: int| 0 <= i < j < s.len() ==> !discard_before(#[trigger] s[j], #[trigger] s[i])
}

proof fn lemma_discard_insert(out: Seq<DiscardCandidate>, a: DiscardCandidate, p: int)
    requires
        discard_sorted(out),
        0 <= p <= out.len(),
        forall|q: int| 0 <= q < p ==> !discard_before(a, #[trigger] out[q]),
        p < out.len() ==> discard_before(a, out[p]),
    ensures
        discard_sorted(out.insert(p, a)),
{
    let next = out.insert(p, a);
    assert forall|q: int| p <= q < out.len() implies !discard_before(#[trigger] out[q], a) by {
        if discard_before(out[q], a) {
            lemma_discard_transitive(out[q], a, out[p]);
            if q == p {
                lemma_discard_irreflexive(out[p]);
            }
        }
    }
    assert forall|i: int, j: int| 0 <= i < j < next.len() implies !discard_before(
        #[trigger] next[j],
        #[trigger] next[i],
    ) by {
        if j < p {
            assert(!discard_before(out[j], out[i]));
        } else if j == p {
            assert(!discard_before(a, out[i]));
        } else if i < p {
            assert(!discard_before(out[j - 1], out[i]));
        } else if i == p {
            assert(!discard_before(out[j - 1], a));
        } else {
            assert(!discard_before(out[j - 1], out[i - 1]));
        }
    }
}

fn sort_discards(cands: Vec<DiscardCandidate>) -> (out: Vec<DiscardCandidate>)
    ensures
        out@.to_multiset() == cands@.to_multiset(),
        discard_sorted(out@),
{
    let ghost orig = cands@;
    let n = cands.len();
    let mut rest = cands;
    let mut out: Vec<DiscardCandidate> = Vec::new();
    let mut i: usize = 0;
    assert(out@ =~= orig.take(0));
    while rest.len() > 0
        invariant
            orig.len() == n,
            i <= orig.len(),
            rest@ == orig.skip(i as int),
            out@.to_multiset() == orig.take(i as int).to_multiset(),
            discard_sorted(out@),
        decreases rest.len(),
    {
        let a = rest.remove(0);
        assert(a == orig[i as int]);
        let mut p: usize = 0;
        let mut found = false;
        while p < out.len() && !found
            invariant
                p <= out.len(),
                forall|q: int| 0 <= q < p ==> !discard_before(a, #[trigger] out@[q]),
                found ==> p < out.len() && discard_before(a, out@[p as int]),
            decreases out.len() - p + (if found {
                0int
            } else {
                1int
            }),
        {
            if discard_less(&a, &out[p]) {
                found = true;
            } else {
                p = p + 1;
            }
        }
        proof {
            lemma_discard_insert(out@, a, p as int);
            assert(orig.take(i + 1) =~= orig.take(i as int).push(a));
            assert(orig.skip(i + 1) =~= orig.skip(i as int).remove(0));
        }
        out.insert(p, a);
        i = i + 1;
    }
    assert(orig.take(orig.len() as int) =~= orig);
    out
}

/// `out` discards the index lists of the first `n` discards of `s` (all of them when there
/// are fewer), in order.
pub open spec fn discards_of(out: Seq<AutoAction>, s: Seq<DiscardCandidate>, n: int) -> bool {
    &&& out.len() == (if s.len() < n {
        s.len() as int
    } else {
        n
    })
    &&& forall|i: int|
        0 <= i < out.len() ==> (#[trigger] out[i] matches AutoAction::Discard { indices } && indices@
            == s[i].indices@)
}

/// The discards the autoplayer offers from `candidates`: the `cap` best (at least one), best
/// first.
pub fn select_discard_actions(candidates: Vec<DiscardCandidate>, cap: usize) -> (out: Vec<AutoAction>)
    ensures
        exists|s: Seq<DiscardCandidate>|
            s.to_multiset() == candidates@.to_multiset() && discard_sorted(s) && discards_of(
                out@,
                s,
                if cap < 1 { 1 } else { cap as int },
            ),
{
    let sorted = sort_discards(candidates);
    let n: usize = if cap < 1 {
        1
    } else {
        cap
    };
    let mut out: Vec<AutoAction> = Vec::new();
    let mut k: usize = 0;
    while k < sorted.len() && k < n
        invariant
            k <= sorted@.len(),
            k <= n,
            out@.len() == k,
            forall|q: int|
                0 <= q < k ==> (#[trigger] out@[q] matches AutoAction::Discard { indices } && indices@
                    == sorted@[q].indices@),
        decreases sorted.len() - k,
    {
        let copy = sorted[k].indices.clone();
        assert(copy@ =~= sorted@[k as int].indices@);
        out.push(AutoAction::Discard { indices: copy });
        k = k + 1;
    }
    out
}


// ---------------------------------------------------------------------------
// Picks from an open pack
// ---------------------------------------------------------------------------

/// What an option of an open booster pack would add: a joker, a consumable or a playing card.
#[derive(Debug, Clone, Copy, PartialEq, Eq, Structural)]
pub enum PackChoice {
    Joker,
    Consumable,
    PlayingCard,
}

/// How many of `indices` name an option of kind `k`.
pub open spec fn kind_count(options: Seq<PackChoice>, indices: Seq<usize>, k: PackChoice) -> nat
    decreases indices.len(),
{
    if indices.len() == 0 {
        0
    } else {
        kind_count(options, indices.drop_last(), k) + if options[indices.last() as int] == k {
            1nat
        } else {
            0nat
        }
    }
}

/// The options at `indices` exist and their jokers and consumables fit the free slots.
pub open spec fn spec_can_pick(
    options: Seq<PackChoice>,
    indices: Seq<usize>,
    joker_free: usize,
    consumable_free: usize,
) -> bool {
    &&& forall|i: int| 0 <= i < indices.len() ==> #[trigger] indices[i] < options.len()
    &&& kind_count(options, indices, PackChoice::Joker) <= joker_free
    &&& kind_count(options, indices, PackChoice::Consumable) <= consumable_free
}

/// Whether the options at `indices` can all be taken with the free joker and consumable slots.
pub fn can_pick_pack_indices(
    options: &Vec<PackChoice>,
    indices: &Vec<usize>,
    joker_free_slots: usize,
    consumable_free_slots: usize,
) -> (b: bool)
    ensures
        b == spec_can_pick(options@, indices@, joker_free_slots, consumable_free_slots),
{
    let mut jokers: usize = 0;
    let mut consumables: usize = 0;
    let mut i: usize = 0;
    while i < indices.len()
        invariant
            i <= indices@.len(),
            forall|q: int| 0 <= q < i ==> #[trigger] indices@[q] < options@.len(),
            jokers == kind_count(options@, indices@.take(i as int), PackChoice::Joker),
            consumables == kind_count(options@, indices@.take(i as int), PackChoice::Consumable),
            jokers + consumables <= i,
        decreases indices.len() - i,
    {
        let idx = indices[i];
        assert(indices@.take(i + 1).drop_last() =~= indices@.take(i as int));
        assert(indices@.take(i + 1).last() == idx);
        if idx >= options.len() {
            return false;
        }
        match options[idx] {
            PackChoice::Joker => {
                jokers = jokers + 1;
            },
            PackChoice::Consumable => {
                consumables = consumables + 1;
            },
            PackChoice::PlayingCard => {},
        }
        i = i + 1;
    }
    assert(indices@.take(indices@.len() as int) =~= indices@);
    jokers <= joker_free_slots && consumables <= consumable_free_slots
}

/// Every combination of `1..=m` indices out of `0..n`, shortest first, each size in
/// lexicographic order.
pub open spec fn combinations_upto(n: int, m: nat) -> Seq<Seq<usize>>
    decreases m,
{
    if m == 0 {
        Seq::empty()
    } else {
        combinations_upto(n, (m - 1) as nat) + combinations_from(0, n, m)
    }
}

/// No index list of `s` sorts before an earlier one.
pub open spec fn lists_sorted(s: Seq<Seq<usize>>) -> bool {
    forall|i: int, j: int| 0 <= i < j < s.len() ==> !indices_lt(#[trigger] s[j], #[trigger] s[i])
}

proof fn lemma_list_insert(out: Seq<Seq<usize>>, a: Seq<usize>, p: int)
    requires
        lists_sorted(out),
        0 <= p <= out.len(),
        forall|q: int| 0 <= q < p ==> !indices_lt(a, #[trigger] out[q]),
        p < out.len() ==> indices_lt(a, out[p]),
    ensures
        lists_sorted(out.insert(p, a)),
{
    let next = out.insert(p, a);
    assert forall|q: int| p <= q < out.len() implies !indices_lt(#[trigger] out[q], a) by {
        if indices_lt(out[q], a) {
            lemma_indices_transitive(out[q], a, out[p]);
            if q == p {
                lemma_indices_irreflexive(out[p]);
            }
        }
    }
    assert forall|i: int, j: int| 0 <= i < j < next.len() implies !indices_lt(#[trigger] next[j], #[trigger] next[i]) by {
        if j < p {
            assert(!indices_lt(out[j], out[i]));
        } else if j == p {
            assert(!indices_lt(a, out[i]));
        } else if i < p {
            assert(!indices_lt(out[j - 1], out[i]));
        } else if i == p {
            assert(!indices_lt(out[j - 1], a));
        } else {
            assert(!indices_lt(out[j - 1], out[i - 1]));
        }
    }
}

fn sort_index_lists(lists: Vec<Vec<usize>>) -> (out: Vec<Vec<usize>>)
    ensures
        views(out@).to_multiset() == views(lists@).to_multiset(),
        lists_sorted(views(out@)),
{
    let ghost orig = views(lists@);
    let n = lists.len();
    let mut rest = lists;
    let mut out: Vec<Vec<usize>> = Vec::new();
    let mut i: usize = 0;
    assert(views(out@) =~= orig.take(0));
    assert(views(rest@) =~= orig.skip(0));
    while rest.len() > 0
        invariant
            orig.len() == n,
            i <= orig.len(),
            views(rest@) == orig.skip(i as int),
            views(out@).to_multiset() == orig.take(i as int).to_multiset(),
            lists_sorted(views(out@)),
        decreases rest.len(),
    {
        let ghost rest_before = rest@;
        assert(views(rest_before).len() == rest_before.len());
        assert(i < orig.len());
        let a = rest.remove(0);
        assert(views(rest_before)[0] == a@);
        assert(orig.skip(i as int)[0] == orig[i as int]);
        assert(a@ == orig[i as int]);
        let mut p: usize = 0;
        let mut found = false;
        while p < out.len() && !found
            invariant
                p <= out.len(),
                forall|q: int| 0 <= q < p ==> !indices_lt(a@, #[trigger] views(out@)[q]),
                found ==> p < out.len() && indices_lt(a@, views(out@)[p as int]),
            decreases out.len() - p + (if found {
                0int
            } else {
                1int
            }),
        {
            if indices_less(&a, &out[p]) {
                found = true;
            } else {
                p = p + 1;
            }
        }
        let ghost before = views(out@);
        proof {
            lemma_list_insert(before, a@, p as int);
            assert(orig.take(i + 1) =~= orig.take(i as int).push(a@));
            assert(rest@ == rest_before.remove(0));
            assert forall|t: int| 0 <= t < views(rest@).len() implies views(rest@)[t] == orig.skip(i + 1)[t] by {
                assert(rest@[t] == rest_before[t + 1]);
                assert(views(rest_before)[t + 1] == orig.skip(i as int)[t + 1]);
            }
            assert(views(rest@) =~= orig.skip(i + 1));
        }
        out.insert(p, a);
        assert(views(out@) =~= before.insert(p as int, a@));
        i = i + 1;
    }
    assert(orig.take(orig.len() as int) =~= orig);
    out
}

/// Running over the sorted index lists `s`: those that can be picked, in order, at most
/// `limit` of them.
pub open spec fn pack_picks(
    s: Seq<Seq<usize>>,
    options: Seq<PackChoice>,
    joker_free: usize,
    consumable_free: usize,
    limit: int,
) -> Seq<Seq<usize>>
    decreases s.len(),
{
    if s.len() == 0 {
        Seq::empty()
    } else {
        let prev = pack_picks(s.drop_last(), options, joker_free, consumable_free, limit);
        if prev.len() < limit && spec_can_pick(options, s.last(), joker_free, consumable_free) {
            prev.push(s.last())
        } else {
            prev
        }
    }
}

/// How many picks are offered under `cap`: `cap` (at least one), one fewer at `usize::MAX`.
pub open spec fn pick_limit(cap: usize) -> int {
    if cap < 1 {
        1
    } else if cap == usize::MAX {
        usize::MAX - 1
    } else {
        cap as int
    }
}

/// The combinations of options a pack of `n` options with `picks` picks (at least one)
/// allows: up to that many options, and no more than there are.
pub open spec fn pack_combinations(n: int, picks: u8) -> Seq<Seq<usize>> {
    let m: int = if picks < 1 {
        1
    } else {
        picks as int
    };
    combinations_upto(n, (if m < n {
        m
    } else {
        n
    }) as nat)
}

/// `out` skips the pack, then picks the index lists of `picks` in order.
pub open spec fn pack_actions_of(out: Seq<AutoAction>, picks: Seq<Seq<usize>>) -> bool {
    &&& out.len() == picks.len() + 1
    &&& out[0] is SkipPack
    &&& forall|i: int|
        1 <= i < out.len() ==> (#[trigger] out[i] matches AutoAction::PickPack { indices } && indices@
            == picks[i - 1])
}

/// The actions at an open booster pack with the given options, of which `picks` may be taken
/// (at least one): skip the pack, or pick one of the combinations of up to that many options
/// that fit the free slots, tried in lexicographic order, `cap` of them (at least one).
pub fn legal_pack_actions(
    options: &Vec<PackChoice>,
    picks: u8,
    cap: usize,
    joker_free_slots: usize,
    consumable_free_slots: usize,
) -> (out: Vec<AutoAction>)
    ensures
        exists|s: Seq<Seq<usize>>|
            s.to_multiset() == pack_combinations(options@.len() as int, picks).to_multiset() && lists_sorted(s)
                && pack_actions_of(
                out@,
                pack_picks(s, options@, joker_free_slots, consumable_free_slots, pick_limit(cap)),
            ),
{
    let max_pick: usize = if picks < 1 {
        1
    } else {
        picks as usize
    };
    let k: usize = if max_pick < options.len() {
        max_pick
    } else {
        options.len()
    };
    let mut combos: Vec<Vec<usize>> = Vec::new();
    let mut done: usize = 0;
    assert(views(combos@) =~= combinations_upto(options@.len() as int, 0));
    while done < k
        invariant
            done <= k,
            k <= options@.len(),
            views(combos@) == combinations_upto(options@.len() as int, done as nat),
        decreases k - done,
    {
        enumerate_combinations(options.len(), done + 1, &mut combos);
        done = done + 1;
    }
    let sorted = sort_index_lists(combos);
    let ghost s = views(sorted@);
    let limit: usize = if cap < 1 {
        1
    } else if cap == usize::MAX {
        usize::MAX - 1
    } else {
        cap
    };
    let mut picked: Vec<Vec<usize>> = Vec::new();
    let mut i: usize = 0;
    assert(s.take(0) =~= Seq::<Seq<usize>>::empty());
    assert(views(picked@) =~= Seq::<Seq<usize>>::empty());
    while i < sorted.len()
        invariant
            s == views(sorted@),
            i <= s.len(),
            limit == pick_limit(cap),
            views(picked@) == pack_picks(
                s.take(i as int),
                options@,
                joker_free_slots,
                consumable_free_slots,
                limit as int,
            ),
        decreases sorted.len() - i,
    {
        let ghost prev = views(picked@);
        assert(s.take(i + 1).drop_last() =~= s.take(i as int));
        assert(s.take(i + 1).last() == sorted@[i as int]@);
        if picked.len() < limit && can_pick_pack_indices(
            options,
            &sorted[i],
            joker_free_slots,
            consumable_free_slots,
        ) {
            let ghost before = picked@;
            let copy = sorted[i].clone();
            assert(copy@ =~= sorted@[i as int]@);
            picked.push(copy);
            assert(views(picked@) =~= views(before).push(copy@));
        }
        i = i + 1;
    }
    assert(s.take(s.len() as int) =~= s);
    let mut out: Vec<AutoAction> = Vec::new();
    out.push(AutoAction::SkipPack);
    let mut q: usize = 0;
    while q < picked.len()
        invariant
            q <= picked@.len(),
            out@.len() == q + 1,
            out@[0] is SkipPack,
            forall|t: int|
                1 <= t < out@.len() ==> (#[trigger] out@[t] matches AutoAction::PickPack { indices }
                    && indices@ == views(picked@)[t - 1]),
        decreases picked.len() - q,
    {
        let copy = picked[q].clone();
        assert(copy@ =~= picked@[q as int]@);
        out.push(AutoAction::PickPack { indices: copy });
        q = q + 1;
    }
    out
}


// ---------------------------------------------------------------------------
// Using consumables
// ---------------------------------------------------------------------------

/// A consumable held in the inventory, as the autoplayer sees it.
#[derive(Debug, Clone, Copy)]
pub struct ConsumableView {
    /// Whether the content defines it.
    pub known: bool,
    /// Free consumable slots its effects need.
    pub needs_consumable_slots: usize,
    /// Free joker slots its effects need.
    pub needs_joker_slots: usize,
    /// How many hand cards it is used on.
    pub selects: usize,
}

/// The uses of the consumable at `idx`, as pairs of its index and the hand cards chosen:
/// none when it is unknown or its effects do not fit the free slots; a use on no card when it
/// selects none; otherwise the first `n` combinations of as many hand cards as it selects, in
/// lexicographic order (none when the hand is too small).
pub open spec fn uses_of(
    idx: usize,
    c: ConsumableView,
    hand_len: usize,
    free_consumables: usize,
    free_jokers: usize,
    n: int,
) -> Seq<(usize, Seq<usize>)> {
    if !c.known || c.needs_consumable_slots > free_consumables || c.needs_joker_slots > free_jokers {
        Seq::empty()
    } else if c.selects == 0 {
        seq![(idx, Seq::<usize>::empty())]
    } else if c.selects > hand_len {
        Seq::empty()
    } else {
        let combos = combinations_from(0, hand_len as int, c.selects as nat);
        combos.take(min_of(n, combos.len() as int)).map_values(|sel: Seq<usize>| (idx, sel))
    }
}

/// The uses of all the consumables of `items`, in order.
pub open spec fn consumable_uses(
    items: Seq<ConsumableView>,
    hand_len: usize,
    free_consumables: usize,
    free_jokers: usize,
    n: int,
) -> Seq<(usize, Seq<usize>)>
    decreases items.len(),
{
    if items.len() == 0 {
        Seq::empty()
    } else {
        consumable_uses(items.drop_last(), hand_len, free_consumables, free_jokers, n) + uses_of(
            (items.len() - 1) as usize,
            items.last(),
            hand_len,
            free_consumables,
            free_jokers,
            n,
        )
    }
}

/// `out` uses the consumables and hand cards of `plan`, in order.
pub open spec fn uses_are(out: Seq<AutoAction>, plan: Seq<(usize, Seq<usize>)>) -> bool {
    &&& out.len() == plan.len()
    &&& forall|i: int|
        0 <= i < out.len() ==> (#[trigger] out[i] matches AutoAction::UseConsumable { index, selected }
            && index == plan[i].0 && selected@ == plan[i].1)
}

/// The consumable uses the autoplayer may try with a hand of `hand_len` cards and the given
/// free slots, at most `cap` (at least one) card choices per consumable.
pub fn legal_consumable_actions(
    items: &Vec<ConsumableView>,
    hand_len: usize,
    free_consumables: usize,
    free_jokers: usize,
    cap: usize,
) -> (out: Vec<AutoAction>)
    ensures
        uses_are(
            out@,
            consumable_uses(items@, hand_len, free_consumables, free_jokers, if cap < 1 { 1 } else { cap as int }),
        ),
{
    let n: usize = if cap < 1 {
        1
    } else {
        cap
    };
    let mut out: Vec<AutoAction> = Vec::new();
    let mut idx: usize = 0;
    assert(items@.take(0) =~= Seq::<ConsumableView>::empty());
    while idx < items.len()
        invariant
            idx <= items@.len(),
            n == (if cap < 1 { 1 } else { cap as int }),
            uses_are(out@, consumable_uses(items@.take(idx as int), hand_len, free_consumables, free_jokers, n as int)),
        decreases items.len() - idx,
    {
        let item = items[idx];
        let ghost prev_plan = consumable_uses(items@.take(idx as int), hand_len, free_consumables, free_jokers, n as int);
        let ghost step = uses_of(idx, item, hand_len, free_consumables, free_jokers, n as int);
        assert(items@.take(idx + 1).drop_last() =~= items@.take(idx as int));
        assert(items@.take(idx + 1).last() == item);
        assert(consumable_uses(items@.take(idx + 1), hand_len, free_consumables, free_jokers, n as int)
            == prev_plan + step);
        let fits = item.known && item.needs_consumable_slots <= free_consumables && item.needs_joker_slots
            <= free_jokers;
        if fits && item.selects == 0 {
            let ghost before = out@;
            out.push(AutoAction::UseConsumable { index: idx, selected: Vec::new() });
            assert(uses_are(out@, prev_plan + step)) by {
                assert forall|i: int| 0 <= i < out@.len() implies (#[trigger] out@[i] matches AutoAction::UseConsumable {
                    index,
                    selected,
                } && index == (prev_plan + step)[i].0 && selected@ == (prev_plan + step)[i].1) by {
                    if i < before.len() {
                        assert(out@[i] == before[i]);
                    }
                }
            }
        } else if fits && item.selects <= hand_len {
            let mut combos: Vec<Vec<usize>> = Vec::new();
            enumerate_combinations(hand_len, item.selects, &mut combos);
            assert(views(combos@) =~= combinations_from(0, hand_len as int, item.selects as nat));
            let take = if combos.len() < n {
                combos.len()
            } else {
                n
            };
            let ghost before = out@;
            let mut j: usize = 0;
            while j < take
                invariant
                    take <= combos@.len(),
                    j <= take,
                    take == min_of(n as int, combos@.len() as int),
                    views(combos@) == combinations_from(0, hand_len as int, item.selects as nat),
                    step == views(combos@).take(take as int).map_values(|sel: Seq<usize>| (idx, sel)),
                    uses_are(before, prev_plan),
                    out@.len() == before.len() + j,
                    forall|i: int| 0 <= i < before.len() ==> out@[i] == before[i],
                    forall|i: int|
                        before.len() <= i < out@.len() ==> (#[trigger] out@[i] matches AutoAction::UseConsumable {
                            index,
                            selected,
                        } && index == idx && selected@ == views(combos@)[i - before.len()]),
                decreases take - j,
            {
                let copy = combos[j].clone();
                assert(copy@ =~= views(combos@)[j as int]);
                out.push(AutoAction::UseConsumable { index: idx, selected: copy });
                j = j + 1;
            }
            assert(uses_are(out@, prev_plan + step)) by {
                assert forall|i: int| 0 <= i < out@.len() implies (#[trigger] out@[i] matches AutoAction::UseConsumable {
                    index,
                    selected,
                } && index == (prev_plan + step)[i].0 && selected@ == (prev_plan + step)[i].1) by {
                    if i < before.len() {
                        assert(out@[i] == before[i]);
                    } else {
                        assert((prev_plan + step)[i] == step[i - before.len()]);
                    }
                }
            }
        } else {
            assert(step =~= Seq::<(usize, Seq<usize>)>::empty());
            assert(prev_plan + step =~= prev_plan);
        }
        idx = idx + 1;
    }
    assert(items@.take(items@.len() as int) =~= items@);
    out
}

// ---------------------------------------------------------------------------
// The legal actions of a state
// ---------------------------------------------------------------------------

/// A card offered in the shop: its price and whether the inventory has room for it.
#[derive(Debug, Clone, Copy)]
pub struct ShopOffer {
    pub price: i64,
    pub has_room: bool,
}

/// The shop of a run: the reroll cost, the cards, the prices of the packs and the number of
/// vouchers on offer.
pub struct ShopView {
    pub reroll_cost: i64,
    pub cards: Vec<ShopOffer>,
    pub pack_prices: Vec<i64>,
    pub vouchers: usize,
}

/// An open booster pack: the kinds of its options and how many may be picked.
pub struct PackView {
    pub options: Vec<PackChoice>,
    pub picks: u8,
}

/// What the autoplayer reads of a run to list the actions it may take.
pub struct RunView {
    pub open_pack: Option<PackView>,
    pub joker_free: usize,
    pub consumable_free: usize,
    pub phase: Phase,
    pub blind: BlindKind,
    pub discards_left: u8,
    pub money: i64,
    pub shop: Option<ShopView>,
    pub voucher_price: i64,
    pub jokers: usize,
    pub outcome: Option<BlindOutcome>,
}

pub open spec fn affordable(money: i64, price: i64) -> bool {
    price <= 0 || money >= price
}

/// Buying each of the first `k` cards that is affordable and has room, in order.
pub open spec fn card_buys(cards: Seq<ShopOffer>, money: i64, k: int) -> Seq<AutoAction>
    decreases k,
{
    if k <= 0 {
        Seq::empty()
    } else {
        card_buys(cards, money, k - 1) + if affordable(money, cards[k - 1].price) && cards[k - 1].has_room {
            seq![AutoAction::BuyCard { index: (k - 1) as usize }]
        } else {
            Seq::empty()
        }
    }
}

/// Buying each of the first `k` packs that is affordable, in order.
pub open spec fn pack_buys(prices: Seq<i64>, money: i64, k: int) -> Seq<AutoAction>
    decreases k,
{
    if k <= 0 {
        Seq::empty()
    } else {
        pack_buys(prices, money, k - 1) + if affordable(money, prices[k - 1]) {
            seq![AutoAction::BuyPack { index: (k - 1) as usize }]
        } else {
            Seq::empty()
        }
    }
}

pub open spec fn min_of(a: int, b: int) -> int {
    if a < b {
        a
    } else {
        b
    }
}

/// The shop's actions: leave, reroll when the money covers the cost, buy among the first
/// `cap` cards, packs and vouchers what can be bought, sell among the first `cap` jokers.
pub open spec fn shop_actions(v: RunView, cap: usize) -> Seq<AutoAction> {
    seq![AutoAction::LeaveShop] + match v.shop {
        Some(shop) => (if v.money >= (if shop.reroll_cost > 0 {
            shop.reroll_cost
        } else {
            0
        }) {
            seq![AutoAction::RerollShop]
        } else {
            Seq::empty()
        }) + card_buys(shop.cards@, v.money, min_of(shop.cards@.len() as int, cap as int)) + pack_buys(
            shop.pack_prices@,
            v.money,
            min_of(shop.pack_prices@.len() as int, cap as int),
        ) + if affordable(v.money, v.voucher_price) {
            Seq::new(
                min_of(shop.vouchers as int, cap as int) as nat,
                |i: int| AutoAction::BuyVoucher { index: i as usize },
            )
        } else {
            Seq::empty()
        },
        None => Seq::empty(),
    } + Seq::new(min_of(v.jokers as int, cap as int) as nat, |i: int| AutoAction::SellJoker { index: i as usize })
}

/// The actions of a state with no open pack, before duplicates are removed: those of the
/// phase, then entering the shop and moving on once the blind is cleared.
pub open spec fn raw_legal_actions(
    v: RunView,
    plays: Seq<AutoAction>,
    discards: Seq<AutoAction>,
    consumables: Seq<AutoAction>,
    cap: usize,
) -> Seq<AutoAction> {
    (match v.phase {
        Phase::Deal => seq![AutoAction::Deal] + if v.blind != BlindKind::Boss {
            seq![AutoAction::SkipBlind]
        } else {
            Seq::empty()
        },
        Phase::Play => plays + (if v.discards_left > 0 {
            discards
        } else {
            Seq::empty()
        }) + consumables,
        Phase::Shop => shop_actions(v, cap),
        _ => Seq::empty(),
    }) + if v.outcome == Some(BlindOutcome::Cleared) {
        (if v.phase != Phase::Shop {
            seq![AutoAction::EnterShop]
        } else {
            Seq::empty()
        }) + seq![AutoAction::NextBlind]
    } else {
        Seq::empty()
    }
}

fn card_buy_list(cards: &Vec<ShopOffer>, money: i64, cap: usize) -> (out: Vec<AutoAction>)
    ensures
        out@ == card_buys(cards@, money, min_of(cards@.len() as int, cap as int)),
{
    let n = if cards.len() < cap {
        cards.len()
    } else {
        cap
    };
    let mut out: Vec<AutoAction> = Vec::new();
    let mut i: usize = 0;
    while i < n
        invariant
            n <= cards@.len(),
            n == min_of(cards@.len() as int, cap as int),
            i <= n,
            out@ == card_buys(cards@, money, i as int),
        decreases n - i,
    {
        let offer = cards[i];
        if can_afford(money, offer.price) && offer.has_room {
            out.push(AutoAction::BuyCard { index: i });
        }
        i = i + 1;
    }
    out
}

fn pack_buy_list(prices: &Vec<i64>, money: i64, cap: usize) -> (out: Vec<AutoAction>)
    ensures
        out@ == pack_buys(prices@, money, min_of(prices@.len() as int, cap as int)),
{
    let n = if prices.len() < cap {
        prices.len()
    } else {
        cap
    };
    let mut out: Vec<AutoAction> = Vec::new();
    let mut i: usize = 0;
    while i < n
        invariant
            n <= prices@.len(),
            n == min_of(prices@.len() as int, cap as int),
            i <= n,
            out@ == pack_buys(prices@, money, i as int),
        decreases n - i,
    {
        if can_afford(money, prices[i]) {
            out.push(AutoAction::BuyPack { index: i });
        }
        i = i + 1;
    }
    out
}

fn voucher_buy_list(vouchers: usize, afford: bool, cap: usize) -> (out: Vec<AutoAction>)
    ensures
        out@ == if afford {
            Seq::new(min_of(vouchers as int, cap as int) as nat, |t: int| AutoAction::BuyVoucher { index: t as usize })
        } else {
            Seq::empty()
        },
{
    let mut out: Vec<AutoAction> = Vec::new();
    if !afford {
        return out;
    }
    let n = if vouchers < cap {
        vouchers
    } else {
        cap
    };
    let mut q: usize = 0;
    while q < n
        invariant
            q <= n,
            out@ == Seq::new(q as nat, |t: int| AutoAction::BuyVoucher { index: t as usize }),
        decreases n - q,
    {
        out.push(AutoAction::BuyVoucher { index: q });
        q = q + 1;
        assert(out@ =~= Seq::new(q as nat, |t: int| AutoAction::BuyVoucher { index: t as usize }));
    }
    out
}

fn sell_list(jokers: usize, cap: usize) -> (out: Vec<AutoAction>)
    ensures
        out@ == Seq::new(min_of(jokers as int, cap as int) as nat, |t: int| AutoAction::SellJoker { index: t as usize }),
{
    let n = if jokers < cap {
        jokers
    } else {
        cap
    };
    let mut out: Vec<AutoAction> = Vec::new();
    let mut k: usize = 0;
    while k < n
        invariant
            k <= n,
            out@ == Seq::new(k as nat, |t: int| AutoAction::SellJoker { index: t as usize }),
        decreases n - k,
    {
        out.push(AutoAction::SellJoker { index: k });
        k = k + 1;
        assert(out@ =~= Seq::new(k as nat, |t: int| AutoAction::SellJoker { index: t as usize }));
    }
    out
}

fn shop_action_list(v: &RunView, cap: usize) -> (out: Vec<AutoAction>)
    ensures
        out@ == shop_actions(*v, cap),
{
    let mut out: Vec<AutoAction> = Vec::new();
    out.push(AutoAction::LeaveShop);
    match &v.shop {
        Some(shop) => {
            let floor: i64 = if shop.reroll_cost > 0 {
                shop.reroll_cost
            } else {
                0
            };
            if v.money >= floor {
                out.push(AutoAction::RerollShop);
            }
            let mut cards = card_buy_list(&shop.cards, v.money, cap);
            out.append(&mut cards);
            let mut packs = pack_buy_list(&shop.pack_prices, v.money, cap);
            out.append(&mut packs);
            let afford_voucher = can_afford(v.money, v.voucher_price);
            let mut vouchers = voucher_buy_list(shop.vouchers, afford_voucher, cap);
            out.append(&mut vouchers);
        },
        None => {},
    }
    let mut sells = sell_list(v.jokers, cap);
    out.append(&mut sells);
    assert(out@ =~= shop_actions(*v, cap));
    out
}

/// In the shop, with no pack open, every voucher among the first `cap` on offer may be
/// bought whenever the money covers the voucher price (or it is free): the actions that
/// `legal_actions` gives hold `BuyVoucher` for each of them.
pub proof fn law_affordable_vouchers_offered(
    out: Seq<AutoAction>,
    v: RunView,
    plays: Seq<AutoAction>,
    discards: Seq<AutoAction>,
    consumables: Seq<AutoAction>,
    cap: usize,
    i: int,
)
    requires
        dedup_of(out, raw_legal_actions(v, plays, discards, consumables, cap)),
        v.phase == Phase::Shop,
        v.voucher_price <= 0 || v.money >= v.voucher_price,
        v.shop matches Some(shop) && 0 <= i < shop.vouchers && i < cap,
    ensures
        out.contains(AutoAction::BuyVoucher { index: i as usize }),
{
    let shop = v.shop->Some_0;
    let raw = raw_legal_actions(v, plays, discards, consumables, cap);
    let pre = seq![AutoAction::LeaveShop] + (if v.money >= (if shop.reroll_cost > 0 {
        shop.reroll_cost
    } else {
        0
    }) {
        seq![AutoAction::RerollShop]
    } else {
        Seq::empty()
    }) + card_buys(shop.cards@, v.money, min_of(shop.cards@.len() as int, cap as int)) + pack_buys(
        shop.pack_prices@,
        v.money,
        min_of(shop.pack_prices@.len() as int, cap as int),
    );
    let vouchers = Seq::new(
        min_of(shop.vouchers as int, cap as int) as nat,
        |t: int| AutoAction::BuyVoucher { index: t as usize },
    );
    let k = pre.len() + i;
    assert(raw[k] == vouchers[i]);
    assert(action_keys(out).contains(spec_stable_key(raw[k])));
    let j = choose|j: int| 0 <= j < action_keys(out).len() && action_keys(out)[j] == spec_stable_key(raw[k]);
    law_stable_keys_injective(out[j], AutoAction::BuyVoucher { index: i as usize });
    assert(out[j] == AutoAction::BuyVoucher { index: i as usize });
}

/// The actions the autoplayer may take in a state. With a pack open they are those of the
/// pack, at most `cap` picks. Otherwise they are those of the phase — dealing or skipping a
/// non-boss blind; the given plays, discards (while discards are left) and consumable uses;
/// the shop's actions, each kind among its first `cap` offers — then entering the shop and
/// moving on once the blind is cleared, without duplicates and in the order of their keys.
pub fn legal_actions(
    v: &RunView,
    plays: Vec<AutoAction>,
    discards: Vec<AutoAction>,
    consumables: Vec<AutoAction>,
    cap: usize,
) -> (out: Vec<AutoAction>)
    ensures
        match v.open_pack {
            Some(pack) => exists|s: Seq<Seq<usize>>|
                s.to_multiset() == pack_combinations(pack.options@.len() as int, pack.picks).to_multiset()
                    && lists_sorted(s) && pack_actions_of(
                    out@,
                    pack_picks(s, pack.options@, v.joker_free, v.consumable_free, pick_limit(cap)),
                ),
            None => dedup_of(out@, raw_legal_actions(*v, plays@, discards@, consumables@, cap)),
        },
        v.open_pack is None && v.phase == Phase::Shop && (v.voucher_price <= 0 || v.money >= v.voucher_price)
            ==> match v.shop {
            Some(shop) => forall|i: usize|
                i < shop.vouchers && i < cap ==> #[trigger] out@.contains(AutoAction::BuyVoucher { index: i }),
            None => true,
        },
{
    match &v.open_pack {
        Some(pack) => {
            return legal_pack_actions(&pack.options, pack.picks, cap, v.joker_free, v.consumable_free);
        },
        None => {},
    }
    let ghost pl = plays@;
    let ghost di = discards@;
    let ghost co = consumables@;
    let mut raw: Vec<AutoAction> = Vec::new();
    match v.phase {
        Phase::Deal => {
            raw.push(AutoAction::Deal);
            if v.blind != BlindKind::Boss {
                raw.push(AutoAction::SkipBlind);
            }
        },
        Phase::Play => {
            let mut p = plays;
            raw.append(&mut p);
            if v.discards_left > 0 {
                let mut d = discards;
                raw.append(&mut d);
            }
            let mut c = consumables;
            raw.append(&mut c);
        },
        Phase::Shop => {
            raw = shop_action_list(v, cap);
        },
        _ => {},
    }
    let ghost phase_part = raw@;
    let cleared = match v.outcome {
        Some(BlindOutcome::Cleared) => true,
        _ => false,
    };
    if cleared {
        if v.phase != Phase::Shop {
            raw.push(AutoAction::EnterShop);
        }
        raw.push(AutoAction::NextBlind);
    }
    assert(raw@ =~= raw_legal_actions(*v, pl, di, co, cap));
    let ghost raw_view = raw@;
    let out = dedup_actions(raw);
    proof {
        if v.phase == Phase::Shop && (v.voucher_price <= 0 || v.money >= v.voucher_price) && v.shop is Some {
            let shop = v.shop->Some_0;
            assert forall|i: usize| i < shop.vouchers && i < cap implies #[trigger] out@.contains(
                AutoAction::BuyVoucher { index: i },
            ) by {
                law_affordable_vouchers_offered(out@, *v, pl, di, co, cap, i as int);
            }
        }
    }
    out
}

} // verus!
