use crate::cards::{Card, Rank, Suit};
use vstd::prelude::*;

verus! {

/// Poker hand categories, weakest first.
#[derive(Debug, Clone, Copy, PartialEq, Eq, Hash, Structural)]
pub enum HandKind {
    HighCard,
    Pair,
    TwoPair,
    Trips,
    Straight,
    Flush,
    FullHouse,
    Quads,
    StraightFlush,
    RoyalFlush,
    FiveOfAKind,
    FlushHouse,
    FlushFive,
}

pub open spec fn spec_hand_id(kind: HandKind) -> Seq<char> {
    match kind {
        HandKind::HighCard => "high_card"@,
        HandKind::Pair => "pair"@,
        HandKind::TwoPair => "two_pair"@,
        HandKind::Trips => "trips"@,
        HandKind::Straight => "straight"@,
        HandKind::Flush => "flush"@,
        HandKind::FullHouse => "full_house"@,
        HandKind::Quads => "quads"@,
        HandKind::StraightFlush => "straight_flush"@,
        HandKind::RoyalFlush => "royal_flush"@,
        HandKind::FiveOfAKind => "five_kind"@,
        HandKind::FlushHouse => "flush_house"@,
        HandKind::FlushFive => "flush_five"@,
    }
}

impl HandKind {
    /// Stable identifier used by configuration files.
    pub fn id(self) -> (s: &'static str)
        ensures
            s@ == spec_hand_id(self),
    {
        match self {
            HandKind::HighCard => "high_card",
            HandKind::Pair => "pair",
            HandKind::TwoPair => "two_pair",
            HandKind::Trips => "trips",
            HandKind::Straight => "straight",
            HandKind::Flush => "flush",
            HandKind::FullHouse => "full_house",
            HandKind::Quads => "quads",
            HandKind::StraightFlush => "straight_flush",
            HandKind::RoyalFlush => "royal_flush",
            HandKind::FiveOfAKind => "five_kind",
            HandKind::FlushHouse => "flush_house",
            HandKind::FlushFive => "flush_five",
        }
    }
}

/// The hand whose level a hand of this kind uses: a royal flush levels as a straight flush.
pub fn level_kind(kind: HandKind) -> (out: HandKind)
    ensures
        kind == HandKind::RoyalFlush ==> out == HandKind::StraightFlush,
        kind != HandKind::RoyalFlush ==> out == kind,
{
    match kind {
        HandKind::RoyalFlush => HandKind::StraightFlush,
        other => other,
    }
}

/// Joker-granted rule changes for hand evaluation.
#[derive(Debug, Clone, Copy, Default)]
pub struct HandEvalRules {
    /// Hearts/diamonds share a suit, as do spades/clubs.
    pub smeared_suits: bool,
    /// Flushes and straights may be made of four cards.
    pub four_fingers: bool,
    /// Straights may skip one rank between cards.
    pub shortcut: bool,
}

// ---------------------------------------------------------------------------
// Mathematical model of a played hand
// ---------------------------------------------------------------------------

/// Numeric value of a rank for straights and ordering (ace high, joker zero).
pub open spec fn spec_rank_value(rank: Rank) -> u8 {
    match rank {
        Rank::Ace => 14,
        Rank::Two => 2,
        Rank::Three => 3,
        Rank::Four => 4,
        Rank::Five => 5,
        Rank::Six => 6,
        Rank::Seven => 7,
        Rank::Eight => 8,
        Rank::Nine => 9,
        Rank::Ten => 10,
        Rank::Jack => 11,
        Rank::Queen => 12,
        Rank::King => 13,
        Rank::Joker => 0,
    }
}

/// Suit class used to decide flushes; smeared suits merge by colour.
pub open spec fn spec_suit_bucket(suit: Suit, smeared: bool) -> u8 {
    if smeared {
        match suit {
            Suit::Spades | Suit::Clubs => 0,
            Suit::Hearts | Suit::Diamonds => 1,
            Suit::Wild => 2,
        }
    } else {
        match suit {
            Suit::Spades => 0,
            Suit::Hearts => 1,
            Suit::Clubs => 2,
            Suit::Diamonds => 3,
            Suit::Wild => 4,
        }
    }
}

/// Number of cards of the hand that take part in evaluation (stone cards do not).
pub open spec fn ranked_count(s: Seq<Card>) -> nat
    decreases s.len(),
{
    if s.len() == 0 {
        0
    } else {
        ranked_count(s.drop_last()) + if s.last().spec_is_stone() {
            0nat
        } else {
            1nat
        }
    }
}

/// Number of non-stone cards whose rank has value `v`.
pub open spec fn value_count(s: Seq<Card>, v: int) -> nat
    decreases s.len(),
{
    if s.len() == 0 {
        0
    } else {
        value_count(s.drop_last(), v) + if !s.last().spec_is_stone() && spec_rank_value(
            s.last().rank,
        ) == v {
            1nat
        } else {
            0nat
        }
    }
}

/// Some non-stone card has a rank of value `v`.
pub open spec fn value_present(s: Seq<Card>, v: int) -> bool {
    value_count(s, v) > 0
}

/// Number of rank values below `n` that occur exactly `c` times.
pub open spec fn shape_below(s: Seq<Card>, c: nat, n: int) -> nat
    decreases n,
{
    if n <= 0 {
        0
    } else {
        shape_below(s, c, n - 1) + if value_count(s, n - 1) == c {
            1nat
        } else {
            0nat
        }
    }
}

/// Number of distinct rank values below `n` among the non-stone cards.
pub open spec fn distinct_below(s: Seq<Card>, n: int) -> nat
    decreases n,
{
    if n <= 0 {
        0
    } else {
        distinct_below(s, n - 1) + if value_count(s, n - 1) > 0 {
            1nat
        } else {
            0nat
        }
    }
}

/// Rank values lie in `0..15`.
pub open spec fn shape(s: Seq<Card>, c: nat) -> nat {
    shape_below(s, c, 15)
}

pub open spec fn distinct_values(s: Seq<Card>) -> nat {
    distinct_below(s, 15)
}

/// The multiset of rank multiplicities is exactly: `n5` ranks five times, `n4` four
/// times, ..., `n1` once, and nothing else (`distinct` ranks in all).
pub open spec fn counts_are(
    s: Seq<Card>,
    distinct: nat,
    n5: nat,
    n4: nat,
    n3: nat,
    n2: nat,
    n1: nat,
) -> bool {
    &&& distinct_values(s) == distinct
    &&& shape(s, 5) == n5
    &&& shape(s, 4) == n4
    &&& shape(s, 3) == n3
    &&& shape(s, 2) == n2
    &&& shape(s, 1) == n1
}

/// All non-stone cards fall in one suit class.
pub open spec fn one_suit_class(s: Seq<Card>, smeared: bool) -> bool {
    forall|i: int, j: int|
        0 <= i < s.len() && 0 <= j < s.len() && !s[i].spec_is_stone() && !s[j].spec_is_stone()
            ==> #[trigger] spec_suit_bucket(s[i].suit, smeared) == #[trigger] spec_suit_bucket(
            s[j].suit,
            smeared,
        )
}

/// Consecutive distinct rank values (in increasing order) differ by at most `gap`.
pub open spec fn gaps_within(s: Seq<Card>, gap: int) -> bool {
    forall|a: int, b: int|
        0 <= a < b < 15 && #[trigger] value_present(s, a) && #[trigger] value_present(s, b) && (
        forall|c: int| a < c < b ==> !value_present(s, c)) ==> b - a <= gap
}

/// The distinct rank values form a straight of `required` cards.
pub open spec fn straight_of(s: Seq<Card>, required: nat, gap: int) -> bool {
    &&& distinct_values(s) == required
    &&& {
        ||| (required == 5 && value_present(s, 2) && value_present(s, 3) && value_present(s, 4)
            && value_present(s, 5) && value_present(s, 14))
        ||| (required == 4 && value_present(s, 2) && value_present(s, 3) && value_present(s, 4)
            && value_present(s, 14))
        ||| gaps_within(s, gap)
    }
}

/// Ten through ace are all present (only asked of five ranked cards).
pub open spec fn royal_values(s: Seq<Card>) -> bool {
    value_present(s, 10) && value_present(s, 11) && value_present(s, 12) && value_present(s, 13)
        && value_present(s, 14)
}

/// The hand category of the played cards under the given rules.
pub open spec fn spec_hand_kind(s: Seq<Card>, rules: HandEvalRules) -> HandKind {
    let len = ranked_count(s);
    let flush = ((len == 5) || (rules.four_fingers && len == 4)) && one_suit_class(
        s,
        rules.smeared_suits,
    );
    let gap: int = if rules.shortcut {
        2
    } else {
        1
    };
    let straight = (len == 5 && straight_of(s, 5, gap)) || (rules.four_fingers && len == 4
        && straight_of(s, 4, gap));
    if len == 0 {
        HandKind::HighCard
    } else if len == 5 {
        if counts_are(s, 1, 1, 0, 0, 0, 0) {
            if flush {
                HandKind::FlushFive
            } else {
                HandKind::FiveOfAKind
            }
        } else if counts_are(s, 2, 0, 1, 0, 0, 1) {
            HandKind::Quads
        } else if counts_are(s, 2, 0, 0, 1, 1, 0) {
            if flush {
                HandKind::FlushHouse
            } else {
                HandKind::FullHouse
            }
        } else if flush && straight {
            if royal_values(s) {
                HandKind::RoyalFlush
            } else {
                HandKind::StraightFlush
            }
        } else if flush {
            HandKind::Flush
        } else if straight {
            HandKind::Straight
        } else if counts_are(s, 3, 0, 0, 1, 0, 2) {
            HandKind::Trips
        } else if counts_are(s, 3, 0, 0, 0, 2, 1) {
            HandKind::TwoPair
        } else if counts_are(s, 4, 0, 0, 0, 1, 3) {
            HandKind::Pair
        } else {
            HandKind::HighCard
        }
    } else if rules.four_fingers && len == 4 && flush && straight {
        HandKind::StraightFlush
    } else if rules.four_fingers && len == 4 && flush {
        HandKind::Flush
    } else if rules.four_fingers && len == 4 && straight {
        HandKind::Straight
    } else if counts_are(s, 1, 0, 1, 0, 0, 0) {
        HandKind::Quads
    } else if counts_are(s, 1, 0, 0, 1, 0, 0) || counts_are(s, 2, 0, 0, 1, 0, 1) {
        HandKind::Trips
    } else if counts_are(s, 2, 0, 0, 0, 2, 0) {
        HandKind::TwoPair
    } else if counts_are(s, 1, 0, 0, 0, 1, 0) || counts_are(s, 2, 0, 0, 0, 1, 1) || counts_are(
        s,
        3,
        0,
        0,
        0,
        1,
        2,
    ) {
        HandKind::Pair
    } else {
        HandKind::HighCard
    }
}

// ---------------------------------------------------------------------------
// Executable evaluation
// ---------------------------------------------------------------------------

fn rank_value(rank: Rank) -> (v: u8)
    ensures
        v == spec_rank_value(rank),
        v < 15,
{
    match rank {
        Rank::Ace => 14,
        Rank::Two => 2,
        Rank::Three => 3,
        Rank::Four => 4,
        Rank::Five => 5,
        Rank::Six => 6,
        Rank::Seven => 7,
        Rank::Eight => 8,
        Rank::Nine => 9,
        Rank::Ten => 10,
        Rank::Jack => 11,
        Rank::Queen => 12,
        Rank::King => 13,
        Rank::Joker => 0,
    }
}

fn suit_bucket(suit: Suit, smeared: bool) -> (b: u8)
    ensures
        b == spec_suit_bucket(suit, smeared),
{
    if smeared {
        match suit {
            Suit::Spades | Suit::Clubs => 0,
            Suit::Hearts | Suit::Diamonds => 1,
            Suit::Wild => 2,
        }
    } else {
        match suit {
            Suit::Spades => 0,
            Suit::Hearts => 1,
            Suit::Clubs => 2,
            Suit::Diamonds => 3,
            Suit::Wild => 4,
        }
    }
}

proof fn lemma_value_count_bounded(s: Seq<Card>, v: int)
    ensures
        value_count(s, v) <= s.len(),
    decreases s.len(),
{
    if s.len() > 0 {
        lemma_value_count_bounded(s.drop_last(), v);
    }
}

proof fn lemma_ranked_count_bounded(s: Seq<Card>)
    ensures
        ranked_count(s) <= s.len(),
    decreases s.len(),
{
    if s.len() > 0 {
        lemma_ranked_count_bounded(s.drop_last());
    }
}

/// Per-value multiplicities of the non-stone cards, indexed by rank value.
fn value_counts(cards: &[Card]) -> (counts: Vec<usize>)
    ensures
        counts.len() == 15,
        forall|v: int| 0 <= v < 15 ==> #[trigger] counts[v] == value_count(cards@, v),
{
    let mut counts: Vec<usize> = Vec::new();
    let mut k: usize = 0;
    while k < 15
        invariant
            k <= 15,
            counts.len() == k,
            forall|v: int| 0 <= v < k ==> #[trigger] counts[v] == 0,
        decreases 15 - k,
    {
        counts.push(0);
        k = k + 1;
    }
    let mut i: usize = 0;
    while i < cards.len()
        invariant
            i <= cards.len(),
            counts.len() == 15,
            forall|v: int| 0 <= v < 15 ==> #[trigger] counts[v] == value_count(cards@.take(i as int), v),
        decreases cards.len() - i,
    {
        let ghost prev = cards@.take(i as int);
        let ghost next = cards@.take(i + 1);
        assert(next.drop_last() =~= prev);
        assert(next.last() == cards@[i as int]);
        proof {
            assert forall|v: int| 0 <= v < 15 implies value_count(prev, v) < usize::MAX by {
                lemma_value_count_bounded(prev, v);
            }
        }
        let card = &cards[i];
        if !card.is_stone() {
            let v = rank_value(card.rank) as usize;
            let old_count = counts[v];
            counts.set(v, old_count + 1);
        }
        i = i + 1;
    }
    assert(cards@.take(cards.len() as int) =~= cards@);
    counts
}

/// Number of values below `n` with exactly `c` occurrences, read from the count table.
fn shape_of(counts: &Vec<usize>, c: usize, Ghost(s): Ghost<Seq<Card>>) -> (out: usize)
    requires
        counts.len() == 15,
        forall|v: int| 0 <= v < 15 ==> #[trigger] counts[v] == value_count(s, v),
    ensures
        out == shape(s, c as nat),
{
    let mut out: usize = 0;
    let mut v: usize = 0;
    while v < 15
        invariant
            v <= 15,
            counts.len() == 15,
            forall|w: int| 0 <= w < 15 ==> #[trigger] counts[w] == value_count(s, w),
            out == shape_below(s, c as nat, v as int),
            out <= v,
        decreases 15 - v,
    {
        if counts[v] == c {
            out = out + 1;
        }
        v = v + 1;
    }
    out
}

fn distinct_of(counts: &Vec<usize>, Ghost(s): Ghost<Seq<Card>>) -> (out: usize)
    requires
        counts.len() == 15,
        forall|v: int| 0 <= v < 15 ==> #[trigger] counts[v] == value_count(s, v),
    ensures
        out == distinct_values(s),
{
    let mut out: usize = 0;
    let mut v: usize = 0;
    while v < 15
        invariant
            v <= 15,
            counts.len() == 15,
            forall|w: int| 0 <= w < 15 ==> #[trigger] counts[w] == value_count(s, w),
            out == distinct_below(s, v as int),
            out <= v,
        decreases 15 - v,
    {
        if counts[v] > 0 {
            out = out + 1;
        }
        v = v + 1;
    }
    out
}

/// Consecutive distinct values are never more than `gap` apart.
fn gaps_ok(counts: &Vec<usize>, gap: u8, Ghost(s): Ghost<Seq<Card>>) -> (ok: bool)
    requires
        counts.len() == 15,
        forall|v: int| 0 <= v < 15 ==> #[trigger] counts[v] == value_count(s, v),
    ensures
        ok == gaps_within(s, gap as int),
{
    let mut ok = true;
    let mut last: Option<usize> = None;
    let mut v: usize = 0;
    while v < 15
        invariant
            v <= 15,
            counts.len() == 15,
            forall|w: int| 0 <= w < 15 ==> #[trigger] counts[w] == value_count(s, w),
            last is None ==> forall|w: int| 0 <= w < v ==> !value_present(s, w),
            last is Some ==> {
                &&& last->0 < v
                &&& value_present(s, last->0 as int)
                &&& forall|w: int| last->0 < w < v ==> !value_present(s, w)
            },
            ok == (forall|a: int, b: int|
                0 <= a < b < v && #[trigger] value_present(s, a) && #[trigger] value_present(s, b)
                    && (forall|c: int| a < c < b ==> !value_present(s, c)) ==> b - a <= gap),
        decreases 15 - v,
    {
        if counts[v] > 0 {
            assert(value_present(s, v as int));
            match last {
                Some(p) => {
                    let close = v - p <= gap as usize;
                    proof {
                        let old_ok = ok;
                        let new_ok = old_ok && close;
                        assert(new_ok == (forall|a: int, b: int|
                            0 <= a < b < v + 1 && #[trigger] value_present(s, a)
                                && #[trigger] value_present(s, b) && (forall|c: int|
                                a < c < b ==> !value_present(s, c)) ==> b - a <= gap)) by {
                            if new_ok {
                                assert forall|a: int, b: int|
                                    0 <= a < b < v + 1 && #[trigger] value_present(s, a)
                                        && #[trigger] value_present(s, b) && (forall|c: int|
                                        a < c < b ==> !value_present(s, c)) implies b - a
                                    <= gap by {
                                    if b == v {
                                        if a < p {
                                            assert(!value_present(s, p as int));
                                        }
                                    }
                                }
                            } else if !close {
                                assert(value_present(s, p as int));
                                assert(forall|c: int| p < c < v ==> !value_present(s, c));
                            }
                        }
                    }
                    ok = ok && close;
                },
                None => {
                    proof {
                        assert forall|a: int, b: int|
                            0 <= a < b < v + 1 && #[trigger] value_present(s, a)
                                && #[trigger] value_present(s, b) && (forall|c: int|
                                a < c < b ==> !value_present(s, c)) implies b - a <= gap by {
                            assert(a < v);
                        }
                    }
                },
            }
            last = Some(v);
        }
        v = v + 1;
    }
    ok
}

/// Decide a straight of exactly `required` distinct values (with the ace-low wheel).
fn is_straight_len(counts: &Vec<usize>, required: usize, gap: u8, Ghost(s): Ghost<Seq<Card>>) -> (b:
    bool)
    requires
        counts.len() == 15,
        forall|v: int| 0 <= v < 15 ==> #[trigger] counts[v] == value_count(s, v),
    ensures
        b == straight_of(s, required as nat, gap as int),
{
    let distinct = distinct_of(counts, Ghost(s));
    if distinct != required {
        return false;
    }
    if required == 5 && counts[2] > 0 && counts[3] > 0 && counts[4] > 0 && counts[5] > 0
        && counts[14] > 0 {
        return true;
    }
    if required == 4 && counts[2] > 0 && counts[3] > 0 && counts[4] > 0 && counts[14] > 0 {
        return true;
    }
    gaps_ok(counts, gap, Ghost(s))
}

/// Whether all non-stone cards share one suit class.
fn single_suit_class(cards: &[Card], smeared: bool) -> (b: bool)
    ensures
        b == one_suit_class(cards@, smeared),
{
    let mut first: Option<u8> = None;
    let mut same = true;
    let mut i: usize = 0;
    while i < cards.len()
        invariant
            i <= cards.len(),
            first is None ==> forall|j: int| 0 <= j < i ==> cards@[j].spec_is_stone(),
            first is Some ==> exists|j: int|
                0 <= j < i && !cards@[j].spec_is_stone() && spec_suit_bucket(cards@[j].suit, smeared)
                    == first->0,
            first is Some ==> (same == forall|j: int|
                0 <= j < i && !cards@[j].spec_is_stone() ==> spec_suit_bucket(cards@[j].suit, smeared)
                    == first->0),
            first is None ==> same,
        decreases cards.len() - i,
    {
        if !cards[i].is_stone() {
            let b = suit_bucket(cards[i].suit, smeared);
            match first {
                None => {
                    first = Some(b);
                },
                Some(f) => {
                    if b != f {
                        same = false;
                    }
                },
            }
        }
        i = i + 1;
    }
    proof {
        if first is Some {
            let f = first->0;
            if same {
                assert forall|a: int, b: int|
                    0 <= a < cards@.len() && 0 <= b < cards@.len() && !cards@[a].spec_is_stone()
                        && !cards@[b].spec_is_stone() implies #[trigger] spec_suit_bucket(
                    cards@[a].suit,
                    smeared,
                ) == #[trigger] spec_suit_bucket(cards@[b].suit, smeared) by {}
            } else {
                let j = choose|j: int|
                    0 <= j < cards@.len() && !cards@[j].spec_is_stone() && spec_suit_bucket(
                        cards@[j].suit,
                        smeared,
                    ) == f;
                let k = choose|k: int|
                    !(0 <= k < cards@.len() && !cards@[k].spec_is_stone() ==> spec_suit_bucket(
                        cards@[k].suit,
                        smeared,
                    ) == f);
                assert(spec_suit_bucket(cards@[j].suit, smeared) != spec_suit_bucket(
                    cards@[k].suit,
                    smeared,
                ));
            }
        }
    }
    same
}

fn ranked_len(cards: &[Card]) -> (n: usize)
    ensures
        n == ranked_count(cards@),
{
    let mut n: usize = 0;
    let mut i: usize = 0;
    while i < cards.len()
        invariant
            i <= cards.len(),
            n == ranked_count(cards@.take(i as int)),
            n <= i,
        decreases cards.len() - i,
    {
        let ghost prev = cards@.take(i as int);
        let ghost next = cards@.take(i + 1);
        assert(next.drop_last() =~= prev);
        if !cards[i].is_stone() {
            n = n + 1;
        }
        i = i + 1;
    }
    assert(cards@.take(cards.len() as int) =~= cards@);
    n
}

/// Hand category with default rules.
pub fn evaluate_hand(cards: &[Card]) -> (kind: HandKind)
    ensures
        kind == spec_hand_kind(
            cards@,
            HandEvalRules { smeared_suits: false, four_fingers: false, shortcut: false },
        ),
{
    evaluate_hand_with_rules(
        cards,
        HandEvalRules { smeared_suits: false, four_fingers: false, shortcut: false },
    )
}

/// Hand category of the played cards; stone cards are ignored.
pub fn evaluate_hand_with_rules(cards: &[Card], rules: HandEvalRules) -> (kind: HandKind)
    ensures
        kind == spec_hand_kind(cards@, rules),
{
    let len = ranked_len(cards);
    if len == 0 {
        return HandKind::HighCard;
    }
    let ghost s = cards@;
    let counts = value_counts(cards);
    let distinct = distinct_of(&counts, Ghost(s));
    let s5 = shape_of(&counts, 5, Ghost(s));
    let s4 = shape_of(&counts, 4, Ghost(s));
    let s3 = shape_of(&counts, 3, Ghost(s));
    let s2 = shape_of(&counts, 2, Ghost(s));
    let s1 = shape_of(&counts, 1, Ghost(s));
    let one_class = single_suit_class(cards, rules.smeared_suits);
    let is_flush = ((len == 5) || (rules.four_fingers && len == 4)) && one_class;
    let max_gap: u8 = if rules.shortcut {
        2
    } else {
        1
    };
    let is_straight = (len == 5 && is_straight_len(&counts, 5, max_gap, Ghost(s))) || (
    rules.four_fingers && len == 4 && is_straight_len(&counts, 4, max_gap, Ghost(s)));

    if len == 5 {
        if distinct == 1 && s5 == 1 && s4 == 0 && s3 == 0 && s2 == 0 && s1 == 0 {
            return if is_flush {
                HandKind::FlushFive
            } else {
                HandKind::FiveOfAKind
            };
        }
        if distinct == 2 && s5 == 0 && s4 == 1 && s3 == 0 && s2 == 0 && s1 == 1 {
            return HandKind::Quads;
        }
        if distinct == 2 && s5 == 0 && s4 == 0 && s3 == 1 && s2 == 1 && s1 == 0 {
            return if is_flush {
                HandKind::FlushHouse
            } else {
                HandKind::FullHouse
            };
        }
        if is_flush && is_straight {
            let royal = counts[10] > 0 && counts[11] > 0 && counts[12] > 0 && counts[13] > 0
                && counts[14] > 0;
            return if royal {
                HandKind::RoyalFlush
            } else {
                HandKind::StraightFlush
            };
        }
        if is_flush {
            return HandKind::Flush;
        }
        if is_straight {
            return HandKind::Straight;
        }
        if distinct == 3 && s5 == 0 && s4 == 0 && s3 == 1 && s2 == 0 && s1 == 2 {
            return HandKind::Trips;
        }
        if distinct == 3 && s5 == 0 && s4 == 0 && s3 == 0 && s2 == 2 && s1 == 1 {
            return HandKind::TwoPair;
        }
        if distinct == 4 && s5 == 0 && s4 == 0 && s3 == 0 && s2 == 1 && s1 == 3 {
            return HandKind::Pair;
        }
        return HandKind::HighCard;
    }
    if rules.four_fingers && len == 4 {
        if is_flush && is_straight {
            return HandKind::StraightFlush;
        }
        if is_flush {
            return HandKind::Flush;
        }
        if is_straight {
            return HandKind::Straight;
        }
    }
    if distinct == 1 && s5 == 0 && s4 == 1 && s3 == 0 && s2 == 0 && s1 == 0 {
        return HandKind::Quads;
    }
    if (distinct == 1 && s5 == 0 && s4 == 0 && s3 == 1 && s2 == 0 && s1 == 0) || (distinct == 2
        && s5 == 0 && s4 == 0 && s3 == 1 && s2 == 0 && s1 == 1) {
        return HandKind::Trips;
    }
    if distinct == 2 && s5 == 0 && s4 == 0 && s3 == 0 && s2 == 2 && s1 == 0 {
        return HandKind::TwoPair;
    }
    if (distinct == 1 && s5 == 0 && s4 == 0 && s3 == 0 && s2 == 1 && s1 == 0) || (distinct == 2
        && s5 == 0 && s4 == 0 && s3 == 0 && s2 == 1 && s1 == 1) || (distinct == 3 && s5 == 0 && s4
        == 0 && s3 == 0 && s2 == 1 && s1 == 2) {
        return HandKind::Pair;
    }
    HandKind::HighCard
}


// ---------------------------------------------------------------------------
// Scoring cards
// ---------------------------------------------------------------------------

/// Number of rank values in `lo..15` that occur exactly `c` times.
pub open spec fn shape_from(s: Seq<Card>, c: nat, lo: int) -> int {
    shape(s, c) - shape_below(s, c, lo)
}

/// The rank value `v` is one of the `groups` highest values occurring exactly `count` times.
pub open spec fn in_top_groups(s: Seq<Card>, v: int, count: nat, groups: nat) -> bool {
    value_count(s, v) == count && shape_from(s, count, v + 1) < groups
}

/// Card `i` is the first non-stone card of the highest rank value.
pub open spec fn is_top_card(s: Seq<Card>, i: int) -> bool {
    &&& 0 <= i < s.len()
    &&& !s[i].spec_is_stone()
    &&& forall|j: int|
        0 <= j < s.len() && !s[j].spec_is_stone() ==> spec_rank_value(#[trigger] s[j].rank)
            <= spec_rank_value(s[i].rank)
    &&& forall|j: int|
        0 <= j < i && !s[j].spec_is_stone() ==> spec_rank_value(#[trigger] s[j].rank)
            < spec_rank_value(s[i].rank)
}

/// Card `i` takes part in scoring a hand of the given kind: stone cards always do; the
/// highest card for a high card; the cards of the top rank group(s) for pairs, two pair,
/// trips and quads; every ranked card for the other kinds.
pub open spec fn card_scores(s: Seq<Card>, kind: HandKind, i: int) -> bool {
    s[i].spec_is_stone() || match kind {
        HandKind::HighCard => is_top_card(s, i),
        HandKind::Pair => in_top_groups(s, spec_rank_value(s[i].rank) as int, 2, 1),
        HandKind::TwoPair => in_top_groups(s, spec_rank_value(s[i].rank) as int, 2, 2),
        HandKind::Trips => in_top_groups(s, spec_rank_value(s[i].rank) as int, 3, 1),
        HandKind::Quads => in_top_groups(s, spec_rank_value(s[i].rank) as int, 4, 1),
        _ => true,
    }
}

proof fn lemma_shape_below_monotone(s: Seq<Card>, c: nat, a: int, b: int)
    requires
        a <= b,
    ensures
        shape_below(s, c, a) <= shape_below(s, c, b),
    decreases b - a,
{
    if a < b {
        lemma_shape_below_monotone(s, c, a, b - 1);
    }
}

/// Index of the first non-stone card of the highest rank value, if any.
fn highest_card_index(cards: &[Card]) -> (idx: Option<usize>)
    ensures
        idx is None ==> forall|j: int| 0 <= j < cards@.len() ==> cards@[j].spec_is_stone(),
        idx is Some ==> is_top_card(cards@, idx->0 as int),
{
    let mut best: Option<(usize, u8)> = None;
    let mut i: usize = 0;
    while i < cards.len()
        invariant
            i <= cards.len(),
            best is None ==> forall|j: int| 0 <= j < i ==> cards@[j].spec_is_stone(),
            best is Some ==> {
                let (b, bv) = best->0;
                &&& b < i
                &&& !cards@[b as int].spec_is_stone()
                &&& bv == spec_rank_value(cards@[b as int].rank)
                &&& forall|j: int|
                    0 <= j < i && !cards@[j].spec_is_stone() ==> spec_rank_value(
                        #[trigger] cards@[j].rank,
                    ) <= bv
                &&& forall|j: int|
                    0 <= j < b && !cards@[j].spec_is_stone() ==> spec_rank_value(
                        #[trigger] cards@[j].rank,
                    ) < bv
            },
        decreases cards.len() - i,
    {
        if !cards[i].is_stone() {
            let value = rank_value(cards[i].rank);
            let better = match best {
                Some((_, v)) => value > v,
                None => true,
            };
            if better {
                best = Some((i, value));
            }
        }
        i = i + 1;
    }
    match best {
        Some((b, _)) => Some(b),
        None => None,
    }
}

/// For every rank value, whether it is among the `groups` highest values that occur
/// exactly `count` times.
fn pick_values_by_count(counts: &Vec<usize>, count: usize, groups: usize, Ghost(s): Ghost<
    Seq<Card>,
>) -> (picked: Vec<bool>)
    requires
        counts.len() == 15,
        forall|v: int| 0 <= v < 15 ==> #[trigger] counts[v] == value_count(s, v),
    ensures
        picked.len() == 15,
        forall|v: int| 0 <= v < 15 ==> #[trigger] picked[v] == in_top_groups(
            s,
            v,
            count as nat,
            groups as nat,
        ),
{
    let total = shape_of(counts, count, Ghost(s));
    let mut below: usize = 0;
    let mut picked: Vec<bool> = Vec::new();
    let mut v: usize = 0;
    while v < 15
        invariant
            v <= 15,
            counts.len() == 15,
            forall|w: int| 0 <= w < 15 ==> #[trigger] counts[w] == value_count(s, w),
            total == shape(s, count as nat),
            below == shape_below(s, count as nat, v as int),
            below <= v,
            picked.len() == v,
            forall|w: int| 0 <= w < v ==> #[trigger] picked[w] == in_top_groups(
                s,
                w,
                count as nat,
                groups as nat,
            ),
        decreases 15 - v,
    {
        if counts[v] == count {
            below = below + 1;
        }
        proof {
            lemma_shape_below_monotone(s, count as nat, v + 1, 15);
        }
        let higher = total - below;
        picked.push(counts[v] == count && higher < groups);
        v = v + 1;
    }
    picked
}

/// Indices (ascending) of the played cards that score for a hand of kind `kind`.
pub fn scoring_cards(cards: &[Card], kind: HandKind) -> (out: Vec<usize>)
    ensures
        scoring_list(out@, cards@, kind),
{
    let mut out: Vec<usize> = Vec::new();
    if cards.len() == 0 {
        return out;
    }
    let ghost s = cards@;
    let counts = value_counts(cards);
    let top = highest_card_index(cards);
    let (count, groups): (usize, usize) = match kind {
        HandKind::Pair => (2, 1),
        HandKind::TwoPair => (2, 2),
        HandKind::Trips => (3, 1),
        HandKind::Quads => (4, 1),
        _ => (0, 0),
    };
    let picked = pick_values_by_count(&counts, count, groups, Ghost(s));
    let mut i: usize = 0;
    while i < cards.len()
        invariant
            i <= cards.len(),
            s == cards@,
            picked.len() == 15,
            forall|v: int| 0 <= v < 15 ==> #[trigger] picked[v] == in_top_groups(
                s,
                v,
                count as nat,
                groups as nat,
            ),
            match kind {
                HandKind::Pair => count == 2 && groups == 1,
                HandKind::TwoPair => count == 2 && groups == 2,
                HandKind::Trips => count == 3 && groups == 1,
                HandKind::Quads => count == 4 && groups == 1,
                _ => true,
            },
            top is None ==> forall|j: int| 0 <= j < s.len() ==> s[j].spec_is_stone(),
            top is Some ==> is_top_card(s, top->0 as int),
            forall|k: int| 0 <= k < out.len() ==> #[trigger] out[k] < i,
            forall|a: int, b: int| 0 <= a < b < out.len() ==> #[trigger] out[a] < #[trigger] out[b],
            forall|j: int| 0 <= j < i ==> (out@.contains(j as usize) <==> card_scores(s, kind, j)),
        decreases cards.len() - i,
    {
        let card = &cards[i];
        let member = if card.is_stone() {
            true
        } else {
            match kind {
                HandKind::HighCard => match top {
                    Some(t) => t == i,
                    None => false,
                },
                HandKind::Pair | HandKind::TwoPair | HandKind::Trips | HandKind::Quads => {
                    picked[rank_value(card.rank) as usize]
                },
                _ => true,
            }
        };
        proof {
            if kind == HandKind::HighCard && !card.spec_is_stone() {
                if let Some(t) = top {
                    if is_top_card(s, i as int) && t != i {
                        if (t as int) < (i as int) {
                            assert(spec_rank_value(s[t as int].rank) < spec_rank_value(s[i as int].rank));
                        } else {
                            assert(spec_rank_value(s[i as int].rank) < spec_rank_value(s[t as int].rank));
                        }
                    }
                }
            }
        }
        let ghost before = out@;
        if member {
            out.push(i);
        }
        proof {
            assert forall|j: int| 0 <= j < i + 1 implies (out@.contains(j as usize) <==> card_scores(s, kind, j)) by {
                if j < i {
                    if out@.contains(j as usize) {
                        let k = choose|k: int| 0 <= k < out@.len() && out@[k] == j as usize;
                        if k < before.len() {
                            assert(before.contains(j as usize));
                        }
                    }
                    if before.contains(j as usize) {
                        let k = choose|k: int| 0 <= k < before.len() && before[k] == j as usize;
                        assert(out@[k] == j as usize);
                    }
                } else {
                    if member {
                        assert(out@[out@.len() - 1] == i);
                    } else {
                        if out@.contains(i) {
                            let k = choose|k: int| 0 <= k < out@.len() && out@[k] == i;
                            assert(out@[k] < i);
                        }
                    }
                }
            }
        }
        i = i + 1;
    }
    out
}


/// `r` lists, in increasing order, exactly the indices of the cards of `s` that score in a
/// hand of kind `kind`.
pub open spec fn scoring_list(r: Seq<usize>, s: Seq<Card>, kind: HandKind) -> bool {
    &&& forall|k: int| 0 <= k < r.len() ==> #[trigger] r[k] < s.len()
    &&& forall|a: int, b: int| 0 <= a < b < r.len() ==> #[trigger] r[a] < #[trigger] r[b]
    &&& forall|i: int| 0 <= i < s.len() ==> (r.contains(i as usize) <==> card_scores(s, kind, i))
}

proof fn lemma_top_card_exists(s: Seq<Card>, w: int)
    requires
        0 <= w < s.len(),
        !s[w].spec_is_stone(),
    ensures
        exists|t: int| is_top_card(s, t),
    decreases s.len(),
{
    let d = s.drop_last();
    let last = s.len() - 1;
    if w == last && forall|j: int| 0 <= j < d.len() ==> d[j].spec_is_stone() {
        assert forall|j: int| 0 <= j < last implies s[j].spec_is_stone() by {
            assert(s[j] == d[j]);
        }
        assert(is_top_card(s, last));
    } else {
        let w2 = if w < last {
            w
        } else {
            choose|j: int| 0 <= j < d.len() && !d[j].spec_is_stone()
        };
        lemma_top_card_exists(d, w2);
        let t = choose|t: int| is_top_card(d, t);
        if !s[last].spec_is_stone() && spec_rank_value(s[last].rank) > spec_rank_value(d[t].rank) {
            assert forall|j: int| 0 <= j < s.len() && !s[j].spec_is_stone() implies spec_rank_value(
                #[trigger] s[j].rank,
            ) <= spec_rank_value(s[last].rank) by {
                if j < last {
                    assert(s[j] == d[j]);
                }
            }
            assert forall|j: int| 0 <= j < last && !s[j].spec_is_stone() implies spec_rank_value(
                #[trigger] s[j].rank,
            ) < spec_rank_value(s[last].rank) by {
                assert(s[j] == d[j]);
            }
            assert(is_top_card(s, last));
        } else {
            assert forall|j: int| 0 <= j < s.len() && !s[j].spec_is_stone() implies spec_rank_value(
                #[trigger] s[j].rank,
            ) <= spec_rank_value(s[t].rank) by {
                if j < last {
                    assert(s[j] == d[j]);
                }
            }
            assert forall|j: int| 0 <= j < t && !s[j].spec_is_stone() implies spec_rank_value(
                #[trigger] s[j].rank,
            ) < spec_rank_value(s[t].rank) by {
                assert(s[j] == d[j]);
            }
            assert(is_top_card(s, t));
        }
    }
}

proof fn lemma_identity_prefix(r: Seq<usize>, n: int, k: int)
    requires
        0 <= k < r.len(),
        k < n,
        forall|a: int, b: int| 0 <= a < b < r.len() ==> #[trigger] r[a] < #[trigger] r[b],
        forall|i: usize| (i as int) < n ==> #[trigger] r.contains(i),
    ensures
        forall|j: int| 0 <= j <= k ==> #[trigger] r[j] == j,
    decreases k,
{
    if k > 0 {
        lemma_identity_prefix(r, n, k - 1);
    }
    lemma_list_lower(r, k);
    assert(r.contains(k as usize));
    let a = choose|a: int| 0 <= a < r.len() && r[a] == k as usize;
    if a < k {
        assert(r[a] == a);
    } else if a > k {
        assert(r[k] < r[a]);
    }
}

proof fn lemma_identity_list(r: Seq<usize>, n: int)
    requires
        0 <= n <= usize::MAX,
        forall|k: int| 0 <= k < r.len() ==> #[trigger] r[k] < n,
        forall|a: int, b: int| 0 <= a < b < r.len() ==> #[trigger] r[a] < #[trigger] r[b],
        forall|i: usize| (i as int) < n ==> #[trigger] r.contains(i),
    ensures
        r == Seq::new(n as nat, |i: int| i as usize),
{
    if r.len() > n {
        if n > 0 {
            lemma_identity_prefix(r, n, n - 1);
            assert(r[n - 1] < r[n]);
        }
        assert(r[n] < n);
        lemma_list_lower(r, n);
    }
    if r.len() < n {
        assert(r.contains((n - 1) as usize));
        let a = choose|a: int| 0 <= a < r.len() && r[a] == (n - 1) as usize;
        lemma_identity_prefix(r, n, a);
    }
    assert(r.len() == n);
    if r.len() > 0 {
        lemma_identity_prefix(r, n, r.len() - 1);
    }
    assert forall|j: int| 0 <= j < r.len() implies r[j] == Seq::new(n as nat, |i: int| i as usize)[j] by {
        assert(r[j] == j);
    }
    assert(r =~= Seq::new(n as nat, |i: int| i as usize));
}

proof fn lemma_list_lower(r: Seq<usize>, k: int)
    requires
        0 <= k < r.len(),
        forall|a: int, b: int| 0 <= a < b < r.len() ==> #[trigger] r[a] < #[trigger] r[b],
    ensures
        r[k] >= k,
    decreases k,
{
    if k > 0 {
        lemma_list_lower(r, k - 1);
        assert(r[k - 1] < r[k]);
    }
}

/// What the scoring cards always are: every stone card scores; no card of an empty hand;
/// all the cards, in order, of a straight, flush or better; and of a high card exactly
/// one non-stone card, the first of the highest rank, when there is any (for a hand a
/// slice can hold).
pub proof fn law_scoring_cards(r: Seq<usize>, s: Seq<Card>, kind: HandKind)
    requires
        s.len() <= usize::MAX,
        scoring_list(r, s, kind),
    ensures
        forall|i: int| 0 <= i < s.len() && s[i].spec_is_stone() ==> r.contains(i as usize),
        s.len() == 0 ==> r.len() == 0,
        kind != HandKind::HighCard && kind != HandKind::Pair && kind != HandKind::TwoPair && kind
            != HandKind::Trips && kind != HandKind::Quads ==> r == Seq::new(s.len(), |i: int| i as usize),
        kind == HandKind::HighCard && (exists|w: int| 0 <= w < s.len() && !s[w].spec_is_stone()) ==> exists|t: int|
            {
                &&& r.contains(t as usize)
                &&& is_top_card(s, t)
                &&& forall|u: int|
                    0 <= u < s.len() && r.contains(u as usize) && !s[u].spec_is_stone() ==> u == t
            },
{
    if s.len() == 0 && r.len() > 0 {
        assert(r[0] < s.len());
    }
    assert forall|i: int| 0 <= i < s.len() && s[i].spec_is_stone() implies r.contains(i as usize) by {
        assert(card_scores(s, kind, i));
    }
    if kind != HandKind::HighCard && kind != HandKind::Pair && kind != HandKind::TwoPair && kind
        != HandKind::Trips && kind != HandKind::Quads {
        assert forall|i: usize| (i as int) < s.len() implies #[trigger] r.contains(i) by {
            assert(card_scores(s, kind, i as int));
        }
        lemma_identity_list(r, s.len() as int);
    }
    if kind == HandKind::HighCard && (exists|w: int| 0 <= w < s.len() && !s[w].spec_is_stone()) {
        let w = choose|w: int| 0 <= w < s.len() && !s[w].spec_is_stone();
        lemma_top_card_exists(s, w);
        let t = choose|t: int| is_top_card(s, t);
        assert(card_scores(s, kind, t));
        assert forall|u: int| 0 <= u < s.len() && r.contains(u as usize) && !s[u].spec_is_stone() implies u
            == t by {
            assert(card_scores(s, kind, u));
            assert(is_top_card(s, u));
            if u < t {
                assert(spec_rank_value(s[u].rank) < spec_rank_value(s[t].rank));
            } else if t < u {
                assert(spec_rank_value(s[t].rank) < spec_rank_value(s[u].rank));
            }
        }
    }
}

// ---------------------------------------------------------------------------
// Order and stone cards do not matter
// ---------------------------------------------------------------------------

/// Number of cards of `s` that `p` holds of.
pub open spec fn count_where(s: Seq<Card>, p: spec_fn(Card) -> bool) -> nat
    decreases s.len(),
{
    if s.len() == 0 {
        0
    } else {
        count_where(s.drop_last(), p) + if p(s.last()) {
            1nat
        } else {
            0nat
        }
    }
}

proof fn lemma_count_remove(s: Seq<Card>, p: spec_fn(Card) -> bool, k: int)
    requires
        0 <= k < s.len(),
    ensures
        count_where(s, p) == count_where(s.remove(k), p) + if p(s[k]) {
            1nat
        } else {
            0nat
        },
    decreases s.len(),
{
    if k == s.len() - 1 {
        assert(s.remove(k) =~= s.drop_last());
    } else {
        lemma_count_remove(s.drop_last(), p, k);
        assert(s.drop_last().remove(k) =~= s.remove(k).drop_last());
        assert(s.remove(k).last() == s.last());
    }
}

proof fn lemma_count_multiset(s: Seq<Card>, t: Seq<Card>, p: spec_fn(Card) -> bool)
    requires
        s.to_multiset() == t.to_multiset(),
    ensures
        count_where(s, p) == count_where(t, p),
    decreases s.len(),
{
    broadcast use vstd::seq_lib::group_to_multiset_ensures;

    if s.len() == 0 {
        assert(t.to_multiset().len() == 0);
        assert(t.len() == 0);
    } else {
        let x = s.last();
        assert(s.to_multiset().count(x) > 0);
        assert(t.contains(x));
        let k = choose|k: int| 0 <= k < t.len() && t[k] == x;
        vstd::seq_lib::to_multiset_remove(s, s.len() - 1);
        vstd::seq_lib::to_multiset_remove(t, k);
        assert(s.remove(s.len() - 1) =~= s.drop_last());
        lemma_count_multiset(s.drop_last(), t.remove(k), p);
        lemma_count_remove(t, p, k);
    }
}

proof fn lemma_count_stones(s: Seq<Card>, stones: Seq<Card>, p: spec_fn(Card) -> bool)
    requires
        forall|i: int| 0 <= i < stones.len() ==> !p(#[trigger] stones[i]),
    ensures
        count_where(s + stones, p) == count_where(s, p),
    decreases stones.len(),
{
    if stones.len() == 0 {
        assert(s + stones =~= s);
    } else {
        assert((s + stones).drop_last() =~= s + stones.drop_last());
        assert(!p(stones[stones.len() - 1]));
        lemma_count_stones(s, stones.drop_last(), p);
    }
}

proof fn lemma_value_count_is_count(s: Seq<Card>, v: int)
    ensures
        value_count(s, v) == count_where(s, |c: Card| !c.spec_is_stone() && spec_rank_value(c.rank) == v),
        ranked_count(s) == count_where(s, |c: Card| !c.spec_is_stone()),
    decreases s.len(),
{
    if s.len() > 0 {
        lemma_value_count_is_count(s.drop_last(), v);
    }
}

/// Two hands agree on everything evaluation reads: the number of non-stone cards, how
/// many of them have each rank value, and whether they fall in one suit class.
pub open spec fn same_ranked_cards(s: Seq<Card>, t: Seq<Card>) -> bool {
    &&& ranked_count(s) == ranked_count(t)
    &&& forall|v: int| #[trigger] value_count(s, v) == value_count(t, v)
    &&& forall|sm: bool| #[trigger] one_suit_class(s, sm) == one_suit_class(t, sm)
}

proof fn lemma_same_shapes(s: Seq<Card>, t: Seq<Card>, c: nat, n: int)
    requires
        forall|v: int| #[trigger] value_count(s, v) == value_count(t, v),
    ensures
        shape_below(s, c, n) == shape_below(t, c, n),
        distinct_below(s, n) == distinct_below(t, n),
    decreases n,
{
    if n > 0 {
        lemma_same_shapes(s, t, c, n - 1);
        assert(value_count(s, n - 1) == value_count(t, n - 1));
    }
}

proof fn lemma_same_kind(s: Seq<Card>, t: Seq<Card>, rules: HandEvalRules)
    requires
        same_ranked_cards(s, t),
    ensures
        spec_hand_kind(s, rules) == spec_hand_kind(t, rules),
{
    assert forall|c: nat| shape(s, c) == shape(t, c) by {
        lemma_same_shapes(s, t, c, 15);
    }
    lemma_same_shapes(s, t, 0, 15);
    assert forall|v: int| value_present(s, v) == value_present(t, v) by {
        assert(value_count(s, v) == value_count(t, v));
    }
    assert forall|g: int| gaps_within(s, g) == gaps_within(t, g) by {
        assert forall|a: int, b: int| value_present(s, a) == value_present(t, a) && value_present(s, b)
            == value_present(t, b) by {
            assert(value_count(s, a) == value_count(t, a));
            assert(value_count(s, b) == value_count(t, b));
        }
    }
    assert(one_suit_class(s, rules.smeared_suits) == one_suit_class(t, rules.smeared_suits));
}

/// Hand evaluation reads only the non-stone cards, whatever their order: a hand and any
/// reordering of it evaluate alike, adding stone cards changes nothing, a hand without
/// non-stone cards is a high card, and four fingers matter only for four non-stone cards.
pub proof fn law_hand_order_and_stones(
    cards: Seq<Card>,
    perm: Seq<Card>,
    stones: Seq<Card>,
    rules: HandEvalRules,
)
    requires
        perm.to_multiset() == cards.to_multiset(),
        forall|i: int| 0 <= i < stones.len() ==> (#[trigger] stones[i]).spec_is_stone(),
    ensures
        spec_hand_kind(perm, rules) == spec_hand_kind(cards, rules),
        spec_hand_kind(cards + stones, rules) == spec_hand_kind(cards, rules),
        ranked_count(cards) == 0 ==> spec_hand_kind(cards, rules) == HandKind::HighCard,
        ranked_count(cards) != 4 ==> spec_hand_kind(cards, rules) == spec_hand_kind(
            cards,
            HandEvalRules { four_fingers: false, ..rules },
        ),
{
    let all = cards + stones;
    assert forall|v: int| #[trigger] value_count(perm, v) == value_count(cards, v) by {
        lemma_value_count_is_count(perm, v);
        lemma_value_count_is_count(cards, v);
        lemma_count_multiset(perm, cards, |c: Card| !c.spec_is_stone() && spec_rank_value(c.rank) == v);
    }
    assert forall|v: int| #[trigger] value_count(all, v) == value_count(cards, v) by {
        lemma_value_count_is_count(all, v);
        lemma_value_count_is_count(cards, v);
        lemma_count_stones(cards, stones, |c: Card| !c.spec_is_stone() && spec_rank_value(c.rank) == v);
    }
    lemma_value_count_is_count(perm, 0);
    lemma_value_count_is_count(cards, 0);
    lemma_value_count_is_count(all, 0);
    lemma_count_multiset(perm, cards, |c: Card| !c.spec_is_stone());
    lemma_count_stones(cards, stones, |c: Card| !c.spec_is_stone());
    assert forall|sm: bool| #[trigger] one_suit_class(perm, sm) == one_suit_class(cards, sm) by {
        if one_suit_class(cards, sm) {
            lemma_suit_class_multiset(perm, cards, sm);
        }
        if one_suit_class(perm, sm) {
            lemma_suit_class_multiset(cards, perm, sm);
        }
    }
    assert forall|sm: bool| #[trigger] one_suit_class(all, sm) == one_suit_class(cards, sm) by {
        if one_suit_class(cards, sm) {
            assert forall|i: int, j: int|
                0 <= i < all.len() && 0 <= j < all.len() && !all[i].spec_is_stone() && !all[j].spec_is_stone()
                    implies #[trigger] spec_suit_bucket(all[i].suit, sm) == #[trigger] spec_suit_bucket(
                all[j].suit,
                sm,
            ) by {
                if i >= cards.len() {
                    assert(all[i] == stones[i - cards.len()]);
                }
                if j >= cards.len() {
                    assert(all[j] == stones[j - cards.len()]);
                }
                assert(all[i] == cards[i] && all[j] == cards[j]);
            }
        }
        if one_suit_class(all, sm) {
            assert forall|i: int, j: int|
                0 <= i < cards.len() && 0 <= j < cards.len() && !cards[i].spec_is_stone()
                    && !cards[j].spec_is_stone() implies #[trigger] spec_suit_bucket(cards[i].suit, sm)
                == #[trigger] spec_suit_bucket(cards[j].suit, sm) by {
                assert(all[i] == cards[i] && all[j] == cards[j]);
            }
        }
    }
    lemma_same_kind(perm, cards, rules);
    lemma_same_kind(all, cards, rules);
}

proof fn lemma_suit_class_multiset(s: Seq<Card>, t: Seq<Card>, sm: bool)
    requires
        s.to_multiset() == t.to_multiset(),
        one_suit_class(t, sm),
    ensures
        one_suit_class(s, sm),
{
    broadcast use vstd::seq_lib::group_to_multiset_ensures;

    assert forall|i: int, j: int|
        0 <= i < s.len() && 0 <= j < s.len() && !s[i].spec_is_stone() && !s[j].spec_is_stone()
            implies #[trigger] spec_suit_bucket(s[i].suit, sm) == #[trigger] spec_suit_bucket(
            s[j].suit,
            sm,
        ) by {
        assert(s.to_multiset().count(s[i]) > 0);
        assert(s.to_multiset().count(s[j]) > 0);
        assert(t.contains(s[i]));
        assert(t.contains(s[j]));
        let a = choose|a: int| 0 <= a < t.len() && t[a] == s[i];
        let b = choose|b: int| 0 <= b < t.len() && t[b] == s[j];
        assert(spec_suit_bucket(t[a].suit, sm) == spec_suit_bucket(t[b].suit, sm));
    }
}

// ---------------------------------------------------------------------------
// Straight flushes and grouped scoring
// ---------------------------------------------------------------------------

/// Some non-stone card of `s` has a rank of value `v` exactly when `v` is present.
proof fn lemma_present_iff(s: Seq<Card>, v: int)
    ensures
        value_count(s, v) > 0 <==> exists|i: int|
            0 <= i < s.len() && !s[i].spec_is_stone() && spec_rank_value(#[trigger] s[i].rank) == v,
    decreases s.len(),
{
    if s.len() > 0 {
        let t = s.drop_last();
        lemma_present_iff(t, v);
        if value_count(t, v) > 0 {
            let i = choose|i: int| 0 <= i < t.len() && !t[i].spec_is_stone() && spec_rank_value(#[trigger] t[i].rank) == v;
            assert(s[i] == t[i]);
        }
        if exists|i: int| 0 <= i < s.len() && !s[i].spec_is_stone() && spec_rank_value(#[trigger] s[i].rank) == v {
            let i = choose|i: int| 0 <= i < s.len() && !s[i].spec_is_stone() && spec_rank_value(#[trigger] s[i].rank) == v;
            if i < s.len() - 1 {
                assert(t[i] == s[i]);
            }
        }
    }
}

/// Adding the last card adds at most its own value to the distinct values below `n`.
proof fn lemma_distinct_step(s: Seq<Card>, n: int)
    requires
        s.len() > 0,
    ensures
        distinct_below(s, n) <= distinct_below(s.drop_last(), n) + if !s.last().spec_is_stone() && spec_rank_value(
            s.last().rank,
        ) < n {
            1int
        } else {
            0int
        },
    decreases n,
{
    if n > 0 {
        lemma_distinct_step(s, n - 1);
    }
}

/// A hand with no cards has no rank values.
proof fn lemma_distinct_empty(s: Seq<Card>, n: int)
    requires
        s.len() == 0,
    ensures
        distinct_below(s, n) == 0,
    decreases n,
{
    if n > 0 {
        lemma_distinct_empty(s, n - 1);
    }
}

/// There are no more distinct rank values than non-stone cards.
proof fn lemma_distinct_le_ranked(s: Seq<Card>, n: int)
    ensures
        distinct_below(s, n) <= ranked_count(s),
    decreases s.len(),
{
    if s.len() == 0 {
        lemma_distinct_empty(s, n);
    } else {
        lemma_distinct_step(s, n);
        lemma_distinct_le_ranked(s.drop_last(), n);
    }
}

/// How many values below `n` the predicate `w` holds of.
pub open spec fn hits_below(w: spec_fn(int) -> bool, n: int) -> nat
    decreases n,
{
    if n <= 0 {
        0
    } else {
        hits_below(w, n - 1) + if w(n - 1) {
            1nat
        } else {
            0nat
        }
    }
}

/// Every value `w` holds of is present, so at least that many distinct values are.
proof fn lemma_distinct_ge_hits(s: Seq<Card>, w: spec_fn(int) -> bool, n: int)
    requires
        forall|v: int| #[trigger] w(v) ==> value_count(s, v) > 0,
    ensures
        distinct_below(s, n) >= hits_below(w, n),
    decreases n,
{
    if n > 0 {
        lemma_distinct_ge_hits(s, w, n - 1);
    }
}

proof fn lemma_hits_window(lo: int, n: int)
    requires
        n >= 0,
        lo >= 0,
    ensures
        hits_below(|v: int| lo <= v < lo + 5, n) == if n <= lo {
            0
        } else if n >= lo + 5 {
            5
        } else {
            n - lo
        },
    decreases n,
{
    if n > 0 {
        lemma_hits_window(lo, n - 1);
    }
}

proof fn lemma_hits_wheel(n: int)
    requires
        n >= 0,
    ensures
        hits_below(|v: int| v == 14 || 2 <= v <= 5, n) == if n <= 2 {
            0
        } else if n <= 6 {
            n - 2
        } else if n <= 14 {
            4
        } else {
            5
        },
    decreases n,
{
    if n > 0 {
        lemma_hits_wheel(n - 1);
    }
}

proof fn lemma_ranked_is_count(s: Seq<Card>)
    ensures
        ranked_count(s) == count_where(s, |c: Card| !c.spec_is_stone()),
{
    lemma_value_count_is_count(s, 0);
}

/// Some non-stone card of `s` has a rank of value `v`.
pub open spec fn holds_rank_value(s: Seq<Card>, v: int) -> bool {
    exists|i: int| 0 <= i < s.len() && !s[i].spec_is_stone() && spec_rank_value(#[trigger] s[i].rank) == v
}

/// Five cards of one suit class whose rank values run in a row make a straight flush
/// (a royal flush from ten to ace), never a plain flush or straight: the hand has exactly
/// five non-stone cards, all in one suit class, and their rank values are the five values
/// `lo..lo + 5` (each one of them occurs), or ace, two, three, four and five.
pub proof fn law_straight_flush(s: Seq<Card>, rules: HandEvalRules, lo: int)
    requires
        count_where(s, |c: Card| !c.spec_is_stone()) == 5,
        forall|i: int, j: int|
            0 <= i < s.len() && 0 <= j < s.len() && !s[i].spec_is_stone() && !s[j].spec_is_stone()
                ==> spec_suit_bucket(#[trigger] s[i].suit, rules.smeared_suits) == spec_suit_bucket(
                #[trigger] s[j].suit,
                rules.smeared_suits,
            ),
        ({
            &&& 2 <= lo <= 10
            &&& forall|i: int| 0 <= i < s.len() && !s[i].spec_is_stone() ==> lo <= spec_rank_value(#[trigger] s[i].rank) < lo + 5
            &&& forall|v: int| lo <= v < lo + 5 ==> #[trigger] holds_rank_value(s, v)
        }) || ({
            &&& forall|i: int| 0 <= i < s.len() && !s[i].spec_is_stone() ==> spec_rank_value(#[trigger] s[i].rank) == 14
                || 2 <= spec_rank_value(s[i].rank) <= 5
            &&& forall|v: int| (v == 14 || 2 <= v <= 5) ==> #[trigger] holds_rank_value(s, v)
        }),
    ensures
        spec_hand_kind(s, rules) == HandKind::StraightFlush || spec_hand_kind(s, rules) == HandKind::RoyalFlush,
{
    lemma_ranked_is_count(s);
    assert(ranked_count(s) == 5);
    lemma_distinct_le_ranked(s, 15);
    assert forall|v: int| value_count(s, v) > 0 <==> exists|i: int|
        0 <= i < s.len() && !s[i].spec_is_stone() && spec_rank_value(#[trigger] s[i].rank) == v by {
        lemma_present_iff(s, v);
    }
    let window = |v: int| lo <= v < lo + 5;
    let wheel = |v: int| v == 14 || 2 <= v <= 5;
    let in_window = 2 <= lo <= 10 && (forall|i: int| 0 <= i < s.len() && !s[i].spec_is_stone() ==> lo <= spec_rank_value(#[trigger] s[i].rank) < lo + 5)
        && (forall|v: int| lo <= v < lo + 5 ==> #[trigger] holds_rank_value(s, v));
    if in_window {
        assert forall|v: int| #[trigger] window(v) implies value_count(s, v) > 0 by {
            assert(holds_rank_value(s, v));
        }
        lemma_distinct_ge_hits(s, window, 15);
        lemma_hits_window(lo, 15);
        assert(distinct_values(s) == 5);
        let gap: int = if rules.shortcut { 2 } else { 1 };
        assert forall|a: int, b: int|
            0 <= a < b < 15 && #[trigger] value_present(s, a) && #[trigger] value_present(s, b) && (
            forall|c: int| a < c < b ==> !value_present(s, c)) implies b - a <= gap by {
            assert(value_count(s, a) > 0);
            assert(value_count(s, b) > 0);
            let ia = choose|i: int| 0 <= i < s.len() && !s[i].spec_is_stone() && spec_rank_value(#[trigger] s[i].rank) == a;
            let ib = choose|i: int| 0 <= i < s.len() && !s[i].spec_is_stone() && spec_rank_value(#[trigger] s[i].rank) == b;
            assert(lo <= spec_rank_value(s[ia].rank) < lo + 5);
            assert(lo <= spec_rank_value(s[ib].rank) < lo + 5);
            if b - a >= 2 {
                assert(window(a + 1));
                assert(value_count(s, a + 1) > 0);
                assert(!value_present(s, a + 1));
            }
        }
        assert(straight_of(s, 5, gap));
    } else {
        assert forall|v: int| #[trigger] wheel(v) implies value_count(s, v) > 0 by {
            assert(holds_rank_value(s, v));
        }
        lemma_distinct_ge_hits(s, wheel, 15);
        lemma_hits_wheel(15);
        assert(distinct_values(s) == 5);
        assert(wheel(2) && wheel(3) && wheel(4) && wheel(5) && wheel(14));
        assert(value_present(s, 2) && value_present(s, 3) && value_present(s, 4) && value_present(s, 5)
            && value_present(s, 14));
        assert(straight_of(s, 5, if rules.shortcut { 2 } else { 1 }));
    }
    assert(one_suit_class(s, rules.smeared_suits));
    assert(!counts_are(s, 1, 1, 0, 0, 0, 0));
    assert(!counts_are(s, 2, 0, 1, 0, 0, 1));
    assert(!counts_are(s, 2, 0, 0, 1, 1, 0));
}

/// For a pair, two pair, trips or quads only the cards of the paired, tripled or
/// quadrupled ranks score besides stones: a non-stone card scores only if its rank occurs
/// among the non-stone cards exactly as often as the hand's group size (two, two, three,
/// four), so kickers never score.
pub proof fn law_grouped_scoring(r: Seq<usize>, s: Seq<Card>, kind: HandKind, i: int)
    requires
        scoring_list(r, s, kind),
        kind == HandKind::Pair || kind == HandKind::TwoPair || kind == HandKind::Trips || kind == HandKind::Quads,
        0 <= i < s.len(),
        !s[i].spec_is_stone(),
        r.contains(i as usize),
    ensures
        count_where(s, |c: Card| !c.spec_is_stone() && c.rank == s[i].rank) == (if kind == HandKind::Trips {
            3int
        } else if kind == HandKind::Quads {
            4int
        } else {
            2int
        }),
{
    assert(card_scores(s, kind, i));
    let v = spec_rank_value(s[i].rank) as int;
    lemma_value_count_is_count(s, v);
    let p = |c: Card| !c.spec_is_stone() && spec_rank_value(c.rank) == v;
    let q = |c: Card| !c.spec_is_stone() && c.rank == s[i].rank;
    assert forall|c: Card| #[trigger] p(c) == q(c) by {
        match c.rank {
            _ => {},
        }
    }
    assert(p =~= q);
}

} // verus!
