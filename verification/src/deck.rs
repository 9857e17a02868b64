use crate::cards::{Card, Rank, Suit};
use crate::rng::{is_order_of, reorder, RngState};
use vstd::prelude::*;

verus! {

/// Suit of the `i`-th suit block of a fresh deck.
pub open spec fn standard_suit(i: int) -> Suit {
    if i == 0 {
        Suit::Spades
    } else if i == 1 {
        Suit::Hearts
    } else if i == 2 {
        Suit::Clubs
    } else {
        Suit::Diamonds
    }
}

/// Rank of the `j`-th card within a suit block of a fresh deck (ace first, king last).
pub open spec fn standard_rank(j: int) -> Rank {
    if j == 0 {
        Rank::Ace
    } else if j == 1 {
        Rank::Two
    } else if j == 2 {
        Rank::Three
    } else if j == 3 {
        Rank::Four
    } else if j == 4 {
        Rank::Five
    } else if j == 5 {
        Rank::Six
    } else if j == 6 {
        Rank::Seven
    } else if j == 7 {
        Rank::Eight
    } else if j == 8 {
        Rank::Nine
    } else if j == 9 {
        Rank::Ten
    } else if j == 10 {
        Rank::Jack
    } else if j == 11 {
        Rank::Queen
    } else {
        Rank::King
    }
}

/// A plain card with no modifiers.
pub open spec fn plain_card(suit: Suit, rank: Rank) -> Card {
    Card {
        suit,
        rank,
        enhancement: None,
        edition: None,
        seal: None,
        bonus_chips: 0,
        face_down: false,
    }
}

/// The 52 cards of a fresh deck: each suit in turn, ace to king.
pub open spec fn standard_deck() -> Seq<Card> {
    Seq::new(52, |k: int| plain_card(standard_suit(k / 13), standard_rank(k % 13)))
}

/// The cards `draw_cards(count)` hands out: the top `count` (or fewer) cards, topmost first.
pub open spec fn drawn(pile: Seq<Card>, count: nat) -> Seq<Card> {
    let k = if count <= pile.len() {
        count as int
    } else {
        pile.len() as int
    };
    pile.subrange(pile.len() - k, pile.len() as int).reverse()
}

/// What remains of the pile after `drawn(pile, count)`.
pub open spec fn after_draw(pile: Seq<Card>, count: nat) -> Seq<Card> {
    let k = if count <= pile.len() {
        count as int
    } else {
        pile.len() as int
    };
    pile.subrange(0, pile.len() - k)
}

/// A card as it lies in the discard pile: face up.
pub open spec fn face_up(card: Card) -> Card {
    Card { face_down: false, ..card }
}

/// Draw pile (top is the end of the vector) and discard pile.
#[derive(Debug, Default, Clone)]
pub struct Deck {
    pub draw: Vec<Card>,
    pub discard: Vec<Card>,
}

pub(crate) fn suit_at(i: usize) -> (suit: Suit)
    requires
        i < 4,
    ensures
        suit == standard_suit(i as int),
{
    if i == 0 {
        Suit::Spades
    } else if i == 1 {
        Suit::Hearts
    } else if i == 2 {
        Suit::Clubs
    } else {
        Suit::Diamonds
    }
}

pub(crate) fn rank_at(j: usize) -> (rank: Rank)
    requires
        j < 13,
    ensures
        rank == standard_rank(j as int),
{
    if j == 0 {
        Rank::Ace
    } else if j == 1 {
        Rank::Two
    } else if j == 2 {
        Rank::Three
    } else if j == 3 {
        Rank::Four
    } else if j == 4 {
        Rank::Five
    } else if j == 5 {
        Rank::Six
    } else if j == 6 {
        Rank::Seven
    } else if j == 7 {
        Rank::Eight
    } else if j == 8 {
        Rank::Nine
    } else if j == 9 {
        Rank::Ten
    } else if j == 10 {
        Rank::Jack
    } else if j == 11 {
        Rank::Queen
    } else {
        Rank::King
    }
}

proof fn lemma_block_index(i: int, j: int)
    requires
        0 <= i,
        0 <= j < 13,
    ensures
        (i * 13 + j) / 13 == i,
        (i * 13 + j) % 13 == j,
{
    assert((i * 13 + j) / 13 == i && (i * 13 + j) % 13 == j) by (nonlinear_arith)
        requires
            0 <= i,
            0 <= j < 13,
    ;
}

impl Deck {
    /// A fresh 52-card deck in suit order with an empty discard pile.
    pub fn standard52() -> (deck: Self)
        ensures
            deck.draw@ == standard_deck(),
            deck.discard@ == Seq::<Card>::empty(),
    {
        let mut draw: Vec<Card> = Vec::with_capacity(52);
        let mut i: usize = 0;
        while i < 4
            invariant
                i <= 4,
                draw.len() == i * 13,
                forall|k: int|
                    0 <= k < draw.len() ==> #[trigger] draw@[k] == plain_card(
                        standard_suit(k / 13),
                        standard_rank(k % 13),
                    ),
            decreases 4 - i,
        {
            let suit = suit_at(i);
            let mut j: usize = 0;
            while j < 13
                invariant
                    i < 4,
                    j <= 13,
                    suit == standard_suit(i as int),
                    draw.len() == i * 13 + j,
                    forall|k: int|
                        0 <= k < draw.len() ==> #[trigger] draw@[k] == plain_card(
                            standard_suit(k / 13),
                            standard_rank(k % 13),
                        ),
                decreases 13 - j,
            {
                proof {
                    lemma_block_index(i as int, j as int);
                }
                draw.push(Card::standard(suit, rank_at(j)));
                j = j + 1;
            }
            i = i + 1;
        }
        assert(draw@ =~= standard_deck());
        Deck { draw, discard: Vec::new() }
    }

    /// Shuffle the draw pile; the discard pile is untouched. The pile is put in the order
    /// the generator draws, the order the generator then records; which order that is
    /// depends on the generator's state, so it is not stated.
    pub fn shuffle(&mut self, rng: &mut RngState)
        ensures
            final(self).draw@.to_multiset() == old(self).draw@.to_multiset(),
            final(self).draw@.len() == old(self).draw@.len(),
            final(self).discard@ == old(self).discard@,
            final(rng).spec_seed() == old(rng).spec_seed(),
            is_order_of(final(rng).spec_last_order(), old(self).draw@.len()),
            final(self).draw@ == reorder(old(self).draw@, final(rng).spec_last_order()),
    {
        rng.shuffle(&mut self.draw);
    }

    /// Take up to `count` cards off the top of the draw pile, topmost first.
    pub fn draw_cards(&mut self, count: usize) -> (cards: Vec<Card>)
        ensures
            cards@ == drawn(old(self).draw@, count as nat),
            final(self).draw@ == after_draw(old(self).draw@, count as nat),
            final(self).discard@ == old(self).discard@,
    {
        let ghost pile = self.draw@;
        let mut cards: Vec<Card> = Vec::with_capacity(count);
        let mut taken: usize = 0;
        while taken < count
            invariant
                taken <= count,
                taken <= pile.len(),
                self.discard@ == old(self).discard@,
                pile == old(self).draw@,
                self.draw@ == pile.subrange(0, pile.len() - taken),
                cards@ == pile.subrange(pile.len() - taken, pile.len() as int).reverse(),
            ensures
                taken <= count,
                taken <= pile.len(),
                taken == count || taken == pile.len(),
                self.discard@ == old(self).discard@,
                self.draw@ == pile.subrange(0, pile.len() - taken),
                cards@ == pile.subrange(pile.len() - taken, pile.len() as int).reverse(),
            decreases count - taken,
        {
            match self.draw.pop() {
                Some(card) => {
                    let ghost before = cards@;
                    assert(card == pile[pile.len() - taken - 1]);
                    cards.push(card);
                    taken = taken + 1;
                    let ghost sub = pile.subrange(pile.len() - taken, pile.len() as int);
                    assert forall|k: int| 0 <= k < cards@.len() implies cards@[k] == sub.reverse()[k] by {
                        if k < before.len() {
                            assert(before[k] == pile.subrange(pile.len() - (taken - 1), pile.len() as int).reverse()[k]);
                        }
                    }
                    assert(cards@ =~= sub.reverse());
                },
                None => {
                    break;
                },
            }
        }
        cards
    }

    /// Put cards on the discard pile, face up, after the cards already there.
    pub fn discard(&mut self, cards: Vec<Card>)
        ensures
            final(self).discard@ == old(self).discard@ + cards@.map_values(|c: Card| face_up(c)),
            final(self).draw@ == old(self).draw@,
    {
        let mut i: usize = 0;
        while i < cards.len()
            invariant
                i <= cards.len(),
                self.draw@ == old(self).draw@,
                self.discard@ == old(self).discard@ + cards@.subrange(0, i as int).map_values(
                    |c: Card| face_up(c),
                ),
            decreases cards.len() - i,
        {
            let mut card = cards[i];
            card.face_down = false;
            self.discard.push(card);
            i = i + 1;
            assert(cards@.subrange(0, i as int).map_values(|c: Card| face_up(c)) =~= cards@.subrange(
                0,
                i - 1,
            ).map_values(|c: Card| face_up(c)).push(face_up(cards@[i - 1])));
        }
        assert(cards@.subrange(0, cards.len() as int) =~= cards@);
    }

    /// Move the discard pile into the draw pile and shuffle it, unless the discard pile
    /// is empty, in which case nothing changes.
    pub fn reshuffle_discard(&mut self, rng: &mut RngState)
        ensures
            old(self).discard@.len() == 0 ==> final(self).draw@ == old(self).draw@
                && final(self).discard@ == old(self).discard@ && *final(rng) == *old(rng),
            old(self).discard@.len() > 0 ==> final(self).discard@.len() == 0
                && final(self).draw@.to_multiset() == (old(self).draw@
                + old(self).discard@).to_multiset()
                && final(self).draw@.len() == old(self).draw@.len() + old(self).discard@.len(),
            old(self).discard@.len() > 0 ==> is_order_of(
                final(rng).spec_last_order(),
                old(self).draw@.len() + old(self).discard@.len(),
            ) && final(self).draw@ == reorder(old(self).draw@ + old(self).discard@, final(rng).spec_last_order()),
            final(rng).spec_seed() == old(rng).spec_seed(),
    {
        if self.discard.len() == 0 {
            return;
        }
        self.draw.append(&mut self.discard);
        rng.shuffle(&mut self.draw);
    }
}

/// Drawing splits the pile: the cards left, followed by the cards drawn put back in pile
/// order, are the pile; as many cards are drawn as asked for, or all there are.
pub proof fn law_draw_splits_pile(pile: Seq<Card>, count: nat)
    ensures
        after_draw(pile, count) + drawn(pile, count).reverse() == pile,
        drawn(pile, count).len() == if count <= pile.len() {
            count as int
        } else {
            pile.len() as int
        },
{
    let k = if count <= pile.len() {
        count as int
    } else {
        pile.len() as int
    };
    let top = pile.subrange(pile.len() - k, pile.len() as int);
    assert(top.reverse().reverse() =~= top);
    assert(pile.subrange(0, pile.len() - k) + top =~= pile);
}

} // verus!
