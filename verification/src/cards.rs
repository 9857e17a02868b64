use vstd::prelude::*;

verus! {

/// The four French suits plus a wildcard suit.
#[derive(Debug, Clone, Copy, PartialEq, Eq, Hash, Structural)]
pub enum Suit {
    Spades,
    Hearts,
    Clubs,
    Diamonds,
    Wild,
}

#[derive(Debug, Clone, Copy, PartialEq, Eq, Hash, Structural)]
pub enum Rank {
    Ace,
    Two,
    Three,
    Four,
    Five,
    Six,
    Seven,
    Eight,
    Nine,
    Ten,
    Jack,
    Queen,
    King,
    Joker,
}

#[derive(Debug, Clone, Copy, PartialEq, Eq, Hash, Structural)]
pub enum Enhancement {
    Bonus,
    Mult,
    Wild,
    Glass,
    Steel,
    Stone,
    Lucky,
    Gold,
}

#[derive(Debug, Clone, Copy, PartialEq, Eq, Hash, Structural)]
pub enum Edition {
    Foil,
    Holographic,
    Polychrome,
    Negative,
}

#[derive(Debug, Clone, Copy, PartialEq, Eq, Hash, Structural)]
pub enum Seal {
    Red,
    Blue,
    Gold,
    Purple,
}

/// A playing card with its optional modifiers.
#[derive(Debug, Clone, Copy, PartialEq, Eq, Hash, Structural)]
pub struct Card {
    pub suit: Suit,
    pub rank: Rank,
    pub enhancement: Option<Enhancement>,
    pub edition: Option<Edition>,
    pub seal: Option<Seal>,
    pub bonus_chips: i64,
    /// Face-down cards are hidden from the player until they leave the hand.
    pub face_down: bool,
}

impl Card {
    pub open spec fn spec_is_wild(self) -> bool {
        self.enhancement == Some(Enhancement::Wild) || self.suit == Suit::Wild
    }

    pub open spec fn spec_is_stone(self) -> bool {
        self.enhancement == Some(Enhancement::Stone)
    }

    /// A face-up card of the given suit and rank with no modifiers.
    pub fn standard(suit: Suit, rank: Rank) -> (card: Self)
        ensures
            card == (Card {
                suit,
                rank,
                enhancement: None,
                edition: None,
                seal: None,
                bonus_chips: 0,
                face_down: false,
            }),
    {
        Card {
            suit,
            rank,
            enhancement: None,
            edition: None,
            seal: None,
            bonus_chips: 0,
            face_down: false,
        }
    }

    /// Wild through its enhancement or through its suit.
    pub fn is_wild(&self) -> (b: bool)
        ensures
            b == self.spec_is_wild(),
    {
        let by_enhancement = match self.enhancement {
            Some(Enhancement::Wild) => true,
            _ => false,
        };
        let by_suit = match self.suit {
            Suit::Wild => true,
            _ => false,
        };
        by_enhancement || by_suit
    }

    /// Stone cards always score but have no rank for hand evaluation.
    pub fn is_stone(&self) -> (b: bool)
        ensures
            b == self.spec_is_stone(),
    {
        match self.enhancement {
            Some(Enhancement::Stone) => true,
            _ => false,
        }
    }
}

/// What a card slot in a pack or shop holds.
#[derive(Debug, Clone, PartialEq, Eq, Hash)]
pub enum CardKind {
    Standard(Card),
    Joker(Card),
    Consumable(String),
}

} // verus!
