//! Balance tables of the game configuration: rank chips, ante targets, shop weights and
//! prices, the economy and the built-in seal stats.
use crate::cards::Rank;
use crate::effects::JokerRarity;
use crate::text::str_eq;
use vstd::prelude::*;

verus! {

/// Chips a rank scores.
#[derive(Debug, Clone, Copy, PartialEq, Eq, Structural)]
pub struct RankRule {
    pub rank: Rank,
    pub chips: i64,
}

/// Base score target of an ante.
#[derive(Debug, Clone, Copy, PartialEq, Eq, Structural)]
pub struct AnteRule {
    pub ante: u8,
    pub base_target: i64,
}

/// Kinds of single cards a shop offers.
#[derive(Debug, Clone, Copy, PartialEq, Eq, Structural)]
pub enum ShopCardKind {
    Joker,
    Tarot,
    Planet,
}

#[derive(Debug, Clone, Copy, PartialEq, Eq, Structural)]
pub struct CardWeight {
    pub kind: ShopCardKind,
    pub weight: u32,
}

#[derive(Debug, Clone, Copy, PartialEq, Eq, Structural)]
pub struct JokerRarityWeight {
    pub rarity: JokerRarity,
    pub weight: u32,
}

#[derive(Debug, Clone, Copy, PartialEq, Eq, Structural)]
pub enum PackKind {
    Arcana,
    Buffoon,
    Celestial,
    Spectral,
    Standard,
}

#[derive(Debug, Clone, Copy, PartialEq, Eq, Structural)]
pub enum PackSize {
    Normal,
    Jumbo,
    Mega,
}

#[derive(Debug, Clone, Copy, PartialEq, Eq, Structural)]
pub struct PackWeight {
    pub kind: PackKind,
    pub size: PackSize,
    pub weight: u32,
    pub options: u8,
    pub picks: u8,
}

#[derive(Debug, Clone, Copy, PartialEq, Eq, Structural)]
pub struct PriceRange {
    pub min: i64,
    pub max: i64,
}

#[derive(Debug, Clone, Copy, PartialEq, Eq, Structural)]
pub struct PackPrice {
    pub size: PackSize,
    pub price: i64,
}

#[derive(Debug, Clone)]
pub struct ShopPrices {
    pub joker_common: PriceRange,
    pub joker_uncommon: PriceRange,
    pub joker_rare: PriceRange,
    pub joker_legendary: i64,
    pub tarot: i64,
    pub planet: i64,
    pub spectral: i64,
    pub playing_card: i64,
    pub voucher: i64,
    pub reroll_base: i64,
    pub reroll_step: i64,
    pub pack_prices: Vec<PackPrice>,
}

#[derive(Debug, Clone)]
pub struct ShopRule {
    pub card_slots: u8,
    pub booster_slots: u8,
    pub voucher_slots: u8,
    pub card_weights: Vec<CardWeight>,
    pub joker_rarity_weights: Vec<JokerRarityWeight>,
    pub pack_weights: Vec<PackWeight>,
    pub prices: ShopPrices,
}

#[derive(Debug, Clone, Copy, PartialEq, Eq, Structural)]
pub struct EconomyRule {
    pub reward_small: i64,
    pub reward_big: i64,
    pub reward_boss: i64,
    pub per_hand_reward: i64,
    pub interest_step: i64,
    pub interest_per: i64,
    pub interest_cap: i64,
    /// Starting hand size for each blind. Defaults to 8.
    pub initial_hand_size: usize,
    /// Initial number of joker slots. Defaults to 5.
    pub initial_joker_slots: usize,
    /// Initial number of consumable slots. Defaults to 2.
    pub initial_consumable_slots: usize,
    /// Divisor applied to a joker's buy price when calculating its sell value.
    /// Defaults to 2 (sell for half the buy price).
    pub joker_sell_divisor: i64,
}

/// Starting hand size when the configuration gives none.
pub fn default_hand_size() -> (n: usize)
    ensures
        n == 8,
{
    8
}

/// Joker slots when the configuration gives none.
pub fn default_joker_slots() -> (n: usize)
    ensures
        n == 5,
{
    5
}

/// Consumable slots when the configuration gives none.
pub fn default_consumable_slots() -> (n: usize)
    ensures
        n == 2,
{
    2
}

/// Sell-price divisor when the configuration gives none.
pub fn default_joker_sell_divisor() -> (n: i64)
    ensures
        n == 2,
{
    2
}

/// Stat block for a card seal (Gold, Red, Blue, Purple).
#[derive(Debug, Clone, Copy, PartialEq, Eq, Structural)]
pub struct SealDef {
    /// Money added each time this card is scored in a hand.
    pub money_scored: i64,
    /// Money added for held-in-hand cards at round end.
    pub money_held: i64,
    /// If true, grants a planet card matching the played hand (Blue seal).
    pub grant_planet: Option<bool>,
    /// If true, grants a random tarot when the card is discarded (Purple seal).
    pub grant_tarot_discard: Option<bool>,
}

/// A seal with no effect.
pub open spec fn plain_seal() -> SealDef {
    SealDef { money_scored: 0, money_held: 0, grant_planet: None, grant_tarot_discard: None }
}

impl Default for SealDef {
    fn default() -> (d: Self)
        ensures
            d == plain_seal(),
    {
        SealDef { money_scored: 0, money_held: 0, grant_planet: None, grant_tarot_discard: None }
    }
}

/// Built-in stats of the seal named `key`.
pub open spec fn spec_builtin_seal(key: Seq<char>) -> SealDef {
    if key == "gold"@ {
        SealDef { money_scored: 3, money_held: 3, ..plain_seal() }
    } else if key == "blue"@ {
        SealDef { grant_planet: Some(true), ..plain_seal() }
    } else if key == "purple"@ {
        SealDef { grant_tarot_discard: Some(true), ..plain_seal() }
    } else {
        plain_seal()
    }
}

/// Built-in stats of a seal: gold pays when scored and when held, blue grants a planet,
/// purple a tarot on discard; any other key has no effect.
pub fn builtin_seal(key: &str) -> (d: SealDef)
    ensures
        d == spec_builtin_seal(key@),
{
    if str_eq(key, "gold") {
        SealDef { money_scored: 3, money_held: 3, grant_planet: None, grant_tarot_discard: None }
    } else if str_eq(key, "blue") {
        SealDef { money_scored: 0, money_held: 0, grant_planet: Some(true), grant_tarot_discard: None }
    } else if str_eq(key, "purple") {
        SealDef { money_scored: 0, money_held: 0, grant_planet: None, grant_tarot_discard: Some(true) }
    } else {
        SealDef::default()
    }
}

/// Position of the first rule for `ante`, if any.
pub fn ante_rule(antes: &Vec<AnteRule>, ante: u8) -> (r: Option<usize>)
    ensures
        match r {
            Some(i) => i < antes@.len() && antes@[i as int].ante == ante && forall|k: int|
                0 <= k < i ==> antes@[k].ante != ante,
            None => forall|k: int| 0 <= k < antes@.len() ==> antes@[k].ante != ante,
        },
{
    let mut i: usize = 0;
    while i < antes.len()
        invariant
            i <= antes@.len(),
            forall|k: int| 0 <= k < i ==> antes@[k].ante != ante,
        decreases antes.len() - i,
    {
        if antes[i].ante == ante {
            return Some(i);
        }
        i = i + 1;
    }
    None
}

/// The highest ante with a rule, if there is any rule.
pub fn max_ante(antes: &Vec<AnteRule>) -> (r: Option<u8>)
    ensures
        antes@.len() == 0 <==> r is None,
        r is Some ==> (exists|k: int| 0 <= k < antes@.len() && antes@[k].ante == r->0) && forall|k: int|
            0 <= k < antes@.len() ==> antes@[k].ante <= r->0,
{
    if antes.len() == 0 {
        return None;
    }
    let mut best: u8 = antes[0].ante;
    let mut i: usize = 1;
    while i < antes.len()
        invariant
            1 <= i <= antes@.len(),
            exists|k: int| 0 <= k < i && antes@[k].ante == best,
            forall|k: int| 0 <= k < i ==> antes@[k].ante <= best,
        decreases antes.len() - i,
    {
        if antes[i].ante > best {
            best = antes[i].ante;
        }
        i = i + 1;
    }
    Some(best)
}

} // verus!
