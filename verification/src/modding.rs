//! Patch types that mods contribute at the engine's interception points, and the
//! per-field policies by which the patches of several mods are combined.
use crate::cards::Card;
use crate::effects::{ActivationType, ConsumableKind};
use crate::hand::HandKind;
use crate::run::BlindKind;
use vstd::prelude::*;

verus! {

/// Named interception points of the engine.
#[derive(Debug, Clone, Copy, PartialEq, Eq, Hash, Structural)]
pub enum FlowPoint {
    HandEval,
    CardDebuff,
    ScoreBase,
    ShopParams,
    JokerEffect,
    ConsumableEffect,
    HandType,
    Lifecycle(ActivationType),
}

/// How a handler takes part at its interception point.
#[derive(Debug, Clone, Copy, PartialEq, Eq, Hash, Structural)]
pub enum FlowMode {
    Patch,
    Replace,
    Around,
}

/// Legacy hook phase.
#[derive(Debug, Clone, Copy, PartialEq, Eq, Hash, Structural)]
pub enum ModHookPhase {
    Pre,
    Post,
}

// ---------------------------------------------------------------------------
// Merge policies
// ---------------------------------------------------------------------------

/// Most permissive wins: the larger of two present values, else whichever is present.
pub open spec fn spec_merge_max_opt(a: Option<u32>, b: Option<u32>) -> Option<u32> {
    match (a, b) {
        (Some(x), Some(y)) => Some(if x >= y { x } else { y }),
        (Some(x), None) => Some(x),
        (None, y) => y,
    }
}

/// Smallest requirement wins: the smaller of two present values, else whichever is present.
pub open spec fn spec_merge_min_opt(a: Option<u32>, b: Option<u32>) -> Option<u32> {
    match (a, b) {
        (Some(x), Some(y)) => Some(if x <= y { x } else { y }),
        (Some(x), None) => Some(x),
        (None, y) => y,
    }
}

/// `true` if either says `true`; `false` if a present value says `false` and none says `true`.
pub open spec fn spec_bool_or_opt(a: Option<bool>, b: Option<bool>) -> Option<bool> {
    match (a, b) {
        (Some(x), Some(y)) => Some(x || y),
        (Some(x), None) => Some(x),
        (None, y) => y,
    }
}

fn merge_max_opt(a: Option<u32>, b: Option<u32>) -> (r: Option<u32>)
    ensures
        r == spec_merge_max_opt(a, b),
{
    match (a, b) {
        (Some(x), Some(y)) => Some(if x >= y { x } else { y }),
        (Some(x), None) => Some(x),
        (None, y) => y,
    }
}

fn merge_min_opt(a: Option<u32>, b: Option<u32>) -> (r: Option<u32>)
    ensures
        r == spec_merge_min_opt(a, b),
{
    match (a, b) {
        (Some(x), Some(y)) => Some(if x <= y { x } else { y }),
        (Some(x), None) => Some(x),
        (None, y) => y,
    }
}

fn bool_or_opt(a: Option<bool>, b: Option<bool>) -> (r: Option<bool>)
    ensures
        r == spec_bool_or_opt(a, b),
{
    match (a, b) {
        (Some(true), _) | (_, Some(true)) => Some(true),
        (Some(false), Some(false)) => Some(false),
        (x, None) => x,
        (None, y) => y,
    }
}

// ---------------------------------------------------------------------------
// Hand evaluation patch
// ---------------------------------------------------------------------------

/// Accumulated patch for hand evaluation.
#[derive(Debug, Clone, Copy, PartialEq, Eq, Structural)]
pub struct HandEvalPatch {
    /// Max rank gap in a straight; merged by maximum.
    pub max_gap: Option<u32>,
    /// Minimum card count for flush/straight; merged by minimum.
    pub min_len: Option<u32>,
    /// Four-card flushes and straights; merged by or.
    pub four_fingers: Option<bool>,
    /// Suits merged by colour; merged by or.
    pub smear_suits: Option<bool>,
    /// Every played card scores; merged by or.
    pub splash: Option<bool>,
}

pub open spec fn empty_hand_eval_patch() -> HandEvalPatch {
    HandEvalPatch {
        max_gap: None,
        min_len: None,
        four_fingers: None,
        smear_suits: None,
        splash: None,
    }
}

pub open spec fn merged_hand_eval(a: HandEvalPatch, b: HandEvalPatch) -> HandEvalPatch {
    HandEvalPatch {
        max_gap: spec_merge_max_opt(a.max_gap, b.max_gap),
        min_len: spec_merge_min_opt(a.min_len, b.min_len),
        four_fingers: spec_bool_or_opt(a.four_fingers, b.four_fingers),
        smear_suits: spec_bool_or_opt(a.smear_suits, b.smear_suits),
        splash: spec_bool_or_opt(a.splash, b.splash),
    }
}

impl Default for HandEvalPatch {
    fn default() -> (p: Self)
        ensures
            p == empty_hand_eval_patch(),
    {
        HandEvalPatch {
            max_gap: None,
            min_len: None,
            four_fingers: None,
            smear_suits: None,
            splash: None,
        }
    }
}

impl HandEvalPatch {
    /// Merge `other` into `self` field by field.
    pub fn merge_from(&mut self, other: &HandEvalPatch)
        ensures
            *final(self) == merged_hand_eval(*old(self), *other),
    {
        self.max_gap = merge_max_opt(self.max_gap, other.max_gap);
        self.min_len = merge_min_opt(self.min_len, other.min_len);
        self.four_fingers = bool_or_opt(self.four_fingers, other.four_fingers);
        self.smear_suits = bool_or_opt(self.smear_suits, other.smear_suits);
        self.splash = bool_or_opt(self.splash, other.splash);
    }
}

/// Merging hand-evaluation patches does not depend on the order of the mods:
/// the merge is commutative and associative.
pub proof fn law_hand_eval_merge_order_free(a: HandEvalPatch, b: HandEvalPatch, c: HandEvalPatch)
    ensures
        merged_hand_eval(a, b) == merged_hand_eval(b, a),
        merged_hand_eval(merged_hand_eval(a, b), c) == merged_hand_eval(a, merged_hand_eval(b, c)),
{
}

/// The empty patch changes nothing, and merging a patch with itself changes nothing.
pub proof fn law_hand_eval_merge_identity(a: HandEvalPatch)
    ensures
        merged_hand_eval(a, empty_hand_eval_patch()) == a,
        merged_hand_eval(a, a) == a,
{
    let e = merged_hand_eval(a, empty_hand_eval_patch());
    assert(e.max_gap == a.max_gap);
    assert(e.min_len == a.min_len);
    assert(e.four_fingers == a.four_fingers);
    assert(e.smear_suits == a.smear_suits);
    assert(e.splash == a.splash);
    let d = merged_hand_eval(a, a);
    assert(d.max_gap == a.max_gap);
    assert(d.min_len == a.min_len);
    assert(d.four_fingers == a.four_fingers);
    assert(d.smear_suits == a.smear_suits);
    assert(d.splash == a.splash);
}

/// A `true` flag contributed by any mod survives every later merge, the merged gap is never
/// smaller than a contributed gap, and the merged minimum length never larger than a
/// contributed one.
pub proof fn law_hand_eval_merge_monotone(a: HandEvalPatch, b: HandEvalPatch)
    ensures
        a.four_fingers == Some(true) ==> merged_hand_eval(a, b).four_fingers == Some(true),
        a.smear_suits == Some(true) ==> merged_hand_eval(a, b).smear_suits == Some(true),
        a.splash == Some(true) ==> merged_hand_eval(a, b).splash == Some(true),
        a.max_gap is Some ==> merged_hand_eval(a, b).max_gap is Some && merged_hand_eval(
            a,
            b,
        ).max_gap->0 >= a.max_gap->0,
        a.min_len is Some ==> merged_hand_eval(a, b).min_len is Some && merged_hand_eval(
            a,
            b,
        ).min_len->0 <= a.min_len->0,
{
}

// ---------------------------------------------------------------------------
// Card debuff patch
// ---------------------------------------------------------------------------

/// Accumulated patch for the per-card debuff check.
#[derive(Debug, Clone, Copy, PartialEq, Eq, Default, Structural)]
pub struct CardDebuffPatch {
    pub force_debuff: bool,
    pub force_shield: bool,
}

pub open spec fn merged_debuff(a: CardDebuffPatch, b: CardDebuffPatch) -> CardDebuffPatch {
    CardDebuffPatch {
        force_debuff: a.force_debuff || b.force_debuff,
        force_shield: a.force_shield || b.force_shield,
    }
}

/// A shield beats a forced debuff; otherwise a forced debuff beats the base state.
pub open spec fn spec_resolve_debuff(p: CardDebuffPatch, base_debuffed: bool) -> bool {
    if p.force_shield {
        false
    } else if p.force_debuff {
        true
    } else {
        base_debuffed
    }
}

impl CardDebuffPatch {
    pub fn merge_from(&mut self, other: &CardDebuffPatch)
        ensures
            *final(self) == merged_debuff(*old(self), *other),
    {
        self.force_debuff = self.force_debuff || other.force_debuff;
        self.force_shield = self.force_shield || other.force_shield;
    }

    /// Final debuff state of a card whose unpatched state is `base_debuffed`.
    pub fn resolve(&self, base_debuffed: bool) -> (debuffed: bool)
        ensures
            debuffed == spec_resolve_debuff(*self, base_debuffed),
    {
        if self.force_shield {
            return false;
        }
        if self.force_debuff {
            return true;
        }
        base_debuffed
    }
}

/// Debuff patches merge in any order, and once any mod shields a card it is never
/// debuffed, whatever the other mods or the base state say.
pub proof fn law_debuff_shield_wins(a: CardDebuffPatch, b: CardDebuffPatch, base: bool)
    ensures
        merged_debuff(a, b) == merged_debuff(b, a),
        a.force_shield ==> !spec_resolve_debuff(merged_debuff(a, b), base),
        !a.force_shield && !b.force_shield && (a.force_debuff || b.force_debuff)
            ==> spec_resolve_debuff(merged_debuff(a, b), base),
        !a.force_shield && !a.force_debuff ==> spec_resolve_debuff(a, base) == base,
{
}

// ---------------------------------------------------------------------------
// Shop parameter patch
// ---------------------------------------------------------------------------

/// Accumulated patch for shop parameters.
#[derive(Debug, Clone, Copy, PartialEq, Eq, Default, Structural)]
pub struct ShopParamsPatch {
    pub allow_duplicates: Option<bool>,
    pub joker_price_delta: i64,
    pub free_rerolls: u32,
}

pub open spec fn merged_shop_params(a: ShopParamsPatch, b: ShopParamsPatch) -> ShopParamsPatch {
    ShopParamsPatch {
        allow_duplicates: spec_bool_or_opt(a.allow_duplicates, b.allow_duplicates),
        joker_price_delta: (a.joker_price_delta + b.joker_price_delta) as i64,
        free_rerolls: (a.free_rerolls + b.free_rerolls) as u32,
    }
}

/// The sums of the additive fields fit their types.
pub open spec fn shop_params_mergeable(a: ShopParamsPatch, b: ShopParamsPatch) -> bool {
    &&& i64::MIN <= a.joker_price_delta + b.joker_price_delta <= i64::MAX
    &&& a.free_rerolls + b.free_rerolls <= u32::MAX
}

impl ShopParamsPatch {
    pub fn merge_from(&mut self, other: &ShopParamsPatch)
        requires
            shop_params_mergeable(*old(self), *other),
        ensures
            *final(self) == merged_shop_params(*old(self), *other),
    {
        self.allow_duplicates = bool_or_opt(self.allow_duplicates, other.allow_duplicates);
        self.joker_price_delta = self.joker_price_delta + other.joker_price_delta;
        self.free_rerolls = self.free_rerolls + other.free_rerolls;
    }
}

/// Shop patches merge in any order (where the sums fit), and the all-default patch
/// changes nothing.
pub proof fn law_shop_params_merge_order_free(a: ShopParamsPatch, b: ShopParamsPatch, c: ShopParamsPatch)
    requires
        shop_params_mergeable(a, b),
        shop_params_mergeable(merged_shop_params(a, b), c),
        shop_params_mergeable(b, c),
        shop_params_mergeable(a, merged_shop_params(b, c)),
    ensures
        merged_shop_params(a, b) == merged_shop_params(b, a),
        merged_shop_params(merged_shop_params(a, b), c) == merged_shop_params(
            a,
            merged_shop_params(b, c),
        ),
        merged_shop_params(
            a,
            ShopParamsPatch { allow_duplicates: None, joker_price_delta: 0, free_rerolls: 0 },
        ) == a,
{
    let z = ShopParamsPatch { allow_duplicates: None, joker_price_delta: 0, free_rerolls: 0 };
    let m = merged_shop_params(a, z);
    assert(m.allow_duplicates == a.allow_duplicates);
    assert(m.joker_price_delta == a.joker_price_delta);
    assert(m.free_rerolls == a.free_rerolls);
}

/// What an effect invoked by a mod sees.
#[derive(Debug)]
pub struct ModEffectContext<'a> {
    pub hand_kind: Option<HandKind>,
    pub card: Option<Card>,
    pub joker_id: Option<&'a str>,
}

/// What a mod's custom hand evaluation sees.
#[derive(Debug)]
pub struct ModHandEvalContext<'a> {
    pub cards: &'a [Card],
    pub smeared_suits: bool,
    pub four_fingers: bool,
    pub shortcut: bool,
}

/// What a mod hook sees when it fires.
#[derive(Debug)]
pub struct ModHookContext<'a> {
    pub phase: ModHookPhase,
    pub trigger: ActivationType,
    pub hand_kind: HandKind,
    pub blind: BlindKind,
    pub played: &'a [Card],
    pub scoring: &'a [Card],
    pub held: &'a [Card],
    pub discarded: &'a [Card],
    pub card: Option<Card>,
    pub card_lucky_triggers: i64,
    pub sold_value: Option<i64>,
    pub consumable_kind: Option<ConsumableKind>,
    pub consumable_id: Option<&'a str>,
    pub joker_count: usize,
}

} // verus!
