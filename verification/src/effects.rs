use crate::cards::{Edition, Enhancement, Rank, Seal, Suit};
use crate::hand::HandKind;
use crate::run::BlindKind;
use crate::op_names::{lemma_snake_names, law_op_name_round_trip};
use crate::text::{chars_of, is_ascii_lower, is_snake_word, lowercase, push_char, spec_lowercase, str_eq};
use vstd::prelude::*;

verus! {

#[derive(Debug, Clone, Copy, PartialEq, Eq, Hash, Structural)]
pub enum JokerRarity {
    Common,
    Uncommon,
    Rare,
    Legendary,
}

#[derive(Debug, Clone, Copy, PartialEq, Eq, Hash, Structural)]
pub enum ConsumableKind {
    Tarot,
    Planet,
    Spectral,
}

/// When a joker, boss, tag or card-modifier effect fires.
#[derive(Debug, Clone, Copy, PartialEq, Eq, Hash, Structural)]
pub enum ActivationType {
    OnPlayed,
    OnScoredPre,
    OnScored,
    OnHeld,
    Independent,
    OnOtherJokers,
    OnDiscard,
    OnDiscardBatch,
    OnCardDestroyed,
    OnCardAdded,
    OnRoundEnd,
    OnHandEnd,
    OnBlindStart,
    OnBlindFailed,
    OnShopEnter,
    OnShopReroll,
    OnShopExit,
    OnPackOpened,
    OnPackSkipped,
    OnUse,
    OnSell,
    OnAnySell,
    OnAcquire,
    Passive,
}

/// Predicates over the scoring context that gate an effect block.
#[derive(Debug, Clone, Copy, PartialEq, Eq)]
pub enum Condition {
    Always,
    HandKind(HandKind),
    BlindKind(BlindKind),
    CardSuit(Suit),
    CardRank(Rank),
    CardIsFace,
    CardIsOdd,
    CardIsEven,
    CardHasEnhancement(Enhancement),
    CardHasEdition(Edition),
    CardHasSeal(Seal),
    CardIsStone,
    CardIsWild,
    IsBossBlind,
    IsScoringCard,
    IsHeldCard,
    IsPlayedCard,
}

#[derive(Debug, Clone, Copy, PartialEq, Eq, Hash, Structural)]
pub enum RankFilter {
    Any,
    Face,
    Ace,
    Numbered,
}

/// Built-in operations of the effect language.
#[derive(Debug, Clone, Copy, PartialEq, Eq, Hash, Structural)]
pub enum ActionOp {
    AddChips,
    AddMult,
    MultiplyMult,
    MultiplyChips,
    AddMoney,
    SetMoney,
    AddHandSize,
    RetriggerScored,
    RetriggerHeld,
    AddStoneCard,
    AddCardBonus,
    SetCardEnhancement,
    ClearCardEnhancement,
    DestroyCard,
    CopyPlayedCard,
    AddHands,
    AddDiscards,
    SetDiscards,
    AddTarot,
    AddPlanet,
    AddSpectral,
    AddFreeReroll,
    SetShopPrice,
    AddJoker,
    DestroyRandomJoker,
    DestroyJokerRight,
    DestroyJokerLeft,
    DestroySelf,
    UpgradeHand,
    DuplicateRandomJoker,
    DuplicateRandomConsumable,
    AddSellBonus,
    DisableBoss,
    AddRandomHandCard,
    CopyJokerRight,
    CopyJokerLeftmost,
    PreventDeath,
    AddTag,
    DuplicateNextTag,
    AddPack,
    AddShopJoker,
    AddVoucher,
    SetRerollCost,
    SetShopJokerEdition,
    RerollBoss,
    UpgradeRandomHand,
    SetHands,
    MultiplyTarget,
    SetRule,
    AddRule,
    ClearRule,
    SetVar,
    AddVar,
}

/// The operation in an effect action: built in, or a keyword registered by a mod.
#[derive(Debug, Clone, PartialEq, Eq)]
pub enum ActionOpKind {
    Builtin(ActionOp),
    Custom(String),
}

#[derive(Debug, Clone, Copy, PartialEq, Eq, Hash, Structural)]
pub enum UnaryOp {
    Not,
    Neg,
}

#[derive(Debug, Clone, Copy, PartialEq, Eq, Hash, Structural)]
pub enum BinaryOp {
    Or,
    And,
    Eq,
    Ne,
    Lt,
    Le,
    Gt,
    Ge,
    Add,
    Sub,
    Mul,
    Div,
}

/// The built-in operation named by an already lowercased keyword, with its aliases.
pub open spec fn keyword_op(k: Seq<char>) -> Option<ActionOp> {
    if k == "add_chips"@ {
        Some(ActionOp::AddChips)
    } else if k == "add_mult"@ {
        Some(ActionOp::AddMult)
    } else if k == "mul_mult"@ || k == "multiply_mult"@ {
        Some(ActionOp::MultiplyMult)
    } else if k == "mul_chips"@ || k == "multiply_chips"@ {
        Some(ActionOp::MultiplyChips)
    } else if k == "add_money"@ {
        Some(ActionOp::AddMoney)
    } else if k == "set_money"@ || k == "money_set"@ {
        Some(ActionOp::SetMoney)
    } else if k == "add_hand_size"@ {
        Some(ActionOp::AddHandSize)
    } else if k == "retrigger_scored"@ {
        Some(ActionOp::RetriggerScored)
    } else if k == "retrigger_held"@ {
        Some(ActionOp::RetriggerHeld)
    } else if k == "add_stone_card"@ {
        Some(ActionOp::AddStoneCard)
    } else if k == "add_card_bonus"@ || k == "add_card_chips"@ || k == "card_bonus"@ {
        Some(ActionOp::AddCardBonus)
    } else if k == "set_card_enhancement"@ || k == "set_enhancement"@ || k == "card_enhancement"@ {
        Some(ActionOp::SetCardEnhancement)
    } else if k == "clear_card_enhancement"@ || k == "remove_card_enhancement"@ || k == "clear_enhancement"@ {
        Some(ActionOp::ClearCardEnhancement)
    } else if k == "destroy_card"@ || k == "destroy_current_card"@ {
        Some(ActionOp::DestroyCard)
    } else if k == "copy_played_card"@ || k == "copy_card"@ || k == "copy_scoring_card"@ {
        Some(ActionOp::CopyPlayedCard)
    } else if k == "add_hands"@ {
        Some(ActionOp::AddHands)
    } else if k == "add_discards"@ {
        Some(ActionOp::AddDiscards)
    } else if k == "set_discards"@ {
        Some(ActionOp::SetDiscards)
    } else if k == "add_tarot"@ {
        Some(ActionOp::AddTarot)
    } else if k == "add_planet"@ {
        Some(ActionOp::AddPlanet)
    } else if k == "add_spectral"@ {
        Some(ActionOp::AddSpectral)
    } else if k == "add_free_reroll"@ {
        Some(ActionOp::AddFreeReroll)
    } else if k == "set_shop_price"@ || k == "shop_price"@ {
        Some(ActionOp::SetShopPrice)
    } else if k == "add_joker"@ || k == "add_random_joker"@ {
        Some(ActionOp::AddJoker)
    } else if k == "destroy_random_joker"@ || k == "destroy_joker_random"@ {
        Some(ActionOp::DestroyRandomJoker)
    } else if k == "destroy_joker_right"@ || k == "destroy_right_joker"@ {
        Some(ActionOp::DestroyJokerRight)
    } else if k == "destroy_joker_left"@ || k == "destroy_left_joker"@ {
        Some(ActionOp::DestroyJokerLeft)
    } else if k == "destroy_self"@ {
        Some(ActionOp::DestroySelf)
    } else if k == "upgrade_hand"@ {
        Some(ActionOp::UpgradeHand)
    } else if k == "duplicate_random_joker"@ || k == "dup_random_joker"@ {
        Some(ActionOp::DuplicateRandomJoker)
    } else if k == "duplicate_random_consumable"@ || k == "dup_random_consumable"@ {
        Some(ActionOp::DuplicateRandomConsumable)
    } else if k == "add_sell_bonus"@ || k == "sell_bonus"@ {
        Some(ActionOp::AddSellBonus)
    } else if k == "disable_boss"@ || k == "boss_disable"@ {
        Some(ActionOp::DisableBoss)
    } else if k == "add_random_hand_card"@ || k == "add_hand_card"@ {
        Some(ActionOp::AddRandomHandCard)
    } else if k == "copy_joker_right"@ || k == "copy_right_joker"@ {
        Some(ActionOp::CopyJokerRight)
    } else if k == "copy_joker_leftmost"@ || k == "copy_leftmost_joker"@ {
        Some(ActionOp::CopyJokerLeftmost)
    } else if k == "prevent_death"@ || k == "survive"@ {
        Some(ActionOp::PreventDeath)
    } else if k == "add_tag"@ || k == "tag"@ {
        Some(ActionOp::AddTag)
    } else if k == "duplicate_next_tag"@ || k == "dup_next_tag"@ {
        Some(ActionOp::DuplicateNextTag)
    } else if k == "add_pack"@ || k == "add_booster_pack"@ {
        Some(ActionOp::AddPack)
    } else if k == "add_shop_joker"@ || k == "shop_joker"@ {
        Some(ActionOp::AddShopJoker)
    } else if k == "add_voucher"@ || k == "voucher_add"@ {
        Some(ActionOp::AddVoucher)
    } else if k == "set_reroll_cost"@ || k == "reroll_cost"@ {
        Some(ActionOp::SetRerollCost)
    } else if k == "set_shop_joker_edition"@ || k == "shop_joker_edition"@ {
        Some(ActionOp::SetShopJokerEdition)
    } else if k == "reroll_boss"@ || k == "boss_reroll"@ {
        Some(ActionOp::RerollBoss)
    } else if k == "upgrade_random_hand"@ || k == "upgrade_hand_random"@ {
        Some(ActionOp::UpgradeRandomHand)
    } else if k == "set_hands"@ || k == "hands_set"@ || k == "set_hands_left"@ {
        Some(ActionOp::SetHands)
    } else if k == "mul_target"@ || k == "multiply_target"@ || k == "target_mult"@ {
        Some(ActionOp::MultiplyTarget)
    } else if k == "set_rule"@ || k == "rule_set"@ {
        Some(ActionOp::SetRule)
    } else if k == "add_rule"@ || k == "rule_add"@ {
        Some(ActionOp::AddRule)
    } else if k == "clear_rule"@ || k == "rule_clear"@ {
        Some(ActionOp::ClearRule)
    } else if k == "set_var"@ {
        Some(ActionOp::SetVar)
    } else if k == "add_var"@ {
        Some(ActionOp::AddVar)
    } else {
        None
    }
}

/// Operations that need a target argument (a variable, rule, shop slot, tag, ...).
pub open spec fn spec_requires_target(op: ActionOp) -> bool {
    op == ActionOp::SetVar || op == ActionOp::AddVar || op == ActionOp::SetShopPrice || op == ActionOp::AddJoker || op == ActionOp::AddSellBonus || op == ActionOp::AddTag || op == ActionOp::DuplicateNextTag || op == ActionOp::AddPack || op == ActionOp::AddShopJoker || op == ActionOp::SetShopJokerEdition || op == ActionOp::SetRule || op == ActionOp::AddRule || op == ActionOp::ClearRule || op == ActionOp::SetCardEnhancement
}

/// The `Debug` name of each operation (its variant name).
pub open spec fn op_variant_name(op: ActionOp) -> Seq<char> {
    match op {
        ActionOp::AddChips => "AddChips"@,
        ActionOp::AddMult => "AddMult"@,
        ActionOp::MultiplyMult => "MultiplyMult"@,
        ActionOp::MultiplyChips => "MultiplyChips"@,
        ActionOp::AddMoney => "AddMoney"@,
        ActionOp::SetMoney => "SetMoney"@,
        ActionOp::AddHandSize => "AddHandSize"@,
        ActionOp::RetriggerScored => "RetriggerScored"@,
        ActionOp::RetriggerHeld => "RetriggerHeld"@,
        ActionOp::AddStoneCard => "AddStoneCard"@,
        ActionOp::AddCardBonus => "AddCardBonus"@,
        ActionOp::SetCardEnhancement => "SetCardEnhancement"@,
        ActionOp::ClearCardEnhancement => "ClearCardEnhancement"@,
        ActionOp::DestroyCard => "DestroyCard"@,
        ActionOp::CopyPlayedCard => "CopyPlayedCard"@,
        ActionOp::AddHands => "AddHands"@,
        ActionOp::AddDiscards => "AddDiscards"@,
        ActionOp::SetDiscards => "SetDiscards"@,
        ActionOp::AddTarot => "AddTarot"@,
        ActionOp::AddPlanet => "AddPlanet"@,
        ActionOp::AddSpectral => "AddSpectral"@,
        ActionOp::AddFreeReroll => "AddFreeReroll"@,
        ActionOp::SetShopPrice => "SetShopPrice"@,
        ActionOp::AddJoker => "AddJoker"@,
        ActionOp::DestroyRandomJoker => "DestroyRandomJoker"@,
        ActionOp::DestroyJokerRight => "DestroyJokerRight"@,
        ActionOp::DestroyJokerLeft => "DestroyJokerLeft"@,
        ActionOp::DestroySelf => "DestroySelf"@,
        ActionOp::UpgradeHand => "UpgradeHand"@,
        ActionOp::DuplicateRandomJoker => "DuplicateRandomJoker"@,
        ActionOp::DuplicateRandomConsumable => "DuplicateRandomConsumable"@,
        ActionOp::AddSellBonus => "AddSellBonus"@,
        ActionOp::DisableBoss => "DisableBoss"@,
        ActionOp::AddRandomHandCard => "AddRandomHandCard"@,
        ActionOp::CopyJokerRight => "CopyJokerRight"@,
        ActionOp::CopyJokerLeftmost => "CopyJokerLeftmost"@,
        ActionOp::PreventDeath => "PreventDeath"@,
        ActionOp::AddTag => "AddTag"@,
        ActionOp::DuplicateNextTag => "DuplicateNextTag"@,
        ActionOp::AddPack => "AddPack"@,
        ActionOp::AddShopJoker => "AddShopJoker"@,
        ActionOp::AddVoucher => "AddVoucher"@,
        ActionOp::SetRerollCost => "SetRerollCost"@,
        ActionOp::SetShopJokerEdition => "SetShopJokerEdition"@,
        ActionOp::RerollBoss => "RerollBoss"@,
        ActionOp::UpgradeRandomHand => "UpgradeRandomHand"@,
        ActionOp::SetHands => "SetHands"@,
        ActionOp::MultiplyTarget => "MultiplyTarget"@,
        ActionOp::SetRule => "SetRule"@,
        ActionOp::AddRule => "AddRule"@,
        ActionOp::ClearRule => "ClearRule"@,
        ActionOp::SetVar => "SetVar"@,
        ActionOp::AddVar => "AddVar"@,
    }
}

impl ActionOp {
    /// Parse an operation keyword, ignoring case. A keyword already in snake case (ASCII
    /// lowercase letters and underscores) is read as it stands.
    pub fn from_keyword(value: &str) -> (op: Option<Self>)
        ensures
            op == keyword_op(spec_lowercase(value@)),
            is_snake_word(value@) ==> op == keyword_op(value@),
    {
        let lowered = lowercase(value);
        Self::from_lowercase_keyword(lowered.as_str())
    }

    /// Parse a keyword that is already in lowercase.
    pub fn from_lowercase_keyword(k: &str) -> (op: Option<Self>)
        ensures
            op == keyword_op(k@),
    {
        if str_eq(k, "add_chips") {
            Some(ActionOp::AddChips)
        } else if str_eq(k, "add_mult") {
            Some(ActionOp::AddMult)
        } else if str_eq(k, "mul_mult") || str_eq(k, "multiply_mult") {
            Some(ActionOp::MultiplyMult)
        } else if str_eq(k, "mul_chips") || str_eq(k, "multiply_chips") {
            Some(ActionOp::MultiplyChips)
        } else if str_eq(k, "add_money") {
            Some(ActionOp::AddMoney)
        } else if str_eq(k, "set_money") || str_eq(k, "money_set") {
            Some(ActionOp::SetMoney)
        } else if str_eq(k, "add_hand_size") {
            Some(ActionOp::AddHandSize)
        } else if str_eq(k, "retrigger_scored") {
            Some(ActionOp::RetriggerScored)
        } else if str_eq(k, "retrigger_held") {
            Some(ActionOp::RetriggerHeld)
        } else if str_eq(k, "add_stone_card") {
            Some(ActionOp::AddStoneCard)
        } else if str_eq(k, "add_card_bonus") || str_eq(k, "add_card_chips") || str_eq(k, "card_bonus") {
            Some(ActionOp::AddCardBonus)
        } else if str_eq(k, "set_card_enhancement") || str_eq(k, "set_enhancement") || str_eq(k, "card_enhancement") {
            Some(ActionOp::SetCardEnhancement)
        } else if str_eq(k, "clear_card_enhancement") || str_eq(k, "remove_card_enhancement") || str_eq(k, "clear_enhancement") {
            Some(ActionOp::ClearCardEnhancement)
        } else if str_eq(k, "destroy_card") || str_eq(k, "destroy_current_card") {
            Some(ActionOp::DestroyCard)
        } else if str_eq(k, "copy_played_card") || str_eq(k, "copy_card") || str_eq(k, "copy_scoring_card") {
            Some(ActionOp::CopyPlayedCard)
        } else if str_eq(k, "add_hands") {
            Some(ActionOp::AddHands)
        } else if str_eq(k, "add_discards") {
            Some(ActionOp::AddDiscards)
        } else if str_eq(k, "set_discards") {
            Some(ActionOp::SetDiscards)
        } else if str_eq(k, "add_tarot") {
            Some(ActionOp::AddTarot)
        } else if str_eq(k, "add_planet") {
            Some(ActionOp::AddPlanet)
        } else if str_eq(k, "add_spectral") {
            Some(ActionOp::AddSpectral)
        } else if str_eq(k, "add_free_reroll") {
            Some(ActionOp::AddFreeReroll)
        } else if str_eq(k, "set_shop_price") || str_eq(k, "shop_price") {
            Some(ActionOp::SetShopPrice)
        } else if str_eq(k, "add_joker") || str_eq(k, "add_random_joker") {
            Some(ActionOp::AddJoker)
        } else if str_eq(k, "destroy_random_joker") || str_eq(k, "destroy_joker_random") {
            Some(ActionOp::DestroyRandomJoker)
        } else if str_eq(k, "destroy_joker_right") || str_eq(k, "destroy_right_joker") {
            Some(ActionOp::DestroyJokerRight)
        } else if str_eq(k, "destroy_joker_left") || str_eq(k, "destroy_left_joker") {
            Some(ActionOp::DestroyJokerLeft)
        } else if str_eq(k, "destroy_self") {
            Some(ActionOp::DestroySelf)
        } else if str_eq(k, "upgrade_hand") {
            Some(ActionOp::UpgradeHand)
        } else if str_eq(k, "duplicate_random_joker") || str_eq(k, "dup_random_joker") {
            Some(ActionOp::DuplicateRandomJoker)
        } else if str_eq(k, "duplicate_random_consumable") || str_eq(k, "dup_random_consumable") {
            Some(ActionOp::DuplicateRandomConsumable)
        } else if str_eq(k, "add_sell_bonus") || str_eq(k, "sell_bonus") {
            Some(ActionOp::AddSellBonus)
        } else if str_eq(k, "disable_boss") || str_eq(k, "boss_disable") {
            Some(ActionOp::DisableBoss)
        } else if str_eq(k, "add_random_hand_card") || str_eq(k, "add_hand_card") {
            Some(ActionOp::AddRandomHandCard)
        } else if str_eq(k, "copy_joker_right") || str_eq(k, "copy_right_joker") {
            Some(ActionOp::CopyJokerRight)
        } else if str_eq(k, "copy_joker_leftmost") || str_eq(k, "copy_leftmost_joker") {
            Some(ActionOp::CopyJokerLeftmost)
        } else if str_eq(k, "prevent_death") || str_eq(k, "survive") {
            Some(ActionOp::PreventDeath)
        } else if str_eq(k, "add_tag") || str_eq(k, "tag") {
            Some(ActionOp::AddTag)
        } else if str_eq(k, "duplicate_next_tag") || str_eq(k, "dup_next_tag") {
            Some(ActionOp::DuplicateNextTag)
        } else if str_eq(k, "add_pack") || str_eq(k, "add_booster_pack") {
            Some(ActionOp::AddPack)
        } else if str_eq(k, "add_shop_joker") || str_eq(k, "shop_joker") {
            Some(ActionOp::AddShopJoker)
        } else if str_eq(k, "add_voucher") || str_eq(k, "voucher_add") {
            Some(ActionOp::AddVoucher)
        } else if str_eq(k, "set_reroll_cost") || str_eq(k, "reroll_cost") {
            Some(ActionOp::SetRerollCost)
        } else if str_eq(k, "set_shop_joker_edition") || str_eq(k, "shop_joker_edition") {
            Some(ActionOp::SetShopJokerEdition)
        } else if str_eq(k, "reroll_boss") || str_eq(k, "boss_reroll") {
            Some(ActionOp::RerollBoss)
        } else if str_eq(k, "upgrade_random_hand") || str_eq(k, "upgrade_hand_random") {
            Some(ActionOp::UpgradeRandomHand)
        } else if str_eq(k, "set_hands") || str_eq(k, "hands_set") || str_eq(k, "set_hands_left") {
            Some(ActionOp::SetHands)
        } else if str_eq(k, "mul_target") || str_eq(k, "multiply_target") || str_eq(k, "target_mult") {
            Some(ActionOp::MultiplyTarget)
        } else if str_eq(k, "set_rule") || str_eq(k, "rule_set") {
            Some(ActionOp::SetRule)
        } else if str_eq(k, "add_rule") || str_eq(k, "rule_add") {
            Some(ActionOp::AddRule)
        } else if str_eq(k, "clear_rule") || str_eq(k, "rule_clear") {
            Some(ActionOp::ClearRule)
        } else if str_eq(k, "set_var") {
            Some(ActionOp::SetVar)
        } else if str_eq(k, "add_var") {
            Some(ActionOp::AddVar)
        } else {
            None
        }
    }

    /// Whether the operation reads its target argument.
    pub fn requires_target(self) -> (b: bool)
        ensures
            b == spec_requires_target(self),
    {
        match self {
            ActionOp::SetVar | ActionOp::AddVar | ActionOp::SetShopPrice | ActionOp::AddJoker | ActionOp::AddSellBonus | ActionOp::AddTag | ActionOp::DuplicateNextTag | ActionOp::AddPack | ActionOp::AddShopJoker | ActionOp::SetShopJokerEdition | ActionOp::SetRule | ActionOp::AddRule | ActionOp::ClearRule | ActionOp::SetCardEnhancement => true,
            _ => false,
        }
    }

    /// The `Debug` name of the operation.
    pub fn variant_name(self) -> (s: &'static str)
        ensures
            s@ == op_variant_name(self),
    {
        match self {
            ActionOp::AddChips => "AddChips",
            ActionOp::AddMult => "AddMult",
            ActionOp::MultiplyMult => "MultiplyMult",
            ActionOp::MultiplyChips => "MultiplyChips",
            ActionOp::AddMoney => "AddMoney",
            ActionOp::SetMoney => "SetMoney",
            ActionOp::AddHandSize => "AddHandSize",
            ActionOp::RetriggerScored => "RetriggerScored",
            ActionOp::RetriggerHeld => "RetriggerHeld",
            ActionOp::AddStoneCard => "AddStoneCard",
            ActionOp::AddCardBonus => "AddCardBonus",
            ActionOp::SetCardEnhancement => "SetCardEnhancement",
            ActionOp::ClearCardEnhancement => "ClearCardEnhancement",
            ActionOp::DestroyCard => "DestroyCard",
            ActionOp::CopyPlayedCard => "CopyPlayedCard",
            ActionOp::AddHands => "AddHands",
            ActionOp::AddDiscards => "AddDiscards",
            ActionOp::SetDiscards => "SetDiscards",
            ActionOp::AddTarot => "AddTarot",
            ActionOp::AddPlanet => "AddPlanet",
            ActionOp::AddSpectral => "AddSpectral",
            ActionOp::AddFreeReroll => "AddFreeReroll",
            ActionOp::SetShopPrice => "SetShopPrice",
            ActionOp::AddJoker => "AddJoker",
            ActionOp::DestroyRandomJoker => "DestroyRandomJoker",
            ActionOp::DestroyJokerRight => "DestroyJokerRight",
            ActionOp::DestroyJokerLeft => "DestroyJokerLeft",
            ActionOp::DestroySelf => "DestroySelf",
            ActionOp::UpgradeHand => "UpgradeHand",
            ActionOp::DuplicateRandomJoker => "DuplicateRandomJoker",
            ActionOp::DuplicateRandomConsumable => "DuplicateRandomConsumable",
            ActionOp::AddSellBonus => "AddSellBonus",
            ActionOp::DisableBoss => "DisableBoss",
            ActionOp::AddRandomHandCard => "AddRandomHandCard",
            ActionOp::CopyJokerRight => "CopyJokerRight",
            ActionOp::CopyJokerLeftmost => "CopyJokerLeftmost",
            ActionOp::PreventDeath => "PreventDeath",
            ActionOp::AddTag => "AddTag",
            ActionOp::DuplicateNextTag => "DuplicateNextTag",
            ActionOp::AddPack => "AddPack",
            ActionOp::AddShopJoker => "AddShopJoker",
            ActionOp::AddVoucher => "AddVoucher",
            ActionOp::SetRerollCost => "SetRerollCost",
            ActionOp::SetShopJokerEdition => "SetShopJokerEdition",
            ActionOp::RerollBoss => "RerollBoss",
            ActionOp::UpgradeRandomHand => "UpgradeRandomHand",
            ActionOp::SetHands => "SetHands",
            ActionOp::MultiplyTarget => "MultiplyTarget",
            ActionOp::SetRule => "SetRule",
            ActionOp::AddRule => "AddRule",
            ActionOp::ClearRule => "ClearRule",
            ActionOp::SetVar => "SetVar",
            ActionOp::AddVar => "AddVar",
        }
    }
}

/// Short label of an activation type, as shown in compact effect listings.
pub open spec fn spec_activation_short(t: ActivationType) -> Seq<char> {
    match t {
        ActivationType::OnPlayed => "played"@,
        ActivationType::OnScoredPre => "scored_pre"@,
        ActivationType::OnScored => "scored"@,
        ActivationType::OnHeld => "held"@,
        ActivationType::Independent => "independent"@,
        ActivationType::OnOtherJokers => "other_jokers"@,
        ActivationType::OnDiscard => "discard"@,
        ActivationType::OnDiscardBatch => "discard_batch"@,
        ActivationType::OnCardDestroyed => "card_destroyed"@,
        ActivationType::OnCardAdded => "card_added"@,
        ActivationType::OnRoundEnd => "round_end"@,
        ActivationType::OnHandEnd => "hand_end"@,
        ActivationType::OnBlindStart => "blind_start"@,
        ActivationType::OnBlindFailed => "blind_failed"@,
        ActivationType::OnShopEnter => "shop_enter"@,
        ActivationType::OnShopReroll => "shop_reroll"@,
        ActivationType::OnShopExit => "shop_exit"@,
        ActivationType::OnPackOpened => "pack_opened"@,
        ActivationType::OnPackSkipped => "pack_skipped"@,
        ActivationType::OnUse => "use"@,
        ActivationType::OnSell => "sell"@,
        ActivationType::OnAnySell => "any_sell"@,
        ActivationType::OnAcquire => "acquire"@,
        ActivationType::Passive => "passive"@,
    }
}

pub fn activation_short(trigger: ActivationType) -> (s: &'static str)
    ensures
        s@ == spec_activation_short(trigger),
{
    match trigger {
        ActivationType::OnPlayed => "played",
        ActivationType::OnScoredPre => "scored_pre",
        ActivationType::OnScored => "scored",
        ActivationType::OnHeld => "held",
        ActivationType::Independent => "independent",
        ActivationType::OnOtherJokers => "other_jokers",
        ActivationType::OnDiscard => "discard",
        ActivationType::OnDiscardBatch => "discard_batch",
        ActivationType::OnCardDestroyed => "card_destroyed",
        ActivationType::OnCardAdded => "card_added",
        ActivationType::OnRoundEnd => "round_end",
        ActivationType::OnHandEnd => "hand_end",
        ActivationType::OnBlindStart => "blind_start",
        ActivationType::OnBlindFailed => "blind_failed",
        ActivationType::OnShopEnter => "shop_enter",
        ActivationType::OnShopReroll => "shop_reroll",
        ActivationType::OnShopExit => "shop_exit",
        ActivationType::OnPackOpened => "pack_opened",
        ActivationType::OnPackSkipped => "pack_skipped",
        ActivationType::OnUse => "use",
        ActivationType::OnSell => "sell",
        ActivationType::OnAnySell => "any_sell",
        ActivationType::OnAcquire => "acquire",
        ActivationType::Passive => "passive",
    }
}
/// Whether `char::is_uppercase` holds: the Unicode `Uppercase` property.
pub uninterp spec fn spec_is_uppercase(c: char) -> bool;

/// What `char::to_lowercase` yields for a character (one to three characters).
pub uninterp spec fn spec_char_lowercase(c: char) -> Seq<char>;

/// `c` is an ASCII capital letter.
pub open spec fn is_ascii_upper(c: char) -> bool {
    'A' <= c && c <= 'Z'
}

/// The text is made of ASCII letters only.
pub open spec fn is_ascii_letters(s: Seq<char>) -> bool {
    forall|i: int| 0 <= i < s.len() ==> is_ascii_upper(#[trigger] s[i]) || is_ascii_lower(s[i])
}

/// The lowercase letter of an ASCII capital.
pub open spec fn ascii_lower(c: char) -> char {
    ((c as u32) + 32) as char
}

/// Calls `char::is_uppercase`; the result is `spec_is_uppercase(c)`. Of ASCII letters it
/// claims what the Unicode Character Database that the documentation defers to gives:
/// capitals have the `Uppercase` property and lowercase letters do not. Nothing more is
/// stated of other characters.
#[verifier::external_body]
fn char_is_uppercase(c: char) -> (b: bool)
    ensures
        b == spec_is_uppercase(c),
        is_ascii_upper(c) ==> b,
        is_ascii_lower(c) ==> !b,
{
    c.is_uppercase()
}

/// Calls `char::to_lowercase` and collects the characters; the result is
/// `spec_char_lowercase(c)`, and an ASCII capital gives its one lowercase letter (the
/// one-to-one mapping of the Unicode Character Database that the documentation cites).
/// Nothing more is stated of other characters.
#[verifier::external_body]
fn char_lowercase(c: char) -> (s: String)
    ensures
        s@ == spec_char_lowercase(c),
        is_ascii_upper(c) ==> s@ == seq![ascii_lower(c)],
{
    c.to_lowercase().collect()
}

/// Snake-case text of `s[..n]`: before each uppercase character (except the first
/// character) an underscore is put, and the character is lowercased.
pub open spec fn snake_prefix(s: Seq<char>, n: int) -> Seq<char>
    decreases n,
{
    if n <= 0 {
        Seq::empty()
    } else {
        let c = s[n - 1];
        snake_prefix(s, n - 1) + if spec_is_uppercase(c) {
            (if n - 1 > 0 {
                seq!['_']
            } else {
                Seq::empty()
            }) + spec_char_lowercase(c)
        } else {
            seq![c]
        }
    }
}

pub open spec fn spec_camel_to_snake(s: Seq<char>) -> Seq<char> {
    snake_prefix(s, s.len() as int)
}

/// Snake-case text of `s[..n]` for ASCII letters: before each capital (except the first
/// character) an underscore, and the capital in lowercase.
pub open spec fn ascii_snake_prefix(s: Seq<char>, n: int) -> Seq<char>
    decreases n,
{
    if n <= 0 {
        Seq::empty()
    } else {
        let c = s[n - 1];
        ascii_snake_prefix(s, n - 1) + if is_ascii_upper(c) {
            (if n - 1 > 0 {
                seq!['_']
            } else {
                Seq::empty()
            }) + seq![ascii_lower(c)]
        } else {
            seq![c]
        }
    }
}

/// Snake-case text of a name made of ASCII letters.
pub open spec fn ascii_snake(s: Seq<char>) -> Seq<char> {
    ascii_snake_prefix(s, s.len() as int)
}

/// `AddChips` becomes `add_chips`.
pub fn camel_to_snake(value: &str) -> (out: String)
    ensures
        out@ == spec_camel_to_snake(value@),
        is_ascii_letters(value@) ==> out@ == ascii_snake(value@),
{
    let chars = chars_of(value);
    let mut out = String::new();
    let mut idx: usize = 0;
    while idx < chars.len()
        invariant
            chars@ == value@,
            idx <= chars.len(),
            out@ == snake_prefix(value@, idx as int),
            is_ascii_letters(value@) ==> out@ == ascii_snake_prefix(value@, idx as int),
        decreases chars.len() - idx,
    {
        let ch = chars[idx];
        if char_is_uppercase(ch) {
            if idx > 0 {
                out.append("_");
                proof {
                    reveal_strlit("_");
                }
            }
            let lower = char_lowercase(ch);
            out.append(lower.as_str());
        } else {
            push_char(&mut out, ch);
        }
        idx = idx + 1;
        assert(out@ =~= snake_prefix(value@, idx as int));
        assert(is_ascii_letters(value@) ==> out@ =~= ascii_snake_prefix(value@, idx as int));
    }
    out
}

/// Snake-case name of a built-in operation, e.g. `multiply_target`; `from_keyword` reads
/// it back as the operation.
pub fn action_op_name(op: ActionOp) -> (name: String)
    ensures
        name@ == spec_camel_to_snake(op_variant_name(op)),
        name@ == ascii_snake(op_variant_name(op)),
        is_snake_word(name@),
        keyword_op(name@) == Some(op),
{
    proof {
        law_op_name_round_trip(op);
        lemma_snake_names(op);
    }
    camel_to_snake(op.variant_name())
}

} // verus!
