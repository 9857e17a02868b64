//! The snake-case names of the built-in operations, and why each reads back as its
//! operation.
use crate::effects::{ascii_snake, ascii_snake_prefix, is_ascii_letters, keyword_op, op_variant_name, ActionOp};
use crate::text::is_snake_word;
use vstd::prelude::*;

verus! {

/// The snake-case name of each built-in operation.
pub open spec fn op_snake_name(op: ActionOp) -> Seq<char> {
    match op {
        ActionOp::AddChips => "add_chips"@,
        ActionOp::AddMult => "add_mult"@,
        ActionOp::MultiplyMult => "multiply_mult"@,
        ActionOp::MultiplyChips => "multiply_chips"@,
        ActionOp::AddMoney => "add_money"@,
        ActionOp::SetMoney => "set_money"@,
        ActionOp::AddHandSize => "add_hand_size"@,
        ActionOp::RetriggerScored => "retrigger_scored"@,
        ActionOp::RetriggerHeld => "retrigger_held"@,
        ActionOp::AddStoneCard => "add_stone_card"@,
        ActionOp::AddCardBonus => "add_card_bonus"@,
        ActionOp::SetCardEnhancement => "set_card_enhancement"@,
        ActionOp::ClearCardEnhancement => "clear_card_enhancement"@,
        ActionOp::DestroyCard => "destroy_card"@,
        ActionOp::CopyPlayedCard => "copy_played_card"@,
        ActionOp::AddHands => "add_hands"@,
        ActionOp::AddDiscards => "add_discards"@,
        ActionOp::SetDiscards => "set_discards"@,
        ActionOp::AddTarot => "add_tarot"@,
        ActionOp::AddPlanet => "add_planet"@,
        ActionOp::AddSpectral => "add_spectral"@,
        ActionOp::AddFreeReroll => "add_free_reroll"@,
        ActionOp::SetShopPrice => "set_shop_price"@,
        ActionOp::AddJoker => "add_joker"@,
        ActionOp::DestroyRandomJoker => "destroy_random_joker"@,
        ActionOp::DestroyJokerRight => "destroy_joker_right"@,
        ActionOp::DestroyJokerLeft => "destroy_joker_left"@,
        ActionOp::DestroySelf => "destroy_self"@,
        ActionOp::UpgradeHand => "upgrade_hand"@,
        ActionOp::DuplicateRandomJoker => "duplicate_random_joker"@,
        ActionOp::DuplicateRandomConsumable => "duplicate_random_consumable"@,
        ActionOp::AddSellBonus => "add_sell_bonus"@,
        ActionOp::DisableBoss => "disable_boss"@,
        ActionOp::AddRandomHandCard => "add_random_hand_card"@,
        ActionOp::CopyJokerRight => "copy_joker_right"@,
        ActionOp::CopyJokerLeftmost => "copy_joker_leftmost"@,
        ActionOp::PreventDeath => "prevent_death"@,
        ActionOp::AddTag => "add_tag"@,
        ActionOp::DuplicateNextTag => "duplicate_next_tag"@,
        ActionOp::AddPack => "add_pack"@,
        ActionOp::AddShopJoker => "add_shop_joker"@,
        ActionOp::AddVoucher => "add_voucher"@,
        ActionOp::SetRerollCost => "set_reroll_cost"@,
        ActionOp::SetShopJokerEdition => "set_shop_joker_edition"@,
        ActionOp::RerollBoss => "reroll_boss"@,
        ActionOp::UpgradeRandomHand => "upgrade_random_hand"@,
        ActionOp::SetHands => "set_hands"@,
        ActionOp::MultiplyTarget => "multiply_target"@,
        ActionOp::SetRule => "set_rule"@,
        ActionOp::AddRule => "add_rule"@,
        ActionOp::ClearRule => "clear_rule"@,
        ActionOp::SetVar => "set_var"@,
        ActionOp::AddVar => "add_var"@,
    }
}

/// Variant names of a batch of operations, in declaration order: ASCII letters, with their
/// snake-case names.
proof fn lemma_names_0()
    ensures
        is_ascii_letters("AddChips"@),
        ascii_snake("AddChips"@) == "add_chips"@,
        is_snake_word("add_chips"@),
        is_ascii_letters("AddMult"@),
        ascii_snake("AddMult"@) == "add_mult"@,
        is_snake_word("add_mult"@),
        is_ascii_letters("MultiplyMult"@),
        ascii_snake("MultiplyMult"@) == "multiply_mult"@,
        is_snake_word("multiply_mult"@),
        is_ascii_letters("MultiplyChips"@),
        ascii_snake("MultiplyChips"@) == "multiply_chips"@,
        is_snake_word("multiply_chips"@),
        is_ascii_letters("AddMoney"@),
        ascii_snake("AddMoney"@) == "add_money"@,
        is_snake_word("add_money"@),
        is_ascii_letters("SetMoney"@),
        ascii_snake("SetMoney"@) == "set_money"@,
        is_snake_word("set_money"@),
        is_ascii_letters("AddHandSize"@),
        ascii_snake("AddHandSize"@) == "add_hand_size"@,
        is_snake_word("add_hand_size"@),
        is_ascii_letters("RetriggerScored"@),
        ascii_snake("RetriggerScored"@) == "retrigger_scored"@,
        is_snake_word("retrigger_scored"@),
        is_ascii_letters("RetriggerHeld"@),
        ascii_snake("RetriggerHeld"@) == "retrigger_held"@,
        is_snake_word("retrigger_held"@),
{
    reveal_with_fuel(ascii_snake_prefix, 26);
    reveal_strlit("AddChips");
    reveal_strlit("add_chips");
    assert(ascii_snake("AddChips"@) =~= "add_chips"@);
    reveal_strlit("AddMult");
    reveal_strlit("add_mult");
    assert(ascii_snake("AddMult"@) =~= "add_mult"@);
    reveal_strlit("MultiplyMult");
    reveal_strlit("multiply_mult");
    assert(ascii_snake("MultiplyMult"@) =~= "multiply_mult"@);
    reveal_strlit("MultiplyChips");
    reveal_strlit("multiply_chips");
    assert(ascii_snake("MultiplyChips"@) =~= "multiply_chips"@);
    reveal_strlit("AddMoney");
    reveal_strlit("add_money");
    assert(ascii_snake("AddMoney"@) =~= "add_money"@);
    reveal_strlit("SetMoney");
    reveal_strlit("set_money");
    assert(ascii_snake("SetMoney"@) =~= "set_money"@);
    reveal_strlit("AddHandSize");
    reveal_strlit("add_hand_size");
    assert(ascii_snake("AddHandSize"@) =~= "add_hand_size"@);
    reveal_strlit("RetriggerScored");
    reveal_strlit("retrigger_scored");
    assert(ascii_snake("RetriggerScored"@) =~= "retrigger_scored"@);
    reveal_strlit("RetriggerHeld");
    reveal_strlit("retrigger_held");
    assert(ascii_snake("RetriggerHeld"@) =~= "retrigger_held"@);
}

/// Variant names of a batch of operations, in declaration order: ASCII letters, with their
/// snake-case names.
proof fn lemma_names_1()
    ensures
        is_ascii_letters("AddStoneCard"@),
        ascii_snake("AddStoneCard"@) == "add_stone_card"@,
        is_snake_word("add_stone_card"@),
        is_ascii_letters("AddCardBonus"@),
        ascii_snake("AddCardBonus"@) == "add_card_bonus"@,
        is_snake_word("add_card_bonus"@),
        is_ascii_letters("SetCardEnhancement"@),
        ascii_snake("SetCardEnhancement"@) == "set_card_enhancement"@,
        is_snake_word("set_card_enhancement"@),
        is_ascii_letters("ClearCardEnhancement"@),
        ascii_snake("ClearCardEnhancement"@) == "clear_card_enhancement"@,
        is_snake_word("clear_card_enhancement"@),
        is_ascii_letters("DestroyCard"@),
        ascii_snake("DestroyCard"@) == "destroy_card"@,
        is_snake_word("destroy_card"@),
        is_ascii_letters("CopyPlayedCard"@),
        ascii_snake("CopyPlayedCard"@) == "copy_played_card"@,
        is_snake_word("copy_played_card"@),
        is_ascii_letters("AddHands"@),
        ascii_snake("AddHands"@) == "add_hands"@,
        is_snake_word("add_hands"@),
        is_ascii_letters("AddDiscards"@),
        ascii_snake("AddDiscards"@) == "add_discards"@,
        is_snake_word("add_discards"@),
        is_ascii_letters("SetDiscards"@),
        ascii_snake("SetDiscards"@) == "set_discards"@,
        is_snake_word("set_discards"@),
{
    reveal_with_fuel(ascii_snake_prefix, 26);
    reveal_strlit("AddStoneCard");
    reveal_strlit("add_stone_card");
    assert(ascii_snake("AddStoneCard"@) =~= "add_stone_card"@);
    reveal_strlit("AddCardBonus");
    reveal_strlit("add_card_bonus");
    assert(ascii_snake("AddCardBonus"@) =~= "add_card_bonus"@);
    reveal_strlit("SetCardEnhancement");
    reveal_strlit("set_card_enhancement");
    assert(ascii_snake("SetCardEnhancement"@) =~= "set_card_enhancement"@);
    reveal_strlit("ClearCardEnhancement");
    reveal_strlit("clear_card_enhancement");
    assert(ascii_snake("ClearCardEnhancement"@) =~= "clear_card_enhancement"@);
    reveal_strlit("DestroyCard");
    reveal_strlit("destroy_card");
    assert(ascii_snake("DestroyCard"@) =~= "destroy_card"@);
    reveal_strlit("CopyPlayedCard");
    reveal_strlit("copy_played_card");
    assert(ascii_snake("CopyPlayedCard"@) =~= "copy_played_card"@);
    reveal_strlit("AddHands");
    reveal_strlit("add_hands");
    assert(ascii_snake("AddHands"@) =~= "add_hands"@);
    reveal_strlit("AddDiscards");
    reveal_strlit("add_discards");
    assert(ascii_snake("AddDiscards"@) =~= "add_discards"@);
    reveal_strlit("SetDiscards");
    reveal_strlit("set_discards");
    assert(ascii_snake("SetDiscards"@) =~= "set_discards"@);
}

/// Variant names of a batch of operations, in declaration order: ASCII letters, with their
/// snake-case names.
proof fn lemma_names_2()
    ensures
        is_ascii_letters("AddTarot"@),
        ascii_snake("AddTarot"@) == "add_tarot"@,
        is_snake_word("add_tarot"@),
        is_ascii_letters("AddPlanet"@),
        ascii_snake("AddPlanet"@) == "add_planet"@,
        is_snake_word("add_planet"@),
        is_ascii_letters("AddSpectral"@),
        ascii_snake("AddSpectral"@) == "add_spectral"@,
        is_snake_word("add_spectral"@),
        is_ascii_letters("AddFreeReroll"@),
        ascii_snake("AddFreeReroll"@) == "add_free_reroll"@,
        is_snake_word("add_free_reroll"@),
        is_ascii_letters("SetShopPrice"@),
        ascii_snake("SetShopPrice"@) == "set_shop_price"@,
        is_snake_word("set_shop_price"@),
        is_ascii_letters("AddJoker"@),
        ascii_snake("AddJoker"@) == "add_joker"@,
        is_snake_word("add_joker"@),
        is_ascii_letters("DestroyRandomJoker"@),
        ascii_snake("DestroyRandomJoker"@) == "destroy_random_joker"@,
        is_snake_word("destroy_random_joker"@),
        is_ascii_letters("DestroyJokerRight"@),
        ascii_snake("DestroyJokerRight"@) == "destroy_joker_right"@,
        is_snake_word("destroy_joker_right"@),
        is_ascii_letters("DestroyJokerLeft"@),
        ascii_snake("DestroyJokerLeft"@) == "destroy_joker_left"@,
        is_snake_word("destroy_joker_left"@),
{
    reveal_with_fuel(ascii_snake_prefix, 26);
    reveal_strlit("AddTarot");
    reveal_strlit("add_tarot");
    assert(ascii_snake("AddTarot"@) =~= "add_tarot"@);
    reveal_strlit("AddPlanet");
    reveal_strlit("add_planet");
    assert(ascii_snake("AddPlanet"@) =~= "add_planet"@);
    reveal_strlit("AddSpectral");
    reveal_strlit("add_spectral");
    assert(ascii_snake("AddSpectral"@) =~= "add_spectral"@);
    reveal_strlit("AddFreeReroll");
    reveal_strlit("add_free_reroll");
    assert(ascii_snake("AddFreeReroll"@) =~= "add_free_reroll"@);
    reveal_strlit("SetShopPrice");
    reveal_strlit("set_shop_price");
    assert(ascii_snake("SetShopPrice"@) =~= "set_shop_price"@);
    reveal_strlit("AddJoker");
    reveal_strlit("add_joker");
    assert(ascii_snake("AddJoker"@) =~= "add_joker"@);
    reveal_strlit("DestroyRandomJoker");
    reveal_strlit("destroy_random_joker");
    assert(ascii_snake("DestroyRandomJoker"@) =~= "destroy_random_joker"@);
    reveal_strlit("DestroyJokerRight");
    reveal_strlit("destroy_joker_right");
    assert(ascii_snake("DestroyJokerRight"@) =~= "destroy_joker_right"@);
    reveal_strlit("DestroyJokerLeft");
    reveal_strlit("destroy_joker_left");
    assert(ascii_snake("DestroyJokerLeft"@) =~= "destroy_joker_left"@);
}

/// Variant names of a batch of operations, in declaration order: ASCII letters, with their
/// snake-case names.
proof fn lemma_names_3()
    ensures
        is_ascii_letters("DestroySelf"@),
        ascii_snake("DestroySelf"@) == "destroy_self"@,
        is_snake_word("destroy_self"@),
        is_ascii_letters("UpgradeHand"@),
        ascii_snake("UpgradeHand"@) == "upgrade_hand"@,
        is_snake_word("upgrade_hand"@),
        is_ascii_letters("DuplicateRandomJoker"@),
        ascii_snake("DuplicateRandomJoker"@) == "duplicate_random_joker"@,
        is_snake_word("duplicate_random_joker"@),
        is_ascii_letters("DuplicateRandomConsumable"@),
        ascii_snake("DuplicateRandomConsumable"@) == "duplicate_random_consumable"@,
        is_snake_word("duplicate_random_consumable"@),
        is_ascii_letters("AddSellBonus"@),
        ascii_snake("AddSellBonus"@) == "add_sell_bonus"@,
        is_snake_word("add_sell_bonus"@),
        is_ascii_letters("DisableBoss"@),
        ascii_snake("DisableBoss"@) == "disable_boss"@,
        is_snake_word("disable_boss"@),
        is_ascii_letters("AddRandomHandCard"@),
        ascii_snake("AddRandomHandCard"@) == "add_random_hand_card"@,
        is_snake_word("add_random_hand_card"@),
        is_ascii_letters("CopyJokerRight"@),
        ascii_snake("CopyJokerRight"@) == "copy_joker_right"@,
        is_snake_word("copy_joker_right"@),
        is_ascii_letters("CopyJokerLeftmost"@),
        ascii_snake("CopyJokerLeftmost"@) == "copy_joker_leftmost"@,
        is_snake_word("copy_joker_leftmost"@),
{
    reveal_with_fuel(ascii_snake_prefix, 26);
    reveal_strlit("DestroySelf");
    reveal_strlit("destroy_self");
    assert(ascii_snake("DestroySelf"@) =~= "destroy_self"@);
    reveal_strlit("UpgradeHand");
    reveal_strlit("upgrade_hand");
    assert(ascii_snake("UpgradeHand"@) =~= "upgrade_hand"@);
    reveal_strlit("DuplicateRandomJoker");
    reveal_strlit("duplicate_random_joker");
    assert(ascii_snake("DuplicateRandomJoker"@) =~= "duplicate_random_joker"@);
    reveal_strlit("DuplicateRandomConsumable");
    reveal_strlit("duplicate_random_consumable");
    assert(ascii_snake("DuplicateRandomConsumable"@) =~= "duplicate_random_consumable"@);
    reveal_strlit("AddSellBonus");
    reveal_strlit("add_sell_bonus");
    assert(ascii_snake("AddSellBonus"@) =~= "add_sell_bonus"@);
    reveal_strlit("DisableBoss");
    reveal_strlit("disable_boss");
    assert(ascii_snake("DisableBoss"@) =~= "disable_boss"@);
    reveal_strlit("AddRandomHandCard");
    reveal_strlit("add_random_hand_card");
    assert(ascii_snake("AddRandomHandCard"@) =~= "add_random_hand_card"@);
    reveal_strlit("CopyJokerRight");
    reveal_strlit("copy_joker_right");
    assert(ascii_snake("CopyJokerRight"@) =~= "copy_joker_right"@);
    reveal_strlit("CopyJokerLeftmost");
    reveal_strlit("copy_joker_leftmost");
    assert(ascii_snake("CopyJokerLeftmost"@) =~= "copy_joker_leftmost"@);
}

/// Variant names of a batch of operations, in declaration order: ASCII letters, with their
/// snake-case names.
proof fn lemma_names_4()
    ensures
        is_ascii_letters("PreventDeath"@),
        ascii_snake("PreventDeath"@) == "prevent_death"@,
        is_snake_word("prevent_death"@),
        is_ascii_letters("AddTag"@),
        ascii_snake("AddTag"@) == "add_tag"@,
        is_snake_word("add_tag"@),
        is_ascii_letters("DuplicateNextTag"@),
        ascii_snake("DuplicateNextTag"@) == "duplicate_next_tag"@,
        is_snake_word("duplicate_next_tag"@),
        is_ascii_letters("AddPack"@),
        ascii_snake("AddPack"@) == "add_pack"@,
        is_snake_word("add_pack"@),
        is_ascii_letters("AddShopJoker"@),
        ascii_snake("AddShopJoker"@) == "add_shop_joker"@,
        is_snake_word("add_shop_joker"@),
        is_ascii_letters("AddVoucher"@),
        ascii_snake("AddVoucher"@) == "add_voucher"@,
        is_snake_word("add_voucher"@),
        is_ascii_letters("SetRerollCost"@),
        ascii_snake("SetRerollCost"@) == "set_reroll_cost"@,
        is_snake_word("set_reroll_cost"@),
        is_ascii_letters("SetShopJokerEdition"@),
        ascii_snake("SetShopJokerEdition"@) == "set_shop_joker_edition"@,
        is_snake_word("set_shop_joker_edition"@),
        is_ascii_letters("RerollBoss"@),
        ascii_snake("RerollBoss"@) == "reroll_boss"@,
        is_snake_word("reroll_boss"@),
{
    reveal_with_fuel(ascii_snake_prefix, 26);
    reveal_strlit("PreventDeath");
    reveal_strlit("prevent_death");
    assert(ascii_snake("PreventDeath"@) =~= "prevent_death"@);
    reveal_strlit("AddTag");
    reveal_strlit("add_tag");
    assert(ascii_snake("AddTag"@) =~= "add_tag"@);
    reveal_strlit("DuplicateNextTag");
    reveal_strlit("duplicate_next_tag");
    assert(ascii_snake("DuplicateNextTag"@) =~= "duplicate_next_tag"@);
    reveal_strlit("AddPack");
    reveal_strlit("add_pack");
    assert(ascii_snake("AddPack"@) =~= "add_pack"@);
    reveal_strlit("AddShopJoker");
    reveal_strlit("add_shop_joker");
    assert(ascii_snake("AddShopJoker"@) =~= "add_shop_joker"@);
    reveal_strlit("AddVoucher");
    reveal_strlit("add_voucher");
    assert(ascii_snake("AddVoucher"@) =~= "add_voucher"@);
    reveal_strlit("SetRerollCost");
    reveal_strlit("set_reroll_cost");
    assert(ascii_snake("SetRerollCost"@) =~= "set_reroll_cost"@);
    reveal_strlit("SetShopJokerEdition");
    reveal_strlit("set_shop_joker_edition");
    assert(ascii_snake("SetShopJokerEdition"@) =~= "set_shop_joker_edition"@);
    reveal_strlit("RerollBoss");
    reveal_strlit("reroll_boss");
    assert(ascii_snake("RerollBoss"@) =~= "reroll_boss"@);
}

/// Variant names of a batch of operations, in declaration order: ASCII letters, with their
/// snake-case names.
proof fn lemma_names_5()
    ensures
        is_ascii_letters("UpgradeRandomHand"@),
        ascii_snake("UpgradeRandomHand"@) == "upgrade_random_hand"@,
        is_snake_word("upgrade_random_hand"@),
        is_ascii_letters("SetHands"@),
        ascii_snake("SetHands"@) == "set_hands"@,
        is_snake_word("set_hands"@),
        is_ascii_letters("MultiplyTarget"@),
        ascii_snake("MultiplyTarget"@) == "multiply_target"@,
        is_snake_word("multiply_target"@),
        is_ascii_letters("SetRule"@),
        ascii_snake("SetRule"@) == "set_rule"@,
        is_snake_word("set_rule"@),
        is_ascii_letters("AddRule"@),
        ascii_snake("AddRule"@) == "add_rule"@,
        is_snake_word("add_rule"@),
        is_ascii_letters("ClearRule"@),
        ascii_snake("ClearRule"@) == "clear_rule"@,
        is_snake_word("clear_rule"@),
        is_ascii_letters("SetVar"@),
        ascii_snake("SetVar"@) == "set_var"@,
        is_snake_word("set_var"@),
        is_ascii_letters("AddVar"@),
        ascii_snake("AddVar"@) == "add_var"@,
        is_snake_word("add_var"@),
{
    reveal_with_fuel(ascii_snake_prefix, 26);
    reveal_strlit("UpgradeRandomHand");
    reveal_strlit("upgrade_random_hand");
    assert(ascii_snake("UpgradeRandomHand"@) =~= "upgrade_random_hand"@);
    reveal_strlit("SetHands");
    reveal_strlit("set_hands");
    assert(ascii_snake("SetHands"@) =~= "set_hands"@);
    reveal_strlit("MultiplyTarget");
    reveal_strlit("multiply_target");
    assert(ascii_snake("MultiplyTarget"@) =~= "multiply_target"@);
    reveal_strlit("SetRule");
    reveal_strlit("set_rule");
    assert(ascii_snake("SetRule"@) =~= "set_rule"@);
    reveal_strlit("AddRule");
    reveal_strlit("add_rule");
    assert(ascii_snake("AddRule"@) =~= "add_rule"@);
    reveal_strlit("ClearRule");
    reveal_strlit("clear_rule");
    assert(ascii_snake("ClearRule"@) =~= "clear_rule"@);
    reveal_strlit("SetVar");
    reveal_strlit("set_var");
    assert(ascii_snake("SetVar"@) =~= "set_var"@);
    reveal_strlit("AddVar");
    reveal_strlit("add_var");
    assert(ascii_snake("AddVar"@) =~= "add_var"@);
}

/// The variant name of an operation is ASCII letters, and its snake-case text is the
/// operation's snake-case name, itself lowercase letters and underscores.
pub proof fn lemma_snake_names(op: ActionOp)
    ensures
        is_ascii_letters(op_variant_name(op)),
        ascii_snake(op_variant_name(op)) == op_snake_name(op),
        is_snake_word(op_snake_name(op)),
{
    lemma_names_0();
    lemma_names_1();
    lemma_names_2();
    lemma_names_3();
    lemma_names_4();
    lemma_names_5();
}

/// Snake-case names of a batch of operations, in declaration order: each is a keyword of
/// its own operation.
proof fn lemma_keywords_0()
    ensures
        keyword_op("add_chips"@) == Some(ActionOp::AddChips),
        keyword_op("add_mult"@) == Some(ActionOp::AddMult),
        keyword_op("multiply_mult"@) == Some(ActionOp::MultiplyMult),
        keyword_op("multiply_chips"@) == Some(ActionOp::MultiplyChips),
        keyword_op("add_money"@) == Some(ActionOp::AddMoney),
        keyword_op("set_money"@) == Some(ActionOp::SetMoney),
        keyword_op("add_hand_size"@) == Some(ActionOp::AddHandSize),
        keyword_op("retrigger_scored"@) == Some(ActionOp::RetriggerScored),
        keyword_op("retrigger_held"@) == Some(ActionOp::RetriggerHeld),
{
    reveal_strlit("add_chips");
    assert("add_chips"@.len() == 9);
    reveal_strlit("add_mult");
    assert("add_mult"@.len() == 8);
    reveal_strlit("mul_mult");
    assert("mul_mult"@.len() == 8);
    reveal_strlit("multiply_mult");
    assert("multiply_mult"@.len() == 13);
    reveal_strlit("mul_chips");
    assert("mul_chips"@.len() == 9);
    reveal_strlit("multiply_chips");
    assert("multiply_chips"@.len() == 14);
    reveal_strlit("add_money");
    assert("add_money"@.len() == 9);
    reveal_strlit("set_money");
    assert("set_money"@.len() == 9);
    reveal_strlit("money_set");
    assert("money_set"@.len() == 9);
    reveal_strlit("add_hand_size");
    assert("add_hand_size"@.len() == 13);
    reveal_strlit("retrigger_scored");
    assert("retrigger_scored"@.len() == 16);
    reveal_strlit("retrigger_held");
    assert("retrigger_held"@.len() == 14);
    assert("add_money"@[4] != "add_chips"@[4]);
    assert("add_money"@[0] != "mul_chips"@[0]);
    assert("set_money"@[0] != "add_chips"@[0]);
    assert("set_money"@[0] != "mul_chips"@[0]);
    assert("set_money"@[0] != "add_money"@[0]);
    assert("add_hand_size"@[0] != "multiply_mult"@[0]);
    assert("retrigger_held"@[0] != "multiply_chips"@[0]);
}

/// Snake-case names of a batch of operations, in declaration order: each is a keyword of
/// its own operation.
proof fn lemma_keywords_1()
    ensures
        keyword_op("add_stone_card"@) == Some(ActionOp::AddStoneCard),
        keyword_op("add_card_bonus"@) == Some(ActionOp::AddCardBonus),
        keyword_op("set_card_enhancement"@) == Some(ActionOp::SetCardEnhancement),
        keyword_op("clear_card_enhancement"@) == Some(ActionOp::ClearCardEnhancement),
        keyword_op("destroy_card"@) == Some(ActionOp::DestroyCard),
        keyword_op("copy_played_card"@) == Some(ActionOp::CopyPlayedCard),
        keyword_op("add_hands"@) == Some(ActionOp::AddHands),
        keyword_op("add_discards"@) == Some(ActionOp::AddDiscards),
        keyword_op("set_discards"@) == Some(ActionOp::SetDiscards),
{
    reveal_strlit("add_chips");
    assert("add_chips"@.len() == 9);
    reveal_strlit("add_mult");
    assert("add_mult"@.len() == 8);
    reveal_strlit("mul_mult");
    assert("mul_mult"@.len() == 8);
    reveal_strlit("multiply_mult");
    assert("multiply_mult"@.len() == 13);
    reveal_strlit("mul_chips");
    assert("mul_chips"@.len() == 9);
    reveal_strlit("multiply_chips");
    assert("multiply_chips"@.len() == 14);
    reveal_strlit("add_money");
    assert("add_money"@.len() == 9);
    reveal_strlit("set_money");
    assert("set_money"@.len() == 9);
    reveal_strlit("money_set");
    assert("money_set"@.len() == 9);
    reveal_strlit("add_hand_size");
    assert("add_hand_size"@.len() == 13);
    reveal_strlit("retrigger_scored");
    assert("retrigger_scored"@.len() == 16);
    reveal_strlit("retrigger_held");
    assert("retrigger_held"@.len() == 14);
    reveal_strlit("add_stone_card");
    assert("add_stone_card"@.len() == 14);
    reveal_strlit("add_card_bonus");
    assert("add_card_bonus"@.len() == 14);
    reveal_strlit("add_card_chips");
    assert("add_card_chips"@.len() == 14);
    reveal_strlit("card_bonus");
    assert("card_bonus"@.len() == 10);
    reveal_strlit("set_card_enhancement");
    assert("set_card_enhancement"@.len() == 20);
    reveal_strlit("set_enhancement");
    assert("set_enhancement"@.len() == 15);
    reveal_strlit("card_enhancement");
    assert("card_enhancement"@.len() == 16);
    reveal_strlit("clear_card_enhancement");
    assert("clear_card_enhancement"@.len() == 22);
    reveal_strlit("remove_card_enhancement");
    assert("remove_card_enhancement"@.len() == 23);
    reveal_strlit("clear_enhancement");
    assert("clear_enhancement"@.len() == 17);
    reveal_strlit("destroy_card");
    assert("destroy_card"@.len() == 12);
    reveal_strlit("destroy_current_card");
    assert("destroy_current_card"@.len() == 20);
    reveal_strlit("copy_played_card");
    assert("copy_played_card"@.len() == 16);
    reveal_strlit("copy_card");
    assert("copy_card"@.len() == 9);
    reveal_strlit("copy_scoring_card");
    assert("copy_scoring_card"@.len() == 17);
    reveal_strlit("add_hands");
    assert("add_hands"@.len() == 9);
    reveal_strlit("add_discards");
    assert("add_discards"@.len() == 12);
    reveal_strlit("set_discards");
    assert("set_discards"@.len() == 12);
    assert("add_stone_card"@[0] != "multiply_chips"@[0]);
    assert("add_stone_card"@[0] != "retrigger_held"@[0]);
    assert("add_card_bonus"@[0] != "multiply_chips"@[0]);
    assert("add_card_bonus"@[0] != "retrigger_held"@[0]);
    assert("add_card_bonus"@[4] != "add_stone_card"@[4]);
    assert("copy_played_card"@[0] != "retrigger_scored"@[0]);
    assert("copy_played_card"@[1] != "card_enhancement"@[1]);
    assert("add_hands"@[4] != "add_chips"@[4]);
    assert("add_hands"@[0] != "mul_chips"@[0]);
    assert("add_hands"@[4] != "add_money"@[4]);
    assert("add_hands"@[0] != "set_money"@[0]);
    assert("add_hands"@[0] != "money_set"@[0]);
    assert("add_hands"@[0] != "copy_card"@[0]);
    assert("add_discards"@[0] != "destroy_card"@[0]);
    assert("set_discards"@[0] != "destroy_card"@[0]);
    assert("set_discards"@[0] != "add_discards"@[0]);
}

/// Snake-case names of a batch of operations, in declaration order: each is a keyword of
/// its own operation.
proof fn lemma_keywords_2()
    ensures
        keyword_op("add_tarot"@) == Some(ActionOp::AddTarot),
        keyword_op("add_planet"@) == Some(ActionOp::AddPlanet),
        keyword_op("add_spectral"@) == Some(ActionOp::AddSpectral),
        keyword_op("add_free_reroll"@) == Some(ActionOp::AddFreeReroll),
        keyword_op("set_shop_price"@) == Some(ActionOp::SetShopPrice),
        keyword_op("add_joker"@) == Some(ActionOp::AddJoker),
        keyword_op("destroy_random_joker"@) == Some(ActionOp::DestroyRandomJoker),
        keyword_op("destroy_joker_right"@) == Some(ActionOp::DestroyJokerRight),
        keyword_op("destroy_joker_left"@) == Some(ActionOp::DestroyJokerLeft),
{
    reveal_strlit("add_chips");
    assert("add_chips"@.len() == 9);
    reveal_strlit("add_mult");
    assert("add_mult"@.len() == 8);
    reveal_strlit("mul_mult");
    assert("mul_mult"@.len() == 8);
    reveal_strlit("multiply_mult");
    assert("multiply_mult"@.len() == 13);
    reveal_strlit("mul_chips");
    assert("mul_chips"@.len() == 9);
    reveal_strlit("multiply_chips");
    assert("multiply_chips"@.len() == 14);
    reveal_strlit("add_money");
    assert("add_money"@.len() == 9);
    reveal_strlit("set_money");
    assert("set_money"@.len() == 9);
    reveal_strlit("money_set");
    assert("money_set"@.len() == 9);
    reveal_strlit("add_hand_size");
    assert("add_hand_size"@.len() == 13);
    reveal_strlit("retrigger_scored");
    assert("retrigger_scored"@.len() == 16);
    reveal_strlit("retrigger_held");
    assert("retrigger_held"@.len() == 14);
    reveal_strlit("add_stone_card");
    assert("add_stone_card"@.len() == 14);
    reveal_strlit("add_card_bonus");
    assert("add_card_bonus"@.len() == 14);
    reveal_strlit("add_card_chips");
    assert("add_card_chips"@.len() == 14);
    reveal_strlit("card_bonus");
    assert("card_bonus"@.len() == 10);
    reveal_strlit("set_card_enhancement");
    assert("set_card_enhancement"@.len() == 20);
    reveal_strlit("set_enhancement");
    assert("set_enhancement"@.len() == 15);
    reveal_strlit("card_enhancement");
    assert("card_enhancement"@.len() == 16);
    reveal_strlit("clear_card_enhancement");
    assert("clear_card_enhancement"@.len() == 22);
    reveal_strlit("remove_card_enhancement");
    assert("remove_card_enhancement"@.len() == 23);
    reveal_strlit("clear_enhancement");
    assert("clear_enhancement"@.len() == 17);
    reveal_strlit("destroy_card");
    assert("destroy_card"@.len() == 12);
    reveal_strlit("destroy_current_card");
    assert("destroy_current_card"@.len() == 20);
    reveal_strlit("copy_played_card");
    assert("copy_played_card"@.len() == 16);
    reveal_strlit("copy_card");
    assert("copy_card"@.len() == 9);
    reveal_strlit("copy_scoring_card");
    assert("copy_scoring_card"@.len() == 17);
    reveal_strlit("add_hands");
    assert("add_hands"@.len() == 9);
    reveal_strlit("add_discards");
    assert("add_discards"@.len() == 12);
    reveal_strlit("set_discards");
    assert("set_discards"@.len() == 12);
    reveal_strlit("add_tarot");
    assert("add_tarot"@.len() == 9);
    reveal_strlit("add_planet");
    assert("add_planet"@.len() == 10);
    reveal_strlit("add_spectral");
    assert("add_spectral"@.len() == 12);
    reveal_strlit("add_free_reroll");
    assert("add_free_reroll"@.len() == 15);
    reveal_strlit("set_shop_price");
    assert("set_shop_price"@.len() == 14);
    reveal_strlit("shop_price");
    assert("shop_price"@.len() == 10);
    reveal_strlit("add_joker");
    assert("add_joker"@.len() == 9);
    reveal_strlit("add_random_joker");
    assert("add_random_joker"@.len() == 16);
    reveal_strlit("destroy_random_joker");
    assert("destroy_random_joker"@.len() == 20);
    reveal_strlit("destroy_joker_random");
    assert("destroy_joker_random"@.len() == 20);
    reveal_strlit("destroy_joker_right");
    assert("destroy_joker_right"@.len() == 19);
    reveal_strlit("destroy_right_joker");
    assert("destroy_right_joker"@.len() == 19);
    reveal_strlit("destroy_joker_left");
    assert("destroy_joker_left"@.len() == 18);
    assert("add_tarot"@[4] != "add_chips"@[4]);
    assert("add_tarot"@[0] != "mul_chips"@[0]);
    assert("add_tarot"@[4] != "add_money"@[4]);
    assert("add_tarot"@[0] != "set_money"@[0]);
    assert("add_tarot"@[0] != "money_set"@[0]);
    assert("add_tarot"@[0] != "copy_card"@[0]);
    assert("add_tarot"@[4] != "add_hands"@[4]);
    assert("add_planet"@[0] != "card_bonus"@[0]);
    assert("add_spectral"@[0] != "destroy_card"@[0]);
    assert("add_spectral"@[4] != "add_discards"@[4]);
    assert("add_spectral"@[0] != "set_discards"@[0]);
    assert("add_free_reroll"@[0] != "set_enhancement"@[0]);
    assert("set_shop_price"@[0] != "multiply_chips"@[0]);
    assert("set_shop_price"@[0] != "retrigger_held"@[0]);
    assert("set_shop_price"@[0] != "add_stone_card"@[0]);
    assert("set_shop_price"@[0] != "add_card_bonus"@[0]);
    assert("set_shop_price"@[0] != "add_card_chips"@[0]);
    assert("add_joker"@[4] != "add_chips"@[4]);
    assert("add_joker"@[0] != "mul_chips"@[0]);
    assert("add_joker"@[4] != "add_money"@[4]);
    assert("add_joker"@[0] != "set_money"@[0]);
    assert("add_joker"@[0] != "money_set"@[0]);
    assert("add_joker"@[0] != "copy_card"@[0]);
    assert("add_joker"@[4] != "add_hands"@[4]);
    assert("add_joker"@[4] != "add_tarot"@[4]);
    assert("destroy_random_joker"@[0] != "set_card_enhancement"@[0]);
    assert("destroy_random_joker"@[8] != "destroy_current_card"@[8]);
}

/// Snake-case names of a batch of operations, in declaration order: each is a keyword of
/// its own operation.
proof fn lemma_keywords_3()
    ensures
        keyword_op("destroy_self"@) == Some(ActionOp::DestroySelf),
        keyword_op("upgrade_hand"@) == Some(ActionOp::UpgradeHand),
        keyword_op("duplicate_random_joker"@) == Some(ActionOp::DuplicateRandomJoker),
        keyword_op("duplicate_random_consumable"@) == Some(ActionOp::DuplicateRandomConsumable),
        keyword_op("add_sell_bonus"@) == Some(ActionOp::AddSellBonus),
        keyword_op("disable_boss"@) == Some(ActionOp::DisableBoss),
        keyword_op("add_random_hand_card"@) == Some(ActionOp::AddRandomHandCard),
        keyword_op("copy_joker_right"@) == Some(ActionOp::CopyJokerRight),
        keyword_op("copy_joker_leftmost"@) == Some(ActionOp::CopyJokerLeftmost),
{
    reveal_strlit("add_chips");
    assert("add_chips"@.len() == 9);
    reveal_strlit("add_mult");
    assert("add_mult"@.len() == 8);
    reveal_strlit("mul_mult");
    assert("mul_mult"@.len() == 8);
    reveal_strlit("multiply_mult");
    assert("multiply_mult"@.len() == 13);
    reveal_strlit("mul_chips");
    assert("mul_chips"@.len() == 9);
    reveal_strlit("multiply_chips");
    assert("multiply_chips"@.len() == 14);
    reveal_strlit("add_money");
    assert("add_money"@.len() == 9);
    reveal_strlit("set_money");
    assert("set_money"@.len() == 9);
    reveal_strlit("money_set");
    assert("money_set"@.len() == 9);
    reveal_strlit("add_hand_size");
    assert("add_hand_size"@.len() == 13);
    reveal_strlit("retrigger_scored");
    assert("retrigger_scored"@.len() == 16);
    reveal_strlit("retrigger_held");
    assert("retrigger_held"@.len() == 14);
    reveal_strlit("add_stone_card");
    assert("add_stone_card"@.len() == 14);
    reveal_strlit("add_card_bonus");
    assert("add_card_bonus"@.len() == 14);
    reveal_strlit("add_card_chips");
    assert("add_card_chips"@.len() == 14);
    reveal_strlit("card_bonus");
    assert("card_bonus"@.len() == 10);
    reveal_strlit("set_card_enhancement");
    assert("set_card_enhancement"@.len() == 20);
    reveal_strlit("set_enhancement");
    assert("set_enhancement"@.len() == 15);
    reveal_strlit("card_enhancement");
    assert("card_enhancement"@.len() == 16);
    reveal_strlit("clear_card_enhancement");
    assert("clear_card_enhancement"@.len() == 22);
    reveal_strlit("remove_card_enhancement");
    assert("remove_card_enhancement"@.len() == 23);
    reveal_strlit("clear_enhancement");
    assert("clear_enhancement"@.len() == 17);
    reveal_strlit("destroy_card");
    assert("destroy_card"@.len() == 12);
    reveal_strlit("destroy_current_card");
    assert("destroy_current_card"@.len() == 20);
    reveal_strlit("copy_played_card");
    assert("copy_played_card"@.len() == 16);
    reveal_strlit("copy_card");
    assert("copy_card"@.len() == 9);
    reveal_strlit("copy_scoring_card");
    assert("copy_scoring_card"@.len() == 17);
    reveal_strlit("add_hands");
    assert("add_hands"@.len() == 9);
    reveal_strlit("add_discards");
    assert("add_discards"@.len() == 12);
    reveal_strlit("set_discards");
    assert("set_discards"@.len() == 12);
    reveal_strlit("add_tarot");
    assert("add_tarot"@.len() == 9);
    reveal_strlit("add_planet");
    assert("add_planet"@.len() == 10);
    reveal_strlit("add_spectral");
    assert("add_spectral"@.len() == 12);
    reveal_strlit("add_free_reroll");
    assert("add_free_reroll"@.len() == 15);
    reveal_strlit("set_shop_price");
    assert("set_shop_price"@.len() == 14);
    reveal_strlit("shop_price");
    assert("shop_price"@.len() == 10);
    reveal_strlit("add_joker");
    assert("add_joker"@.len() == 9);
    reveal_strlit("add_random_joker");
    assert("add_random_joker"@.len() == 16);
    reveal_strlit("destroy_random_joker");
    assert("destroy_random_joker"@.len() == 20);
    reveal_strlit("destroy_joker_random");
    assert("destroy_joker_random"@.len() == 20);
    reveal_strlit("destroy_joker_right");
    assert("destroy_joker_right"@.len() == 19);
    reveal_strlit("destroy_right_joker");
    assert("destroy_right_joker"@.len() == 19);
    reveal_strlit("destroy_joker_left");
    assert("destroy_joker_left"@.len() == 18);
    reveal_strlit("destroy_left_joker");
    assert("destroy_left_joker"@.len() == 18);
    reveal_strlit("destroy_self");
    assert("destroy_self"@.len() == 12);
    reveal_strlit("upgrade_hand");
    assert("upgrade_hand"@.len() == 12);
    reveal_strlit("duplicate_random_joker");
    assert("duplicate_random_joker"@.len() == 22);
    reveal_strlit("dup_random_joker");
    assert("dup_random_joker"@.len() == 16);
    reveal_strlit("duplicate_random_consumable");
    assert("duplicate_random_consumable"@.len() == 27);
    reveal_strlit("dup_random_consumable");
    assert("dup_random_consumable"@.len() == 21);
    reveal_strlit("add_sell_bonus");
    assert("add_sell_bonus"@.len() == 14);
    reveal_strlit("sell_bonus");
    assert("sell_bonus"@.len() == 10);
    reveal_strlit("disable_boss");
    assert("disable_boss"@.len() == 12);
    reveal_strlit("boss_disable");
    assert("boss_disable"@.len() == 12);
    reveal_strlit("add_random_hand_card");
    assert("add_random_hand_card"@.len() == 20);
    reveal_strlit("add_hand_card");
    assert("add_hand_card"@.len() == 13);
    reveal_strlit("copy_joker_right");
    assert("copy_joker_right"@.len() == 16);
    reveal_strlit("copy_right_joker");
    assert("copy_right_joker"@.len() == 16);
    reveal_strlit("copy_joker_leftmost");
    assert("copy_joker_leftmost"@.len() == 19);
    assert("destroy_self"@[8] != "destroy_card"@[8]);
    assert("destroy_self"@[0] != "add_discards"@[0]);
    assert("destroy_self"@[0] != "set_discards"@[0]);
    assert("destroy_self"@[0] != "add_spectral"@[0]);
    assert("upgrade_hand"@[0] != "destroy_card"@[0]);
    assert("upgrade_hand"@[0] != "add_discards"@[0]);
    assert("upgrade_hand"@[0] != "set_discards"@[0]);
    assert("upgrade_hand"@[0] != "add_spectral"@[0]);
    assert("upgrade_hand"@[0] != "destroy_self"@[0]);
    assert("duplicate_random_joker"@[0] != "clear_card_enhancement"@[0]);
    assert("add_sell_bonus"@[0] != "multiply_chips"@[0]);
    assert("add_sell_bonus"@[0] != "retrigger_held"@[0]);
    assert("add_sell_bonus"@[5] != "add_stone_card"@[5]);
    assert("add_sell_bonus"@[4] != "add_card_bonus"@[4]);
    assert("add_sell_bonus"@[4] != "add_card_chips"@[4]);
    assert("add_sell_bonus"@[0] != "set_shop_price"@[0]);
    assert("disable_boss"@[1] != "destroy_card"@[1]);
    assert("disable_boss"@[0] != "add_discards"@[0]);
    assert("disable_boss"@[0] != "set_discards"@[0]);
    assert("disable_boss"@[0] != "add_spectral"@[0]);
    assert("disable_boss"@[1] != "destroy_self"@[1]);
    assert("disable_boss"@[0] != "upgrade_hand"@[0]);
    assert("add_random_hand_card"@[0] != "set_card_enhancement"@[0]);
    assert("add_random_hand_card"@[0] != "destroy_current_card"@[0]);
    assert("add_random_hand_card"@[0] != "destroy_random_joker"@[0]);
    assert("add_random_hand_card"@[0] != "destroy_joker_random"@[0]);
    assert("copy_joker_right"@[0] != "retrigger_scored"@[0]);
    assert("copy_joker_right"@[1] != "card_enhancement"@[1]);
    assert("copy_joker_right"@[5] != "copy_played_card"@[5]);
    assert("copy_joker_right"@[0] != "add_random_joker"@[0]);
    assert("copy_joker_right"@[0] != "dup_random_joker"@[0]);
    assert("copy_joker_leftmost"@[0] != "destroy_joker_right"@[0]);
    assert("copy_joker_leftmost"@[0] != "destroy_right_joker"@[0]);
}

/// Snake-case names of a batch of operations, in declaration order: each is a keyword of
/// its own operation.
proof fn lemma_keywords_4()
    ensures
        keyword_op("prevent_death"@) == Some(ActionOp::PreventDeath),
        keyword_op("add_tag"@) == Some(ActionOp::AddTag),
        keyword_op("duplicate_next_tag"@) == Some(ActionOp::DuplicateNextTag),
        keyword_op("add_pack"@) == Some(ActionOp::AddPack),
        keyword_op("add_shop_joker"@) == Some(ActionOp::AddShopJoker),
        keyword_op("add_voucher"@) == Some(ActionOp::AddVoucher),
        keyword_op("set_reroll_cost"@) == Some(ActionOp::SetRerollCost),
        keyword_op("set_shop_joker_edition"@) == Some(ActionOp::SetShopJokerEdition),
        keyword_op("reroll_boss"@) == Some(ActionOp::RerollBoss),
{
    reveal_strlit("add_chips");
    assert("add_chips"@.len() == 9);
    reveal_strlit("add_mult");
    assert("add_mult"@.len() == 8);
    reveal_strlit("mul_mult");
    assert("mul_mult"@.len() == 8);
    reveal_strlit("multiply_mult");
    assert("multiply_mult"@.len() == 13);
    reveal_strlit("mul_chips");
    assert("mul_chips"@.len() == 9);
    reveal_strlit("multiply_chips");
    assert("multiply_chips"@.len() == 14);
    reveal_strlit("add_money");
    assert("add_money"@.len() == 9);
    reveal_strlit("set_money");
    assert("set_money"@.len() == 9);
    reveal_strlit("money_set");
    assert("money_set"@.len() == 9);
    reveal_strlit("add_hand_size");
    assert("add_hand_size"@.len() == 13);
    reveal_strlit("retrigger_scored");
    assert("retrigger_scored"@.len() == 16);
    reveal_strlit("retrigger_held");
    assert("retrigger_held"@.len() == 14);
    reveal_strlit("add_stone_card");
    assert("add_stone_card"@.len() == 14);
    reveal_strlit("add_card_bonus");
    assert("add_card_bonus"@.len() == 14);
    reveal_strlit("add_card_chips");
    assert("add_card_chips"@.len() == 14);
    reveal_strlit("card_bonus");
    assert("card_bonus"@.len() == 10);
    reveal_strlit("set_card_enhancement");
    assert("set_card_enhancement"@.len() == 20);
    reveal_strlit("set_enhancement");
    assert("set_enhancement"@.len() == 15);
    reveal_strlit("card_enhancement");
    assert("card_enhancement"@.len() == 16);
    reveal_strlit("clear_card_enhancement");
    assert("clear_card_enhancement"@.len() == 22);
    reveal_strlit("remove_card_enhancement");
    assert("remove_card_enhancement"@.len() == 23);
    reveal_strlit("clear_enhancement");
    assert("clear_enhancement"@.len() == 17);
    reveal_strlit("destroy_card");
    assert("destroy_card"@.len() == 12);
    reveal_strlit("destroy_current_card");
    assert("destroy_current_card"@.len() == 20);
    reveal_strlit("copy_played_card");
    assert("copy_played_card"@.len() == 16);
    reveal_strlit("copy_card");
    assert("copy_card"@.len() == 9);
    reveal_strlit("copy_scoring_card");
    assert("copy_scoring_card"@.len() == 17);
    reveal_strlit("add_hands");
    assert("add_hands"@.len() == 9);
    reveal_strlit("add_discards");
    assert("add_discards"@.len() == 12);
    reveal_strlit("set_discards");
    assert("set_discards"@.len() == 12);
    reveal_strlit("add_tarot");
    assert("add_tarot"@.len() == 9);
    reveal_strlit("add_planet");
    assert("add_planet"@.len() == 10);
    reveal_strlit("add_spectral");
    assert("add_spectral"@.len() == 12);
    reveal_strlit("add_free_reroll");
    assert("add_free_reroll"@.len() == 15);
    reveal_strlit("set_shop_price");
    assert("set_shop_price"@.len() == 14);
    reveal_strlit("shop_price");
    assert("shop_price"@.len() == 10);
    reveal_strlit("add_joker");
    assert("add_joker"@.len() == 9);
    reveal_strlit("add_random_joker");
    assert("add_random_joker"@.len() == 16);
    reveal_strlit("destroy_random_joker");
    assert("destroy_random_joker"@.len() == 20);
    reveal_strlit("destroy_joker_random");
    assert("destroy_joker_random"@.len() == 20);
    reveal_strlit("destroy_joker_right");
    assert("destroy_joker_right"@.len() == 19);
    reveal_strlit("destroy_right_joker");
    assert("destroy_right_joker"@.len() == 19);
    reveal_strlit("destroy_joker_left");
    assert("destroy_joker_left"@.len() == 18);
    reveal_strlit("destroy_left_joker");
    assert("destroy_left_joker"@.len() == 18);
    reveal_strlit("destroy_self");
    assert("destroy_self"@.len() == 12);
    reveal_strlit("upgrade_hand");
    assert("upgrade_hand"@.len() == 12);
    reveal_strlit("duplicate_random_joker");
    assert("duplicate_random_joker"@.len() == 22);
    reveal_strlit("dup_random_joker");
    assert("dup_random_joker"@.len() == 16);
    reveal_strlit("duplicate_random_consumable");
    assert("duplicate_random_consumable"@.len() == 27);
    reveal_strlit("dup_random_consumable");
    assert("dup_random_consumable"@.len() == 21);
    reveal_strlit("add_sell_bonus");
    assert("add_sell_bonus"@.len() == 14);
    reveal_strlit("sell_bonus");
    assert("sell_bonus"@.len() == 10);
    reveal_strlit("disable_boss");
    assert("disable_boss"@.len() == 12);
    reveal_strlit("boss_disable");
    assert("boss_disable"@.len() == 12);
    reveal_strlit("add_random_hand_card");
    assert("add_random_hand_card"@.len() == 20);
    reveal_strlit("add_hand_card");
    assert("add_hand_card"@.len() == 13);
    reveal_strlit("copy_joker_right");
    assert("copy_joker_right"@.len() == 16);
    reveal_strlit("copy_right_joker");
    assert("copy_right_joker"@.len() == 16);
    reveal_strlit("copy_joker_leftmost");
    assert("copy_joker_leftmost"@.len() == 19);
    reveal_strlit("copy_leftmost_joker");
    assert("copy_leftmost_joker"@.len() == 19);
    reveal_strlit("prevent_death");
    assert("prevent_death"@.len() == 13);
    reveal_strlit("survive");
    assert("survive"@.len() == 7);
    reveal_strlit("add_tag");
    assert("add_tag"@.len() == 7);
    reveal_strlit("tag");
    assert("tag"@.len() == 3);
    reveal_strlit("duplicate_next_tag");
    assert("duplicate_next_tag"@.len() == 18);
    reveal_strlit("dup_next_tag");
    assert("dup_next_tag"@.len() == 12);
    reveal_strlit("add_pack");
    assert("add_pack"@.len() == 8);
    reveal_strlit("add_booster_pack");
    assert("add_booster_pack"@.len() == 16);
    reveal_strlit("add_shop_joker");
    assert("add_shop_joker"@.len() == 14);
    reveal_strlit("shop_joker");
    assert("shop_joker"@.len() == 10);
    reveal_strlit("add_voucher");
    assert("add_voucher"@.len() == 11);
    reveal_strlit("voucher_add");
    assert("voucher_add"@.len() == 11);
    reveal_strlit("set_reroll_cost");
    assert("set_reroll_cost"@.len() == 15);
    reveal_strlit("reroll_cost");
    assert("reroll_cost"@.len() == 11);
    reveal_strlit("set_shop_joker_edition");
    assert("set_shop_joker_edition"@.len() == 22);
    reveal_strlit("shop_joker_edition");
    assert("shop_joker_edition"@.len() == 18);
    reveal_strlit("reroll_boss");
    assert("reroll_boss"@.len() == 11);
    assert("prevent_death"@[0] != "multiply_mult"@[0]);
    assert("prevent_death"@[0] != "add_hand_size"@[0]);
    assert("prevent_death"@[0] != "add_hand_card"@[0]);
    assert("add_tag"@[0] != "survive"@[0]);
    assert("duplicate_next_tag"@[1] != "destroy_joker_left"@[1]);
    assert("duplicate_next_tag"@[1] != "destroy_left_joker"@[1]);
    assert("add_pack"@[4] != "add_mult"@[4]);
    assert("add_pack"@[0] != "mul_mult"@[0]);
    assert("add_shop_joker"@[0] != "multiply_chips"@[0]);
    assert("add_shop_joker"@[0] != "retrigger_held"@[0]);
    assert("add_shop_joker"@[5] != "add_stone_card"@[5]);
    assert("add_shop_joker"@[4] != "add_card_bonus"@[4]);
    assert("add_shop_joker"@[4] != "add_card_chips"@[4]);
    assert("add_shop_joker"@[0] != "set_shop_price"@[0]);
    assert("add_shop_joker"@[5] != "add_sell_bonus"@[5]);
    assert("set_reroll_cost"@[4] != "set_enhancement"@[4]);
    assert("set_reroll_cost"@[0] != "add_free_reroll"@[0]);
    assert("set_shop_joker_edition"@[0] != "clear_card_enhancement"@[0]);
    assert("set_shop_joker_edition"@[0] != "duplicate_random_joker"@[0]);
    assert("reroll_boss"@[0] != "add_voucher"@[0]);
    assert("reroll_boss"@[0] != "voucher_add"@[0]);
    assert("reroll_boss"@[7] != "reroll_cost"@[7]);
}

/// Snake-case names of a batch of operations, in declaration order: each is a keyword of
/// its own operation.
proof fn lemma_keywords_5()
    ensures
        keyword_op("upgrade_random_hand"@) == Some(ActionOp::UpgradeRandomHand),
        keyword_op("set_hands"@) == Some(ActionOp::SetHands),
        keyword_op("multiply_target"@) == Some(ActionOp::MultiplyTarget),
        keyword_op("set_rule"@) == Some(ActionOp::SetRule),
        keyword_op("add_rule"@) == Some(ActionOp::AddRule),
        keyword_op("clear_rule"@) == Some(ActionOp::ClearRule),
        keyword_op("set_var"@) == Some(ActionOp::SetVar),
        keyword_op("add_var"@) == Some(ActionOp::AddVar),
{
    reveal_strlit("add_chips");
    assert("add_chips"@.len() == 9);
    reveal_strlit("add_mult");
    assert("add_mult"@.len() == 8);
    reveal_strlit("mul_mult");
    assert("mul_mult"@.len() == 8);
    reveal_strlit("multiply_mult");
    assert("multiply_mult"@.len() == 13);
    reveal_strlit("mul_chips");
    assert("mul_chips"@.len() == 9);
    reveal_strlit("multiply_chips");
    assert("multiply_chips"@.len() == 14);
    reveal_strlit("add_money");
    assert("add_money"@.len() == 9);
    reveal_strlit("set_money");
    assert("set_money"@.len() == 9);
    reveal_strlit("money_set");
    assert("money_set"@.len() == 9);
    reveal_strlit("add_hand_size");
    assert("add_hand_size"@.len() == 13);
    reveal_strlit("retrigger_scored");
    assert("retrigger_scored"@.len() == 16);
    reveal_strlit("retrigger_held");
    assert("retrigger_held"@.len() == 14);
    reveal_strlit("add_stone_card");
    assert("add_stone_card"@.len() == 14);
    reveal_strlit("add_card_bonus");
    assert("add_card_bonus"@.len() == 14);
    reveal_strlit("add_card_chips");
    assert("add_card_chips"@.len() == 14);
    reveal_strlit("card_bonus");
    assert("card_bonus"@.len() == 10);
    reveal_strlit("set_card_enhancement");
    assert("set_card_enhancement"@.len() == 20);
    reveal_strlit("set_enhancement");
    assert("set_enhancement"@.len() == 15);
    reveal_strlit("card_enhancement");
    assert("card_enhancement"@.len() == 16);
    reveal_strlit("clear_card_enhancement");
    assert("clear_card_enhancement"@.len() == 22);
    reveal_strlit("remove_card_enhancement");
    assert("remove_card_enhancement"@.len() == 23);
    reveal_strlit("clear_enhancement");
    assert("clear_enhancement"@.len() == 17);
    reveal_strlit("destroy_card");
    assert("destroy_card"@.len() == 12);
    reveal_strlit("destroy_current_card");
    assert("destroy_current_card"@.len() == 20);
    reveal_strlit("copy_played_card");
    assert("copy_played_card"@.len() == 16);
    reveal_strlit("copy_card");
    assert("copy_card"@.len() == 9);
    reveal_strlit("copy_scoring_card");
    assert("copy_scoring_card"@.len() == 17);
    reveal_strlit("add_hands");
    assert("add_hands"@.len() == 9);
    reveal_strlit("add_discards");
    assert("add_discards"@.len() == 12);
    reveal_strlit("set_discards");
    assert("set_discards"@.len() == 12);
    reveal_strlit("add_tarot");
    assert("add_tarot"@.len() == 9);
    reveal_strlit("add_planet");
    assert("add_planet"@.len() == 10);
    reveal_strlit("add_spectral");
    assert("add_spectral"@.len() == 12);
    reveal_strlit("add_free_reroll");
    assert("add_free_reroll"@.len() == 15);
    reveal_strlit("set_shop_price");
    assert("set_shop_price"@.len() == 14);
    reveal_strlit("shop_price");
    assert("shop_price"@.len() == 10);
    reveal_strlit("add_joker");
    assert("add_joker"@.len() == 9);
    reveal_strlit("add_random_joker");
    assert("add_random_joker"@.len() == 16);
    reveal_strlit("destroy_random_joker");
    assert("destroy_random_joker"@.len() == 20);
    reveal_strlit("destroy_joker_random");
    assert("destroy_joker_random"@.len() == 20);
    reveal_strlit("destroy_joker_right");
    assert("destroy_joker_right"@.len() == 19);
    reveal_strlit("destroy_right_joker");
    assert("destroy_right_joker"@.len() == 19);
    reveal_strlit("destroy_joker_left");
    assert("destroy_joker_left"@.len() == 18);
    reveal_strlit("destroy_left_joker");
    assert("destroy_left_joker"@.len() == 18);
    reveal_strlit("destroy_self");
    assert("destroy_self"@.len() == 12);
    reveal_strlit("upgrade_hand");
    assert("upgrade_hand"@.len() == 12);
    reveal_strlit("duplicate_random_joker");
    assert("duplicate_random_joker"@.len() == 22);
    reveal_strlit("dup_random_joker");
    assert("dup_random_joker"@.len() == 16);
    reveal_strlit("duplicate_random_consumable");
    assert("duplicate_random_consumable"@.len() == 27);
    reveal_strlit("dup_random_consumable");
    assert("dup_random_consumable"@.len() == 21);
    reveal_strlit("add_sell_bonus");
    assert("add_sell_bonus"@.len() == 14);
    reveal_strlit("sell_bonus");
    assert("sell_bonus"@.len() == 10);
    reveal_strlit("disable_boss");
    assert("disable_boss"@.len() == 12);
    reveal_strlit("boss_disable");
    assert("boss_disable"@.len() == 12);
    reveal_strlit("add_random_hand_card");
    assert("add_random_hand_card"@.len() == 20);
    reveal_strlit("add_hand_card");
    assert("add_hand_card"@.len() == 13);
    reveal_strlit("copy_joker_right");
    assert("copy_joker_right"@.len() == 16);
    reveal_strlit("copy_right_joker");
    assert("copy_right_joker"@.len() == 16);
    reveal_strlit("copy_joker_leftmost");
    assert("copy_joker_leftmost"@.len() == 19);
    reveal_strlit("copy_leftmost_joker");
    assert("copy_leftmost_joker"@.len() == 19);
    reveal_strlit("prevent_death");
    assert("prevent_death"@.len() == 13);
    reveal_strlit("survive");
    assert("survive"@.len() == 7);
    reveal_strlit("add_tag");
    assert("add_tag"@.len() == 7);
    reveal_strlit("tag");
    assert("tag"@.len() == 3);
    reveal_strlit("duplicate_next_tag");
    assert("duplicate_next_tag"@.len() == 18);
    reveal_strlit("dup_next_tag");
    assert("dup_next_tag"@.len() == 12);
    reveal_strlit("add_pack");
    assert("add_pack"@.len() == 8);
    reveal_strlit("add_booster_pack");
    assert("add_booster_pack"@.len() == 16);
    reveal_strlit("add_shop_joker");
    assert("add_shop_joker"@.len() == 14);
    reveal_strlit("shop_joker");
    assert("shop_joker"@.len() == 10);
    reveal_strlit("add_voucher");
    assert("add_voucher"@.len() == 11);
    reveal_strlit("voucher_add");
    assert("voucher_add"@.len() == 11);
    reveal_strlit("set_reroll_cost");
    assert("set_reroll_cost"@.len() == 15);
    reveal_strlit("reroll_cost");
    assert("reroll_cost"@.len() == 11);
    reveal_strlit("set_shop_joker_edition");
    assert("set_shop_joker_edition"@.len() == 22);
    reveal_strlit("shop_joker_edition");
    assert("shop_joker_edition"@.len() == 18);
    reveal_strlit("reroll_boss");
    assert("reroll_boss"@.len() == 11);
    reveal_strlit("boss_reroll");
    assert("boss_reroll"@.len() == 11);
    reveal_strlit("upgrade_random_hand");
    assert("upgrade_random_hand"@.len() == 19);
    reveal_strlit("upgrade_hand_random");
    assert("upgrade_hand_random"@.len() == 19);
    reveal_strlit("set_hands");
    assert("set_hands"@.len() == 9);
    reveal_strlit("hands_set");
    assert("hands_set"@.len() == 9);
    reveal_strlit("set_hands_left");
    assert("set_hands_left"@.len() == 14);
    reveal_strlit("mul_target");
    assert("mul_target"@.len() == 10);
    reveal_strlit("multiply_target");
    assert("multiply_target"@.len() == 15);
    reveal_strlit("target_mult");
    assert("target_mult"@.len() == 11);
    reveal_strlit("set_rule");
    assert("set_rule"@.len() == 8);
    reveal_strlit("rule_set");
    assert("rule_set"@.len() == 8);
    reveal_strlit("add_rule");
    assert("add_rule"@.len() == 8);
    reveal_strlit("rule_add");
    assert("rule_add"@.len() == 8);
    reveal_strlit("clear_rule");
    assert("clear_rule"@.len() == 10);
    reveal_strlit("rule_clear");
    assert("rule_clear"@.len() == 10);
    reveal_strlit("set_var");
    assert("set_var"@.len() == 7);
    reveal_strlit("add_var");
    assert("add_var"@.len() == 7);
    assert("upgrade_random_hand"@[0] != "destroy_joker_right"@[0]);
    assert("upgrade_random_hand"@[0] != "destroy_right_joker"@[0]);
    assert("upgrade_random_hand"@[0] != "copy_joker_leftmost"@[0]);
    assert("upgrade_random_hand"@[0] != "copy_leftmost_joker"@[0]);
    assert("set_hands"@[0] != "add_chips"@[0]);
    assert("set_hands"@[0] != "mul_chips"@[0]);
    assert("set_hands"@[0] != "add_money"@[0]);
    assert("set_hands"@[4] != "set_money"@[4]);
    assert("set_hands"@[0] != "money_set"@[0]);
    assert("set_hands"@[0] != "copy_card"@[0]);
    assert("set_hands"@[0] != "add_hands"@[0]);
    assert("set_hands"@[0] != "add_tarot"@[0]);
    assert("set_hands"@[0] != "add_joker"@[0]);
    assert("multiply_target"@[0] != "set_enhancement"@[0]);
    assert("multiply_target"@[0] != "add_free_reroll"@[0]);
    assert("multiply_target"@[0] != "set_reroll_cost"@[0]);
    assert("set_rule"@[0] != "add_mult"@[0]);
    assert("set_rule"@[0] != "mul_mult"@[0]);
    assert("set_rule"@[0] != "add_pack"@[0]);
    assert("add_rule"@[4] != "add_mult"@[4]);
    assert("add_rule"@[0] != "mul_mult"@[0]);
    assert("add_rule"@[4] != "add_pack"@[4]);
    assert("add_rule"@[0] != "set_rule"@[0]);
    assert("add_rule"@[0] != "rule_set"@[0]);
    assert("clear_rule"@[1] != "card_bonus"@[1]);
    assert("clear_rule"@[0] != "add_planet"@[0]);
    assert("clear_rule"@[0] != "shop_price"@[0]);
    assert("clear_rule"@[0] != "sell_bonus"@[0]);
    assert("clear_rule"@[0] != "shop_joker"@[0]);
    assert("clear_rule"@[0] != "mul_target"@[0]);
    assert("set_var"@[1] != "survive"@[1]);
    assert("set_var"@[0] != "add_tag"@[0]);
    assert("add_var"@[0] != "survive"@[0]);
    assert("add_var"@[4] != "add_tag"@[4]);
    assert("add_var"@[0] != "set_var"@[0]);
}

/// Each snake-case name is a keyword of its own operation.
proof fn lemma_snake_keywords(op: ActionOp)
    ensures
        keyword_op(op_snake_name(op)) == Some(op),
{
    lemma_keywords_0();
    lemma_keywords_1();
    lemma_keywords_2();
    lemma_keywords_3();
    lemma_keywords_4();
    lemma_keywords_5();
}

/// Reading back the snake-case name of an operation gives the operation: the name that
/// `action_op_name` writes, `ascii_snake` of the variant name, is lowercase letters and
/// underscores, which `from_keyword` reads as they stand, and it is the operation's
/// keyword. So `ActionOp::from_keyword(&action_op_name(op))` is `Some(op)` for every `op`.
pub proof fn law_op_name_round_trip(op: ActionOp)
    ensures
        is_snake_word(ascii_snake(op_variant_name(op))),
        keyword_op(ascii_snake(op_variant_name(op))) == Some(op),
{
    lemma_snake_names(op);
    lemma_snake_keywords(op);
}

} // verus!
