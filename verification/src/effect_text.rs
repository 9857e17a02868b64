//! Short texts of the effects of consumables, for the operations whose fields are whole
//! numbers, labels and names.
use crate::cards::{Edition, Enhancement, Seal, Suit};
use crate::console::{in_locale, signed_int, UiLocale};
use crate::effects::{ConsumableKind, JokerRarity, RankFilter};
use crate::hand::HandKind;
use crate::labels::{
    consumable_kind_short, edition_debug_name, edition_short, enhancement_short, hand_label_short,
    rank_filter_label_short, seal_short, spec_consumable_kind_short, spec_edition_debug_name, spec_edition_short,
    spec_enhancement_short, spec_hand_label_short, spec_rank_filter_label_short, spec_seal_short, spec_suit_short,
    suit_short,
};
use crate::text::{chars_of, decimal, int_text, push_char, push_decimal, push_int, signed_decimal, trim, trim_chars};
use vstd::prelude::*;

verus! {

/// An effect operation of a consumable, with the fields its short text shows.
#[derive(Debug, Clone)]
pub enum EffectOpView {
    AddMoney(i64),
    SetMoney(i64),
    DoubleMoney{ cap: i64 },
    AddMoneyFromJokers{ cap: i64 },
    AddHandSize(i64),
    UpgradeHand{ hand: HandKind, amount: u32 },
    UpgradeAllHands{ amount: u32 },
    AddRandomConsumable{ kind: ConsumableKind, count: u8 },
    AddJoker{ rarity: JokerRarity, count: u8 },
    AddRandomJoker{ count: u8 },
    SetRandomJokerEdition{ edition: Edition },
    SetRandomJokerEditionDestroyOthers{ edition: Edition },
    DuplicateRandomJokerDestroyOthers{ remove_negative: bool },
    EnhanceSelected{ enhancement: Enhancement, count: u8 },
    AddEditionToSelected{ editions: Vec<Edition>, count: u8 },
    AddSealToSelected{ seal: Seal, count: u8 },
    ConvertSelectedSuit{ suit: Suit, count: u8 },
    IncreaseSelectedRank{ count: u8, delta: i8 },
    DestroySelected{ count: u8 },
    DestroyRandomInHand{ count: u8 },
    CopySelected{ count: u8 },
    ConvertLeftIntoRight,
    ConvertHandToRandomRank,
    ConvertHandToRandomSuit,
    AddRandomEnhancedCards{ count: u8, filter: RankFilter },
    CreateLastConsumable{ exclude: Option<String> },
    RetriggerScored(i64),
    RetriggerHeld(i64),
}

/// Name of a joker rarity as `Debug` writes it.
pub open spec fn spec_rarity_debug_name(r: JokerRarity) -> Seq<char> {
    match r {
        JokerRarity::Common => "Common"@,
        JokerRarity::Uncommon => "Uncommon"@,
        JokerRarity::Rare => "Rare"@,
        JokerRarity::Legendary => "Legendary"@,
    }
}

pub fn rarity_debug_name(r: JokerRarity) -> (s: &'static str)
    ensures
        s@ == spec_rarity_debug_name(r),
{
    match r {
        JokerRarity::Common => "Common",
        JokerRarity::Uncommon => "Uncommon",
        JokerRarity::Rare => "Rare",
        JokerRarity::Legendary => "Legendary",
    }
}

/// Edition names separated by `, `.
pub open spec fn edition_names(s: Seq<Edition>) -> Seq<char>
    decreases s.len(),
{
    if s.len() == 0 {
        Seq::empty()
    } else if s.len() == 1 {
        spec_edition_debug_name(s[0])
    } else {
        edition_names(s.drop_last()) + ", "@ + spec_edition_debug_name(s.last())
    }
}

/// A list of editions as `Debug` writes it: `[Foil, Negative]`.
pub open spec fn edition_list_text(s: Seq<Edition>) -> Seq<char> {
    "["@ + edition_names(s) + "]"@
}

fn push_edition_list(out: &mut String, items: &Vec<Edition>)
    ensures
        final(out)@ == old(out)@ + edition_list_text(items@),
{
    let ghost start = out@;
    out.append("[");
    let mut i: usize = 0;
    assert(items@.subrange(0, 0) =~= Seq::<Edition>::empty());
    while i < items.len()
        invariant
            i <= items.len(),
            out@ == start + "["@ + edition_names(items@.subrange(0, i as int)),
        decreases items.len() - i,
    {
        if i > 0 {
            out.append(", ");
        }
        out.append(edition_debug_name(items[i]));
        assert(items@.subrange(0, i + 1).drop_last() =~= items@.subrange(0, i as int));
        i = i + 1;
    }
    assert(items@.subrange(0, items.len() as int) =~= items@);
    out.append("]");
}

/// Every pair of spaces replaced by one space, scanning from the left as `str::replace`
/// does.
pub open spec fn collapse_spaces(s: Seq<char>) -> Seq<char>
    decreases s.len(),
{
    if s.len() < 2 {
        s
    } else if s[0] == ' ' && s[1] == ' ' {
        seq![' '] + collapse_spaces(s.skip(2))
    } else {
        seq![s[0]] + collapse_spaces(s.skip(1))
    }
}

fn collapse_double_spaces(s: &str) -> (out: String)
    ensures
        out@ == collapse_spaces(s@),
{
    let c = chars_of(s);
    let mut out = String::new();
    let mut i: usize = 0;
    assert(c@.skip(0) =~= c@);
    while i < c.len()
        invariant
            c@ == s@,
            i <= c@.len(),
            out@ + collapse_spaces(c@.skip(i as int)) == collapse_spaces(c@),
        decreases c.len() - i,
    {
        let ghost rest = c@.skip(i as int);
        if i + 1 < c.len() && c[i] == ' ' && c[i + 1] == ' ' {
            assert(rest.skip(2) =~= c@.skip(i + 2));
            push_char(&mut out, ' ');
            i = i + 2;
        } else {
            proof {
                if rest.len() >= 2 {
                    assert(rest.skip(1) =~= c@.skip(i + 1));
                } else {
                    assert(c@.skip(i + 1) =~= Seq::<char>::empty());
                    assert(rest =~= seq![c@[i as int]]);
                }
            }
            push_char(&mut out, c[i]);
            i = i + 1;
        }
    }
    assert(c@.skip(i as int) =~= Seq::<char>::empty());
    out
}

/// The short text of an operation before its spaces are tidied.
pub open spec fn effect_raw_text(locale: UiLocale, op: EffectOpView) -> Seq<char> {
    match op {
        EffectOpView::AddMoney(value) => "+$"@ + int_text(value as int),
        EffectOpView::SetMoney(value) => in_locale(locale, "money", "金钱") + "="@ + int_text(value as int),
        EffectOpView::DoubleMoney { cap } => in_locale(locale, "money", "金钱") + " x2 ("@ + in_locale(locale, "cap", "上限") + " "@ + int_text(cap as int) + ")"@,
        EffectOpView::AddMoneyFromJokers { cap } => in_locale(locale, "joker money", "小丑转钱") + " ("@ + in_locale(locale, "cap", "上限") + " "@ + int_text(cap as int) + ")"@,
        EffectOpView::AddHandSize(value) => in_locale(locale, "hand size ", "手牌上限 ") + signed_decimal(value as int),
        EffectOpView::UpgradeHand { hand, amount } => in_locale(locale, "upgrade", "升级") + " "@ + spec_hand_label_short(locale, hand) + " +"@ + decimal(amount as nat),
        EffectOpView::UpgradeAllHands { amount } => in_locale(locale, "all hands", "全部牌型") + " +"@ + decimal(amount as nat),
        EffectOpView::AddRandomConsumable { kind, count } => "+"@ + decimal(count as nat) + " "@ + spec_consumable_kind_short(locale, kind),
        EffectOpView::AddJoker { rarity, count } => "+"@ + decimal(count as nat) + " "@ + in_locale(locale, "joker", "小丑") + "("@ + spec_rarity_debug_name(rarity) + ")"@,
        EffectOpView::AddRandomJoker { count } => "+"@ + decimal(count as nat) + " "@ + in_locale(locale, "random joker", "随机小丑"),
        EffectOpView::SetRandomJokerEdition { edition } => in_locale(locale, "set joker edition", "设置小丑版本") + " "@ + spec_edition_short(edition),
        EffectOpView::SetRandomJokerEditionDestroyOthers { edition } => in_locale(locale, "set edition destroy others", "设置版本并销毁其他小丑") + " "@ + spec_edition_short(edition),
        EffectOpView::DuplicateRandomJokerDestroyOthers { remove_negative } => in_locale(locale, "duplicate random joker", "复制随机小丑") + (if remove_negative { in_locale(locale, " (remove negative)", "（移除负片）") } else { Seq::empty() }),
        EffectOpView::EnhanceSelected { enhancement, count } => in_locale(locale, "selected", "选中") + decimal(count as nat) + " "@ + in_locale(locale, "add", "加成") + " "@ + spec_enhancement_short(enhancement),
        EffectOpView::AddEditionToSelected { editions, count } => in_locale(locale, "selected", "选中") + decimal(count as nat) + " "@ + in_locale(locale, "edition", "版本") + " "@ + edition_list_text(editions@),
        EffectOpView::AddSealToSelected { seal, count } => in_locale(locale, "selected", "选中") + decimal(count as nat) + " "@ + spec_seal_short(seal),
        EffectOpView::ConvertSelectedSuit { suit, count } => in_locale(locale, "selected", "选中") + decimal(count as nat) + " "@ + in_locale(locale, "to suit", "改为花色") + " "@ + spec_suit_short(suit),
        EffectOpView::IncreaseSelectedRank { count, delta } => in_locale(locale, "selected", "选中") + decimal(count as nat) + " "@ + in_locale(locale, "rank", "点数") + " "@ + signed_decimal(delta as int),
        EffectOpView::DestroySelected { count } => in_locale(locale, "destroy", "销毁") + decimal(count as nat) + " "@ + in_locale(locale, "selected", "选中"),
        EffectOpView::DestroyRandomInHand { count } => in_locale(locale, "destroy", "销毁") + decimal(count as nat) + " "@ + in_locale(locale, "in hand random", "张手牌（随机）"),
        EffectOpView::CopySelected { count } => in_locale(locale, "copy", "复制") + decimal(count as nat) + " "@ + in_locale(locale, "selected", "选中"),
        EffectOpView::ConvertLeftIntoRight => in_locale(locale, "left card turns right card", "左牌变为右牌"),
        EffectOpView::ConvertHandToRandomRank => in_locale(locale, "hand to random rank", "手牌变为随机点数"),
        EffectOpView::ConvertHandToRandomSuit => in_locale(locale, "hand to random suit", "手牌变为随机花色"),
        EffectOpView::AddRandomEnhancedCards { count, filter } => "+"@ + decimal(count as nat) + " "@ + in_locale(locale, "enhanced cards", "增强牌") + " ("@ + spec_rank_filter_label_short(locale, filter) + ")"@,
        EffectOpView::CreateLastConsumable { exclude } => (match exclude { Some(e) => in_locale(locale, "repeat last consumable", "重复上一个消耗牌") + " "@ + in_locale(locale, "exclude", "排除") + " ("@ + e@ + ")"@, None => in_locale(locale, "repeat last consumable", "重复上一个消耗牌") }),
        EffectOpView::RetriggerScored(times) => in_locale(locale, "retrigger scored", "重触发计分牌") + " "@ + signed_decimal(times as int),
        EffectOpView::RetriggerHeld(times) => in_locale(locale, "retrigger held", "重触发留手牌") + " "@ + signed_decimal(times as int),
    }
}

/// The short text of an operation, in the interface language: double spaces made single
/// and the ends trimmed.
pub open spec fn spec_summarize_effect_op(locale: UiLocale, op: EffectOpView) -> Seq<char> {
    trim_chars(collapse_spaces(effect_raw_text(locale, op)))
}

fn effect_raw(locale: UiLocale, op: &EffectOpView) -> (out: String)
    ensures
        out@ == effect_raw_text(locale, *op),
{
    let mut out = String::new();
    match op {
        EffectOpView::AddMoney(value) => {
            out.append("+$");
            push_int(&mut out, *value);
        },
        EffectOpView::SetMoney(value) => {
            out.append(locale.text("money", "金钱"));
            out.append("=");
            push_int(&mut out, *value);
        },
        EffectOpView::DoubleMoney { cap } => {
            out.append(locale.text("money", "金钱"));
            out.append(" x2 (");
            out.append(locale.text("cap", "上限"));
            out.append(" ");
            push_int(&mut out, *cap);
            out.append(")");
        },
        EffectOpView::AddMoneyFromJokers { cap } => {
            out.append(locale.text("joker money", "小丑转钱"));
            out.append(" (");
            out.append(locale.text("cap", "上限"));
            out.append(" ");
            push_int(&mut out, *cap);
            out.append(")");
        },
        EffectOpView::AddHandSize(value) => {
            out.append(locale.text("hand size ", "手牌上限 "));
            let t = signed_int(*value as i64);
            out.append(t.as_str());
        },
        EffectOpView::UpgradeHand { hand, amount } => {
            out.append(locale.text("upgrade", "升级"));
            out.append(" ");
            out.append(hand_label_short(locale, *hand));
            out.append(" +");
            push_decimal(&mut out, *amount as u64);
        },
        EffectOpView::UpgradeAllHands { amount } => {
            out.append(locale.text("all hands", "全部牌型"));
            out.append(" +");
            push_decimal(&mut out, *amount as u64);
        },
        EffectOpView::AddRandomConsumable { kind, count } => {
            out.append("+");
            push_decimal(&mut out, *count as u64);
            out.append(" ");
            out.append(consumable_kind_short(locale, *kind));
        },
        EffectOpView::AddJoker { rarity, count } => {
            out.append("+");
            push_decimal(&mut out, *count as u64);
            out.append(" ");
            out.append(locale.text("joker", "小丑"));
            out.append("(");
            out.append(rarity_debug_name(*rarity));
            out.append(")");
        },
        EffectOpView::AddRandomJoker { count } => {
            out.append("+");
            push_decimal(&mut out, *count as u64);
            out.append(" ");
            out.append(locale.text("random joker", "随机小丑"));
        },
        EffectOpView::SetRandomJokerEdition { edition } => {
            out.append(locale.text("set joker edition", "设置小丑版本"));
            out.append(" ");
            out.append(edition_short(*edition));
        },
        EffectOpView::SetRandomJokerEditionDestroyOthers { edition } => {
            out.append(locale.text("set edition destroy others", "设置版本并销毁其他小丑"));
            out.append(" ");
            out.append(edition_short(*edition));
        },
        EffectOpView::DuplicateRandomJokerDestroyOthers { remove_negative } => {
            out.append(locale.text("duplicate random joker", "复制随机小丑"));
            if *remove_negative {
                out.append(locale.text(" (remove negative)", "（移除负片）"));
            }
        },
        EffectOpView::EnhanceSelected { enhancement, count } => {
            out.append(locale.text("selected", "选中"));
            push_decimal(&mut out, *count as u64);
            out.append(" ");
            out.append(locale.text("add", "加成"));
            out.append(" ");
            out.append(enhancement_short(*enhancement));
        },
        EffectOpView::AddEditionToSelected { editions, count } => {
            out.append(locale.text("selected", "选中"));
            push_decimal(&mut out, *count as u64);
            out.append(" ");
            out.append(locale.text("edition", "版本"));
            out.append(" ");
            push_edition_list(&mut out, editions);
        },
        EffectOpView::AddSealToSelected { seal, count } => {
            out.append(locale.text("selected", "选中"));
            push_decimal(&mut out, *count as u64);
            out.append(" ");
            out.append(seal_short(*seal));
        },
        EffectOpView::ConvertSelectedSuit { suit, count } => {
            out.append(locale.text("selected", "选中"));
            push_decimal(&mut out, *count as u64);
            out.append(" ");
            out.append(locale.text("to suit", "改为花色"));
            out.append(" ");
            out.append(suit_short(*suit));
        },
        EffectOpView::IncreaseSelectedRank { count, delta } => {
            out.append(locale.text("selected", "选中"));
            push_decimal(&mut out, *count as u64);
            out.append(" ");
            out.append(locale.text("rank", "点数"));
            out.append(" ");
            let t = signed_int(*delta as i64);
            out.append(t.as_str());
        },
        EffectOpView::DestroySelected { count } => {
            out.append(locale.text("destroy", "销毁"));
            push_decimal(&mut out, *count as u64);
            out.append(" ");
            out.append(locale.text("selected", "选中"));
        },
        EffectOpView::DestroyRandomInHand { count } => {
            out.append(locale.text("destroy", "销毁"));
            push_decimal(&mut out, *count as u64);
            out.append(" ");
            out.append(locale.text("in hand random", "张手牌（随机）"));
        },
        EffectOpView::CopySelected { count } => {
            out.append(locale.text("copy", "复制"));
            push_decimal(&mut out, *count as u64);
            out.append(" ");
            out.append(locale.text("selected", "选中"));
        },
        EffectOpView::ConvertLeftIntoRight => {
            out.append(locale.text("left card turns right card", "左牌变为右牌"));
        },
        EffectOpView::ConvertHandToRandomRank => {
            out.append(locale.text("hand to random rank", "手牌变为随机点数"));
        },
        EffectOpView::ConvertHandToRandomSuit => {
            out.append(locale.text("hand to random suit", "手牌变为随机花色"));
        },
        EffectOpView::AddRandomEnhancedCards { count, filter } => {
            out.append("+");
            push_decimal(&mut out, *count as u64);
            out.append(" ");
            out.append(locale.text("enhanced cards", "增强牌"));
            out.append(" (");
            out.append(rank_filter_label_short(locale, *filter));
            out.append(")");
        },
        EffectOpView::CreateLastConsumable { exclude } => {
            out.append(locale.text("repeat last consumable", "重复上一个消耗牌"));
            if let Some(e) = exclude {
                out.append(" ");
                out.append(locale.text("exclude", "排除"));
                out.append(" (");
                out.append(e.as_str());
                out.append(")");
            }
        },
        EffectOpView::RetriggerScored(times) => {
            out.append(locale.text("retrigger scored", "重触发计分牌"));
            out.append(" ");
            let t = signed_int(*times as i64);
            out.append(t.as_str());
        },
        EffectOpView::RetriggerHeld(times) => {
            out.append(locale.text("retrigger held", "重触发留手牌"));
            out.append(" ");
            let t = signed_int(*times as i64);
            out.append(t.as_str());
        },
    }
    assert(out@ =~= effect_raw_text(locale, *op));
    out
}

/// The short text of an effect operation shown to the player.
pub fn summarize_effect_op(locale: UiLocale, op: &EffectOpView) -> (s: String)
    ensures
        s@ == spec_summarize_effect_op(locale, *op),
{
    let raw = effect_raw(locale, op);
    let tidy = collapse_double_spaces(raw.as_str());
    String::from_str(trim(tidy.as_str()))
}

} // verus!
