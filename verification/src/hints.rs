//! Hints shown after a refused command, telling the player what to do instead.
use crate::console::UiLocale;
use crate::run::{Phase, RunError};
use crate::text::{int_text, push_int};
use vstd::prelude::*;

verus! {

/// `en` or `zh`, by locale.
pub open spec fn localized(locale: UiLocale, en: Seq<char>, zh: Seq<char>) -> Seq<char> {
    if locale == UiLocale::ZhCn {
        zh
    } else {
        en
    }
}

fn pick_text(locale: UiLocale, en: &str, zh: &str) -> (s: String)
    ensures
        s@ == localized(locale, en@, zh@),
{
    String::from_str(locale.text(en, zh))
}

/// Score still missing before the shop opens: `target - blind_score`, at least zero.
pub open spec fn missing_score(target: i64, blind_score: i64) -> int {
    if target - blind_score > 0 {
        target - blind_score
    } else {
        0
    }
}

/// The hint for a refused command, given whether a pack is open, whether the blind is
/// cleared, and the blind's target and score so far.
pub open spec fn spec_run_error_hint(
    locale: UiLocale,
    pack_open: bool,
    blind_cleared: bool,
    target: i64,
    blind_score: i64,
    err: RunError,
) -> Option<Seq<char>> {
    if pack_open {
        Some(localized(locale, "pack is open: use 'pick <idx..>' or 'skip_pack' first"@, "卡包已打开：请先使用 'pick <idx..>' 或 'skip_pack'"@))
    } else {
        match err {
            RunError::InvalidPhase(phase) => Some(
                match phase {
                    Phase::Deal => localized(locale, "use 'deal' first, then 'play' or 'discard'"@, "请先执行 'deal'，然后再 'play' 或 'discard'"@),
                    Phase::Play => localized(locale, "use 'play <idx..>' or 'discard <idx..>'"@, "请使用 'play <idx..>' 或 'discard <idx..>'"@),
                    Phase::Shop => localized(locale, "use shop commands: 'buy', 'reroll', or 'leave'"@, "请使用商店命令：'buy'、'reroll' 或 'leave'"@),
                    Phase::Cleanup => if blind_cleared {
                        localized(locale, "blind is cleared: use 'shop' or 'next'"@, "盲注已通过：使用 'shop' 或 'next'"@)
                    } else {
                        localized(locale, "round ended: use 'deal' for next hand"@, "本手已结束：使用 'deal' 继续下一手"@)
                    },
                    Phase::Setup => localized(locale, "start with 'next'"@, "请从 'next' 开始"@),
                    Phase::Score => localized(locale, "scoring is resolving; check 'summary' then continue"@, "结算进行中：先查看 'summary' 再继续"@),
                },
            ),
            RunError::NoHandsLeft => Some(
                if blind_cleared {
                    localized(locale, "blind is already cleared: use 'shop' or 'next'"@, "盲注已通过：使用 'shop' 或 'next'"@)
                } else {
                    localized(locale, "no hands left; use 'next' to move on"@, "出牌次数已用尽：使用 'next' 继续"@)
                },
            ),
            RunError::NoDiscardsLeft => Some(localized(locale, "no discards left; use 'play <idx..>'"@, "弃牌次数已用尽：请使用 'play <idx..>'"@)),
            RunError::BlindNotCleared => Some(
                if locale == UiLocale::ZhCn {
                    "进入商店前还需要 "@ + int_text(missing_score(target, blind_score)) + " 分"@
                } else {
                    "need "@ + int_text(missing_score(target, blind_score)) + " more score before entering shop"@
                },
            ),
            RunError::NotEnoughMoney => Some(localized(locale, "not enough money; check price and reroll cost"@, "资金不足：请检查价格和刷新费用"@)),
            RunError::InvalidSelection => Some(localized(locale, "check indices with 'hand' or 'pack' and try again"@, "请用 'hand' 或 'pack' 检查索引后重试"@)),
            RunError::InvalidCardCount => Some(localized(locale, "pick between 1 and 5 card indices"@, "请选择 1 到 5 张牌"@)),
            RunError::PackNotAvailable => Some(localized(locale, "buy a pack in shop first: 'buy pack <idx>'"@, "请先在商店购买卡包：'buy pack <idx>'"@)),
            RunError::CannotSkipBoss => Some(localized(locale, "boss blind cannot be skipped"@, "Boss 盲注不能跳过"@)),
            RunError::InvalidOfferIndex => Some(localized(locale, "invalid shop index; use 'shop' to inspect current offers"@, "无效的商店索引；请使用 'shop' 查看当前商品"@)),
            RunError::InvalidJokerIndex => Some(localized(locale, "invalid joker index; use 'inv' to list jokers"@, "无效的小丑索引；请使用 'inv' 查看"@)),
            _ => None,
        }
    }
}

/// What to try after a refused command; `None` when there is no advice for the error.
pub fn run_error_hint(
    locale: UiLocale,
    pack_open: bool,
    blind_cleared: bool,
    target: i64,
    blind_score: i64,
    err: &RunError,
) -> (r: Option<String>)
    requires
        !pack_open && *err == RunError::BlindNotCleared ==> i64::MIN <= target - blind_score <= i64::MAX,
    ensures
        match spec_run_error_hint(locale, pack_open, blind_cleared, target, blind_score, *err) {
            Some(t) => r is Some && r->0@ == t,
            None => r is None,
        },
{
    if pack_open {
        return Some(pick_text(locale, "pack is open: use 'pick <idx..>' or 'skip_pack' first", "卡包已打开：请先使用 'pick <idx..>' 或 'skip_pack'"));
    }
    match err {
        RunError::InvalidPhase(phase) => Some(
            match phase {
                Phase::Deal => pick_text(locale, "use 'deal' first, then 'play' or 'discard'", "请先执行 'deal'，然后再 'play' 或 'discard'"),
                Phase::Play => pick_text(locale, "use 'play <idx..>' or 'discard <idx..>'", "请使用 'play <idx..>' 或 'discard <idx..>'"),
                Phase::Shop => pick_text(locale, "use shop commands: 'buy', 'reroll', or 'leave'", "请使用商店命令：'buy'、'reroll' 或 'leave'"),
                Phase::Cleanup => if blind_cleared {
                    pick_text(locale, "blind is cleared: use 'shop' or 'next'", "盲注已通过：使用 'shop' 或 'next'")
                } else {
                    pick_text(locale, "round ended: use 'deal' for next hand", "本手已结束：使用 'deal' 继续下一手")
                },
                Phase::Setup => pick_text(locale, "start with 'next'", "请从 'next' 开始"),
                Phase::Score => pick_text(locale, "scoring is resolving; check 'summary' then continue", "结算进行中：先查看 'summary' 再继续"),
            },
        ),
        RunError::NoHandsLeft => Some(
            if blind_cleared {
                pick_text(locale, "blind is already cleared: use 'shop' or 'next'", "盲注已通过：使用 'shop' 或 'next'")
            } else {
                pick_text(locale, "no hands left; use 'next' to move on", "出牌次数已用尽：使用 'next' 继续")
            },
        ),
        RunError::NoDiscardsLeft => Some(pick_text(locale, "no discards left; use 'play <idx..>'", "弃牌次数已用尽：请使用 'play <idx..>'")),
        RunError::BlindNotCleared => {
            let diff = target - blind_score;
            let remaining = if diff > 0 {
                diff
            } else {
                0
            };
            let mut out = if locale == UiLocale::ZhCn {
                String::from_str("进入商店前还需要 ")
            } else {
                String::from_str("need ")
            };
            push_int(&mut out, remaining);
            if locale == UiLocale::ZhCn {
                out.append(" 分");
            } else {
                out.append(" more score before entering shop");
            }
            Some(out)
        },
        RunError::NotEnoughMoney => Some(pick_text(locale, "not enough money; check price and reroll cost", "资金不足：请检查价格和刷新费用")),
        RunError::InvalidSelection => Some(pick_text(locale, "check indices with 'hand' or 'pack' and try again", "请用 'hand' 或 'pack' 检查索引后重试")),
        RunError::InvalidCardCount => Some(pick_text(locale, "pick between 1 and 5 card indices", "请选择 1 到 5 张牌")),
        RunError::PackNotAvailable => Some(pick_text(locale, "buy a pack in shop first: 'buy pack <idx>'", "请先在商店购买卡包：'buy pack <idx>'")),
        RunError::CannotSkipBoss => Some(pick_text(locale, "boss blind cannot be skipped", "Boss 盲注不能跳过")),
        RunError::InvalidOfferIndex => Some(pick_text(locale, "invalid shop index; use 'shop' to inspect current offers", "无效的商店索引；请使用 'shop' 查看当前商品")),
        RunError::InvalidJokerIndex => Some(pick_text(locale, "invalid joker index; use 'inv' to list jokers", "无效的小丑索引；请使用 'inv' 查看")),
        _ => None,
    }
}

} // verus!
