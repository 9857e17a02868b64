//! Pure pieces of the seeded autoplay search: the action vocabulary, objective checks,
//! the search's own random generator and candidate enumeration.
use crate::cards::{Card, Rank};
use crate::run::Phase;
use crate::console::is_prefix;
use crate::hand::HandKind;
use crate::labels::{
    edition_debug_name, enhancement_debug_name, rank_short, seal_debug_name, spec_edition_debug_name,
    spec_enhancement_debug_name, spec_rank_short, spec_seal_debug_name, spec_suit_short, suit_short,
};
use crate::text::{
    int_text, join_strings, join_with, push_int,
    lines_of, string_views, text_lines,
    decimal, index_list_text, lemma_lex_irreflexive, lemma_lex_total, lemma_lex_transitive, lex_lt,
    push_decimal, push_index_list, str_eq, str_less, joined_indices,
};
use crate::parse::{all_digits, digits_value, is_digit, lemma_decimal_digits};
use vstd::prelude::*;

verus! {

/// One move the autoplayer can make.
#[derive(Debug, Clone, PartialEq, Eq, Hash)]
pub enum AutoAction {
    Deal,
    Play { indices: Vec<usize> },
    Discard { indices: Vec<usize> },
    SkipBlind,
    EnterShop,
    LeaveShop,
    RerollShop,
    BuyCard { index: usize },
    BuyPack { index: usize },
    BuyVoucher { index: usize },
    PickPack { indices: Vec<usize> },
    SkipPack,
    UseConsumable { index: usize, selected: Vec<usize> },
    SellJoker { index: usize },
    NextBlind,
}

#[derive(Debug, Clone, PartialEq, Eq)]
pub enum AutoplayError {
    Factory(String),
    Run(String),
    InvalidAction(String),
    Io(String),
    Serialize(String),
}

/// Goals of an autoplay run; absent goals are not checked.
#[derive(Debug, Clone, Copy, PartialEq, Eq)]
pub struct TargetConfig {
    pub target_score: Option<i64>,
    pub target_ante: Option<u8>,
    pub target_money: Option<i64>,
    pub stop_on_blind_failed: bool,
}

pub open spec fn default_targets() -> TargetConfig {
    TargetConfig {
        target_score: None,
        target_ante: Some(4),
        target_money: None,
        stop_on_blind_failed: true,
    }
}

impl Default for TargetConfig {
    /// Reach ante 4, stopping when a blind is failed.
    fn default() -> (t: Self)
        ensures
            t == default_targets(),
    {
        TargetConfig {
            target_score: None,
            target_ante: Some(4),
            target_money: None,
            stop_on_blind_failed: true,
        }
    }
}

/// Observable state of a run used to judge progress.
#[derive(Debug, Clone, Copy, PartialEq, Eq)]
pub struct EvalMetrics {
    pub ante: u8,
    pub money: i64,
    pub blind_score: i64,
    pub blind_target: i64,
    pub blind_failed: bool,
    pub blind_cleared: bool,
}

/// Every configured goal is met, and at least one goal is configured.
pub open spec fn spec_target_reached(m: EvalMetrics, t: TargetConfig) -> bool {
    &&& (t.target_score matches Some(s) ==> m.blind_score >= s)
    &&& (t.target_ante matches Some(a) ==> m.ante >= a)
    &&& (t.target_money matches Some(x) ==> m.money >= x)
    &&& (t.target_score is Some || t.target_ante is Some || t.target_money is Some)
}

pub fn target_reached(metrics: EvalMetrics, targets: TargetConfig) -> (b: bool)
    ensures
        b == spec_target_reached(metrics, targets),
{
    if let Some(target) = targets.target_score {
        if metrics.blind_score < target {
            return false;
        }
    }
    if let Some(target) = targets.target_ante {
        if metrics.ante < target {
            return false;
        }
    }
    if let Some(target) = targets.target_money {
        if metrics.money < target {
            return false;
        }
    }
    targets.target_score.is_some() || targets.target_ante.is_some()
        || targets.target_money.is_some()
}

/// Reaching the goals is monotone: more score, a higher ante or more money never
/// un-reaches a target that was reached.
pub proof fn law_target_reached_monotone(a: EvalMetrics, b: EvalMetrics, t: TargetConfig)
    requires
        spec_target_reached(a, t),
        b.blind_score >= a.blind_score,
        b.ante >= a.ante,
        b.money >= a.money,
    ensures
        spec_target_reached(b, t),
{
}

#[derive(Debug, Clone, Copy, PartialEq, Eq, Structural)]
pub enum RunStatus {
    TargetReached,
    Failed,
    MaxSteps,
    NoLegalAction,
}

#[derive(Debug, Clone, Copy, PartialEq, Eq)]
pub struct AnteTargetRecord {
    pub ante: u8,
    pub small: i64,
    pub big: i64,
    pub boss: i64,
}

#[derive(Debug, Clone, Copy, PartialEq, Eq)]
pub struct FinalMetrics {
    pub ante: u8,
    pub money: i64,
    pub blind_score: i64,
    pub blind_target: i64,
}

#[derive(Debug, Clone, Copy, PartialEq, Eq)]
pub struct SummaryStats {
    pub steps: u32,
    pub total_simulations: u64,
    pub wall_time_ms: u64,
}

/// Whether a run stops at a check point: when the targets are reached, or when the blind
/// failed and the targets ask to stop on that.
pub open spec fn spec_stop_status(m: EvalMetrics, t: TargetConfig) -> Option<RunStatus> {
    if spec_target_reached(m, t) {
        Some(RunStatus::TargetReached)
    } else if t.stop_on_blind_failed && m.blind_failed {
        Some(RunStatus::Failed)
    } else {
        None
    }
}

/// The status a run stops with at a check point (before and after each step), if any.
pub fn stop_status(metrics: EvalMetrics, targets: TargetConfig) -> (r: Option<RunStatus>)
    ensures
        r == spec_stop_status(metrics, targets),
{
    if target_reached(metrics, targets) {
        Some(RunStatus::TargetReached)
    } else if targets.stop_on_blind_failed && metrics.blind_failed {
        Some(RunStatus::Failed)
    } else {
        None
    }
}

/// The status after a step in which no action could be committed: a status already set
/// stays, otherwise there was no legal action.
pub fn uncommitted_status(status: Option<RunStatus>) -> (r: RunStatus)
    ensures
        r == match status {
            Some(s) => s,
            None => RunStatus::NoLegalAction,
        },
{
    match status {
        Some(s) => s,
        None => RunStatus::NoLegalAction,
    }
}

/// The status a run ends with: the one it stopped on, or the step limit when it ran all
/// its steps.
pub fn final_status(stopped: Option<RunStatus>) -> (r: RunStatus)
    ensures
        r == match stopped {
            Some(s) => s,
            None => RunStatus::MaxSteps,
        },
{
    match stopped {
        Some(s) => s,
        None => RunStatus::MaxSteps,
    }
}

pub open spec fn spec_run_status_label(status: RunStatus) -> Seq<char> {
    match status {
        RunStatus::TargetReached => "TargetReached/达到目标"@,
        RunStatus::Failed => "Failed/失败"@,
        RunStatus::MaxSteps => "MaxSteps/达到最大步数"@,
        RunStatus::NoLegalAction => "NoLegalAction/无合法动作"@,
    }
}

/// Bilingual label of a run's final status.
pub fn run_status_label(status: &RunStatus) -> (s: &'static str)
    ensures
        s@ == spec_run_status_label(*status),
{
    match status {
        RunStatus::TargetReached => "TargetReached/达到目标",
        RunStatus::Failed => "Failed/失败",
        RunStatus::MaxSteps => "MaxSteps/达到最大步数",
        RunStatus::NoLegalAction => "NoLegalAction/无合法动作",
    }
}

/// Canonical text of an action.
#[verifier::opaque]
pub open spec fn spec_stable_key(a: AutoAction) -> Seq<char> {
    match a {
        AutoAction::Deal => "deal"@,
        AutoAction::Play { indices } => "play:"@ + index_list_text(indices@),
        AutoAction::Discard { indices } => "discard:"@ + index_list_text(indices@),
        AutoAction::SkipBlind => "skip_blind"@,
        AutoAction::EnterShop => "enter_shop"@,
        AutoAction::LeaveShop => "leave_shop"@,
        AutoAction::RerollShop => "reroll_shop"@,
        AutoAction::BuyCard { index } => "buy_card:"@ + decimal(index as nat),
        AutoAction::BuyPack { index } => "buy_pack:"@ + decimal(index as nat),
        AutoAction::BuyVoucher { index } => "buy_voucher:"@ + decimal(index as nat),
        AutoAction::PickPack { indices } => "pick_pack:"@ + index_list_text(indices@),
        AutoAction::SkipPack => "skip_pack"@,
        AutoAction::UseConsumable { index, selected } => "use_consumable:"@ + decimal(index as nat) + ":"@ + index_list_text(selected@),
        AutoAction::SellJoker { index } => "sell_joker:"@ + decimal(index as nat),
        AutoAction::NextBlind => "next_blind"@,
    }
}

pub open spec fn spec_short_label(a: AutoAction) -> Seq<char> {
    match a {
        AutoAction::Deal => "deal"@,
        AutoAction::Play { indices } => "play "@ + index_list_text(indices@),
        AutoAction::Discard { indices } => "discard "@ + index_list_text(indices@),
        AutoAction::SkipBlind => "skip_blind"@,
        AutoAction::EnterShop => "enter_shop"@,
        AutoAction::LeaveShop => "leave_shop"@,
        AutoAction::RerollShop => "reroll_shop"@,
        AutoAction::BuyCard { index } => "buy_card "@ + decimal(index as nat),
        AutoAction::BuyPack { index } => "buy_pack "@ + decimal(index as nat),
        AutoAction::BuyVoucher { index } => "buy_voucher "@ + decimal(index as nat),
        AutoAction::PickPack { indices } => "pick_pack "@ + index_list_text(indices@),
        AutoAction::SkipPack => "skip_pack"@,
        AutoAction::UseConsumable { index, selected } => "use_consumable "@ + decimal(index as nat) + " "@ + index_list_text(selected@),
        AutoAction::SellJoker { index } => "sell_joker "@ + decimal(index as nat),
        AutoAction::NextBlind => "next_blind"@,
    }
}

/// Exploration priority of an action kind: progress first, skips last.
pub open spec fn spec_expand_priority(a: AutoAction) -> i32 {
    match a {
        AutoAction::NextBlind => 120,
        AutoAction::EnterShop => 110,
        AutoAction::Play { .. } => 100,
        AutoAction::BuyPack { .. } => 96,
        AutoAction::BuyCard { .. } => 92,
        AutoAction::BuyVoucher { .. } => 90,
        AutoAction::UseConsumable { .. } => 88,
        AutoAction::Discard { .. } => 86,
        AutoAction::Deal => 82,
        AutoAction::RerollShop => 60,
        AutoAction::PickPack { .. } => 50,
        AutoAction::SkipPack => 38,
        AutoAction::SellJoker { .. } => 30,
        AutoAction::LeaveShop => 20,
        AutoAction::SkipBlind => 10,
    }
}

/// Bilingual display name of an action kind.
pub open spec fn spec_action_name(a: AutoAction) -> Seq<char> {
    match a {
        AutoAction::Deal => "Deal/发牌"@,
        AutoAction::Play { .. } => "Play/出牌"@,
        AutoAction::Discard { .. } => "Discard/弃牌"@,
        AutoAction::SkipBlind => "SkipBlind/跳过盲注"@,
        AutoAction::EnterShop => "EnterShop/进入商店"@,
        AutoAction::LeaveShop => "LeaveShop/离开商店"@,
        AutoAction::RerollShop => "RerollShop/刷新商店"@,
        AutoAction::BuyCard { .. } => "BuyCard/购买卡牌"@,
        AutoAction::BuyPack { .. } => "BuyPack/购买卡包"@,
        AutoAction::BuyVoucher { .. } => "BuyVoucher/购买优惠券"@,
        AutoAction::PickPack { .. } => "PickPack/选择卡包"@,
        AutoAction::SkipPack => "SkipPack/跳过卡包"@,
        AutoAction::UseConsumable { .. } => "UseConsumable/使用消耗牌"@,
        AutoAction::SellJoker { .. } => "SellJoker/出售小丑"@,
        AutoAction::NextBlind => "NextBlind/下一盲注"@,
    }
}

impl AutoAction {
    /// Canonical text of the action, by which actions are ordered and deduplicated.
    pub fn stable_key(&self) -> (key: String)
        ensures
            key@ == spec_stable_key(*self),
    {
        reveal(spec_stable_key);
        let mut out = String::new();
        match self {
            AutoAction::Deal => {
                out.append("deal");
            },
            AutoAction::Play { indices } => {
                out.append("play:");
                push_index_list(&mut out, indices);
            },
            AutoAction::Discard { indices } => {
                out.append("discard:");
                push_index_list(&mut out, indices);
            },
            AutoAction::SkipBlind => {
                out.append("skip_blind");
            },
            AutoAction::EnterShop => {
                out.append("enter_shop");
            },
            AutoAction::LeaveShop => {
                out.append("leave_shop");
            },
            AutoAction::RerollShop => {
                out.append("reroll_shop");
            },
            AutoAction::BuyCard { index } => {
                out.append("buy_card:");
                push_decimal(&mut out, *index as u64);
            },
            AutoAction::BuyPack { index } => {
                out.append("buy_pack:");
                push_decimal(&mut out, *index as u64);
            },
            AutoAction::BuyVoucher { index } => {
                out.append("buy_voucher:");
                push_decimal(&mut out, *index as u64);
            },
            AutoAction::PickPack { indices } => {
                out.append("pick_pack:");
                push_index_list(&mut out, indices);
            },
            AutoAction::SkipPack => {
                out.append("skip_pack");
            },
            AutoAction::UseConsumable { index, selected } => {
                out.append("use_consumable:");
                push_decimal(&mut out, *index as u64);
                out.append(":");
                push_index_list(&mut out, selected);
            },
            AutoAction::SellJoker { index } => {
                out.append("sell_joker:");
                push_decimal(&mut out, *index as u64);
            },
            AutoAction::NextBlind => {
                out.append("next_blind");
            },
        }
        out
    }

    /// Human-readable one-line label.
    pub fn short_label(&self) -> (key: String)
        ensures
            key@ == spec_short_label(*self),
    {
        let mut out = String::new();
        match self {
            AutoAction::Deal => {
                out.append("deal");
            },
            AutoAction::Play { indices } => {
                out.append("play ");
                push_index_list(&mut out, indices);
            },
            AutoAction::Discard { indices } => {
                out.append("discard ");
                push_index_list(&mut out, indices);
            },
            AutoAction::SkipBlind => {
                out.append("skip_blind");
            },
            AutoAction::EnterShop => {
                out.append("enter_shop");
            },
            AutoAction::LeaveShop => {
                out.append("leave_shop");
            },
            AutoAction::RerollShop => {
                out.append("reroll_shop");
            },
            AutoAction::BuyCard { index } => {
                out.append("buy_card ");
                push_decimal(&mut out, *index as u64);
            },
            AutoAction::BuyPack { index } => {
                out.append("buy_pack ");
                push_decimal(&mut out, *index as u64);
            },
            AutoAction::BuyVoucher { index } => {
                out.append("buy_voucher ");
                push_decimal(&mut out, *index as u64);
            },
            AutoAction::PickPack { indices } => {
                out.append("pick_pack ");
                push_index_list(&mut out, indices);
            },
            AutoAction::SkipPack => {
                out.append("skip_pack");
            },
            AutoAction::UseConsumable { index, selected } => {
                out.append("use_consumable ");
                push_decimal(&mut out, *index as u64);
                out.append(" ");
                push_index_list(&mut out, selected);
            },
            AutoAction::SellJoker { index } => {
                out.append("sell_joker ");
                push_decimal(&mut out, *index as u64);
            },
            AutoAction::NextBlind => {
                out.append("next_blind");
            },
        }
        out
    }

}

pub fn action_expand_priority(action: &AutoAction) -> (p: i32)
    ensures
        p == spec_expand_priority(*action),
{
    match action {
        AutoAction::NextBlind => 120,
        AutoAction::EnterShop => 110,
        AutoAction::Play { .. } => 100,
        AutoAction::BuyPack { .. } => 96,
        AutoAction::BuyCard { .. } => 92,
        AutoAction::BuyVoucher { .. } => 90,
        AutoAction::UseConsumable { .. } => 88,
        AutoAction::Discard { .. } => 86,
        AutoAction::Deal => 82,
        AutoAction::RerollShop => 60,
        AutoAction::PickPack { .. } => 50,
        AutoAction::SkipPack => 38,
        AutoAction::SellJoker { .. } => 30,
        AutoAction::LeaveShop => 20,
        AutoAction::SkipBlind => 10,
    }
}

pub fn action_name(action: &AutoAction) -> (s: &'static str)
    ensures
        s@ == spec_action_name(*action),
{
    match action {
        AutoAction::Deal => "Deal/发牌",
        AutoAction::Play { .. } => "Play/出牌",
        AutoAction::Discard { .. } => "Discard/弃牌",
        AutoAction::SkipBlind => "SkipBlind/跳过盲注",
        AutoAction::EnterShop => "EnterShop/进入商店",
        AutoAction::LeaveShop => "LeaveShop/离开商店",
        AutoAction::RerollShop => "RerollShop/刷新商店",
        AutoAction::BuyCard { .. } => "BuyCard/购买卡牌",
        AutoAction::BuyPack { .. } => "BuyPack/购买卡包",
        AutoAction::BuyVoucher { .. } => "BuyVoucher/购买优惠券",
        AutoAction::PickPack { .. } => "PickPack/选择卡包",
        AutoAction::SkipPack => "SkipPack/跳过卡包",
        AutoAction::UseConsumable { .. } => "UseConsumable/使用消耗牌",
        AutoAction::SellJoker { .. } => "SellJoker/出售小丑",
        AutoAction::NextBlind => "NextBlind/下一盲注",
    }
}
/// Errors from which the search recovers by trying another action.
pub fn is_recoverable_action_error(err: &AutoplayError) -> (b: bool)
    ensures
        b == (*err is Run || *err is InvalidAction),
{
    match err {
        AutoplayError::Run(_) | AutoplayError::InvalidAction(_) => true,
        _ => false,
    }
}

/// Free items are always affordable; otherwise the money must cover the price.
pub fn can_afford(money: i64, price: i64) -> (b: bool)
    ensures
        b == (price <= 0 || money >= price),
{
    price <= 0 || money >= price
}

// ---------------------------------------------------------------------------
// Removing duplicate candidates
// ---------------------------------------------------------------------------

/// `s[i]` is the earliest action of `s[lo..]` with its key.
pub open spec fn first_from(s: Seq<AutoAction>, lo: int, i: int) -> bool {
    &&& lo <= i < s.len()
    &&& forall|k: int| lo <= k < i ==> spec_stable_key(#[trigger] s[k]) != spec_stable_key(s[i])
}

/// The keys of `s` strictly ascend.
pub open spec fn keys_ascending(s: Seq<AutoAction>) -> bool {
    forall|i: int, j: int|
        0 <= i < j < s.len() ==> lex_lt(spec_stable_key(#[trigger] s[i]), spec_stable_key(#[trigger] s[j]))
}

/// `out` holds, in ascending key order, the earliest action of `input[lo..]` for each key
/// that occurs there.
pub open spec fn dedup_from(out: Seq<AutoAction>, input: Seq<AutoAction>, lo: int) -> bool {
    &&& keys_ascending(out)
    &&& forall|j: int| 0 <= j < out.len() ==> #[trigger] sourced_at(out, input, lo, j)
    &&& forall|i: int| lo <= i < input.len() ==> #[trigger] action_keys(out).contains(spec_stable_key(input[i]))
}

/// `out[j]` is the earliest action of `input[lo..]` with its key.
pub open spec fn sourced_at(out: Seq<AutoAction>, input: Seq<AutoAction>, lo: int, j: int) -> bool {
    exists|i: int| #[trigger] first_from(input, lo, i) && out[j] == input[i]
}

/// The keys of a list of actions, in order.
pub open spec fn action_keys(s: Seq<AutoAction>) -> Seq<Seq<char>> {
    s.map_values(|a: AutoAction| spec_stable_key(a))
}

/// `out` is `input` with duplicates (by key) removed, keeping each key's earliest action,
/// sorted by key.
pub open spec fn dedup_of(out: Seq<AutoAction>, input: Seq<AutoAction>) -> bool {
    dedup_from(out, input, 0)
}

proof fn lemma_ascending_distinct(s: Seq<AutoAction>, i: int, j: int)
    requires
        keys_ascending(s),
        0 <= i < s.len(),
        0 <= j < s.len(),
        i != j,
    ensures
        spec_stable_key(s[i]) != spec_stable_key(s[j]),
{
    lemma_lex_irreflexive(spec_stable_key(s[i]));
    if i < j {
        assert(lex_lt(spec_stable_key(s[i]), spec_stable_key(s[j])));
    } else {
        assert(lex_lt(spec_stable_key(s[j]), spec_stable_key(s[i])));
    }
}

/// Folding in an earlier action whose key is already held replaces the held action.
proof fn lemma_dedup_replace(orig: Seq<AutoAction>, r: int, out: Seq<AutoAction>, p: int)
    requires
        0 <= r < orig.len(),
        dedup_from(out, orig, r + 1),
        0 <= p < out.len(),
        spec_stable_key(out[p]) == spec_stable_key(orig[r]),
    ensures
        dedup_from(out.update(p, orig[r]), orig, r),
{
    let next = out.update(p, orig[r]);
    assert forall|i: int, j: int| 0 <= i < j < next.len() implies lex_lt(
        spec_stable_key(#[trigger] next[i]),
        spec_stable_key(#[trigger] next[j]),
    ) by {
        assert(lex_lt(spec_stable_key(out[i]), spec_stable_key(out[j])));
    }
    assert forall|j: int| 0 <= j < next.len() implies #[trigger] sourced_at(next, orig, r, j) by {
        if j == p {
            assert(first_from(orig, r, r));
        } else {
            assert(sourced_at(out, orig, r + 1, j));
            let i = choose|i: int| #[trigger] first_from(orig, r + 1, i) && out[j] == orig[i];
            lemma_ascending_distinct(out, j, p);
            assert(first_from(orig, r, i));
        }
    }
    assert forall|i: int| r <= i < orig.len() implies #[trigger] action_keys(next).contains(
        spec_stable_key(orig[i]),
    ) by {
        if i == r {
            assert(action_keys(next)[p] == spec_stable_key(orig[i]));
        } else {
            assert(action_keys(out).contains(spec_stable_key(orig[i])));
            let j = choose|j: int| 0 <= j < out.len() && action_keys(out)[j] == spec_stable_key(orig[i]);
            assert(action_keys(next)[j] == spec_stable_key(orig[i]));
        }
    }
}

/// Folding in an earlier action with a new key inserts it at its place in key order.
proof fn lemma_dedup_insert(orig: Seq<AutoAction>, r: int, out: Seq<AutoAction>, p: int)
    requires
        0 <= r < orig.len(),
        dedup_from(out, orig, r + 1),
        0 <= p <= out.len(),
        forall|q: int| 0 <= q < p ==> lex_lt(spec_stable_key(#[trigger] out[q]), spec_stable_key(orig[r])),
        p < out.len() ==> !lex_lt(spec_stable_key(out[p]), spec_stable_key(orig[r])),
        p < out.len() ==> spec_stable_key(out[p]) != spec_stable_key(orig[r]),
    ensures
        dedup_from(out.insert(p, orig[r]), orig, r),
{
    let ka = spec_stable_key(orig[r]);
    let next = out.insert(p, orig[r]);
    assert forall|q: int| p <= q < out.len() implies lex_lt(ka, spec_stable_key(#[trigger] out[q])) by {
        lemma_lex_total(ka, spec_stable_key(out[p]));
        if q > p {
            assert(lex_lt(spec_stable_key(out[p]), spec_stable_key(out[q])));
            lemma_lex_transitive(ka, spec_stable_key(out[p]), spec_stable_key(out[q]));
        }
    }
    assert forall|i: int, j: int| 0 <= i < j < next.len() implies lex_lt(
        spec_stable_key(#[trigger] next[i]),
        spec_stable_key(#[trigger] next[j]),
    ) by {
        if j < p {
            assert(lex_lt(spec_stable_key(out[i]), spec_stable_key(out[j])));
        } else if j == p {
            assert(lex_lt(spec_stable_key(out[i]), ka));
        } else if i < p {
            assert(lex_lt(spec_stable_key(out[i]), ka));
            assert(lex_lt(ka, spec_stable_key(out[j - 1])));
            lemma_lex_transitive(spec_stable_key(out[i]), ka, spec_stable_key(out[j - 1]));
        } else if i == p {
            assert(lex_lt(ka, spec_stable_key(out[j - 1])));
        } else {
            assert(lex_lt(spec_stable_key(out[i - 1]), spec_stable_key(out[j - 1])));
        }
    }
    assert forall|j: int| 0 <= j < next.len() implies #[trigger] sourced_at(next, orig, r, j) by {
        if j == p {
            assert(first_from(orig, r, r));
        } else {
            let jj = if j < p { j } else { j - 1 };
            assert(next[j] == out[jj]);
            assert(sourced_at(out, orig, r + 1, jj));
            let i = choose|i: int| #[trigger] first_from(orig, r + 1, i) && out[jj] == orig[i];
            lemma_lex_irreflexive(ka);
            if jj < p {
                assert(lex_lt(spec_stable_key(out[jj]), ka));
            } else {
                assert(lex_lt(ka, spec_stable_key(out[jj])));
            }
            assert(first_from(orig, r, i));
        }
    }
    assert forall|i: int| r <= i < orig.len() implies #[trigger] action_keys(next).contains(
        spec_stable_key(orig[i]),
    ) by {
        if i == r {
            assert(action_keys(next)[p] == spec_stable_key(orig[i]));
        } else {
            assert(action_keys(out).contains(spec_stable_key(orig[i])));
            let j = choose|j: int| 0 <= j < out.len() && action_keys(out)[j] == spec_stable_key(orig[i]);
            if j < p {
                assert(action_keys(next)[j] == spec_stable_key(orig[i]));
            } else {
                assert(action_keys(next)[j + 1] == spec_stable_key(orig[i]));
            }
        }
    }
}

/// Candidates with duplicate keys removed, keeping the earliest of each, sorted by key.
pub fn dedup_actions(actions: Vec<AutoAction>) -> (out: Vec<AutoAction>)
    ensures
        dedup_of(out@, actions@),
{
    let ghost orig = actions@;
    let mut rest = actions;
    let mut out: Vec<AutoAction> = Vec::new();
    while rest.len() > 0
        invariant
            rest@.len() <= orig.len(),
            rest@ == orig.subrange(0, rest@.len() as int),
            dedup_from(out@, orig, rest@.len() as int),
        decreases rest.len(),
    {
        let ghost r = rest@.len() - 1;
        let a = match rest.pop() {
            Some(a) => a,
            None => {
                return out;
            },
        };
        assert(a == orig[r]);
        let ka = a.stable_key();
        let mut p: usize = 0;
        let mut found = false;
        while p < out.len() && !found
            invariant
                p <= out.len(),
                ka@ == spec_stable_key(a),
                forall|q: int| 0 <= q < p ==> lex_lt(spec_stable_key(#[trigger] out@[q]), ka@),
                found ==> p < out.len() && !lex_lt(spec_stable_key(out@[p as int]), ka@),
            decreases out.len() - p + (if found { 0int } else { 1int }),
        {
            let kp = out[p].stable_key();
            if str_less(kp.as_str(), ka.as_str()) {
                p = p + 1;
            } else {
                found = true;
            }
        }
        let same = if p < out.len() {
            let kp = out[p].stable_key();
            str_eq(kp.as_str(), ka.as_str())
        } else {
            false
        };
        if same {
            proof {
                lemma_dedup_replace(orig, r, out@, p as int);
            }
            out.set(p, a);
        } else {
            proof {
                lemma_dedup_insert(orig, r, out@, p as int);
            }
            out.insert(p, a);
        }
    }
    out
}

// ---------------------------------------------------------------------------
// Keys tell actions apart
// ---------------------------------------------------------------------------

/// The fixed text a key starts with: the action's name, and a colon when fields follow.
pub open spec fn key_head(a: AutoAction) -> Seq<char> {
    match a {
        AutoAction::Deal => "deal"@,
        AutoAction::Play { .. } => "play:"@,
        AutoAction::Discard { .. } => "discard:"@,
        AutoAction::SkipBlind => "skip_blind"@,
        AutoAction::EnterShop => "enter_shop"@,
        AutoAction::LeaveShop => "leave_shop"@,
        AutoAction::RerollShop => "reroll_shop"@,
        AutoAction::BuyCard { .. } => "buy_card:"@,
        AutoAction::BuyPack { .. } => "buy_pack:"@,
        AutoAction::BuyVoucher { .. } => "buy_voucher:"@,
        AutoAction::PickPack { .. } => "pick_pack:"@,
        AutoAction::SkipPack => "skip_pack"@,
        AutoAction::UseConsumable { .. } => "use_consumable:"@,
        AutoAction::SellJoker { .. } => "sell_joker:"@,
        AutoAction::NextBlind => "next_blind"@,
    }
}

/// The text of the action's fields in its key (empty when it has none).
pub open spec fn key_fields(a: AutoAction) -> Seq<char> {
    match a {
        AutoAction::Play { indices } => index_list_text(indices@),
        AutoAction::Discard { indices } => index_list_text(indices@),
        AutoAction::BuyCard { index } => decimal(index as nat),
        AutoAction::BuyPack { index } => decimal(index as nat),
        AutoAction::BuyVoucher { index } => decimal(index as nat),
        AutoAction::PickPack { indices } => index_list_text(indices@),
        AutoAction::UseConsumable { index, selected } => decimal(index as nat) + ":"@ + index_list_text(selected@),
        AutoAction::SellJoker { index } => decimal(index as nat),
        _ => Seq::empty(),
    }
}

/// Position of the action's variant among the variants.
pub open spec fn variant_index(a: AutoAction) -> int {
    match a {
        AutoAction::Deal => 0,
        AutoAction::Play { .. } => 1,
        AutoAction::Discard { .. } => 2,
        AutoAction::SkipBlind => 3,
        AutoAction::EnterShop => 4,
        AutoAction::LeaveShop => 5,
        AutoAction::RerollShop => 6,
        AutoAction::BuyCard { .. } => 7,
        AutoAction::BuyPack { .. } => 8,
        AutoAction::BuyVoucher { .. } => 9,
        AutoAction::PickPack { .. } => 10,
        AutoAction::SkipPack => 11,
        AutoAction::UseConsumable { .. } => 12,
        AutoAction::SellJoker { .. } => 13,
        AutoAction::NextBlind => 14,
    }
}

proof fn lemma_key_split(a: AutoAction)
    ensures
        spec_stable_key(a) == key_head(a) + key_fields(a),
{
    reveal(spec_stable_key);
    assert(spec_stable_key(a) =~= key_head(a) + key_fields(a));
}

proof fn lemma_heads_apart(a: AutoAction, b: AutoAction)
    requires
        variant_index(a) != variant_index(b),
    ensures
        !is_prefix(key_head(a), key_head(b)),
{
    reveal_strlit("deal");
    reveal_strlit("play:");
    reveal_strlit("discard:");
    reveal_strlit("skip_blind");
    reveal_strlit("enter_shop");
    reveal_strlit("leave_shop");
    reveal_strlit("reroll_shop");
    reveal_strlit("buy_card:");
    reveal_strlit("buy_pack:");
    reveal_strlit("buy_voucher:");
    reveal_strlit("pick_pack:");
    reveal_strlit("skip_pack");
    reveal_strlit("use_consumable:");
    reveal_strlit("sell_joker:");
    reveal_strlit("next_blind");
    let p = key_head(a);
    let q = key_head(b);
    match a {
        AutoAction::Deal => {
            if is_prefix(p, q) && p.len() <= q.len() {
                match b {
                AutoAction::Play { .. } => {
                    assert(q.subrange(0, p.len() as int)[0] == q[0]);
                    assert(q[0] != p[0]);
                },
                AutoAction::Discard { .. } => {
                    assert(q.subrange(0, p.len() as int)[1] == q[1]);
                    assert(q[1] != p[1]);
                },
                AutoAction::SkipBlind => {
                    assert(q.subrange(0, p.len() as int)[0] == q[0]);
                    assert(q[0] != p[0]);
                },
                AutoAction::EnterShop => {
                    assert(q.subrange(0, p.len() as int)[0] == q[0]);
                    assert(q[0] != p[0]);
                },
                AutoAction::LeaveShop => {
                    assert(q.subrange(0, p.len() as int)[0] == q[0]);
                    assert(q[0] != p[0]);
                },
                AutoAction::RerollShop => {
                    assert(q.subrange(0, p.len() as int)[0] == q[0]);
                    assert(q[0] != p[0]);
                },
                AutoAction::BuyCard { .. } => {
                    assert(q.subrange(0, p.len() as int)[0] == q[0]);
                    assert(q[0] != p[0]);
                },
                AutoAction::BuyPack { .. } => {
                    assert(q.subrange(0, p.len() as int)[0] == q[0]);
                    assert(q[0] != p[0]);
                },
                AutoAction::BuyVoucher { .. } => {
                    assert(q.subrange(0, p.len() as int)[0] == q[0]);
                    assert(q[0] != p[0]);
                },
                AutoAction::PickPack { .. } => {
                    assert(q.subrange(0, p.len() as int)[0] == q[0]);
                    assert(q[0] != p[0]);
                },
                AutoAction::SkipPack => {
                    assert(q.subrange(0, p.len() as int)[0] == q[0]);
                    assert(q[0] != p[0]);
                },
                AutoAction::UseConsumable { .. } => {
                    assert(q.subrange(0, p.len() as int)[0] == q[0]);
                    assert(q[0] != p[0]);
                },
                AutoAction::SellJoker { .. } => {
                    assert(q.subrange(0, p.len() as int)[0] == q[0]);
                    assert(q[0] != p[0]);
                },
                AutoAction::NextBlind => {
                    assert(q.subrange(0, p.len() as int)[0] == q[0]);
                    assert(q[0] != p[0]);
                },
                    _ => {},
                }
            }
        },
        AutoAction::Play { .. } => {
            if is_prefix(p, q) && p.len() <= q.len() {
                match b {
                AutoAction::Discard { .. } => {
                    assert(q.subrange(0, p.len() as int)[0] == q[0]);
                    assert(q[0] != p[0]);
                },
                AutoAction::SkipBlind => {
                    assert(q.subrange(0, p.len() as int)[0] == q[0]);
                    assert(q[0] != p[0]);
                },
                AutoAction::EnterShop => {
                    assert(q.subrange(0, p.len() as int)[0] == q[0]);
                    assert(q[0] != p[0]);
                },
                AutoAction::LeaveShop => {
                    assert(q.subrange(0, p.len() as int)[0] == q[0]);
                    assert(q[0] != p[0]);
                },
                AutoAction::RerollShop => {
                    assert(q.subrange(0, p.len() as int)[0] == q[0]);
                    assert(q[0] != p[0]);
                },
                AutoAction::BuyCard { .. } => {
                    assert(q.subrange(0, p.len() as int)[0] == q[0]);
                    assert(q[0] != p[0]);
                },
                AutoAction::BuyPack { .. } => {
                    assert(q.subrange(0, p.len() as int)[0] == q[0]);
                    assert(q[0] != p[0]);
                },
                AutoAction::BuyVoucher { .. } => {
                    assert(q.subrange(0, p.len() as int)[0] == q[0]);
                    assert(q[0] != p[0]);
                },
                AutoAction::PickPack { .. } => {
                    assert(q.subrange(0, p.len() as int)[1] == q[1]);
                    assert(q[1] != p[1]);
                },
                AutoAction::SkipPack => {
                    assert(q.subrange(0, p.len() as int)[0] == q[0]);
                    assert(q[0] != p[0]);
                },
                AutoAction::UseConsumable { .. } => {
                    assert(q.subrange(0, p.len() as int)[0] == q[0]);
                    assert(q[0] != p[0]);
                },
                AutoAction::SellJoker { .. } => {
                    assert(q.subrange(0, p.len() as int)[0] == q[0]);
                    assert(q[0] != p[0]);
                },
                AutoAction::NextBlind => {
                    assert(q.subrange(0, p.len() as int)[0] == q[0]);
                    assert(q[0] != p[0]);
                },
                    _ => {},
                }
            }
        },
        AutoAction::Discard { .. } => {
            if is_prefix(p, q) && p.len() <= q.len() {
                match b {
                AutoAction::SkipBlind => {
                    assert(q.subrange(0, p.len() as int)[0] == q[0]);
                    assert(q[0] != p[0]);
                },
                AutoAction::EnterShop => {
                    assert(q.subrange(0, p.len() as int)[0] == q[0]);
                    assert(q[0] != p[0]);
                },
                AutoAction::LeaveShop => {
                    assert(q.subrange(0, p.len() as int)[0] == q[0]);
                    assert(q[0] != p[0]);
                },
                AutoAction::RerollShop => {
                    assert(q.subrange(0, p.len() as int)[0] == q[0]);
                    assert(q[0] != p[0]);
                },
                AutoAction::BuyCard { .. } => {
                    assert(q.subrange(0, p.len() as int)[0] == q[0]);
                    assert(q[0] != p[0]);
                },
                AutoAction::BuyPack { .. } => {
                    assert(q.subrange(0, p.len() as int)[0] == q[0]);
                    assert(q[0] != p[0]);
                },
                AutoAction::BuyVoucher { .. } => {
                    assert(q.subrange(0, p.len() as int)[0] == q[0]);
                    assert(q[0] != p[0]);
                },
                AutoAction::PickPack { .. } => {
                    assert(q.subrange(0, p.len() as int)[0] == q[0]);
                    assert(q[0] != p[0]);
                },
                AutoAction::SkipPack => {
                    assert(q.subrange(0, p.len() as int)[0] == q[0]);
                    assert(q[0] != p[0]);
                },
                AutoAction::UseConsumable { .. } => {
                    assert(q.subrange(0, p.len() as int)[0] == q[0]);
                    assert(q[0] != p[0]);
                },
                AutoAction::SellJoker { .. } => {
                    assert(q.subrange(0, p.len() as int)[0] == q[0]);
                    assert(q[0] != p[0]);
                },
                AutoAction::NextBlind => {
                    assert(q.subrange(0, p.len() as int)[0] == q[0]);
                    assert(q[0] != p[0]);
                },
                    _ => {},
                }
            }
        },
        AutoAction::SkipBlind => {
            if is_prefix(p, q) && p.len() <= q.len() {
                match b {
                AutoAction::EnterShop => {
                    assert(q.subrange(0, p.len() as int)[0] == q[0]);
                    assert(q[0] != p[0]);
                },
                AutoAction::LeaveShop => {
                    assert(q.subrange(0, p.len() as int)[0] == q[0]);
                    assert(q[0] != p[0]);
                },
                AutoAction::RerollShop => {
                    assert(q.subrange(0, p.len() as int)[0] == q[0]);
                    assert(q[0] != p[0]);
                },
                AutoAction::BuyVoucher { .. } => {
                    assert(q.subrange(0, p.len() as int)[0] == q[0]);
                    assert(q[0] != p[0]);
                },
                AutoAction::PickPack { .. } => {
                    assert(q.subrange(0, p.len() as int)[0] == q[0]);
                    assert(q[0] != p[0]);
                },
                AutoAction::UseConsumable { .. } => {
                    assert(q.subrange(0, p.len() as int)[0] == q[0]);
                    assert(q[0] != p[0]);
                },
                AutoAction::SellJoker { .. } => {
                    assert(q.subrange(0, p.len() as int)[1] == q[1]);
                    assert(q[1] != p[1]);
                },
                AutoAction::NextBlind => {
                    assert(q.subrange(0, p.len() as int)[0] == q[0]);
                    assert(q[0] != p[0]);
                },
                    _ => {},
                }
            }
        },
        AutoAction::EnterShop => {
            if is_prefix(p, q) && p.len() <= q.len() {
                match b {
                AutoAction::SkipBlind => {
                    assert(q.subrange(0, p.len() as int)[0] == q[0]);
                    assert(q[0] != p[0]);
                },
                AutoAction::LeaveShop => {
                    assert(q.subrange(0, p.len() as int)[0] == q[0]);
                    assert(q[0] != p[0]);
                },
                AutoAction::RerollShop => {
                    assert(q.subrange(0, p.len() as int)[0] == q[0]);
                    assert(q[0] != p[0]);
                },
                AutoAction::BuyVoucher { .. } => {
                    assert(q.subrange(0, p.len() as int)[0] == q[0]);
                    assert(q[0] != p[0]);
                },
                AutoAction::PickPack { .. } => {
                    assert(q.subrange(0, p.len() as int)[0] == q[0]);
                    assert(q[0] != p[0]);
                },
                AutoAction::UseConsumable { .. } => {
                    assert(q.subrange(0, p.len() as int)[0] == q[0]);
                    assert(q[0] != p[0]);
                },
                AutoAction::SellJoker { .. } => {
                    assert(q.subrange(0, p.len() as int)[0] == q[0]);
                    assert(q[0] != p[0]);
                },
                AutoAction::NextBlind => {
                    assert(q.subrange(0, p.len() as int)[0] == q[0]);
                    assert(q[0] != p[0]);
                },
                    _ => {},
                }
            }
        },
        AutoAction::LeaveShop => {
            if is_prefix(p, q) && p.len() <= q.len() {
                match b {
                AutoAction::SkipBlind => {
                    assert(q.subrange(0, p.len() as int)[0] == q[0]);
                    assert(q[0] != p[0]);
                },
                AutoAction::EnterShop => {
                    assert(q.subrange(0, p.len() as int)[0] == q[0]);
                    assert(q[0] != p[0]);
                },
                AutoAction::RerollShop => {
                    assert(q.subrange(0, p.len() as int)[0] == q[0]);
                    assert(q[0] != p[0]);
                },
                AutoAction::BuyVoucher { .. } => {
                    assert(q.subrange(0, p.len() as int)[0] == q[0]);
                    assert(q[0] != p[0]);
                },
                AutoAction::PickPack { .. } => {
                    assert(q.subrange(0, p.len() as int)[0] == q[0]);
                    assert(q[0] != p[0]);
                },
                AutoAction::UseConsumable { .. } => {
                    assert(q.subrange(0, p.len() as int)[0] == q[0]);
                    assert(q[0] != p[0]);
                },
                AutoAction::SellJoker { .. } => {
                    assert(q.subrange(0, p.len() as int)[0] == q[0]);
                    assert(q[0] != p[0]);
                },
                AutoAction::NextBlind => {
                    assert(q.subrange(0, p.len() as int)[0] == q[0]);
                    assert(q[0] != p[0]);
                },
                    _ => {},
                }
            }
        },
        AutoAction::RerollShop => {
            if is_prefix(p, q) && p.len() <= q.len() {
                match b {
                AutoAction::BuyVoucher { .. } => {
                    assert(q.subrange(0, p.len() as int)[0] == q[0]);
                    assert(q[0] != p[0]);
                },
                AutoAction::UseConsumable { .. } => {
                    assert(q.subrange(0, p.len() as int)[0] == q[0]);
                    assert(q[0] != p[0]);
                },
                AutoAction::SellJoker { .. } => {
                    assert(q.subrange(0, p.len() as int)[0] == q[0]);
                    assert(q[0] != p[0]);
                },
                    _ => {},
                }
            }
        },
        AutoAction::BuyCard { .. } => {
            if is_prefix(p, q) && p.len() <= q.len() {
                match b {
                AutoAction::SkipBlind => {
                    assert(q.subrange(0, p.len() as int)[0] == q[0]);
                    assert(q[0] != p[0]);
                },
                AutoAction::EnterShop => {
                    assert(q.subrange(0, p.len() as int)[0] == q[0]);
                    assert(q[0] != p[0]);
                },
                AutoAction::LeaveShop => {
                    assert(q.subrange(0, p.len() as int)[0] == q[0]);
                    assert(q[0] != p[0]);
                },
                AutoAction::RerollShop => {
                    assert(q.subrange(0, p.len() as int)[0] == q[0]);
                    assert(q[0] != p[0]);
                },
                AutoAction::BuyPack { .. } => {
                    assert(q.subrange(0, p.len() as int)[4] == q[4]);
                    assert(q[4] != p[4]);
                },
                AutoAction::BuyVoucher { .. } => {
                    assert(q.subrange(0, p.len() as int)[4] == q[4]);
                    assert(q[4] != p[4]);
                },
                AutoAction::PickPack { .. } => {
                    assert(q.subrange(0, p.len() as int)[0] == q[0]);
                    assert(q[0] != p[0]);
                },
                AutoAction::SkipPack => {
                    assert(q.subrange(0, p.len() as int)[0] == q[0]);
                    assert(q[0] != p[0]);
                },
                AutoAction::UseConsumable { .. } => {
                    assert(q.subrange(0, p.len() as int)[0] == q[0]);
                    assert(q[0] != p[0]);
                },
                AutoAction::SellJoker { .. } => {
                    assert(q.subrange(0, p.len() as int)[0] == q[0]);
                    assert(q[0] != p[0]);
                },
                AutoAction::NextBlind => {
                    assert(q.subrange(0, p.len() as int)[0] == q[0]);
                    assert(q[0] != p[0]);
                },
                    _ => {},
                }
            }
        },
        AutoAction::BuyPack { .. } => {
            if is_prefix(p, q) && p.len() <= q.len() {
                match b {
                AutoAction::SkipBlind => {
                    assert(q.subrange(0, p.len() as int)[0] == q[0]);
                    assert(q[0] != p[0]);
                },
                AutoAction::EnterShop => {
                    assert(q.subrange(0, p.len() as int)[0] == q[0]);
                    assert(q[0] != p[0]);
                },
                AutoAction::LeaveShop => {
                    assert(q.subrange(0, p.len() as int)[0] == q[0]);
                    assert(q[0] != p[0]);
                },
                AutoAction::RerollShop => {
                    assert(q.subrange(0, p.len() as int)[0] == q[0]);
                    assert(q[0] != p[0]);
                },
                AutoAction::BuyCard { .. } => {
                    assert(q.subrange(0, p.len() as int)[4] == q[4]);
                    assert(q[4] != p[4]);
                },
                AutoAction::BuyVoucher { .. } => {
                    assert(q.subrange(0, p.len() as int)[4] == q[4]);
                    assert(q[4] != p[4]);
                },
                AutoAction::PickPack { .. } => {
                    assert(q.subrange(0, p.len() as int)[0] == q[0]);
                    assert(q[0] != p[0]);
                },
                AutoAction::SkipPack => {
                    assert(q.subrange(0, p.len() as int)[0] == q[0]);
                    assert(q[0] != p[0]);
                },
                AutoAction::UseConsumable { .. } => {
                    assert(q.subrange(0, p.len() as int)[0] == q[0]);
                    assert(q[0] != p[0]);
                },
                AutoAction::SellJoker { .. } => {
                    assert(q.subrange(0, p.len() as int)[0] == q[0]);
                    assert(q[0] != p[0]);
                },
                AutoAction::NextBlind => {
                    assert(q.subrange(0, p.len() as int)[0] == q[0]);
                    assert(q[0] != p[0]);
                },
                    _ => {},
                }
            }
        },
        AutoAction::BuyVoucher { .. } => {
            if is_prefix(p, q) && p.len() <= q.len() {
                match b {
                AutoAction::UseConsumable { .. } => {
                    assert(q.subrange(0, p.len() as int)[0] == q[0]);
                    assert(q[0] != p[0]);
                },
                    _ => {},
                }
            }
        },
        AutoAction::PickPack { .. } => {
            if is_prefix(p, q) && p.len() <= q.len() {
                match b {
                AutoAction::SkipBlind => {
                    assert(q.subrange(0, p.len() as int)[0] == q[0]);
                    assert(q[0] != p[0]);
                },
                AutoAction::EnterShop => {
                    assert(q.subrange(0, p.len() as int)[0] == q[0]);
                    assert(q[0] != p[0]);
                },
                AutoAction::LeaveShop => {
                    assert(q.subrange(0, p.len() as int)[0] == q[0]);
                    assert(q[0] != p[0]);
                },
                AutoAction::RerollShop => {
                    assert(q.subrange(0, p.len() as int)[0] == q[0]);
                    assert(q[0] != p[0]);
                },
                AutoAction::BuyVoucher { .. } => {
                    assert(q.subrange(0, p.len() as int)[0] == q[0]);
                    assert(q[0] != p[0]);
                },
                AutoAction::UseConsumable { .. } => {
                    assert(q.subrange(0, p.len() as int)[0] == q[0]);
                    assert(q[0] != p[0]);
                },
                AutoAction::SellJoker { .. } => {
                    assert(q.subrange(0, p.len() as int)[0] == q[0]);
                    assert(q[0] != p[0]);
                },
                AutoAction::NextBlind => {
                    assert(q.subrange(0, p.len() as int)[0] == q[0]);
                    assert(q[0] != p[0]);
                },
                    _ => {},
                }
            }
        },
        AutoAction::SkipPack => {
            if is_prefix(p, q) && p.len() <= q.len() {
                match b {
                AutoAction::SkipBlind => {
                    assert(q.subrange(0, p.len() as int)[5] == q[5]);
                    assert(q[5] != p[5]);
                },
                AutoAction::EnterShop => {
                    assert(q.subrange(0, p.len() as int)[0] == q[0]);
                    assert(q[0] != p[0]);
                },
                AutoAction::LeaveShop => {
                    assert(q.subrange(0, p.len() as int)[0] == q[0]);
                    assert(q[0] != p[0]);
                },
                AutoAction::RerollShop => {
                    assert(q.subrange(0, p.len() as int)[0] == q[0]);
                    assert(q[0] != p[0]);
                },
                AutoAction::BuyCard { .. } => {
                    assert(q.subrange(0, p.len() as int)[0] == q[0]);
                    assert(q[0] != p[0]);
                },
                AutoAction::BuyPack { .. } => {
                    assert(q.subrange(0, p.len() as int)[0] == q[0]);
                    assert(q[0] != p[0]);
                },
                AutoAction::BuyVoucher { .. } => {
                    assert(q.subrange(0, p.len() as int)[0] == q[0]);
                    assert(q[0] != p[0]);
                },
                AutoAction::PickPack { .. } => {
                    assert(q.subrange(0, p.len() as int)[0] == q[0]);
                    assert(q[0] != p[0]);
                },
                AutoAction::UseConsumable { .. } => {
                    assert(q.subrange(0, p.len() as int)[0] == q[0]);
                    assert(q[0] != p[0]);
                },
                AutoAction::SellJoker { .. } => {
                    assert(q.subrange(0, p.len() as int)[1] == q[1]);
                    assert(q[1] != p[1]);
                },
                AutoAction::NextBlind => {
                    assert(q.subrange(0, p.len() as int)[0] == q[0]);
                    assert(q[0] != p[0]);
                },
                    _ => {},
                }
            }
        },
        AutoAction::UseConsumable { .. } => {
            if is_prefix(p, q) && p.len() <= q.len() {
                match b {

                    _ => {},
                }
            }
        },
        AutoAction::SellJoker { .. } => {
            if is_prefix(p, q) && p.len() <= q.len() {
                match b {
                AutoAction::RerollShop => {
                    assert(q.subrange(0, p.len() as int)[0] == q[0]);
                    assert(q[0] != p[0]);
                },
                AutoAction::BuyVoucher { .. } => {
                    assert(q.subrange(0, p.len() as int)[0] == q[0]);
                    assert(q[0] != p[0]);
                },
                AutoAction::UseConsumable { .. } => {
                    assert(q.subrange(0, p.len() as int)[0] == q[0]);
                    assert(q[0] != p[0]);
                },
                    _ => {},
                }
            }
        },
        AutoAction::NextBlind => {
            if is_prefix(p, q) && p.len() <= q.len() {
                match b {
                AutoAction::SkipBlind => {
                    assert(q.subrange(0, p.len() as int)[0] == q[0]);
                    assert(q[0] != p[0]);
                },
                AutoAction::EnterShop => {
                    assert(q.subrange(0, p.len() as int)[0] == q[0]);
                    assert(q[0] != p[0]);
                },
                AutoAction::LeaveShop => {
                    assert(q.subrange(0, p.len() as int)[0] == q[0]);
                    assert(q[0] != p[0]);
                },
                AutoAction::RerollShop => {
                    assert(q.subrange(0, p.len() as int)[0] == q[0]);
                    assert(q[0] != p[0]);
                },
                AutoAction::BuyVoucher { .. } => {
                    assert(q.subrange(0, p.len() as int)[0] == q[0]);
                    assert(q[0] != p[0]);
                },
                AutoAction::PickPack { .. } => {
                    assert(q.subrange(0, p.len() as int)[0] == q[0]);
                    assert(q[0] != p[0]);
                },
                AutoAction::UseConsumable { .. } => {
                    assert(q.subrange(0, p.len() as int)[0] == q[0]);
                    assert(q[0] != p[0]);
                },
                AutoAction::SellJoker { .. } => {
                    assert(q.subrange(0, p.len() as int)[0] == q[0]);
                    assert(q[0] != p[0]);
                },
                    _ => {},
                }
            }
        },
    }
}

proof fn lemma_decimal_injective(m: nat, n: nat)
    requires
        decimal(m) == decimal(n),
    ensures
        m == n,
{
    lemma_decimal_digits(m);
    lemma_decimal_digits(n);
}

/// A character of a list of indices: a digit, a comma or a space.
pub open spec fn list_char(c: char) -> bool {
    is_digit(c) || c == ',' || c == ' '
}

proof fn lemma_joined_chars(s: Seq<usize>)
    ensures
        forall|i: int| 0 <= i < joined_indices(s).len() ==> list_char(#[trigger] joined_indices(s)[i]),
        s.len() == 0 <==> joined_indices(s).len() == 0,
        s.len() == 1 ==> all_digits(joined_indices(s)),
    decreases s.len(),
{
    if s.len() == 1 {
        lemma_decimal_digits(s[0] as nat);
    } else if s.len() >= 2 {
        lemma_joined_chars(s.drop_last());
        lemma_decimal_digits(s.last() as nat);
        let x = joined_indices(s.drop_last());
        let d = decimal(s.last() as nat);
        assert forall|i: int| 0 <= i < joined_indices(s).len() implies list_char(#[trigger] joined_indices(s)[i]) by {
            if i < x.len() {
                assert(joined_indices(s)[i] == x[i]);
            } else if i >= x.len() + 2 {
                assert(joined_indices(s)[i] == d[i - x.len() - 2]);
            }
        }
    }
}

proof fn lemma_joined_injective(a: Seq<usize>, b: Seq<usize>)
    requires
        joined_indices(a) == joined_indices(b),
    ensures
        a == b,
    decreases a.len() + b.len(),
{
    lemma_joined_chars(a);
    lemma_joined_chars(b);
    let j = joined_indices(a);
    if a.len() == 0 || b.len() == 0 {
        assert(a =~= b);
    } else if a.len() == 1 && b.len() == 1 {
        lemma_decimal_injective(a[0] as nat, b[0] as nat);
        assert(a =~= b);
    } else if a.len() == 1 || b.len() == 1 {
        let (one, many) = if a.len() == 1 {
            (a, b)
        } else {
            (b, a)
        };
        lemma_joined_chars(many.drop_last());
        let x = joined_indices(many.drop_last());
        assert(joined_indices(many)[x.len() as int + 1] == ' ');
        assert(!is_digit(' '));
        assert(is_digit(joined_indices(one)[x.len() as int + 1]));
    } else {
        let xa = joined_indices(a.drop_last());
        let xb = joined_indices(b.drop_last());
        let da = decimal(a.last() as nat);
        let db = decimal(b.last() as nat);
        lemma_decimal_digits(a.last() as nat);
        lemma_decimal_digits(b.last() as nat);
        assert(j == xa + seq![',', ' '] + da);
        assert(j == xb + seq![',', ' '] + db);
        if da.len() < db.len() {
            let p = j.len() - da.len() - 1;
            assert(j[p] == ' ');
            assert(j[p] == db[p - xb.len() - 2]);
            assert(!is_digit(' '));
        } else if db.len() < da.len() {
            let p = j.len() - db.len() - 1;
            assert(j[p] == ' ');
            assert(j[p] == da[p - xa.len() - 2]);
            assert(!is_digit(' '));
        }
        assert(da =~= j.subrange(j.len() - da.len(), j.len() as int));
        assert(db =~= j.subrange(j.len() - db.len(), j.len() as int));
        assert(xa =~= j.subrange(0, xa.len() as int));
        assert(xb =~= j.subrange(0, xb.len() as int));
        lemma_decimal_injective(a.last() as nat, b.last() as nat);
        lemma_joined_injective(a.drop_last(), b.drop_last());
        assert(a =~= a.drop_last().push(a.last()));
        assert(b =~= b.drop_last().push(b.last()));
    }
}

proof fn lemma_list_text_injective(a: Seq<usize>, b: Seq<usize>)
    requires
        index_list_text(a) == index_list_text(b),
    ensures
        a == b,
{
    let t = index_list_text(a);
    assert(joined_indices(a) =~= t.subrange(1, t.len() - 1));
    assert(joined_indices(b) =~= t.subrange(1, t.len() - 1));
    lemma_joined_injective(a, b);
}

proof fn lemma_use_fields_injective(i: nat, x: Seq<usize>, j: nat, y: Seq<usize>)
    requires
        decimal(i) + ":"@ + index_list_text(x) == decimal(j) + ":"@ + index_list_text(y),
    ensures
        i == j,
        x == y,
{
    reveal_strlit(":");
    lemma_decimal_digits(i);
    lemma_decimal_digits(j);
    let di = decimal(i);
    let dj = decimal(j);
    let t = decimal(i) + ":"@ + index_list_text(x);
    assert(t == di + seq![':'] + index_list_text(x));
    assert(t == dj + seq![':'] + index_list_text(y));
    if di.len() < dj.len() {
        assert(t[di.len() as int] == ':');
        assert(t[di.len() as int] == dj[di.len() as int]);
    } else if dj.len() < di.len() {
        assert(t[dj.len() as int] == ':');
        assert(t[dj.len() as int] == di[dj.len() as int]);
    }
    assert(di =~= t.subrange(0, di.len() as int));
    assert(dj =~= t.subrange(0, dj.len() as int));
    lemma_decimal_injective(i, j);
    assert(index_list_text(x) =~= t.subrange(di.len() as int + 1, t.len() as int));
    assert(index_list_text(y) =~= t.subrange(dj.len() as int + 1, t.len() as int));
    lemma_list_text_injective(x, y);
}

/// The same action: the same variant with the same fields, index lists compared by their
/// elements.
pub open spec fn same_action(a: AutoAction, b: AutoAction) -> bool {
    match (a, b) {
        (AutoAction::Deal, AutoAction::Deal) => true,
        (AutoAction::Play { indices: x }, AutoAction::Play { indices: y }) => x@ == y@,
        (AutoAction::Discard { indices: x }, AutoAction::Discard { indices: y }) => x@ == y@,
        (AutoAction::SkipBlind, AutoAction::SkipBlind) => true,
        (AutoAction::EnterShop, AutoAction::EnterShop) => true,
        (AutoAction::LeaveShop, AutoAction::LeaveShop) => true,
        (AutoAction::RerollShop, AutoAction::RerollShop) => true,
        (AutoAction::BuyCard { index: x }, AutoAction::BuyCard { index: y }) => x == y,
        (AutoAction::BuyPack { index: x }, AutoAction::BuyPack { index: y }) => x == y,
        (AutoAction::BuyVoucher { index: x }, AutoAction::BuyVoucher { index: y }) => x == y,
        (AutoAction::PickPack { indices: x }, AutoAction::PickPack { indices: y }) => x@ == y@,
        (AutoAction::SkipPack, AutoAction::SkipPack) => true,
        (
            AutoAction::UseConsumable { index: x, selected: u },
            AutoAction::UseConsumable { index: y, selected: v },
        ) => x == y && u@ == v@,
        (AutoAction::SellJoker { index: x }, AutoAction::SellJoker { index: y }) => x == y,
        (AutoAction::NextBlind, AutoAction::NextBlind) => true,
        _ => false,
    }
}

/// Keys tell actions apart: two actions have the same key exactly when they are the same
/// action, so removing duplicates by key removes exactly the repeated actions.
pub proof fn law_stable_keys_injective(a: AutoAction, b: AutoAction)
    ensures
        spec_stable_key(a) == spec_stable_key(b) <==> same_action(a, b),
{
    lemma_key_split(a);
    lemma_key_split(b);
    reveal(spec_stable_key);
    let k = spec_stable_key(a);
    if spec_stable_key(a) == spec_stable_key(b) {
        let ha = key_head(a);
        let hb = key_head(b);
        if variant_index(a) != variant_index(b) {
            if ha.len() <= hb.len() {
                assert(hb.subrange(0, ha.len() as int) =~= k.subrange(0, ha.len() as int));
                assert(ha =~= k.subrange(0, ha.len() as int));
                lemma_heads_apart(a, b);
            } else {
                assert(ha.subrange(0, hb.len() as int) =~= k.subrange(0, hb.len() as int));
                assert(hb =~= k.subrange(0, hb.len() as int));
                lemma_heads_apart(b, a);
            }
        } else {
            assert(ha == hb);
            assert(key_fields(a) =~= k.subrange(ha.len() as int, k.len() as int));
            assert(key_fields(b) =~= k.subrange(ha.len() as int, k.len() as int));
            match (a, b) {
                (AutoAction::Play { indices: x }, AutoAction::Play { indices: y }) => {
                    lemma_list_text_injective(x@, y@);
                },
                (AutoAction::Discard { indices: x }, AutoAction::Discard { indices: y }) => {
                    lemma_list_text_injective(x@, y@);
                },
                (AutoAction::PickPack { indices: x }, AutoAction::PickPack { indices: y }) => {
                    lemma_list_text_injective(x@, y@);
                },
                (AutoAction::BuyCard { index: x }, AutoAction::BuyCard { index: y }) => {
                    lemma_decimal_injective(x as nat, y as nat);
                },
                (AutoAction::BuyPack { index: x }, AutoAction::BuyPack { index: y }) => {
                    lemma_decimal_injective(x as nat, y as nat);
                },
                (AutoAction::BuyVoucher { index: x }, AutoAction::BuyVoucher { index: y }) => {
                    lemma_decimal_injective(x as nat, y as nat);
                },
                (AutoAction::SellJoker { index: x }, AutoAction::SellJoker { index: y }) => {
                    lemma_decimal_injective(x as nat, y as nat);
                },
                (
                    AutoAction::UseConsumable { index: x, selected: u },
                    AutoAction::UseConsumable { index: y, selected: v },
                ) => {
                    lemma_use_fields_injective(x as nat, u@, y as nat, v@);
                },
                _ => {},
            }
        }
    }
}

// ---------------------------------------------------------------------------
// Search random generator
// ---------------------------------------------------------------------------

/// The search's xorshift generator: deterministic for a given seed.
#[derive(Debug, Clone, Copy, PartialEq, Eq)]
pub struct SimpleRng(pub u64);

/// One xorshift step: `x ^= x << 7; x ^= x >> 9; x ^= x << 8`.
pub open spec fn xorshift_step(x: u64) -> u64 {
    let a = x ^ ((x << 7u64) as u64);
    let b = a ^ (a >> 9u64);
    b ^ ((b << 8u64) as u64)
}

impl SimpleRng {
    /// State scrambled from the seed by a wrapping multiply and add.
    pub fn new(seed: u64) -> (rng: Self)
        ensures
            rng.0 == seed.wrapping_mul(0x9E3779B97F4A7C15).wrapping_add(0xD1B54A32D192ED03),
    {
        SimpleRng(seed.wrapping_mul(0x9E3779B97F4A7C15).wrapping_add(0xD1B54A32D192ED03))
    }

    /// Advance the state by one xorshift step and return it.
    pub fn next_u64(&mut self) -> (v: u64)
        ensures
            v == xorshift_step(old(self).0),
            final(self).0 == v,
    {
        self.0 = self.0 ^ (self.0 << 7u64);
        self.0 = self.0 ^ (self.0 >> 9u64);
        self.0 = self.0 ^ (self.0 << 8u64);
        self.0
    }
}

/// The generator never gets stuck: a non-zero state steps to a non-zero state, so the
/// draws never collapse to a run of zeros.
pub proof fn law_rng_never_stuck(x: u64)
    requires
        x != 0,
    ensures
        xorshift_step(x) != 0,
{
    let a = x ^ ((x << 7u64) as u64);
    assert(a != 0) by (bit_vector)
        requires
            x != 0,
            a == x ^ ((x << 7u64) as u64),
    ;
    let b = a ^ (a >> 9u64);
    assert(b != 0) by (bit_vector)
        requires
            a != 0,
            b == a ^ (a >> 9u64),
    ;
    assert(b ^ ((b << 8u64) as u64) != 0) by (bit_vector)
        requires
            b != 0,
    ;
}

// ---------------------------------------------------------------------------
// Combinations
// ---------------------------------------------------------------------------

/// All increasing `k`-sequences of indices in `lo..n`, in lexicographic order.
pub open spec fn combinations_from(lo: int, n: int, k: nat) -> Seq<Seq<usize>>
    decreases k, n - lo,
{
    if k == 0 {
        seq![Seq::<usize>::empty()]
    } else if lo + k > n {
        Seq::empty()
    } else {
        combinations_from(lo + 1, n, (k - 1) as nat).map_values(|c: Seq<usize>| seq![lo as usize] + c)
            + combinations_from(lo + 1, n, k)
    }
}

/// Each sequence of `s` with `p` put in front.
pub open spec fn prefixed(p: Seq<usize>, s: Seq<Seq<usize>>) -> Seq<Seq<usize>> {
    s.map_values(|c: Seq<usize>| p + c)
}

proof fn lemma_prefixed_concat(p: Seq<usize>, a: Seq<Seq<usize>>, b: Seq<Seq<usize>>)
    ensures
        prefixed(p, a + b) == prefixed(p, a) + prefixed(p, b),
{
    assert(prefixed(p, a + b) =~= prefixed(p, a) + prefixed(p, b));
}

proof fn lemma_prefixed_nested(p: Seq<usize>, i: usize, s: Seq<Seq<usize>>)
    ensures
        prefixed(p, s.map_values(|c: Seq<usize>| seq![i] + c)) == prefixed(p.push(i), s),
{
    let t = s.map_values(|c: Seq<usize>| seq![i] + c);
    let lhs = prefixed(p, t);
    let rhs = prefixed(p.push(i), s);
    assert forall|j: int| 0 <= j < s.len() implies #[trigger] lhs[j] == rhs[j] by {
        assert(p + (seq![i] + s[j]) =~= p.push(i) + s[j]);
    }
    assert(lhs =~= rhs);
}

/// Append every `k`-combination of `0..n`, in lexicographic order; nothing when
/// `n == 0`, `k == 0` or `k > n`.
pub fn enumerate_combinations(n: usize, k: usize, out: &mut Vec<Vec<usize>>)
    ensures
        views(final(out)@) == views(old(out)@) + if n == 0 || k == 0 || k > n {
            Seq::<Seq<usize>>::empty()
        } else {
            combinations_from(0, n as int, k as nat)
        },
{
    if n == 0 || k == 0 || k > n {
        assert(views(out@) =~= views(out@) + Seq::<Seq<usize>>::empty());
        return;
    }
    let mut current: Vec<usize> = Vec::with_capacity(k);
    recurse_combinations(0, n, k, &mut current, out);
    assert(prefixed(Seq::empty(), combinations_from(0, n as int, k as nat)) =~= combinations_from(
        0,
        n as int,
        k as nat,
    ));
}

/// The views of the vectors of `v`.
pub open spec fn views(v: Seq<Vec<usize>>) -> Seq<Seq<usize>> {
    v.map_values(|x: Vec<usize>| x@)
}

/// Append `current` followed by each combination of `k - current.len()` indices from
/// `start..n`.
fn recurse_combinations(
    start: usize,
    n: usize,
    k: usize,
    current: &mut Vec<usize>,
    out: &mut Vec<Vec<usize>>,
)
    requires
        old(current)@.len() <= k,
        start <= n,
        start + (k - old(current)@.len()) <= n + 1,
        k <= n,
    ensures
        final(current)@ == old(current)@,
        views(final(out)@) == views(old(out)@) + prefixed(
            old(current)@,
            combinations_from(start as int, n as int, (k - old(current)@.len()) as nat),
        ),
    decreases k - old(current)@.len(), n - start,
{
    if current.len() == k {
        let copy = current.clone();
        proof {
            assert(copy@ =~= current@);
        }
        let ghost before = out@;
        out.push(copy);
        assert(prefixed(current@, seq![Seq::<usize>::empty()]) =~= seq![current@]);
        assert(views(out@) =~= views(before) + seq![current@]);
        return;
    }
    let remaining = k - current.len();
    let max_idx = n - remaining;
    let ghost cur = current@;
    let ghost base = views(out@);
    let ghost r = remaining as nat;
    let mut idx = start;
    while idx <= max_idx
        invariant
            start <= idx <= max_idx + 1,
            max_idx + remaining == n,
            remaining == k - cur.len(),
            r == remaining as nat,
            remaining > 0,
            current@ == cur,
            cur == old(current)@,
            cur.len() < k,
            k <= n,
            base + prefixed(cur, combinations_from(start as int, n as int, r)) == views(out@)
                + prefixed(cur, combinations_from(idx as int, n as int, r)),
        decreases max_idx + 1 - idx,
    {
        let ghost before = views(out@);
        let ghost inner = combinations_from(idx + 1, n as int, (r - 1) as nat);
        let ghost rest = combinations_from(idx + 1, n as int, r);
        let ghost lead = inner.map_values(|c: Seq<usize>| seq![idx] + c);
        proof {
            assert(combinations_from(idx as int, n as int, r) =~= lead + rest);
            lemma_prefixed_concat(cur, lead, rest);
            lemma_prefixed_nested(cur, idx, inner);
        }
        current.push(idx);
        assert(current@ == cur.push(idx));
        assert(views(out@) == before);
        assert((k - current@.len()) as nat == (r - 1) as nat);
        recurse_combinations(idx + 1, n, k, current, out);
        assert(views(out@) == before + prefixed(cur.push(idx), inner));
        current.pop();
        proof {
            assert(current@ =~= cur);
            assert(before + prefixed(cur, combinations_from(idx as int, n as int, r)) =~= views(
                out@,
            ) + prefixed(cur, rest));
        }
        idx = idx + 1;
    }
    assert(combinations_from(idx as int, n as int, r) =~= Seq::<Seq<usize>>::empty());
    assert(prefixed(cur, Seq::<Seq<usize>>::empty()) =~= Seq::<Seq<usize>>::empty());
}

/// Keys strictly ascend.
pub open spec fn keys_sorted(k: Seq<Seq<char>>) -> bool {
    forall|i: int, j: int| 0 <= i < j < k.len() ==> lex_lt(#[trigger] k[i], #[trigger] k[j])
}

proof fn lemma_sorted_head_is_min(k: Seq<Seq<char>>, x: Seq<char>)
    requires
        keys_sorted(k),
        k.len() > 0,
        k.contains(x),
    ensures
        x == k[0] || lex_lt(k[0], x),
{
    let m = choose|m: int| 0 <= m < k.len() && k[m] == x;
    if m > 0 {
        assert(lex_lt(k[0], k[m]));
    }
}

proof fn lemma_sorted_keys_unique(a: Seq<Seq<char>>, b: Seq<Seq<char>>)
    requires
        keys_sorted(a),
        keys_sorted(b),
        a.to_set() == b.to_set(),
    ensures
        a == b,
    decreases a.len(),
{
    if a.len() == 0 {
        if b.len() > 0 {
            assert(b.to_set().contains(b[0]));
            assert(a.to_set().contains(b[0]));
        }
        assert(a =~= b);
    } else {
        assert(a.to_set().contains(a[0]));
        assert(b.contains(a[0]));
        assert(b.to_set().contains(b[0]));
        assert(a.contains(b[0]));
        lemma_sorted_head_is_min(a, b[0]);
        lemma_sorted_head_is_min(b, a[0]);
        if a[0] != b[0] {
            lemma_lex_transitive(a[0], b[0], a[0]);
            lemma_lex_irreflexive(a[0]);
        }
        let ta = a.drop_first();
        let tb = b.drop_first();
        assert forall|x: Seq<char>| ta.to_set().contains(x) implies tb.to_set().contains(x) by {
            let k = choose|k: int| 0 <= k < ta.len() && ta[k] == x;
            assert(a[k + 1] == x);
            assert(lex_lt(a[0], a[k + 1]));
            lemma_lex_irreflexive(x);
            assert(a.to_set().contains(x));
            let m = choose|m: int| 0 <= m < b.len() && b[m] == x;
            assert(m != 0);
            assert(tb[m - 1] == x);
        }
        assert forall|x: Seq<char>| tb.to_set().contains(x) implies ta.to_set().contains(x) by {
            let k = choose|k: int| 0 <= k < tb.len() && tb[k] == x;
            assert(b[k + 1] == x);
            assert(lex_lt(b[0], b[k + 1]));
            lemma_lex_irreflexive(x);
            assert(b.to_set().contains(x));
            let m = choose|m: int| 0 <= m < a.len() && a[m] == x;
            assert(m != 0);
            assert(ta[m - 1] == x);
        }
        assert(ta.to_set() =~= tb.to_set());
        lemma_sorted_keys_unique(ta, tb);
        assert(a =~= seq![a[0]] + ta);
        assert(b =~= seq![b[0]] + tb);
    }
}

proof fn lemma_dedup_key_sets(u: Seq<AutoAction>, a: Seq<AutoAction>, x: Seq<char>)
    requires
        dedup_of(u, a),
    ensures
        action_keys(u).contains(x) <==> exists|i: int| 0 <= i < a.len() && spec_stable_key(a[i]) == x,
{
    if action_keys(u).contains(x) {
        let j = choose|j: int| 0 <= j < u.len() && action_keys(u)[j] == x;
        assert(sourced_at(u, a, 0, j));
        let i = choose|i: int| #[trigger] first_from(a, 0, i) && u[j] == a[i];
        assert(spec_stable_key(a[i]) == x);
    }
    if exists|i: int| 0 <= i < a.len() && spec_stable_key(a[i]) == x {
        let i = choose|i: int| 0 <= i < a.len() && spec_stable_key(a[i]) == x;
        assert(action_keys(u).contains(spec_stable_key(a[i])));
    }
}

/// Removing duplicates has one answer: two lists that both keep each key's earliest
/// action in key order are the same list.
pub proof fn law_dedup_determined(u1: Seq<AutoAction>, u2: Seq<AutoAction>, a: Seq<AutoAction>)
    requires
        dedup_of(u1, a),
        dedup_of(u2, a),
    ensures
        u1 == u2,
{
    let k1 = action_keys(u1);
    let k2 = action_keys(u2);
    assert forall|i: int, j: int| 0 <= i < j < k1.len() implies lex_lt(#[trigger] k1[i], #[trigger] k1[j]) by {
        assert(lex_lt(spec_stable_key(u1[i]), spec_stable_key(u1[j])));
    }
    assert forall|i: int, j: int| 0 <= i < j < k2.len() implies lex_lt(#[trigger] k2[i], #[trigger] k2[j]) by {
        assert(lex_lt(spec_stable_key(u2[i]), spec_stable_key(u2[j])));
    }
    assert forall|x: Seq<char>| k1.to_set().contains(x) <==> k2.to_set().contains(x) by {
        lemma_dedup_key_sets(u1, a, x);
        lemma_dedup_key_sets(u2, a, x);
    }
    assert(k1.to_set() =~= k2.to_set());
    lemma_sorted_keys_unique(k1, k2);
    assert(k1.len() == u1.len());
    assert(k2.len() == u2.len());
    assert(u1.len() == u2.len());
    assert forall|j: int| 0 <= j < u1.len() implies u1[j] == u2[j] by {
        assert(sourced_at(u1, a, 0, j));
        assert(sourced_at(u2, a, 0, j));
        let i1 = choose|i: int| #[trigger] first_from(a, 0, i) && u1[j] == a[i];
        let i2 = choose|i: int| #[trigger] first_from(a, 0, i) && u2[j] == a[i];
        assert(k1[j] == k2[j]);
        if i1 < i2 {
            assert(spec_stable_key(a[i1]) != spec_stable_key(a[i2]));
        } else if i2 < i1 {
            assert(spec_stable_key(a[i2]) != spec_stable_key(a[i1]));
        }
    }
    assert(u1 =~= u2);
}

/// Removing duplicates again changes nothing.
pub proof fn law_dedup_idempotent(u: Seq<AutoAction>, a: Seq<AutoAction>)
    requires
        dedup_of(u, a),
    ensures
        dedup_of(u, u),
{
    assert forall|j: int| 0 <= j < u.len() implies #[trigger] sourced_at(u, u, 0, j) by {
        assert forall|k: int| 0 <= k < j implies spec_stable_key(#[trigger] u[k]) != spec_stable_key(u[j]) by {
            lemma_ascending_distinct(u, k, j);
        }
        assert(first_from(u, 0, j));
    }
    assert forall|i: int| 0 <= i < u.len() implies #[trigger] action_keys(u).contains(spec_stable_key(u[i])) by {
        assert(action_keys(u)[i] == spec_stable_key(u[i]));
    }
}

// ---------------------------------------------------------------------------
// Ordering candidates for expansion
// ---------------------------------------------------------------------------

/// `a` is expanded before `b`: higher expansion priority first, then the smaller key.
pub open spec fn ranks_before(a: AutoAction, b: AutoAction) -> bool {
    ||| spec_expand_priority(a) > spec_expand_priority(b)
    ||| (spec_expand_priority(a) == spec_expand_priority(b) && lex_lt(spec_stable_key(a), spec_stable_key(b)))
}

/// Each action of `s` ranks before every later one.
pub open spec fn ranked(s: Seq<AutoAction>) -> bool {
    forall|i: int, j: int| 0 <= i < j < s.len() ==> ranks_before(#[trigger] s[i], #[trigger] s[j])
}

/// `out` is the `n` best-ranked actions of `pool`, best first.
pub open spec fn top_ranked(out: Seq<AutoAction>, pool: Seq<AutoAction>, n: int) -> bool {
    &&& out.len() == (if pool.len() < n { pool.len() as int } else { n })
    &&& ranked(out)
    &&& forall|j: int| 0 <= j < out.len() ==> #[trigger] pool.contains(out[j])
    &&& forall|i: int|
        0 <= i < pool.len() && !out.contains(pool[i]) ==> forall|j: int|
            0 <= j < out.len() ==> ranks_before(#[trigger] out[j], #[trigger] pool[i])
}

proof fn lemma_rank_transitive(a: AutoAction, b: AutoAction, c: AutoAction)
    requires
        ranks_before(a, b),
        ranks_before(b, c),
    ensures
        ranks_before(a, c),
{
    if spec_expand_priority(a) == spec_expand_priority(b) && spec_expand_priority(b) == spec_expand_priority(c) {
        lemma_lex_transitive(spec_stable_key(a), spec_stable_key(b), spec_stable_key(c));
    }
}

proof fn lemma_rank_total(a: AutoAction, b: AutoAction)
    requires
        spec_stable_key(a) != spec_stable_key(b),
    ensures
        ranks_before(a, b) || ranks_before(b, a),
{
    lemma_lex_total(spec_stable_key(a), spec_stable_key(b));
}

fn rank_less(a: &AutoAction, b: &AutoAction) -> (r: bool)
    ensures
        r == ranks_before(*a, *b),
{
    let pa = action_expand_priority(a);
    let pb = action_expand_priority(b);
    if pa != pb {
        pa > pb
    } else {
        let ka = a.stable_key();
        let kb = b.stable_key();
        str_less(ka.as_str(), kb.as_str())
    }
}

/// Insert `a` into the ranked `out` just before the first action it ranks before.
proof fn lemma_rank_insert(out: Seq<AutoAction>, a: AutoAction, p: int)
    requires
        ranked(out),
        0 <= p <= out.len(),
        forall|q: int| 0 <= q < p ==> ranks_before(#[trigger] out[q], a),
        p < out.len() ==> !ranks_before(out[p], a),
        forall|q: int| 0 <= q < out.len() ==> spec_stable_key(#[trigger] out[q]) != spec_stable_key(a),
    ensures
        ranked(out.insert(p, a)),
{
    let next = out.insert(p, a);
    assert forall|q: int| p <= q < out.len() implies ranks_before(a, #[trigger] out[q]) by {
        lemma_rank_total(a, out[p]);
        if q > p {
            assert(ranks_before(out[p], out[q]));
            lemma_rank_transitive(a, out[p], out[q]);
        }
    }
    assert forall|i: int, j: int| 0 <= i < j < next.len() implies ranks_before(#[trigger] next[i], #[trigger] next[j]) by {
        if j < p {
            assert(ranks_before(out[i], out[j]));
        } else if j == p {
            assert(ranks_before(out[i], a));
        } else if i < p {
            assert(ranks_before(out[i], a));
            assert(ranks_before(a, out[j - 1]));
            lemma_rank_transitive(out[i], a, out[j - 1]);
        } else if i == p {
            assert(ranks_before(a, out[j - 1]));
        } else {
            assert(ranks_before(out[i - 1], out[j - 1]));
        }
    }
}

/// The actions of `pool` (whose keys differ) in rank order.
fn rank_sorted(pool: Vec<AutoAction>) -> (out: Vec<AutoAction>)
    requires
        keys_ascending(pool@),
    ensures
        ranked(out@),
        out@.len() == pool@.len(),
        forall|j: int| 0 <= j < out@.len() ==> #[trigger] pool@.contains(out@[j]),
        forall|i: int| 0 <= i < pool@.len() ==> #[trigger] out@.contains(pool@[i]),
{
    let ghost orig = pool@;
    let mut rest = pool;
    let mut out: Vec<AutoAction> = Vec::new();
    while rest.len() > 0
        invariant
            keys_ascending(orig),
            rest@.len() <= orig.len(),
            rest@ == orig.subrange(0, rest@.len() as int),
            ranked(out@),
            out@.len() == orig.len() - rest@.len(),
            forall|j: int|
                0 <= j < out@.len() ==> #[trigger] orig.subrange(rest@.len() as int, orig.len() as int).contains(out@[j]),
            forall|i: int| rest@.len() <= i < orig.len() ==> #[trigger] out@.contains(orig[i]),
        decreases rest.len(),
    {
        let ghost r = rest@.len() - 1;
        let ghost done = orig.subrange(r + 1, orig.len() as int);
        let a = match rest.pop() {
            Some(a) => a,
            None => {
                return out;
            },
        };
        assert(a == orig[r]);
        let mut p: usize = 0;
        let mut found = false;
        while p < out.len() && !found
            invariant
                p <= out.len(),
                forall|q: int| 0 <= q < p ==> ranks_before(#[trigger] out@[q], a),
                found ==> p < out.len() && !ranks_before(out@[p as int], a),
            decreases out.len() - p + (if found { 0int } else { 1int }),
        {
            if rank_less(&out[p], &a) {
                p = p + 1;
            } else {
                found = true;
            }
        }
        proof {
            assert forall|q: int| 0 <= q < out@.len() implies spec_stable_key(#[trigger] out@[q]) != spec_stable_key(a) by {
                assert(done.contains(out@[q]));
                let k = choose|k: int| 0 <= k < done.len() && done[k] == out@[q];
                assert(orig[r + 1 + k] == out@[q]);
                lemma_ascending_distinct(orig, r, r + 1 + k);
            }
            lemma_rank_insert(out@, a, p as int);
        }
        let ghost before = out@;
        out.insert(p, a);
        proof {
            let now = orig.subrange(r, orig.len() as int);
            assert forall|j: int| 0 <= j < out@.len() implies #[trigger] now.contains(out@[j]) by {
                if j == p {
                    assert(now[0] == a);
                } else {
                    let jj = if j < p { j } else { j - 1 };
                    assert(out@[j] == before[jj]);
                    assert(done.contains(before[jj]));
                    let k = choose|k: int| 0 <= k < done.len() && done[k] == before[jj];
                    assert(now[k + 1] == before[jj]);
                }
            }
            assert forall|i: int| r <= i < orig.len() implies #[trigger] out@.contains(orig[i]) by {
                if i == r {
                    assert(out@[p as int] == orig[i]);
                } else {
                    assert(before.contains(orig[i]));
                    let k = choose|k: int| 0 <= k < before.len() && before[k] == orig[i];
                    if k < p {
                        assert(out@[k] == orig[i]);
                    } else {
                        assert(out@[k + 1] == orig[i]);
                    }
                }
            }
        }
    }
    assert(orig.subrange(0, orig.len() as int) =~= orig);
    out
}

/// The candidates to expand next: duplicates removed, ordered by priority then key, and
/// cut to the `cap` best (at least one).
pub fn prioritize_tactical_next_actions(actions: Vec<AutoAction>, cap: usize) -> (out: Vec<AutoAction>)
    ensures
        exists|u: Seq<AutoAction>| dedup_of(u, actions@) && top_ranked(out@, u, if cap < 1 { 1 } else { cap as int }),
{
    let unique = dedup_actions(actions);
    let ghost u = unique@;
    let mut sorted = rank_sorted(unique);
    let n: usize = if cap < 1 { 1 } else { cap };
    let ghost full = sorted@;
    sorted.truncate(n);
    proof {
        let out = sorted@;
        assert forall|i: int| 0 <= i < u.len() && !out.contains(u[i]) implies forall|j: int|
            0 <= j < out.len() ==> ranks_before(#[trigger] out[j], #[trigger] u[i]) by {
            assert(full.contains(u[i]));
            let m = choose|m: int| 0 <= m < full.len() && full[m] == u[i];
            if m < out.len() {
                assert(out[m] == u[i]);
            }
            assert forall|j: int| 0 <= j < out.len() implies ranks_before(#[trigger] out[j], u[i]) by {
                assert(out[j] == full[j]);
            }
        }
        assert forall|j: int| 0 <= j < out.len() implies #[trigger] u.contains(out[j]) by {
            assert(out[j] == full[j]);
        }
        assert(top_ranked(out, u, n as int));
    }
    sorted
}

/// Append one trace line per line of `text`: four spaces, the label, `: ` and the line.
pub fn push_block(lines: &mut Vec<String>, label: &str, text: &str)
    ensures
        string_views(final(lines)@) == string_views(old(lines)@) + text_lines(text@).map_values(
            |row: Seq<char>| "    "@ + label@ + ": "@ + row,
        ),
{
    let rows = lines_of(text);
    let ghost start = string_views(lines@);
    let ghost want = text_lines(text@).map_values(|row: Seq<char>| "    "@ + label@ + ": "@ + row);
    let mut i: usize = 0;
    while i < rows.len()
        invariant
            i <= rows@.len(),
            string_views(rows@) == text_lines(text@),
            want == text_lines(text@).map_values(|row: Seq<char>| "    "@ + label@ + ": "@ + row),
            string_views(lines@) == start + want.subrange(0, i as int),
        decreases rows.len() - i,
    {
        let mut line = String::from_str("    ");
        line.append(label);
        line.append(": ");
        line.append(rows[i].as_str());
        let ghost before = lines@;
        proof {
            assert(string_views(rows@)[i as int] == rows@[i as int]@);
        }
        lines.push(line);
        proof {
            assert(string_views(lines@) =~= string_views(before).push(line@));
            assert(want.subrange(0, i + 1) =~= want.subrange(0, i as int).push(want[i as int]));
        }
        i = i + 1;
    }
    assert(want.subrange(0, rows@.len() as int) =~= want);
}

// ---------------------------------------------------------------------------
// When the search turns tactical
// ---------------------------------------------------------------------------

/// `m * 2`, held to the range of an `i64`.
pub open spec fn saturating_double(m: i64) -> int {
    if 2 * m > i64::MAX {
        i64::MAX as int
    } else if 2 * m < i64::MIN {
        i64::MIN as int
    } else {
        2 * m
    }
}

/// Why the search switches to tactical play, if it does: only for a positive target in the
/// deal or play phase, when the blind's deficit is within the finishing margin (doubled on
/// the last hand). On the last hand, past the plain margin, the reason is the pressure of
/// the last hand; otherwise the blind is near its finish.
pub open spec fn spec_tactical_trigger_reason(
    target: i64,
    blind_score: i64,
    phase: Phase,
    hands_left: u8,
    finish_margin: i64,
) -> Option<Seq<char>> {
    let deficit: int = if target - blind_score > 0 {
        target - blind_score
    } else {
        0
    };
    let margin: int = if hands_left <= 1 {
        saturating_double(finish_margin)
    } else {
        finish_margin as int
    };
    if target <= 0 || (phase != Phase::Play && phase != Phase::Deal) || deficit > margin {
        None
    } else if hands_left <= 1 && deficit > finish_margin {
        Some(
            "last_hand_pressure deficit="@ + int_text(deficit) + " margin="@ + int_text(margin)
                + " hands_left="@ + decimal(hands_left as nat),
        )
    } else {
        Some(
            "near_finish deficit="@ + int_text(deficit) + " margin="@ + int_text(finish_margin as int)
                + " phase="@ + (if phase == Phase::Play {
                "Play"@
            } else {
                "Deal"@
            }),
        )
    }
}

fn saturating_double_i64(m: i64) -> (r: i64)
    ensures
        r == saturating_double(m),
{
    if m > i64::MAX / 2 {
        i64::MAX
    } else if m < i64::MIN / 2 {
        i64::MIN
    } else {
        m * 2
    }
}

/// Why the search switches to tactical play at a state with the given target, blind score,
/// phase and hands left, under the configured finishing margin.
pub fn tactical_trigger_reason(
    target: i64,
    blind_score: i64,
    phase: Phase,
    hands_left: u8,
    finish_margin: i64,
) -> (reason: Option<String>)
    requires
        target > 0 ==> i64::MIN <= target - blind_score <= i64::MAX,
    ensures
        match (reason, spec_tactical_trigger_reason(target, blind_score, phase, hands_left, finish_margin)) {
            (Some(r), Some(t)) => r@ == t,
            (None, None) => true,
            _ => false,
        },
{
    if target <= 0 {
        return None;
    }
    if phase != Phase::Play && phase != Phase::Deal {
        return None;
    }
    let gap = target - blind_score;
    let deficit: i64 = if gap > 0 {
        gap
    } else {
        0
    };
    let pressure_margin = if hands_left <= 1 {
        saturating_double_i64(finish_margin)
    } else {
        finish_margin
    };
    if deficit > pressure_margin {
        return None;
    }
    let mut out = String::new();
    if hands_left <= 1 && deficit > finish_margin {
        out.append("last_hand_pressure deficit=");
        push_int(&mut out, deficit);
        out.append(" margin=");
        push_int(&mut out, pressure_margin);
        out.append(" hands_left=");
        push_decimal(&mut out, hands_left as u64);
    } else {
        out.append("near_finish deficit=");
        push_int(&mut out, deficit);
        out.append(" margin=");
        push_int(&mut out, finish_margin);
        out.append(" phase=");
        if phase == Phase::Play {
            out.append("Play");
        } else {
            out.append("Deal");
        }
    }
    Some(out)
}

/// Extra rollout depth for a phase: eight in play, four at the deal, two in the shop.
pub open spec fn phase_depth_bonus(phase: Phase) -> int {
    match phase {
        Phase::Play => 8,
        Phase::Deal => 4,
        Phase::Shop => 2,
        _ => 0,
    }
}

/// How deep a rollout goes: the configured depth, plus the phase's bonus, plus one per hand
/// left up to four, held at `u32::MAX`.
pub fn dynamic_rollout_depth(rollout_depth: u32, phase: Phase, hands_left: u8) -> (d: u32)
    ensures
        d == ({
            let want = rollout_depth + phase_depth_bonus(phase) + (if hands_left < 4 {
                hands_left as int
            } else {
                4
            });
            if want > u32::MAX {
                u32::MAX as int
            } else {
                want
            }
        }),
{
    let phase_bonus: u32 = match phase {
        Phase::Play => 8,
        Phase::Deal => 4,
        Phase::Shop => 2,
        _ => 0,
    };
    let resource_bonus: u32 = if hands_left < 4 {
        hands_left as u32
    } else {
        4
    };
    let with_phase = if rollout_depth > u32::MAX - phase_bonus {
        u32::MAX
    } else {
        rollout_depth + phase_bonus
    };
    if with_phase > u32::MAX - resource_bonus {
        u32::MAX
    } else {
        with_phase + resource_bonus
    }
}

// ---------------------------------------------------------------------------
// Search heuristics and trace text
// ---------------------------------------------------------------------------

/// Strength of a poker hand for the search heuristics: high card 1 up to flush five 13.
pub open spec fn spec_hand_kind_weight(kind: HandKind) -> i64 {
    match kind {
        HandKind::HighCard => 1,
        HandKind::Pair => 2,
        HandKind::TwoPair => 3,
        HandKind::Trips => 4,
        HandKind::Straight => 5,
        HandKind::Flush => 6,
        HandKind::FullHouse => 7,
        HandKind::Quads => 8,
        HandKind::StraightFlush => 9,
        HandKind::RoyalFlush => 10,
        HandKind::FiveOfAKind => 11,
        HandKind::FlushHouse => 12,
        HandKind::FlushFive => 13,
    }
}

pub fn hand_kind_weight(kind: HandKind) -> (w: i64)
    ensures
        w == spec_hand_kind_weight(kind),
{
    match kind {
        HandKind::HighCard => 1,
        HandKind::Pair => 2,
        HandKind::TwoPair => 3,
        HandKind::Trips => 4,
        HandKind::Straight => 5,
        HandKind::Flush => 6,
        HandKind::FullHouse => 7,
        HandKind::Quads => 8,
        HandKind::StraightFlush => 9,
        HandKind::RoyalFlush => 10,
        HandKind::FiveOfAKind => 11,
        HandKind::FlushHouse => 12,
        HandKind::FlushFive => 13,
    }
}

/// Heuristic value of a rank: its face value, aces high at 14, jokers 15.
pub open spec fn spec_rank_heuristic(rank: Rank) -> i64 {
    match rank {
        Rank::Ace => 14,
        Rank::King => 13,
        Rank::Queen => 12,
        Rank::Jack => 11,
        Rank::Ten => 10,
        Rank::Nine => 9,
        Rank::Eight => 8,
        Rank::Seven => 7,
        Rank::Six => 6,
        Rank::Five => 5,
        Rank::Four => 4,
        Rank::Three => 3,
        Rank::Two => 2,
        Rank::Joker => 15,
    }
}

pub fn rank_heuristic(rank: Rank) -> (v: i64)
    ensures
        v == spec_rank_heuristic(rank),
{
    match rank {
        Rank::Ace => 14,
        Rank::King => 13,
        Rank::Queen => 12,
        Rank::Jack => 11,
        Rank::Ten => 10,
        Rank::Nine => 9,
        Rank::Eight => 8,
        Rank::Seven => 7,
        Rank::Six => 6,
        Rank::Five => 5,
        Rank::Four => 4,
        Rank::Three => 3,
        Rank::Two => 2,
        Rank::Joker => 15,
    }
}

/// How much the search values keeping a card: its chips, bonus and rank heuristic; stone
/// cards are worth nothing.
pub fn card_eval_value(card: &Card, rank_chips: i64) -> (v: i64)
    requires
        !card.spec_is_stone() ==> i64::MIN <= rank_chips + card.bonus_chips + spec_rank_heuristic(card.rank)
            <= i64::MAX,
        !card.spec_is_stone() ==> i64::MIN <= rank_chips + card.bonus_chips <= i64::MAX,
    ensures
        v == if card.spec_is_stone() {
            0
        } else {
            rank_chips + card.bonus_chips + spec_rank_heuristic(card.rank)
        },
{
    if card.is_stone() {
        0
    } else {
        rank_chips + card.bonus_chips + rank_heuristic(card.rank)
    }
}

/// The cards of `hand` at `indices`, in the order given; indices past the end are skipped.
pub open spec fn cards_at(hand: Seq<Card>, indices: Seq<usize>) -> Seq<Card>
    decreases indices.len(),
{
    if indices.len() == 0 {
        Seq::empty()
    } else if indices.last() < hand.len() {
        cards_at(hand, indices.drop_last()).push(hand[indices.last() as int])
    } else {
        cards_at(hand, indices.drop_last())
    }
}

pub fn cards_from_hand(hand: &[Card], indices: &[usize]) -> (out: Vec<Card>)
    ensures
        out@ == cards_at(hand@, indices@),
{
    let mut out: Vec<Card> = Vec::new();
    let mut i: usize = 0;
    while i < indices.len()
        invariant
            i <= indices@.len(),
            out@ == cards_at(hand@, indices@.subrange(0, i as int)),
        decreases indices.len() - i,
    {
        let ghost sub = indices@.subrange(0, i + 1);
        assert(sub.drop_last() =~= indices@.subrange(0, i as int));
        let idx = indices[i];
        if idx < hand.len() {
            out.push(hand[idx]);
        }
        i = i + 1;
    }
    assert(indices@.subrange(0, indices@.len() as int) =~= indices@);
    out
}

/// Tags of a card in autoplay traces: enhancement, edition and seal names, and the bonus.
pub open spec fn trace_card_tags(c: Card) -> Seq<Seq<char>> {
    let t1 = match c.enhancement {
        Some(e) => seq![spec_enhancement_debug_name(e)],
        None => Seq::empty(),
    };
    let t2 = match c.edition {
        Some(e) => seq![spec_edition_debug_name(e)],
        None => Seq::empty(),
    };
    let t3 = match c.seal {
        Some(e) => seq![spec_seal_debug_name(e)],
        None => Seq::empty(),
    };
    let t4 = if c.bonus_chips != 0 {
        seq!["bonus="@ + int_text(c.bonus_chips as int)]
    } else {
        Seq::empty()
    };
    t1 + t2 + t3 + t4
}

/// A card as autoplay traces write it, as in `AS [Glass,Foil,bonus=5]`.
pub open spec fn spec_trace_card(c: Card) -> Seq<char> {
    if c.face_down {
        "??"@
    } else {
        let base = spec_rank_short(c.rank) + spec_suit_short(c.suit);
        let tags = trace_card_tags(c);
        if tags.len() == 0 {
            base
        } else {
            base + " ["@ + join_with(tags, ","@) + "]"@
        }
    }
}

fn push_string(tags: &mut Vec<String>, tag: String)
    ensures
        string_views(final(tags)@) == string_views(old(tags)@).push(tag@),
{
    let ghost t = tag@;
    tags.push(tag);
    assert(string_views(tags@) =~= string_views(old(tags)@).push(t));
}

/// A card as autoplay traces write it.
pub fn format_card(card: &Card) -> (out: String)
    ensures
        out@ == spec_trace_card(*card),
{
    if card.face_down {
        return String::from_str("??");
    }
    let mut out = String::from_str(rank_short(card.rank));
    out.append(suit_short(card.suit));
    let mut tags: Vec<String> = Vec::new();
    assert(string_views(tags@) =~= Seq::<Seq<char>>::empty());
    if let Some(e) = card.enhancement {
        push_string(&mut tags, String::from_str(enhancement_debug_name(e)));
    }
    if let Some(e) = card.edition {
        push_string(&mut tags, String::from_str(edition_debug_name(e)));
    }
    if let Some(e) = card.seal {
        push_string(&mut tags, String::from_str(seal_debug_name(e)));
    }
    if card.bonus_chips != 0 {
        let mut t = String::from_str("bonus=");
        push_int(&mut t, card.bonus_chips);
        push_string(&mut tags, t);
    }
    assert(string_views(tags@) =~= trace_card_tags(*card));
    if tags.len() > 0 {
        out.append(" [");
        let joined = join_strings(&tags, ",");
        out.append(joined.as_str());
        out.append("]");
    }
    out
}

} // verus!
