//! Display names of the game's enums, in English and Chinese.
use crate::cards::{Edition, Enhancement, Rank, Seal, Suit};
use crate::console::UiLocale;
use crate::effects::{ConsumableKind, RankFilter};
use crate::hand::HandKind;
use crate::run::{BlindKind, Phase};
use vstd::prelude::*;

verus! {

pub open spec fn spec_phase_short(phase: Phase) -> Seq<char> {
    match phase {
        Phase::Setup => "Setup"@,
        Phase::Deal => "Deal"@,
        Phase::Play => "Play"@,
        Phase::Score => "Score"@,
        Phase::Cleanup => "Clean"@,
        Phase::Shop => "Shop"@,
    }
}

/// Short English name of a round phase.
pub fn phase_short(phase: Phase) -> (s: &'static str)
    ensures
        s@ == spec_phase_short(phase),
{
    match phase {
        Phase::Setup => "Setup",
        Phase::Deal => "Deal",
        Phase::Play => "Play",
        Phase::Score => "Score",
        Phase::Cleanup => "Clean",
        Phase::Shop => "Shop",
    }
}

pub open spec fn spec_blind_short(blind: BlindKind) -> Seq<char> {
    match blind {
        BlindKind::Small => "Small"@,
        BlindKind::Big => "Big"@,
        BlindKind::Boss => "Boss"@,
    }
}

/// Short English name of a blind.
pub fn blind_short(blind: BlindKind) -> (s: &'static str)
    ensures
        s@ == spec_blind_short(blind),
{
    match blind {
        BlindKind::Small => "Small",
        BlindKind::Big => "Big",
        BlindKind::Boss => "Boss",
    }
}

pub open spec fn spec_rank_short(rank: Rank) -> Seq<char> {
    match rank {
        Rank::Ace => "A"@,
        Rank::King => "K"@,
        Rank::Queen => "Q"@,
        Rank::Jack => "J"@,
        Rank::Ten => "T"@,
        Rank::Nine => "9"@,
        Rank::Eight => "8"@,
        Rank::Seven => "7"@,
        Rank::Six => "6"@,
        Rank::Five => "5"@,
        Rank::Four => "4"@,
        Rank::Three => "3"@,
        Rank::Two => "2"@,
        Rank::Joker => "Jk"@,
    }
}

/// One- or two-letter rank symbol.
pub fn rank_short(rank: Rank) -> (s: &'static str)
    ensures
        s@ == spec_rank_short(rank),
{
    match rank {
        Rank::Ace => "A",
        Rank::King => "K",
        Rank::Queen => "Q",
        Rank::Jack => "J",
        Rank::Ten => "T",
        Rank::Nine => "9",
        Rank::Eight => "8",
        Rank::Seven => "7",
        Rank::Six => "6",
        Rank::Five => "5",
        Rank::Four => "4",
        Rank::Three => "3",
        Rank::Two => "2",
        Rank::Joker => "Jk",
    }
}

pub open spec fn spec_suit_short(suit: Suit) -> Seq<char> {
    match suit {
        Suit::Spades => "S"@,
        Suit::Hearts => "H"@,
        Suit::Clubs => "C"@,
        Suit::Diamonds => "D"@,
        Suit::Wild => "W"@,
    }
}

/// One-letter suit symbol.
pub fn suit_short(suit: Suit) -> (s: &'static str)
    ensures
        s@ == spec_suit_short(suit),
{
    match suit {
        Suit::Spades => "S",
        Suit::Hearts => "H",
        Suit::Clubs => "C",
        Suit::Diamonds => "D",
        Suit::Wild => "W",
    }
}

pub open spec fn spec_enhancement_short(kind: Enhancement) -> Seq<char> {
    match kind {
        Enhancement::Bonus => "Bonus"@,
        Enhancement::Mult => "Mult"@,
        Enhancement::Wild => "Wild"@,
        Enhancement::Glass => "Glass"@,
        Enhancement::Steel => "Steel"@,
        Enhancement::Stone => "Stone"@,
        Enhancement::Lucky => "Lucky"@,
        Enhancement::Gold => "Gold"@,
    }
}

/// Name of an enhancement.
pub fn enhancement_short(kind: Enhancement) -> (s: &'static str)
    ensures
        s@ == spec_enhancement_short(kind),
{
    match kind {
        Enhancement::Bonus => "Bonus",
        Enhancement::Mult => "Mult",
        Enhancement::Wild => "Wild",
        Enhancement::Glass => "Glass",
        Enhancement::Steel => "Steel",
        Enhancement::Stone => "Stone",
        Enhancement::Lucky => "Lucky",
        Enhancement::Gold => "Gold",
    }
}

pub open spec fn spec_edition_short(kind: Edition) -> Seq<char> {
    match kind {
        Edition::Foil => "Foil"@,
        Edition::Holographic => "Holo"@,
        Edition::Polychrome => "Poly"@,
        Edition::Negative => "Neg"@,
    }
}

/// Short name of an edition.
pub fn edition_short(kind: Edition) -> (s: &'static str)
    ensures
        s@ == spec_edition_short(kind),
{
    match kind {
        Edition::Foil => "Foil",
        Edition::Holographic => "Holo",
        Edition::Polychrome => "Poly",
        Edition::Negative => "Neg",
    }
}

pub open spec fn spec_seal_short(kind: Seal) -> Seq<char> {
    match kind {
        Seal::Red => "R"@,
        Seal::Blue => "B"@,
        Seal::Gold => "G"@,
        Seal::Purple => "P"@,
    }
}

/// One-letter seal symbol.
pub fn seal_short(kind: Seal) -> (s: &'static str)
    ensures
        s@ == spec_seal_short(kind),
{
    match kind {
        Seal::Red => "R",
        Seal::Blue => "B",
        Seal::Gold => "G",
        Seal::Purple => "P",
    }
}

pub open spec fn spec_rank_debug_name(rank: Rank) -> Seq<char> {
    match rank {
        Rank::Ace => "Ace"@,
        Rank::Two => "Two"@,
        Rank::Three => "Three"@,
        Rank::Four => "Four"@,
        Rank::Five => "Five"@,
        Rank::Six => "Six"@,
        Rank::Seven => "Seven"@,
        Rank::Eight => "Eight"@,
        Rank::Nine => "Nine"@,
        Rank::Ten => "Ten"@,
        Rank::Jack => "Jack"@,
        Rank::Queen => "Queen"@,
        Rank::King => "King"@,
        Rank::Joker => "Joker"@,
    }
}

/// Variant name of a rank.
pub fn rank_debug_name(rank: Rank) -> (s: &'static str)
    ensures
        s@ == spec_rank_debug_name(rank),
{
    match rank {
        Rank::Ace => "Ace",
        Rank::Two => "Two",
        Rank::Three => "Three",
        Rank::Four => "Four",
        Rank::Five => "Five",
        Rank::Six => "Six",
        Rank::Seven => "Seven",
        Rank::Eight => "Eight",
        Rank::Nine => "Nine",
        Rank::Ten => "Ten",
        Rank::Jack => "Jack",
        Rank::Queen => "Queen",
        Rank::King => "King",
        Rank::Joker => "Joker",
    }
}

pub open spec fn spec_suit_debug_name(suit: Suit) -> Seq<char> {
    match suit {
        Suit::Spades => "Spades"@,
        Suit::Hearts => "Hearts"@,
        Suit::Clubs => "Clubs"@,
        Suit::Diamonds => "Diamonds"@,
        Suit::Wild => "Wild"@,
    }
}

/// Variant name of a suit.
pub fn suit_debug_name(suit: Suit) -> (s: &'static str)
    ensures
        s@ == spec_suit_debug_name(suit),
{
    match suit {
        Suit::Spades => "Spades",
        Suit::Hearts => "Hearts",
        Suit::Clubs => "Clubs",
        Suit::Diamonds => "Diamonds",
        Suit::Wild => "Wild",
    }
}

pub open spec fn spec_enhancement_debug_name(kind: Enhancement) -> Seq<char> {
    match kind {
        Enhancement::Bonus => "Bonus"@,
        Enhancement::Mult => "Mult"@,
        Enhancement::Wild => "Wild"@,
        Enhancement::Glass => "Glass"@,
        Enhancement::Steel => "Steel"@,
        Enhancement::Stone => "Stone"@,
        Enhancement::Lucky => "Lucky"@,
        Enhancement::Gold => "Gold"@,
    }
}

/// Variant name of an enhancement.
pub fn enhancement_debug_name(kind: Enhancement) -> (s: &'static str)
    ensures
        s@ == spec_enhancement_debug_name(kind),
{
    match kind {
        Enhancement::Bonus => "Bonus",
        Enhancement::Mult => "Mult",
        Enhancement::Wild => "Wild",
        Enhancement::Glass => "Glass",
        Enhancement::Steel => "Steel",
        Enhancement::Stone => "Stone",
        Enhancement::Lucky => "Lucky",
        Enhancement::Gold => "Gold",
    }
}

pub open spec fn spec_edition_debug_name(kind: Edition) -> Seq<char> {
    match kind {
        Edition::Foil => "Foil"@,
        Edition::Holographic => "Holographic"@,
        Edition::Polychrome => "Polychrome"@,
        Edition::Negative => "Negative"@,
    }
}

/// Variant name of an edition.
pub fn edition_debug_name(kind: Edition) -> (s: &'static str)
    ensures
        s@ == spec_edition_debug_name(kind),
{
    match kind {
        Edition::Foil => "Foil",
        Edition::Holographic => "Holographic",
        Edition::Polychrome => "Polychrome",
        Edition::Negative => "Negative",
    }
}

pub open spec fn spec_seal_debug_name(kind: Seal) -> Seq<char> {
    match kind {
        Seal::Red => "Red"@,
        Seal::Blue => "Blue"@,
        Seal::Gold => "Gold"@,
        Seal::Purple => "Purple"@,
    }
}

/// Variant name of a seal.
pub fn seal_debug_name(kind: Seal) -> (s: &'static str)
    ensures
        s@ == spec_seal_debug_name(kind),
{
    match kind {
        Seal::Red => "Red",
        Seal::Blue => "Blue",
        Seal::Gold => "Gold",
        Seal::Purple => "Purple",
    }
}

pub open spec fn spec_trace_phase_label(phase: Phase) -> Seq<char> {
    match phase {
        Phase::Setup => "Setup/准备"@,
        Phase::Deal => "Deal/发牌"@,
        Phase::Play => "Play/出牌"@,
        Phase::Score => "Score/计分"@,
        Phase::Cleanup => "Cleanup/结算"@,
        Phase::Shop => "Shop/商店"@,
    }
}

/// Bilingual phase name used in autoplay traces.
pub fn trace_phase_label(phase: Phase) -> (s: &'static str)
    ensures
        s@ == spec_trace_phase_label(phase),
{
    match phase {
        Phase::Setup => "Setup/准备",
        Phase::Deal => "Deal/发牌",
        Phase::Play => "Play/出牌",
        Phase::Score => "Score/计分",
        Phase::Cleanup => "Cleanup/结算",
        Phase::Shop => "Shop/商店",
    }
}

pub open spec fn spec_trace_blind_label(blind: BlindKind) -> Seq<char> {
    match blind {
        BlindKind::Small => "Small/小盲"@,
        BlindKind::Big => "Big/大盲"@,
        BlindKind::Boss => "Boss/Boss盲注"@,
    }
}

/// Bilingual blind name used in autoplay traces.
pub fn trace_blind_label(blind: BlindKind) -> (s: &'static str)
    ensures
        s@ == spec_trace_blind_label(blind),
{
    match blind {
        BlindKind::Small => "Small/小盲",
        BlindKind::Big => "Big/大盲",
        BlindKind::Boss => "Boss/Boss盲注",
    }
}

pub open spec fn spec_phase_label(locale: UiLocale, phase: Phase) -> Seq<char> {
    if locale == UiLocale::ZhCn {
        match phase {
            Phase::Setup => "准备"@,
            Phase::Deal => "发牌"@,
            Phase::Play => "出牌"@,
            Phase::Score => "计分"@,
            Phase::Cleanup => "清理"@,
            Phase::Shop => "商店"@,
        }
    } else {
        spec_phase_short(phase)
    }
}

/// Name of a round phase in the interface language.
pub fn phase_label(locale: UiLocale, phase: Phase) -> (s: &'static str)
    ensures
        s@ == spec_phase_label(locale, phase),
{
    match locale {
        UiLocale::ZhCn => match phase {
            Phase::Setup => "准备",
            Phase::Deal => "发牌",
            Phase::Play => "出牌",
            Phase::Score => "计分",
            Phase::Cleanup => "清理",
            Phase::Shop => "商店",
        },
        UiLocale::EnUs => phase_short(phase),
    }
}

pub open spec fn spec_blind_label(locale: UiLocale, blind: BlindKind) -> Seq<char> {
    if locale == UiLocale::ZhCn {
        match blind {
            BlindKind::Small => "小盲"@,
            BlindKind::Big => "大盲"@,
            BlindKind::Boss => "Boss"@,
        }
    } else {
        spec_blind_short(blind)
    }
}

/// Name of a blind in the interface language.
pub fn blind_label(locale: UiLocale, blind: BlindKind) -> (s: &'static str)
    ensures
        s@ == spec_blind_label(locale, blind),
{
    match locale {
        UiLocale::ZhCn => match blind {
            BlindKind::Small => "小盲",
            BlindKind::Big => "大盲",
            BlindKind::Boss => "Boss",
        },
        UiLocale::EnUs => blind_short(blind),
    }
}

pub open spec fn spec_hand_label_short(locale: UiLocale, hand: HandKind) -> Seq<char> {
    if locale == UiLocale::ZhCn {
        match hand {
            HandKind::HighCard => "高牌"@,
            HandKind::Pair => "对子"@,
            HandKind::TwoPair => "两对"@,
            HandKind::Trips => "三条"@,
            HandKind::Straight => "顺子"@,
            HandKind::Flush => "同花"@,
            HandKind::FullHouse => "葫芦"@,
            HandKind::Quads => "四条"@,
            HandKind::StraightFlush => "同花顺"@,
            HandKind::RoyalFlush => "皇家同花顺"@,
            HandKind::FiveOfAKind => "五条"@,
            HandKind::FlushHouse => "同花葫芦"@,
            HandKind::FlushFive => "同花五条"@,
        }
    } else {
        match hand {
            HandKind::HighCard => "HighCard"@,
            HandKind::Pair => "Pair"@,
            HandKind::TwoPair => "TwoPair"@,
            HandKind::Trips => "Trips"@,
            HandKind::Straight => "Straight"@,
            HandKind::Flush => "Flush"@,
            HandKind::FullHouse => "FullHouse"@,
            HandKind::Quads => "Quads"@,
            HandKind::StraightFlush => "StraightFlush"@,
            HandKind::RoyalFlush => "RoyalFlush"@,
            HandKind::FiveOfAKind => "FiveOfAKind"@,
            HandKind::FlushHouse => "FlushHouse"@,
            HandKind::FlushFive => "FlushFive"@,
        }
    }
}

/// Name of a poker hand in the interface language.
pub fn hand_label_short(locale: UiLocale, hand: HandKind) -> (s: &'static str)
    ensures
        s@ == spec_hand_label_short(locale, hand),
{
    match locale {
        UiLocale::ZhCn => match hand {
            HandKind::HighCard => "高牌",
            HandKind::Pair => "对子",
            HandKind::TwoPair => "两对",
            HandKind::Trips => "三条",
            HandKind::Straight => "顺子",
            HandKind::Flush => "同花",
            HandKind::FullHouse => "葫芦",
            HandKind::Quads => "四条",
            HandKind::StraightFlush => "同花顺",
            HandKind::RoyalFlush => "皇家同花顺",
            HandKind::FiveOfAKind => "五条",
            HandKind::FlushHouse => "同花葫芦",
            HandKind::FlushFive => "同花五条",
        },
        UiLocale::EnUs => match hand {
            HandKind::HighCard => "HighCard",
            HandKind::Pair => "Pair",
            HandKind::TwoPair => "TwoPair",
            HandKind::Trips => "Trips",
            HandKind::Straight => "Straight",
            HandKind::Flush => "Flush",
            HandKind::FullHouse => "FullHouse",
            HandKind::Quads => "Quads",
            HandKind::StraightFlush => "StraightFlush",
            HandKind::RoyalFlush => "RoyalFlush",
            HandKind::FiveOfAKind => "FiveOfAKind",
            HandKind::FlushHouse => "FlushHouse",
            HandKind::FlushFive => "FlushFive",
        },
    }
}

pub open spec fn spec_consumable_kind_short(locale: UiLocale, kind: ConsumableKind) -> Seq<char> {
    if locale == UiLocale::ZhCn {
        match kind {
            ConsumableKind::Tarot => "塔罗"@,
            ConsumableKind::Planet => "星球"@,
            ConsumableKind::Spectral => "幻灵"@,
        }
    } else {
        match kind {
            ConsumableKind::Tarot => "Tarot"@,
            ConsumableKind::Planet => "Planet"@,
            ConsumableKind::Spectral => "Spectral"@,
        }
    }
}

/// Name of a consumable kind in the interface language.
pub fn consumable_kind_short(locale: UiLocale, kind: ConsumableKind) -> (s: &'static str)
    ensures
        s@ == spec_consumable_kind_short(locale, kind),
{
    match locale {
        UiLocale::ZhCn => match kind {
            ConsumableKind::Tarot => "塔罗",
            ConsumableKind::Planet => "星球",
            ConsumableKind::Spectral => "幻灵",
        },
        UiLocale::EnUs => match kind {
            ConsumableKind::Tarot => "Tarot",
            ConsumableKind::Planet => "Planet",
            ConsumableKind::Spectral => "Spectral",
        },
    }
}

pub open spec fn spec_rank_filter_label_short(locale: UiLocale, filter: RankFilter) -> Seq<char> {
    if locale == UiLocale::ZhCn {
        match filter {
            RankFilter::Any => "任意"@,
            RankFilter::Face => "人头牌"@,
            RankFilter::Ace => "A"@,
            RankFilter::Numbered => "数字牌"@,
        }
    } else {
        match filter {
            RankFilter::Any => "Any"@,
            RankFilter::Face => "Face"@,
            RankFilter::Ace => "Ace"@,
            RankFilter::Numbered => "Numbered"@,
        }
    }
}

/// Name of a rank filter in the interface language.
pub fn rank_filter_label_short(locale: UiLocale, filter: RankFilter) -> (s: &'static str)
    ensures
        s@ == spec_rank_filter_label_short(locale, filter),
{
    match locale {
        UiLocale::ZhCn => match filter {
            RankFilter::Any => "任意",
            RankFilter::Face => "人头牌",
            RankFilter::Ace => "A",
            RankFilter::Numbered => "数字牌",
        },
        UiLocale::EnUs => match filter {
            RankFilter::Any => "Any",
            RankFilter::Face => "Face",
            RankFilter::Ace => "Ace",
            RankFilter::Numbered => "Numbered",
        },
    }
}

} // verus!
