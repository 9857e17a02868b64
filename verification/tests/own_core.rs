use rulatro::cards::{Card, Edition, Enhancement, Rank, Seal, Suit};
use rulatro::config::{
    ante_rule, builtin_seal, default_consumable_slots, default_hand_size, default_joker_sell_divisor,
    default_joker_slots, max_ante, AnteRule, SealDef,
};
use rulatro::content::{
    default_weight, jokers_of_rarity, pick_boss, pick_boss_index, pick_consumable, pick_index,
    pick_index_with, pick_joker, planet_for_hand, planets_for, position_by_id, random_standard_card,
    standard_card_for,
};
use rulatro::deck::Deck;
use rulatro::effects::{ActionOp, ActivationType, ConsumableKind, JokerRarity};
use rulatro::effects::{action_op_name, activation_short, camel_to_snake};
use rulatro::hand::{evaluate_hand, evaluate_hand_with_rules, level_kind, scoring_cards, HandEvalRules, HandKind};
use rulatro::inventory::{Inventory, InventoryError};
use rulatro::modding::{CardDebuffPatch, HandEvalPatch, ShopParamsPatch};
use rulatro::rng::RngState;

fn c(rank: Rank, suit: Suit) -> Card {
    Card::standard(suit, rank)
}

fn no_rules() -> HandEvalRules {
    HandEvalRules { smeared_suits: false, four_fingers: false, shortcut: false }
}

#[test]
fn hand_pair_and_scoring() {
    let cards = [
        c(Rank::Ace, Suit::Spades),
        c(Rank::Ace, Suit::Hearts),
        c(Rank::Three, Suit::Clubs),
        c(Rank::Seven, Suit::Diamonds),
        c(Rank::Nine, Suit::Spades),
    ];
    assert_eq!(evaluate_hand(&cards), HandKind::Pair);
    assert_eq!(scoring_cards(&cards, HandKind::Pair), vec![0, 1]);
}

#[test]
fn hand_high_card_scores_highest() {
    let cards = [c(Rank::Two, Suit::Spades), c(Rank::King, Suit::Hearts), c(Rank::Five, Suit::Clubs)];
    assert_eq!(evaluate_hand(&cards), HandKind::HighCard);
    assert_eq!(scoring_cards(&cards, HandKind::HighCard), vec![1]);
}

#[test]
fn hand_flush_straight_royal() {
    let flush = [
        c(Rank::Two, Suit::Hearts),
        c(Rank::Five, Suit::Hearts),
        c(Rank::Nine, Suit::Hearts),
        c(Rank::Jack, Suit::Hearts),
        c(Rank::King, Suit::Hearts),
    ];
    assert_eq!(evaluate_hand(&flush), HandKind::Flush);
    let straight = [
        c(Rank::Five, Suit::Hearts),
        c(Rank::Six, Suit::Spades),
        c(Rank::Seven, Suit::Hearts),
        c(Rank::Eight, Suit::Clubs),
        c(Rank::Nine, Suit::Hearts),
    ];
    assert_eq!(evaluate_hand(&straight), HandKind::Straight);
    let wheel = [
        c(Rank::Ace, Suit::Hearts),
        c(Rank::Two, Suit::Spades),
        c(Rank::Three, Suit::Hearts),
        c(Rank::Four, Suit::Clubs),
        c(Rank::Five, Suit::Hearts),
    ];
    assert_eq!(evaluate_hand(&wheel), HandKind::Straight);
    let royal = [
        c(Rank::Ten, Suit::Spades),
        c(Rank::Jack, Suit::Spades),
        c(Rank::Queen, Suit::Spades),
        c(Rank::King, Suit::Spades),
        c(Rank::Ace, Suit::Spades),
    ];
    assert_eq!(evaluate_hand(&royal), HandKind::RoyalFlush);
    assert_eq!(level_kind(HandKind::RoyalFlush), HandKind::StraightFlush);
    assert_eq!(level_kind(HandKind::Pair), HandKind::Pair);
    assert_eq!(scoring_cards(&royal, HandKind::RoyalFlush), vec![0, 1, 2, 3, 4]);
}

#[test]
fn hand_houses_and_fives() {
    let full = [
        c(Rank::King, Suit::Spades),
        c(Rank::King, Suit::Hearts),
        c(Rank::King, Suit::Clubs),
        c(Rank::Two, Suit::Diamonds),
        c(Rank::Two, Suit::Spades),
    ];
    assert_eq!(evaluate_hand(&full), HandKind::FullHouse);
    let flush_house = [
        c(Rank::King, Suit::Spades),
        c(Rank::King, Suit::Spades),
        c(Rank::King, Suit::Spades),
        c(Rank::Two, Suit::Spades),
        c(Rank::Two, Suit::Spades),
    ];
    assert_eq!(evaluate_hand(&flush_house), HandKind::FlushHouse);
    let five = [
        c(Rank::Ace, Suit::Spades),
        c(Rank::Ace, Suit::Hearts),
        c(Rank::Ace, Suit::Clubs),
        c(Rank::Ace, Suit::Diamonds),
        c(Rank::Ace, Suit::Spades),
    ];
    assert_eq!(evaluate_hand(&five), HandKind::FiveOfAKind);
    let flush_five = [c(Rank::Ace, Suit::Spades); 5];
    assert_eq!(evaluate_hand(&flush_five), HandKind::FlushFive);
}

#[test]
fn hand_two_pair_trips_quads_small_hands() {
    let two_pair = [c(Rank::Four, Suit::Spades), c(Rank::Four, Suit::Hearts), c(Rank::Nine, Suit::Clubs), c(Rank::Nine, Suit::Diamonds)];
    assert_eq!(evaluate_hand(&two_pair), HandKind::TwoPair);
    assert_eq!(scoring_cards(&two_pair, HandKind::TwoPair), vec![0, 1, 2, 3]);
    let trips = [c(Rank::Four, Suit::Spades), c(Rank::Four, Suit::Hearts), c(Rank::Four, Suit::Clubs)];
    assert_eq!(evaluate_hand(&trips), HandKind::Trips);
    let quads = [c(Rank::Six, Suit::Spades); 4];
    assert_eq!(evaluate_hand(&quads), HandKind::Quads);
    assert_eq!(evaluate_hand(&[]), HandKind::HighCard);
}

#[test]
fn hand_rules_four_fingers_smear_shortcut() {
    let four = [c(Rank::Two, Suit::Hearts), c(Rank::Five, Suit::Hearts), c(Rank::Nine, Suit::Hearts), c(Rank::Jack, Suit::Hearts)];
    assert_eq!(evaluate_hand(&four), HandKind::HighCard);
    let rules = HandEvalRules { four_fingers: true, ..no_rules() };
    assert_eq!(evaluate_hand_with_rules(&four, rules), HandKind::Flush);
    let mixed = [
        c(Rank::Two, Suit::Hearts),
        c(Rank::Five, Suit::Diamonds),
        c(Rank::Nine, Suit::Hearts),
        c(Rank::Jack, Suit::Diamonds),
        c(Rank::King, Suit::Hearts),
    ];
    assert_eq!(evaluate_hand(&mixed), HandKind::HighCard);
    assert_eq!(evaluate_hand_with_rules(&mixed, HandEvalRules { smeared_suits: true, ..no_rules() }), HandKind::Flush);
    let gappy = [
        c(Rank::Two, Suit::Hearts),
        c(Rank::Four, Suit::Spades),
        c(Rank::Six, Suit::Hearts),
        c(Rank::Eight, Suit::Clubs),
        c(Rank::Ten, Suit::Hearts),
    ];
    assert_eq!(evaluate_hand(&gappy), HandKind::HighCard);
    assert_eq!(evaluate_hand_with_rules(&gappy, HandEvalRules { shortcut: true, ..no_rules() }), HandKind::Straight);
}

#[test]
fn hand_stone_cards_always_score() {
    let mut stone = c(Rank::Two, Suit::Clubs);
    stone.enhancement = Some(Enhancement::Stone);
    assert!(stone.is_stone());
    let cards = [c(Rank::Ace, Suit::Spades), c(Rank::Ace, Suit::Hearts), stone];
    assert_eq!(evaluate_hand(&cards), HandKind::Pair);
    assert_eq!(scoring_cards(&cards, HandKind::Pair), vec![0, 1, 2]);
    assert_eq!(evaluate_hand(&[stone]), HandKind::HighCard);
}

#[test]
fn hand_ids() {
    assert_eq!(HandKind::FlushFive.id(), "flush_five");
    assert_eq!(HandKind::HighCard.id(), "high_card");
}

#[test]
fn cards_wild_by_suit_or_enhancement() {
    let mut card = c(Rank::Two, Suit::Clubs);
    assert!(!card.is_wild());
    card.enhancement = Some(Enhancement::Wild);
    assert!(card.is_wild());
    assert!(c(Rank::Two, Suit::Wild).is_wild());
}

#[test]
fn deck_standard_draw_discard() {
    let mut deck = Deck::standard52();
    assert_eq!(deck.draw.len(), 52);
    assert_eq!(deck.draw[0], c(Rank::Ace, Suit::Spades));
    assert_eq!(deck.draw[51], c(Rank::King, Suit::Diamonds));
    let drawn = deck.draw_cards(2);
    assert_eq!(drawn, vec![c(Rank::King, Suit::Diamonds), c(Rank::Queen, Suit::Diamonds)]);
    assert_eq!(deck.draw.len(), 50);
    let mut down = drawn[0];
    down.face_down = true;
    deck.discard(vec![down]);
    assert_eq!(deck.discard, vec![c(Rank::King, Suit::Diamonds)]);
    let rest = deck.draw_cards(100);
    assert_eq!(rest.len(), 50);
    assert!(deck.draw.is_empty());
}

#[test]
fn deck_shuffle_and_reshuffle_keep_cards() {
    let mut rng = RngState::from_seed(7);
    let mut deck = Deck::standard52();
    deck.shuffle(&mut rng);
    assert_eq!(deck.draw.len(), 52);
    let drawn = deck.draw_cards(10);
    deck.discard(drawn);
    deck.reshuffle_discard(&mut rng);
    assert!(deck.discard.is_empty());
    let mut all = deck.draw.clone();
    let mut fresh = Deck::standard52().draw;
    all.sort_by_key(|x| (x.suit as u8, x.rank as u8));
    fresh.sort_by_key(|x| (x.suit as u8, x.rank as u8));
    assert_eq!(all, fresh);
    assert_eq!(rng.seed(), 7);
}

#[test]
fn rng_same_seed_same_values() {
    let mut a = RngState::from_seed(42);
    let mut b = RngState::from_seed(42);
    for _ in 0..5 {
        assert_eq!(a.next_u64(), b.next_u64());
    }
    let mut items = vec![1, 2, 3, 4, 5, 6];
    a.shuffle(&mut items);
    items.sort();
    assert_eq!(items, vec![1, 2, 3, 4, 5, 6]);
}

#[test]
fn inventory_slots_and_negative_edition() {
    let mut inv = Inventory::with_slots(1, 1);
    assert_eq!(inv.add_joker("a".to_string(), JokerRarity::Common, 4), Ok(()));
    assert_eq!(inv.add_joker("b".to_string(), JokerRarity::Common, 4), Err(InventoryError::NoJokerSlots));
    assert_eq!(inv.add_joker_with_edition("c".to_string(), JokerRarity::Rare, 8, Some(Edition::Negative)), Ok(()));
    assert_eq!(inv.jokers.len(), 2);
    assert_eq!(inv.joker_capacity(), 2);
    assert_eq!(inv.add_consumable("t".to_string(), ConsumableKind::Tarot), Ok(()));
    assert_eq!(inv.add_consumable("p".to_string(), ConsumableKind::Planet), Err(InventoryError::NoConsumableSlots));
    assert_eq!(inv.add_consumable_with_edition("s".to_string(), ConsumableKind::Spectral, Some(Edition::Negative)), Ok(()));
    assert_eq!(inv.consumable_count(), 1);
    assert_eq!(inv.consumables.len(), 2);
}

#[test]
fn modding_merges() {
    let mut a = HandEvalPatch { max_gap: Some(1), min_len: Some(5), four_fingers: None, smear_suits: Some(false), splash: None };
    let b = HandEvalPatch { max_gap: Some(2), min_len: Some(4), four_fingers: Some(true), smear_suits: None, splash: None };
    a.merge_from(&b);
    assert_eq!(a.max_gap, Some(2));
    assert_eq!(a.min_len, Some(4));
    assert_eq!(a.four_fingers, Some(true));
    assert_eq!(a.smear_suits, Some(false));
    let mut d = CardDebuffPatch { force_debuff: true, force_shield: false };
    assert!(d.resolve(false));
    d.merge_from(&CardDebuffPatch { force_debuff: false, force_shield: true });
    assert!(!d.resolve(true));
    let mut s = ShopParamsPatch { allow_duplicates: None, joker_price_delta: -1, free_rerolls: 1 };
    s.merge_from(&ShopParamsPatch { allow_duplicates: Some(true), joker_price_delta: 3, free_rerolls: 2 });
    assert_eq!(s.allow_duplicates, Some(true));
    assert_eq!(s.joker_price_delta, 2);
    assert_eq!(s.free_rerolls, 3);
}

#[test]
fn effects_keywords_and_names() {
    assert_eq!(ActionOp::from_keyword("ADD_CHIPS"), Some(ActionOp::AddChips));
    assert_eq!(ActionOp::from_keyword("multiply_mult"), Some(ActionOp::MultiplyMult));
    assert_eq!(ActionOp::from_keyword("nonsense"), None);
    assert_eq!(camel_to_snake("AddChips"), "add_chips");
    assert_eq!(camel_to_snake("already"), "already");
    assert_eq!(action_op_name(ActionOp::AddChips), "add_chips");
    assert_eq!(activation_short(ActivationType::OnScored), "scored");
}

#[test]
fn config_defaults_and_seals() {
    assert_eq!(default_hand_size(), 8);
    assert_eq!(default_joker_slots(), 5);
    assert_eq!(default_consumable_slots(), 2);
    assert_eq!(default_joker_sell_divisor(), 2);
    let gold = builtin_seal("gold");
    assert_eq!((gold.money_scored, gold.money_held), (3, 3));
    assert_eq!(builtin_seal("blue").grant_planet, Some(true));
    assert_eq!(builtin_seal("purple").grant_tarot_discard, Some(true));
    assert_eq!(builtin_seal("red"), SealDef::default());
    let antes = vec![AnteRule { ante: 1, base_target: 300 }, AnteRule { ante: 3, base_target: 2000 }, AnteRule { ante: 2, base_target: 800 }];
    assert_eq!(ante_rule(&antes, 2), Some(2));
    assert_eq!(ante_rule(&antes, 9), None);
    assert_eq!(max_ante(&antes), Some(3));
    assert_eq!(max_ante(&Vec::new()), None);
}

#[test]
fn content_picks() {
    assert_eq!(default_weight(), 1);
    assert_eq!(pick_index_with(&[4, 5, 6], 7), Some(5));
    assert_eq!(pick_index_with(&[], 7), None);
    let mut rng = RngState::from_seed(1);
    let picked = pick_index(&[10, 20, 30], &mut rng).unwrap();
    assert!([10, 20, 30].contains(&picked));
    assert_eq!(pick_index(&[], &mut rng), None);
    assert_eq!(standard_card_for(1, 12), c(Rank::King, Suit::Hearts));
    let card = random_standard_card(&mut rng);
    assert!(!card.face_down && card.suit != Suit::Wild && card.rank != Rank::Joker);
    assert_eq!(pick_boss_index(&vec![1, 0, 3], 0), Some(0));
    assert_eq!(pick_boss_index(&vec![1, 0, 3], 1), Some(2));
    assert_eq!(pick_boss_index(&vec![1, 0, 3], 5), Some(2));
    assert_eq!(pick_boss_index(&vec![0, 0], 3), Some(1));
    assert_eq!(pick_boss_index(&vec![], 3), None);
    assert!(pick_boss(&vec![2, 2], &mut rng).unwrap() < 2);
    let rarities = vec![JokerRarity::Common, JokerRarity::Rare, JokerRarity::Common];
    assert_eq!(jokers_of_rarity(&rarities, JokerRarity::Common), vec![0, 2]);
    let j = pick_joker(&rarities, JokerRarity::Rare, &mut rng);
    assert_eq!(j, Some(1));
    assert_eq!(pick_joker(&rarities, JokerRarity::Legendary, &mut rng), None);
    assert!(pick_consumable(3, &mut rng).unwrap() < 3);
    assert_eq!(pick_consumable(0, &mut rng), None);
    let hands = vec![Some(HandKind::Pair), None, Some(HandKind::Flush)];
    assert_eq!(planets_for(&hands, HandKind::Flush), vec![2]);
    assert_eq!(planet_for_hand(&hands, HandKind::Flush, &mut rng), Some(2));
    assert!(planet_for_hand(&hands, HandKind::Quads, &mut rng).unwrap() < 3);
    let ids = vec!["a".to_string(), "b".to_string(), "b".to_string()];
    assert_eq!(position_by_id(&ids, "b"), Some(1));
    assert_eq!(position_by_id(&ids, "z"), None);
    let _ = Seal::Red;
}

fn stone(rank: Rank) -> Card {
    Card { enhancement: Some(Enhancement::Stone), ..c(rank, Suit::Clubs) }
}

#[test]
fn hand_order_and_stones_do_not_matter() {
    let hand = vec![
        c(Rank::Nine, Suit::Hearts),
        c(Rank::Nine, Suit::Spades),
        c(Rank::Four, Suit::Clubs),
        c(Rank::Four, Suit::Diamonds),
        c(Rank::King, Suit::Hearts),
    ];
    let mut reordered = hand.clone();
    reordered.reverse();
    reordered.swap(0, 2);
    let rules = no_rules();
    assert_eq!(evaluate_hand_with_rules(&hand, rules), HandKind::TwoPair);
    assert_eq!(evaluate_hand_with_rules(&reordered, rules), HandKind::TwoPair);
    let mut with_stones = hand.clone();
    with_stones.push(stone(Rank::Nine));
    with_stones.push(stone(Rank::Ace));
    assert_eq!(evaluate_hand_with_rules(&with_stones, rules), HandKind::TwoPair);
    assert_eq!(evaluate_hand_with_rules(&[stone(Rank::Ace), stone(Rank::Two)], rules), HandKind::HighCard);
    let four = HandEvalRules { four_fingers: true, ..rules };
    assert_eq!(evaluate_hand_with_rules(&hand, four), evaluate_hand_with_rules(&hand, rules));
}

#[test]
fn scoring_card_consequences() {
    let flush = vec![
        c(Rank::Two, Suit::Hearts),
        c(Rank::Six, Suit::Hearts),
        c(Rank::Nine, Suit::Hearts),
        c(Rank::Jack, Suit::Hearts),
        c(Rank::King, Suit::Hearts),
    ];
    assert_eq!(scoring_cards(&flush, HandKind::Flush), vec![0, 1, 2, 3, 4]);
    let high = vec![c(Rank::Five, Suit::Hearts), stone(Rank::Ace), c(Rank::Queen, Suit::Spades), c(Rank::Queen, Suit::Clubs)];
    assert_eq!(scoring_cards(&high, HandKind::HighCard), vec![1, 2]);
    assert!(scoring_cards(&[], HandKind::Pair).is_empty());
}

#[test]
fn empty_discard_leaves_generator() {
    let mut a = RngState::from_seed(7);
    let mut b = RngState::from_seed(7);
    let mut deck = Deck::standard52();
    deck.reshuffle_discard(&mut a);
    assert_eq!(deck.draw.len(), 52);
    assert_eq!(a.next_u64(), b.next_u64());
}
