use rulatro::autoplay::{
    action_expand_priority, action_name, can_afford, card_eval_value, cards_from_hand, dedup_actions,
    enumerate_combinations, format_card, hand_kind_weight, is_recoverable_action_error,
    prioritize_tactical_next_actions, push_block, rank_heuristic, run_status_label, tactical_trigger_reason,
    target_reached, dynamic_rollout_depth, final_status, stop_status, uncommitted_status, AutoAction,
    AutoplayError, EvalMetrics, RunStatus, SimpleRng, TargetConfig,
};
use rulatro::cards::{Card, Edition, Enhancement, Rank, Seal, Suit};
use rulatro::hand::HandKind;
use rulatro::run::Phase;
use rulatro::candidates::{
    can_pick_pack_indices, discard_candidate, legal_actions, legal_consumable_actions, ConsumableView, legal_pack_actions, play_candidate, select_discard_actions,
    select_play_actions, PackChoice, PackView, PlayCandidate, RunView, ShopOffer, ShopView,
};
use rulatro::run::{BlindKind, BlindOutcome};

#[test]
fn stable_keys_and_labels() {
    assert_eq!(AutoAction::Play { indices: vec![1, 2] }.stable_key(), "play:[1, 2]");
    assert_eq!(AutoAction::Discard { indices: vec![] }.stable_key(), "discard:[]");
    assert_eq!(AutoAction::BuyCard { index: 3 }.stable_key(), "buy_card:3");
    assert_eq!(AutoAction::UseConsumable { index: 0, selected: vec![4] }.stable_key(), "use_consumable:0:[4]");
    assert_eq!(AutoAction::Play { indices: vec![1, 2] }.short_label(), "play [1, 2]");
    assert_eq!(AutoAction::SellJoker { index: 2 }.short_label(), "sell_joker 2");
    assert_eq!(action_name(&AutoAction::Deal), "Deal/发牌");
    assert_eq!(action_expand_priority(&AutoAction::NextBlind), 120);
    assert_eq!(action_expand_priority(&AutoAction::SkipBlind), 10);
    assert_eq!(run_status_label(&RunStatus::MaxSteps), "MaxSteps/达到最大步数");
}

#[test]
fn dedup_keeps_first_of_each_key_sorted() {
    let actions = vec![
        AutoAction::Play { indices: vec![2] },
        AutoAction::Deal,
        AutoAction::Play { indices: vec![2] },
        AutoAction::BuyCard { index: 1 },
        AutoAction::Deal,
    ];
    let out = dedup_actions(actions);
    assert_eq!(out, vec![AutoAction::BuyCard { index: 1 }, AutoAction::Deal, AutoAction::Play { indices: vec![2] }]);
    let again = dedup_actions(out.clone());
    assert_eq!(again, out);
    assert!(dedup_actions(vec![]).is_empty());
}

#[test]
fn prioritize_orders_by_priority_then_key() {
    let actions = vec![
        AutoAction::Discard { indices: vec![0] },
        AutoAction::Play { indices: vec![3] },
        AutoAction::Play { indices: vec![1] },
        AutoAction::NextBlind,
        AutoAction::Play { indices: vec![1] },
    ];
    let out = prioritize_tactical_next_actions(actions.clone(), 3);
    assert_eq!(
        out,
        vec![AutoAction::NextBlind, AutoAction::Play { indices: vec![1] }, AutoAction::Play { indices: vec![3] }]
    );
    assert_eq!(prioritize_tactical_next_actions(actions, 0), vec![AutoAction::NextBlind]);
}

#[test]
fn targets_and_money() {
    let m = EvalMetrics { ante: 3, money: 10, blind_score: 5, blind_target: 100, blind_failed: false, blind_cleared: false };
    let t = TargetConfig { target_score: None, target_ante: Some(3), target_money: None, stop_on_blind_failed: true };
    assert!(target_reached(m, t));
    assert!(!target_reached(m, TargetConfig { target_ante: Some(4), ..t }));
    assert!(can_afford(5, 5));
    assert!(!can_afford(4, 5));
    assert!(is_recoverable_action_error(&AutoplayError::Run("x".to_string())));
}

#[test]
fn simple_rng_is_deterministic() {
    let mut a = SimpleRng::new(9);
    let mut b = SimpleRng::new(9);
    let x = a.next_u64();
    assert_eq!(x, 0x0f0706a6611f7714);
    assert_eq!(x, b.next_u64());
    assert_ne!(x, a.next_u64());
    let mut z = SimpleRng::new(0);
    assert_ne!(z.next_u64(), 0);
}

#[test]
fn combinations_in_order() {
    let mut out = Vec::new();
    enumerate_combinations(4, 2, &mut out);
    assert_eq!(out, vec![vec![0, 1], vec![0, 2], vec![0, 3], vec![1, 2], vec![1, 3], vec![2, 3]]);
    let mut none = Vec::new();
    enumerate_combinations(2, 3, &mut none);
    assert!(none.is_empty());
}

#[test]
fn trace_blocks() {
    let mut lines = vec!["head".to_string()];
    push_block(&mut lines, "score", "a\r\nb\n");
    assert_eq!(lines, vec!["head", "    score: a", "    score: b"]);
    push_block(&mut lines, "x", "");
    assert_eq!(lines.len(), 3);
}

#[test]
fn search_heuristics_and_trace_cards() {
    assert_eq!(hand_kind_weight(HandKind::FlushFive), 13);
    assert_eq!(hand_kind_weight(HandKind::HighCard), 1);
    assert_eq!(rank_heuristic(Rank::Joker), 15);
    let mut card = Card::standard(Suit::Spades, Rank::Ace);
    assert_eq!(card_eval_value(&card, 11), 25);
    card.bonus_chips = 5;
    card.enhancement = Some(Enhancement::Glass);
    card.edition = Some(Edition::Foil);
    card.seal = Some(Seal::Red);
    assert_eq!(format_card(&card), "AS [Glass,Foil,Red,bonus=5]");
    card.face_down = true;
    assert_eq!(format_card(&card), "??");
    card.enhancement = Some(Enhancement::Stone);
    assert_eq!(card_eval_value(&card, 11), 0);
    let hand = [Card::standard(Suit::Hearts, Rank::Two), Card::standard(Suit::Clubs, Rank::Three)];
    assert_eq!(cards_from_hand(&hand, &[1, 5, 0]), vec![hand[1], hand[0]]);
}

fn play_indices(actions: &[AutoAction]) -> Vec<Vec<usize>> {
    actions
        .iter()
        .map(|a| match a {
            AutoAction::Play { indices } => indices.clone(),
            AutoAction::Discard { indices } => indices.clone(),
            other => panic!("unexpected action {:?}", other),
        })
        .collect()
}

fn sample_plays() -> Vec<PlayCandidate> {
    vec![
        play_candidate(vec![0], 10, HandKind::HighCard, 5, 100),
        play_candidate(vec![3, 4], 30, HandKind::Pair, 10, 100),
        play_candidate(vec![1, 2], 30, HandKind::Pair, 10, 100),
        play_candidate(vec![0, 1, 2], 120, HandKind::Trips, 1, 100),
    ]
}

#[test]
fn play_ratings() {
    let plays = sample_plays();
    assert_eq!(plays[0].score, 215);
    assert_eq!(plays[1].score, 630);
    assert_eq!(plays[3].score, 102_441);
    assert_eq!(plays[3].expected_total, 120);
    assert_eq!(plays[3].hand, HandKind::Trips);
    let exact = play_candidate(vec![2], 100, HandKind::Pair, -3, 100);
    assert_eq!(exact.score, 100_000 + 2_000 + 20 - 3);
}

#[test]
fn play_short_list_shows_each_hand_first() {
    let three = select_play_actions(sample_plays(), 3);
    assert_eq!(play_indices(&three), vec![vec![0, 1, 2], vec![1, 2], vec![0]]);
    let four = select_play_actions(sample_plays(), 4);
    assert_eq!(play_indices(&four), vec![vec![0, 1, 2], vec![1, 2], vec![0], vec![3, 4]]);
    let one = select_play_actions(sample_plays(), 0);
    assert_eq!(play_indices(&one), vec![vec![0, 1, 2]]);
    assert!(select_play_actions(Vec::new(), 5).is_empty());
}

#[test]
fn discard_short_list() {
    let cands = vec![
        discard_candidate(vec![2, 3], 10, 5),
        discard_candidate(vec![4], 10, 5),
        discard_candidate(vec![1, 2], 10, 5),
        discard_candidate(vec![0], 3, 0),
    ];
    assert_eq!(cands[0].score, 95);
    assert_eq!(cands[3].score, 30);
    let three = select_discard_actions(cands, 3);
    assert_eq!(play_indices(&three), vec![vec![4], vec![1, 2], vec![2, 3]]);
    let all = select_discard_actions(vec![discard_candidate(vec![0], 1, 0)], 0);
    assert_eq!(play_indices(&all), vec![vec![0]]);
    assert!(matches!(all[0], AutoAction::Discard { .. }));
}

#[test]
fn tactical_trigger_reasons() {
    assert_eq!(tactical_trigger_reason(0, 0, Phase::Play, 3, 180), None);
    assert_eq!(tactical_trigger_reason(500, 0, Phase::Shop, 3, 180), None);
    assert_eq!(tactical_trigger_reason(500, 100, Phase::Play, 3, 180), None);
    assert_eq!(
        tactical_trigger_reason(500, 400, Phase::Play, 3, 180).as_deref(),
        Some("near_finish deficit=100 margin=180 phase=Play")
    );
    assert_eq!(
        tactical_trigger_reason(500, 600, Phase::Deal, 2, 180).as_deref(),
        Some("near_finish deficit=0 margin=180 phase=Deal")
    );
    assert_eq!(
        tactical_trigger_reason(500, 200, Phase::Play, 1, 180).as_deref(),
        Some("last_hand_pressure deficit=300 margin=360 hands_left=1")
    );
    assert_eq!(tactical_trigger_reason(500, 100, Phase::Play, 1, 180), None);
    assert_eq!(
        tactical_trigger_reason(i64::MAX, 0, Phase::Play, 0, i64::MAX).as_deref(),
        Some("near_finish deficit=9223372036854775807 margin=9223372036854775807 phase=Play")
    );
    assert_eq!(
        tactical_trigger_reason(i64::MAX, 0, Phase::Play, 1, i64::MAX / 2 + 1).as_deref(),
        Some("last_hand_pressure deficit=9223372036854775807 margin=9223372036854775807 hands_left=1")
    );
}

#[test]
fn rollout_depths() {
    assert_eq!(dynamic_rollout_depth(10, Phase::Play, 3), 21);
    assert_eq!(dynamic_rollout_depth(10, Phase::Deal, 9), 18);
    assert_eq!(dynamic_rollout_depth(10, Phase::Shop, 0), 12);
    assert_eq!(dynamic_rollout_depth(10, Phase::Setup, 1), 11);
    assert_eq!(dynamic_rollout_depth(u32::MAX - 5, Phase::Play, 4), u32::MAX);
    assert_eq!(dynamic_rollout_depth(u32::MAX - 20, Phase::Play, 4), u32::MAX - 8);
}

#[test]
fn play_short_list_size() {
    let many = select_play_actions(sample_plays(), 10);
    let lists = play_indices(&many);
    assert_eq!(lists.len(), 4);
    for i in 0..lists.len() {
        for j in i + 1..lists.len() {
            assert_ne!(lists[i], lists[j]);
        }
    }
    let two = select_play_actions(sample_plays(), 2);
    assert_eq!(play_indices(&two), vec![vec![0, 1, 2], vec![1, 2]]);
}

#[test]
fn pack_pick_checks() {
    let options = vec![PackChoice::Joker, PackChoice::Consumable, PackChoice::PlayingCard];
    assert!(can_pick_pack_indices(&options, &vec![0, 2], 1, 0));
    assert!(!can_pick_pack_indices(&options, &vec![0, 2], 0, 5));
    assert!(!can_pick_pack_indices(&options, &vec![1], 5, 0));
    assert!(!can_pick_pack_indices(&options, &vec![3], 5, 5));
    assert!(can_pick_pack_indices(&options, &vec![], 0, 0));
}

#[test]
fn pack_actions_lists() {
    let options = vec![PackChoice::Joker, PackChoice::Consumable, PackChoice::PlayingCard];
    let all = legal_pack_actions(&options, 2, 10, 0, 1);
    assert!(matches!(all[0], AutoAction::SkipPack));
    let picks: Vec<Vec<usize>> = all[1..]
        .iter()
        .map(|a| match a {
            AutoAction::PickPack { indices } => indices.clone(),
            other => panic!("unexpected {:?}", other),
        })
        .collect();
    assert_eq!(picks, vec![vec![1], vec![1, 2], vec![2]]);
    assert_eq!(legal_pack_actions(&options, 2, 2, 0, 1).len(), 3);
    let single = legal_pack_actions(&options, 0, 0, 1, 1);
    assert_eq!(single.len(), 2);
    assert!(matches!(&single[1], AutoAction::PickPack { indices } if indices == &vec![0]));
    assert_eq!(legal_pack_actions(&Vec::new(), 3, 5, 1, 1).len(), 1);
}

fn by_key(mut actions: Vec<AutoAction>) -> Vec<AutoAction> {
    actions.sort_by_key(|a| a.stable_key());
    actions
}

fn base_view() -> RunView {
    RunView {
        open_pack: None,
        joker_free: 1,
        consumable_free: 1,
        phase: Phase::Deal,
        blind: BlindKind::Small,
        discards_left: 2,
        money: 10,
        shop: None,
        voucher_price: 10,
        jokers: 0,
        outcome: None,
    }
}

#[test]
fn legal_actions_by_phase() {
    let deal = legal_actions(&base_view(), vec![], vec![], vec![], 4);
    assert_eq!(deal, by_key(vec![AutoAction::Deal, AutoAction::SkipBlind]));
    let boss = RunView { blind: BlindKind::Boss, ..base_view() };
    assert_eq!(legal_actions(&boss, vec![], vec![], vec![], 4), vec![AutoAction::Deal]);

    let play = RunView { phase: Phase::Play, discards_left: 0, ..base_view() };
    let plays = vec![AutoAction::Play { indices: vec![1] }, AutoAction::Play { indices: vec![0] }];
    let discards = vec![AutoAction::Discard { indices: vec![2] }];
    let uses = vec![AutoAction::UseConsumable { index: 0, selected: vec![] }];
    let out = legal_actions(&play, plays.clone(), discards.clone(), uses.clone(), 4);
    let mut expected = plays.clone();
    expected.extend(uses.clone());
    assert_eq!(out, by_key(expected));
    let with_discards = RunView { discards_left: 1, ..play };
    let out = legal_actions(&with_discards, plays.clone(), discards.clone(), uses.clone(), 4);
    assert_eq!(out.len(), 4);

    let shop = RunView {
        phase: Phase::Shop,
        money: 5,
        jokers: 3,
        outcome: Some(BlindOutcome::Cleared),
        shop: Some(ShopView {
            reroll_cost: 5,
            cards: vec![
                ShopOffer { price: 4, has_room: true },
                ShopOffer { price: 6, has_room: true },
                ShopOffer { price: 1, has_room: false },
            ],
            pack_prices: vec![5, 0, 9],
            vouchers: 1,
        }),
        ..base_view()
    };
    let out = legal_actions(&shop, vec![], vec![], vec![], 2);
    assert_eq!(
        out,
        by_key(vec![
            AutoAction::LeaveShop,
            AutoAction::RerollShop,
            AutoAction::BuyCard { index: 0 },
            AutoAction::BuyPack { index: 0 },
            AutoAction::BuyPack { index: 1 },
            AutoAction::SellJoker { index: 0 },
            AutoAction::SellJoker { index: 1 },
            AutoAction::NextBlind,
        ])
    );

    let cleared = RunView { phase: Phase::Score, outcome: Some(BlindOutcome::Cleared), ..base_view() };
    assert_eq!(
        legal_actions(&cleared, vec![], vec![], vec![], 4),
        by_key(vec![AutoAction::EnterShop, AutoAction::NextBlind])
    );

    let open = RunView {
        open_pack: Some(PackView { options: vec![PackChoice::PlayingCard, PackChoice::Joker], picks: 1 }),
        joker_free: 0,
        ..base_view()
    };
    let out = legal_actions(&open, vec![], vec![], vec![], 4);
    assert_eq!(out, vec![AutoAction::SkipPack, AutoAction::PickPack { indices: vec![0] }]);
}

fn uses(actions: &[AutoAction]) -> Vec<(usize, Vec<usize>)> {
    actions
        .iter()
        .map(|a| match a {
            AutoAction::UseConsumable { index, selected } => (*index, selected.clone()),
            other => panic!("unexpected {:?}", other),
        })
        .collect()
}

#[test]
fn consumable_use_lists() {
    let plain = ConsumableView { known: true, needs_consumable_slots: 0, needs_joker_slots: 0, selects: 0 };
    let pick_two = ConsumableView { selects: 2, ..plain };
    let unknown = ConsumableView { known: false, ..plain };
    let needs_joker = ConsumableView { needs_joker_slots: 1, ..plain };
    let huge = ConsumableView { selects: 5, ..plain };
    let items = vec![plain, pick_two, unknown, needs_joker, huge];
    let out = legal_consumable_actions(&items, 3, 0, 0, 2);
    assert_eq!(uses(&out), vec![(0, vec![]), (1, vec![0, 1]), (1, vec![0, 2])]);
    let out = legal_consumable_actions(&items, 3, 0, 1, 10);
    assert_eq!(
        uses(&out),
        vec![(0, vec![]), (1, vec![0, 1]), (1, vec![0, 2]), (1, vec![1, 2]), (3, vec![])]
    );
    let out = legal_consumable_actions(&vec![pick_two], 4, 0, 0, 0);
    assert_eq!(uses(&out), vec![(0, vec![0, 1])]);
    assert!(legal_consumable_actions(&Vec::new(), 4, 1, 1, 3).is_empty());
}

#[test]
fn combinations_are_lexicographic() {
    let mut out: Vec<Vec<usize>> = Vec::new();
    enumerate_combinations(5, 3, &mut out);
    assert_eq!(out.len(), 10);
    for w in out.windows(2) {
        assert!(w[0] < w[1]);
    }
}

#[test]
fn run_status_decisions() {
    let targets = TargetConfig { target_score: Some(300), target_ante: None, target_money: None, stop_on_blind_failed: true };
    let m = EvalMetrics { ante: 1, money: 4, blind_score: 120, blind_target: 300, blind_failed: false, blind_cleared: false };
    assert_eq!(stop_status(m, targets), None);
    assert_eq!(stop_status(EvalMetrics { blind_score: 300, ..m }, targets), Some(RunStatus::TargetReached));
    assert_eq!(stop_status(EvalMetrics { blind_failed: true, ..m }, targets), Some(RunStatus::Failed));
    let keep_going = TargetConfig { stop_on_blind_failed: false, ..targets };
    assert_eq!(stop_status(EvalMetrics { blind_failed: true, ..m }, keep_going), None);
    assert_eq!(uncommitted_status(None), RunStatus::NoLegalAction);
    assert_eq!(uncommitted_status(Some(RunStatus::Failed)), RunStatus::Failed);
    assert_eq!(final_status(None), RunStatus::MaxSteps);
    assert_eq!(final_status(Some(RunStatus::TargetReached)), RunStatus::TargetReached);
}

#[test]
fn stable_keys_differ_for_different_actions() {
    let actions = vec![
        AutoAction::Deal,
        AutoAction::Play { indices: vec![0, 2] },
        AutoAction::Play { indices: vec![0, 22] },
        AutoAction::Play { indices: vec![2, 0] },
        AutoAction::Discard { indices: vec![0, 2] },
        AutoAction::BuyCard { index: 1 },
        AutoAction::BuyCard { index: 11 },
        AutoAction::BuyPack { index: 1 },
        AutoAction::UseConsumable { index: 1, selected: vec![3] },
        AutoAction::UseConsumable { index: 13, selected: vec![] },
        AutoAction::SkipPack,
        AutoAction::PickPack { indices: vec![] },
    ];
    for i in 0..actions.len() {
        for j in 0..actions.len() {
            assert_eq!(actions[i].stable_key() == actions[j].stable_key(), i == j);
        }
    }
    assert_eq!(AutoAction::UseConsumable { index: 1, selected: vec![3] }.stable_key(), "use_consumable:1:[3]");
}

#[test]
fn search_generator_never_stuck() {
    let mut rng = SimpleRng::new(0);
    for _ in 0..1000 {
        assert_ne!(rng.next_u64(), 0);
    }
}
