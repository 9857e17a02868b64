use rulatro::cards::{Card, Edition, Enhancement, Rank, Seal, Suit};
use rulatro::console::UiLocale;
use rulatro::edits::{
    apply_card_edits, card_detail, card_value, collect_played_cards, estimate_interest, format_card,
    parse_edit_args, parse_edition, parse_enhancement, parse_optional_seal, parse_seal, CardEdits,
};
use rulatro::hints::run_error_hint;
use rulatro::labels::{edition_short, rank_debug_name, suit_debug_name, trace_blind_label, trace_phase_label};
use rulatro::options::{autoplay_arg_step, float_flag, parse_cli_options, parse_i64, parse_uint, AutoplayArgs, AutoplayStep, FloatOption};
use rulatro::parse::{
    is_none, parse_bonus_edit, parse_bool, parse_indices_result, parse_optional_indices, BonusEdit,
};
use rulatro::run::{BlindKind, Phase, RunError};
use rulatro::text::{chars_of, join_strings, lines_of, split_words, str_eq, str_less};

#[test]
fn index_lists() {
    assert_eq!(parse_indices_result(&["1,3-5", " 7 "]), Ok(vec![1, 3, 4, 5, 7]));
    assert_eq!(parse_indices_result(&["2 - 2"]), Ok(vec![2]));
    assert_eq!(parse_indices_result(&[",,"]), Err("missing indices".to_string()));
    assert_eq!(parse_indices_result(&[]), Err("missing indices".to_string()));
    assert_eq!(parse_indices_result(&["x-2"]), Err("invalid range start".to_string()));
    assert_eq!(parse_indices_result(&["2-y"]), Err("invalid range end".to_string()));
    assert_eq!(parse_indices_result(&["5-2"]), Err("range start larger than end".to_string()));
    assert_eq!(parse_indices_result(&["1", "abc", "5-2"]), Err("invalid index 'abc'".to_string()));
    assert_eq!(parse_indices_result(&["+4"]), Ok(vec![4]));
    assert_eq!(parse_optional_indices(&[]), Ok(vec![]));
    assert_eq!(parse_optional_indices(&["0"]), Ok(vec![0]));
}

#[test]
fn bonus_edits() {
    assert_eq!(parse_bonus_edit(" +10 "), Ok(BonusEdit::Add(10)));
    assert_eq!(parse_bonus_edit("-5"), Ok(BonusEdit::Add(-5)));
    assert_eq!(parse_bonus_edit("30"), Ok(BonusEdit::SetTo(30)));
    assert_eq!(parse_bonus_edit("--5"), Ok(BonusEdit::Add(5)));
    assert_eq!(parse_bonus_edit("+x"), Err("invalid bonus delta".to_string()));
    assert_eq!(parse_bonus_edit("-"), Err("invalid bonus delta".to_string()));
    assert_eq!(parse_bonus_edit("abc"), Err("invalid bonus value".to_string()));
    assert_eq!(parse_bonus_edit("9223372036854775808"), Err("invalid bonus value".to_string()));
    assert_eq!(parse_bonus_edit("-9223372036854775807"), Ok(BonusEdit::Add(-9223372036854775807)));
}

#[test]
fn flags_and_none_words() {
    assert_eq!(parse_bool(" MAYBE "), Err("invalid boolean 'maybe'".to_string()));
    assert_eq!(parse_bool("Yes"), Ok(true));
    assert!(is_none(" Clear "));
    assert!(!is_none("no"));
}

#[test]
fn modifier_names() {
    assert_eq!(parse_enhancement(" Glass "), Ok(Enhancement::Glass));
    assert_eq!(parse_enhancement("shiny"), Err("invalid enhancement 'shiny'".to_string()));
    assert_eq!(parse_edition("HOLO"), Ok(Edition::Holographic));
    assert_eq!(parse_edition("poly"), Ok(Edition::Polychrome));
    assert_eq!(parse_seal("purple"), Ok(Seal::Purple));
    assert_eq!(parse_optional_seal("none"), Ok(None));
    assert_eq!(parse_optional_seal("red"), Ok(Some(Seal::Red)));
    assert_eq!(parse_optional_seal("teal"), Err("invalid seal 'teal'".to_string()));
}

#[test]
fn edit_arguments() {
    let (indices, edits) = parse_edit_args(&["1", "enh=glass", "SEAL = none", "bonus=+5", "face=on", "3"]).unwrap();
    assert_eq!(indices, vec![1, 3]);
    assert_eq!(edits.enhancement, Some(Some(Enhancement::Glass)));
    assert_eq!(edits.seal, Some(None));
    assert_eq!(edits.bonus, Some(BonusEdit::Add(5)));
    assert_eq!(edits.face_down, Some(true));
    assert_eq!(edits.edition, None);
    assert_eq!(parse_edit_args(&["1", "color=red"]).unwrap_err(), "unknown edit key 'color'");
    assert_eq!(parse_edit_args(&["ed=zzz"]).unwrap_err(), "invalid edition 'zzz'");
    assert_eq!(parse_edit_args(&["ed=foil"]).unwrap_err(), "missing indices");
}

#[test]
fn applying_edits() {
    let mut hand = vec![Card::standard(Suit::Spades, Rank::Ace), Card::standard(Suit::Hearts, Rank::Two)];
    let edits = CardEdits {
        enhancement: Some(Some(Enhancement::Bonus)),
        edition: None,
        seal: Some(Some(Seal::Gold)),
        bonus: Some(BonusEdit::Add(i64::MAX)),
        face_down: None,
    };
    assert_eq!(apply_card_edits(&mut hand, &[], edits), Err("missing indices".to_string()));
    assert_eq!(apply_card_edits(&mut hand, &[1, 4, 7], edits), Err("index 4 out of range".to_string()));
    assert_eq!(hand[1].enhancement, None);
    assert_eq!(apply_card_edits(&mut hand, &[1, 1], edits), Ok(()));
    assert_eq!(hand[1].enhancement, Some(Enhancement::Bonus));
    assert_eq!(hand[1].seal, Some(Seal::Gold));
    assert_eq!(hand[1].bonus_chips, i64::MAX);
    assert_eq!(hand[0], Card::standard(Suit::Spades, Rank::Ace));
}

#[test]
fn played_cards_highest_first() {
    let hand = [
        Card::standard(Suit::Spades, Rank::Ace),
        Card::standard(Suit::Hearts, Rank::Two),
        Card::standard(Suit::Clubs, Rank::Three),
    ];
    assert_eq!(collect_played_cards(&hand, &[0, 2, 0]), Ok(vec![hand[2], hand[0]]));
    assert_eq!(collect_played_cards(&hand, &[]), Err(RunError::InvalidSelection));
    assert_eq!(collect_played_cards(&hand, &[1, 3]), Err(RunError::InvalidSelection));
}

#[test]
fn card_text_and_values() {
    let mut card = Card::standard(Suit::Diamonds, Rank::Ten);
    assert_eq!(format_card(&card), "TD");
    assert_eq!(card_detail(&card), "TenDiamonds");
    card.enhancement = Some(Enhancement::Lucky);
    card.edition = Some(Edition::Negative);
    card.bonus_chips = -3;
    assert_eq!(format_card(&card), "TD [Lucky,Neg,Bonus]");
    assert_eq!(card_detail(&card), "TenDiamonds enh=Lucky ed=Neg bonus=-3");
    assert_eq!(card_value(&card, 10), 7);
    card.face_down = true;
    assert_eq!(format_card(&card), "??");
    assert_eq!(card_detail(&card), "face_down");
    assert_eq!(edition_short(Edition::Holographic), "Holo");
    assert_eq!(rank_debug_name(Rank::Ten), "Ten");
    assert_eq!(suit_debug_name(Suit::Wild), "Wild");
    assert_eq!(trace_phase_label(Phase::Cleanup), "Cleanup/结算");
    assert_eq!(trace_blind_label(BlindKind::Boss), "Boss/Boss盲注");
}

#[test]
fn interest_estimates() {
    assert_eq!(estimate_interest(27, 5, 1, 5), 5);
    assert_eq!(estimate_interest(12, 5, 1, 5), 2);
    assert_eq!(estimate_interest(-12, 5, 1, 5), 0);
    assert_eq!(estimate_interest(100, 5, 2, 7), 6);
    assert_eq!(estimate_interest(100, 0, 1, 5), 0);
    assert_eq!(estimate_interest(100, 5, 1, -3), -3);
}

#[test]
fn hints_for_errors() {
    assert_eq!(
        run_error_hint(UiLocale::EnUs, true, false, 0, 0, &RunError::NoHandsLeft).as_deref(),
        Some("pack is open: use 'pick <idx..>' or 'skip_pack' first")
    );
    assert_eq!(
        run_error_hint(UiLocale::EnUs, false, true, 0, 0, &RunError::NoHandsLeft).as_deref(),
        Some("blind is already cleared: use 'shop' or 'next'")
    );
    assert_eq!(
        run_error_hint(UiLocale::ZhCn, false, false, 0, 0, &RunError::InvalidPhase(Phase::Deal)).as_deref(),
        Some("请先执行 'deal'，然后再 'play' 或 'discard'")
    );
    assert_eq!(
        run_error_hint(UiLocale::EnUs, false, false, 300, 120, &RunError::BlindNotCleared).as_deref(),
        Some("need 180 more score before entering shop")
    );
    assert_eq!(
        run_error_hint(UiLocale::ZhCn, false, false, 100, 120, &RunError::BlindNotCleared).as_deref(),
        Some("进入商店前还需要 0 分")
    );
    assert_eq!(run_error_hint(UiLocale::EnUs, false, false, 0, 0, &RunError::HandNotAllowed), None);
}

#[test]
fn program_switches() {
    let o = parse_cli_options(&["--auto", "--seed", "12", "-l", "zh"], None);
    assert!(o.auto && !o.cui && !o.menu);
    assert_eq!(o.seed, Some(12));
    assert_eq!(o.locale_arg.as_deref(), Some("zh"));
    let o = parse_cli_options(&["--seed", "12", "--seed", "x", "--lang"], Some("en".to_string()));
    assert_eq!(o.seed, None);
    assert_eq!(o.locale_arg.as_deref(), Some("en"));
}

#[test]
fn autoplay_arguments() {
    let args = ["--seed", "7", "--max-steps", "9", "--weight-score", "1.5", "--keep-going-on-fail", "--no-mods", "--trace-json", "t.json"];
    let mut st = AutoplayArgs::new(None);
    let mut idx = 0usize;
    let mut floats = Vec::new();
    while idx < args.len() {
        match autoplay_arg_step(&args, idx, &mut st).unwrap() {
            AutoplayStep::Next(i) => idx = i,
            AutoplayStep::Float(o, i) => {
                floats.push((o, args[i]));
                idx = i + 1;
            }
            AutoplayStep::Help => break,
        }
    }
    assert_eq!(st.seed, 7);
    assert_eq!(st.max_steps, 9);
    assert!(!st.targets.stop_on_blind_failed);
    assert!(!st.use_mods);
    assert_eq!(st.trace_json.as_deref(), Some("t.json"));
    assert_eq!(floats, vec![(FloatOption::WeightScore, "1.5")]);
    assert_eq!(float_flag(FloatOption::ExplorationC), "--exploration-c");
    let mut st = AutoplayArgs::new(None);
    assert_eq!(autoplay_arg_step(&["-l"], 0, &mut st).unwrap_err(), "missing value for --lang");
    assert_eq!(autoplay_arg_step(&["--target-ante", "300"], 0, &mut st).unwrap_err(), "invalid --target-ante value");
    assert_eq!(autoplay_arg_step(&["--bogus"], 0, &mut st).unwrap_err(), "unknown autoplay option: --bogus");
    assert_eq!(autoplay_arg_step(&["-h"], 0, &mut st).unwrap(), AutoplayStep::Help);
    assert_eq!(autoplay_arg_step(&["--target-score", "-40"], 0, &mut st).unwrap(), AutoplayStep::Next(2));
    assert_eq!(st.targets.target_score, Some(-40));
    assert_eq!(parse_uint("+255", 255), Some(255));
    assert_eq!(parse_uint("256", 255), None);
    assert_eq!(parse_i64("-9223372036854775808"), Some(i64::MIN));
}

#[test]
fn text_helpers() {
    assert!(str_eq("abc", "abc"));
    assert!(!str_eq("abc", "abd"));
    assert!(str_less("abc", "abd"));
    assert!(str_less("ab", "abc"));
    assert!(!str_less("b", "abc"));
    assert_eq!(split_words("  play  1\t2 "), vec!["play", "1", "2"]);
    assert_eq!(lines_of("a\nb\r\n\nc"), vec!["a", "b", "", "c"]);
    assert_eq!(join_strings(&vec!["x".to_string(), "y".to_string()], ", "), "x, y");
    assert_eq!(chars_of("中z"), vec!['中', 'z']);
}
