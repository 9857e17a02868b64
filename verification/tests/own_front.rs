use rulatro::cards::{Card, Rank, Suit};
use rulatro::console::{longest_common_prefix, parse_optional_path, str_starts_with, UiLocale};
use rulatro::effects::{action_op_name, ActionOp};
use rulatro::edits::{edit_args_representable, parse_edit_args, remove_selected, take_selected};
use rulatro::help::help_text;
use rulatro::run::RunError;

fn five_cards() -> Vec<Card> {
    vec![
        Card::standard(Suit::Spades, Rank::Two),
        Card::standard(Suit::Hearts, Rank::Three),
        Card::standard(Suit::Clubs, Rank::Four),
        Card::standard(Suit::Diamonds, Rank::Five),
        Card::standard(Suit::Spades, Rank::Six),
    ]
}

#[test]
fn lcp_is_longest_prefix_of_all() {
    let inputs = ["interstellar", "internet", "interval"];
    let p = longest_common_prefix(&inputs);
    assert_eq!(p, "inter");
    for s in inputs {
        assert!(str_starts_with(s, &p));
    }
    let longer = "interv";
    assert!(!inputs.iter().all(|s| str_starts_with(s, longer)));
    assert_eq!(longest_common_prefix(&["short", "shorter"]), "short");
    assert_eq!(longest_common_prefix(&[]), "");
}

#[test]
fn locale_from_argument() {
    assert_eq!(UiLocale::from_opt(Some("zh_CN")), UiLocale::ZhCn);
    assert_eq!(UiLocale::from_opt(Some("  ZH-tw ")), UiLocale::ZhCn);
    assert_eq!(UiLocale::from_opt(Some("zH")), UiLocale::ZhCn);
    assert_eq!(UiLocale::from_opt(Some("en_US")), UiLocale::EnUs);
    assert_eq!(UiLocale::from_opt(Some("z")), UiLocale::EnUs);
    assert_eq!(UiLocale::from_opt(Some("")), UiLocale::EnUs);
    assert_eq!(UiLocale::from_opt(None), UiLocale::EnUs);
}

#[test]
fn parse_optional_path_0() {
    assert_eq!(parse_optional_path(&["save_0.json"], None), Some("save_0.json".to_string()));
}

#[test]
fn parse_optional_path_1() {
    assert_eq!(
        parse_optional_path(&["save_1.json", "other.json"], Some("home.json".to_string())),
        Some("save_1.json".to_string())
    );
}

#[test]
fn parse_optional_path_default() {
    assert_eq!(parse_optional_path(&[], Some("from_env.json".to_string())), Some("from_env.json".to_string()));
    assert_eq!(parse_optional_path(&[], None), None);
}

#[test]
fn take_selected_removes_picked_cards() {
    let cards = five_cards();
    let mut hand = cards.clone();
    let picked = take_selected(&mut hand, &[3, 1, 3]).unwrap();
    assert_eq!(picked, vec![cards[3], cards[1]]);
    assert_eq!(hand, vec![cards[0], cards[2], cards[4]]);
}

#[test]
fn take_selected_refusals_keep_hand() {
    let cards = five_cards();
    let mut hand = cards.clone();
    assert_eq!(take_selected(&mut hand, &[]), Err(RunError::InvalidSelection));
    assert_eq!(hand, cards);
    assert_eq!(take_selected(&mut hand, &[0, 9]), Err(RunError::InvalidSelection));
    assert_eq!(hand, cards);
}

#[test]
fn remove_selected_keeps_order() {
    let cards = five_cards();
    let mut hand = cards.clone();
    remove_selected(&mut hand, &[4, 0]);
    assert_eq!(hand, vec![cards[1], cards[2], cards[3]]);
}

#[test]
fn help_text_english() {
    let text = help_text(UiLocale::EnUs);
    let lines: Vec<&str> = text.split('\n').collect();
    assert_eq!(lines.len(), 46);
    assert_eq!(lines[0], "Commands:");
    assert_eq!(lines[1], "  help|h|?                 show help");
    assert_eq!(lines[6], "");
    assert_eq!(lines[7], "View:");
    assert_eq!(lines[45], "tip: save/load default path can be overridden via RULATRO_SAVE");
}

#[test]
fn help_text_chinese() {
    let text = help_text(UiLocale::ZhCn);
    let lines: Vec<&str> = text.split('\n').collect();
    assert_eq!(lines.len(), 46);
    assert_eq!(lines[0], "命令：");
    assert_eq!(lines[1], "  help|h|?                 显示帮助");
    assert_eq!(lines[21], "  play|p <idx..>            出牌");
}

#[test]
fn edit_args_earlier_error_comes_first() {
    let args = ["0", "enh=bogus", "bonus=--9223372036854775808"];
    assert!(edit_args_representable(&args));
    assert_eq!(parse_edit_args(&args).unwrap_err(), "invalid enhancement 'bogus'");
    assert!(!edit_args_representable(&["0", "bonus=--9223372036854775808"]));
    assert!(edit_args_representable(&["0", "bonus=-5"]));
}

#[test]
fn op_names_read_back() {
    let ops = [
        ActionOp::AddChips,
        ActionOp::MultiplyMult,
        ActionOp::SetCardEnhancement,
        ActionOp::DuplicateRandomConsumable,
        ActionOp::MultiplyTarget,
        ActionOp::AddVar,
    ];
    for op in ops {
        assert_eq!(ActionOp::from_keyword(&action_op_name(op)), Some(op));
    }
    assert_eq!(action_op_name(ActionOp::MultiplyTarget), "multiply_target");
}
