use rulatro::cards::Edition;
use rulatro::effect_text::{summarize_effect_op, EffectOpView};
use rulatro::effects::JokerRarity;
use rulatro::run::{BlindKind, BlindOutcome, Phase};
use rulatro::console::{
    build_menu_entries, buy_command_line, indices_command_line, peek_command_line, sell_command_line, use_command_line,
    menu_choice, next_step_hint, prompt_text, StatusLine, parse_command_line, MenuChoice, parse_cui_command, CuiCommand, MenuState,
    complete_line, complete_token, default_run_seed, history_from_text, localize_parse_error, longest_common_prefix,
    menu_entry, menu_static, push_recorded_action, read_escape, record_entry, save_load_prompt, save_or_load_line,
    signature_hasher, signature_text, str_starts_with, trace_file_name, try_complete_line, EscapeKey, EscapeRead,
    Fnv64, KeyInput, KeyOutcome, LineEditor, MenuCommand, SavedAction, UiLocale,
};

#[test]
fn locale_basics() {
    assert_eq!(UiLocale::EnUs.code(), "en_US");
    assert_eq!(UiLocale::ZhCn.code(), "zh_CN");
    assert_eq!(UiLocale::from_normalized("zh_CN"), UiLocale::ZhCn);
    assert_eq!(UiLocale::from_normalized("fr_FR"), UiLocale::EnUs);
    assert_eq!(UiLocale::ZhCn.text("a", "b"), "b");
    assert_eq!(default_run_seed(), 0xC0FFEE);
}

#[test]
fn fnv_hash_values() {
    let mut h = Fnv64::new();
    h.update(b"a");
    assert_eq!(h.finish(), 0xaf63dc4c8601ec8c);
    let mut whole = Fnv64::new();
    whole.update(b"abc");
    let mut parts = Fnv64::new();
    parts.update(b"a");
    parts.update(b"bc");
    assert_eq!(whole.finish(), parts.finish());
}

#[test]
fn signature_pieces() {
    assert_eq!(signature_hasher(UiLocale::EnUs).finish(), 0x1eefdcd6e7230339);
    assert_eq!(signature_hasher(UiLocale::ZhCn).finish(), 0x3395c59bf5731b03);
    let mut d = Fnv64::new();
    record_entry(&mut d, true, "sub", &[]);
    assert_eq!(d.finish(), 0x75883323e7734a55);
    let mut f = Fnv64::new();
    record_entry(&mut f, false, "a.txt", b"xyz");
    assert_eq!(f.finish(), 0x394f1dbd38de7a6c);
    assert_eq!(signature_text(0x1234), "0000000000001234");
    assert_eq!(signature_text(0xaf63dc4c8601ec8c), "af63dc4c8601ec8c");
}

#[test]
fn prefixes_and_common_prefix() {
    assert!(str_starts_with("deal", "de"));
    assert!(!str_starts_with("de", "deal"));
    assert_eq!(longest_common_prefix(&[]), "");
    assert_eq!(longest_common_prefix(&["deal", "deck", "debt"]), "de");
    assert_eq!(longest_common_prefix(&["same"]), "same");
}

#[test]
fn token_completion_lists_and_extends() {
    let out = complete_token("d", &["deal", "deck", "discard"], false);
    assert_eq!(out.updated_line, None);
    assert_eq!(out.suggestions, vec!["deal", "deck", "discard"]);
    let out = complete_token("de", &["deal", "deck", "x"], true);
    assert_eq!(out.updated_line, None);
    let out = complete_token("dis", &["deal", "discard"], true);
    assert_eq!(out.updated_line, Some("discard ".to_string()));
    assert!(out.suggestions.is_empty());
    let out = complete_token("s", &["skip_blind", "skip_pack"], false);
    assert_eq!(out.updated_line, Some("skip_".to_string()));
}

#[test]
fn line_completion_cases() {
    let out = complete_line("", 0);
    assert_eq!(out.updated_line, None);
    assert_eq!(out.suggestions.len(), 49);
    let out = complete_line("dea", 3);
    assert_eq!(out.updated_line, Some("deal ".to_string()));
    let out = complete_line("dea", 1);
    assert_eq!(out.updated_line, None);
    assert!(out.suggestions.is_empty());
    let out = complete_line("buy ", 4);
    assert_eq!(out.suggestions, vec!["card", "pack", "voucher"]);
    let out = complete_line("buy c", 5);
    assert_eq!(out.updated_line, Some("buy card ".to_string()));
    let out = complete_line("peek d", 6);
    assert_eq!(out.updated_line, None);
    assert_eq!(out.suggestions, vec!["draw", "discard"]);
    let out = complete_line("buy card x", 10);
    assert_eq!(out.updated_line, None);
    assert!(out.suggestions.is_empty());
    let line = "buy c\u{a0}";
    assert!(try_complete_line(line, line.len()).is_none());
    assert!(try_complete_line(line, 0).is_some());
}

#[test]
fn localized_errors() {
    assert_eq!(localize_parse_error(UiLocale::EnUs, "missing indices"), "missing indices");
    assert_eq!(localize_parse_error(UiLocale::ZhCn, "missing indices"), "缺少索引参数");
    assert_eq!(localize_parse_error(UiLocale::ZhCn, "invalid index 'x'"), "无效索引 'x'");
    assert_eq!(localize_parse_error(UiLocale::ZhCn, "invalid seal 'q'"), "无效蜡封类型 'q'");
    assert_eq!(localize_parse_error(UiLocale::ZhCn, "index 9 out of range"), "索引 9 超出范围");
    assert_eq!(
        localize_parse_error(UiLocale::ZhCn, "content signature mismatch: saved=1 current=2"),
        "存档校验失败： 存档=1 当前=2"
    );
    assert_eq!(localize_parse_error(UiLocale::ZhCn, "something else"), "something else");
}

#[test]
fn history_browsing() {
    let mut ed = LineEditor::new(None, Some(" deal \n\nplay 1\r\n"));
    assert_eq!(ed.history, vec!["deal", "play 1"]);
    let mut buf = "dr".to_string();
    let mut cur = 2usize;
    ed.history_prev(&mut buf, &mut cur);
    assert_eq!((buf.as_str(), cur), ("play 1", 6));
    ed.history_prev(&mut buf, &mut cur);
    assert_eq!(buf, "deal");
    ed.history_prev(&mut buf, &mut cur);
    assert_eq!(buf, "deal");
    ed.history_next(&mut buf, &mut cur);
    assert_eq!(buf, "play 1");
    ed.history_next(&mut buf, &mut cur);
    assert_eq!((buf.as_str(), cur), ("dr", 2));
    assert_eq!(ed.history_index, None);
    ed.push_history("  play 1 ");
    assert_eq!(ed.history.len(), 2);
    ed.push_history("   ");
    assert_eq!(ed.history.len(), 2);
    ed.push_history("shop");
    assert_eq!(ed.history_text(), "deal\nplay 1\nshop\n");
    for i in 0..600 {
        ed.push_history(&format!("cmd {i}"));
    }
    assert_eq!(ed.history.len(), 500);
    assert_eq!(ed.history[499], "cmd 599");
    assert_eq!(history_from_text(""), Vec::<String>::new());
    assert_eq!(LineEditor::new(None, None).history_text(), "");
}

#[test]
fn key_handling() {
    let mut ed = LineEditor::new(None, None);
    ed.start_line();
    let mut buf = String::new();
    let mut cur = 0usize;
    assert!(matches!(ed.handle_key(&mut buf, &mut cur, KeyInput::Byte(4)), KeyOutcome::Eof));
    for b in b"dx" {
        ed.handle_key(&mut buf, &mut cur, KeyInput::Byte(*b));
    }
    assert_eq!((buf.as_str(), cur), ("dx", 2));
    ed.handle_key(&mut buf, &mut cur, KeyInput::Byte(127));
    assert_eq!((buf.as_str(), cur), ("d", 1));
    ed.handle_key(&mut buf, &mut cur, KeyInput::Byte(0xe9));
    assert_eq!((buf.as_str(), cur), ("dé", 3));
    ed.handle_key(&mut buf, &mut cur, KeyInput::Escape(Some(EscapeKey::Left)));
    assert_eq!(cur, 1);
    ed.handle_key(&mut buf, &mut cur, KeyInput::Escape(Some(EscapeKey::Delete)));
    assert_eq!((buf.as_str(), cur), ("d", 1));
    ed.handle_key(&mut buf, &mut cur, KeyInput::Escape(Some(EscapeKey::Home)));
    assert_eq!(cur, 0);
    ed.handle_key(&mut buf, &mut cur, KeyInput::Escape(Some(EscapeKey::End)));
    assert_eq!(cur, 1);
    match ed.handle_key(&mut buf, &mut cur, KeyInput::Byte(9)) {
        KeyOutcome::Completion(list) => assert_eq!(list, vec!["d", "data", "deal", "deck", "discard"]),
        _ => panic!("expected completion"),
    }
    ed.handle_key(&mut buf, &mut cur, KeyInput::Byte(b'i'));
    match ed.handle_key(&mut buf, &mut cur, KeyInput::Byte(9)) {
        KeyOutcome::Completion(list) => assert!(list.is_empty()),
        _ => panic!("expected completion"),
    }
    assert_eq!((buf.as_str(), cur), ("discard ", 8));
    ed.handle_key(&mut buf, &mut cur, KeyInput::Byte(1));
    assert_eq!(buf, "discard ");
    match ed.handle_key(&mut buf, &mut cur, KeyInput::Byte(b'\n')) {
        KeyOutcome::Submit(line) => assert_eq!(line, "discard "),
        _ => panic!("expected submit"),
    }
    assert_eq!(ed.history, vec!["discard"]);
    assert!(matches!(ed.handle_key(&mut buf, &mut cur, KeyInput::Byte(3)), KeyOutcome::Interrupt));
}

#[test]
fn escape_sequences() {
    assert_eq!(read_escape(b"["), EscapeRead::More);
    assert_eq!(read_escape(b"[A"), EscapeRead::Done(Some(EscapeKey::Up)));
    assert_eq!(read_escape(b"[D"), EscapeRead::Done(Some(EscapeKey::Left)));
    assert_eq!(read_escape(b"[3"), EscapeRead::More);
    assert_eq!(read_escape(b"[3~"), EscapeRead::Done(Some(EscapeKey::Delete)));
    assert_eq!(read_escape(b"[7~"), EscapeRead::Done(Some(EscapeKey::Home)));
    assert_eq!(read_escape(b"[15~"), EscapeRead::Done(None));
    assert_eq!(read_escape(b"OF"), EscapeRead::Done(Some(EscapeKey::End)));
    assert_eq!(read_escape(b"x"), EscapeRead::Done(None));
}

#[test]
fn menus_saves_and_traces() {
    let m = menu_entry(UiLocale::ZhCn, "Play", "出牌", MenuCommand::Play);
    assert_eq!(m.label, "出牌");
    assert!(matches!(m.command, MenuCommand::Play));
    let s = menu_static(UiLocale::EnUs, "Deal", "发牌", "deal");
    assert_eq!(s.label, "Deal");
    assert!(matches!(s.command, MenuCommand::Static("deal")));
    assert_eq!(save_or_load_line("save", "  "), "save");
    assert_eq!(save_or_load_line("load", " a.json "), "load a.json");
    assert_eq!(save_load_prompt(UiLocale::EnUs, "save"), "save path (empty=default) > ");
    assert_eq!(save_load_prompt(UiLocale::ZhCn, "load"), "加载路径（留空=默认）> ");
    assert_eq!(trace_file_name(17, 5, "json"), "autoplay_17_5.json");
    let mut actions: Vec<SavedAction> = Vec::new();
    push_recorded_action(&mut actions, "play", vec![1, 2], None);
    assert_eq!(actions.len(), 1);
    assert_eq!(actions[0].action, "play");
    assert_eq!(actions[0].indices, vec![1, 2]);
}

fn menu_commands(locale: UiLocale, st: MenuState) -> Vec<String> {
    build_menu_entries(locale, st)
        .iter()
        .map(|e| match e.command {
            MenuCommand::Static(c) => c.to_string(),
            other => format!("{:?}", other),
        })
        .collect()
}

#[test]
fn menu_with_open_pack() {
    let st = MenuState {
        pack_open: true,
        phase: Phase::Shop,
        blind: BlindKind::Small,
        discards_left: 2,
        outcome: Some(BlindOutcome::Cleared),
        has_consumables: true,
        has_jokers: true,
    };
    assert_eq!(
        menu_commands(UiLocale::EnUs, st),
        vec![
            "board", "hand", "inv", "actions", "summary", "Pick", "skip_pack", "pack", "Save", "Load", "help",
            "Custom", "Quit"
        ]
    );
    let entries = build_menu_entries(UiLocale::EnUs, st);
    assert_eq!(entries[5].label, "Pick pack options");
    let zh = build_menu_entries(UiLocale::ZhCn, st);
    assert_eq!(zh[0].label, "查看总览");
}

#[test]
fn menu_in_play_and_deal() {
    let play = MenuState {
        pack_open: false,
        phase: Phase::Play,
        blind: BlindKind::Boss,
        discards_left: 0,
        outcome: None,
        has_consumables: false,
        has_jokers: true,
    };
    assert_eq!(
        menu_commands(UiLocale::EnUs, play),
        vec![
            "board", "hand", "inv", "actions", "summary", "Play", "Sell", "Peek", "Save", "Load", "help", "Custom",
            "Quit"
        ]
    );
    let deal = MenuState { phase: Phase::Deal, discards_left: 3, blind: BlindKind::Boss, ..play };
    assert_eq!(menu_commands(UiLocale::EnUs, deal)[5..7].to_vec(), vec!["deal", "Sell"]);
    let small = MenuState { blind: BlindKind::Small, ..deal };
    assert_eq!(menu_commands(UiLocale::EnUs, small)[5..8].to_vec(), vec!["deal", "skip", "Sell"]);
    let cleared = MenuState { phase: Phase::Score, outcome: Some(BlindOutcome::Cleared), has_jokers: false, ..play };
    assert_eq!(menu_commands(UiLocale::EnUs, cleared)[5..7].to_vec(), vec!["shop", "Peek"]);
    let shop = MenuState { phase: Phase::Shop, has_consumables: true, ..cleared };
    assert_eq!(menu_commands(UiLocale::EnUs, shop)[5..10].to_vec(), vec!["Buy", "reroll", "leave", "Use", "Peek"]);
}

#[test]
fn next_step_hints() {
    let base = MenuState {
        pack_open: false,
        phase: Phase::Deal,
        blind: BlindKind::Small,
        discards_left: 3,
        outcome: None,
        has_consumables: false,
        has_jokers: false,
    };
    assert_eq!(next_step_hint(UiLocale::EnUs, base), "deal (or skip)");
    assert_eq!(next_step_hint(UiLocale::ZhCn, base), "deal（或 skip）");
    assert_eq!(next_step_hint(UiLocale::EnUs, MenuState { blind: BlindKind::Boss, ..base }), "deal");
    assert_eq!(next_step_hint(UiLocale::EnUs, MenuState { pack_open: true, ..base }), "pick <idx..> or skip_pack");
    let cleared = MenuState { outcome: Some(BlindOutcome::Cleared), phase: Phase::Score, ..base };
    assert_eq!(next_step_hint(UiLocale::EnUs, cleared), "shop or next");
    assert_eq!(
        next_step_hint(UiLocale::ZhCn, MenuState { phase: Phase::Shop, ..cleared }),
        "buy/reroll/leave，然后 next"
    );
    assert_eq!(next_step_hint(UiLocale::EnUs, MenuState { outcome: Some(BlindOutcome::Failed), ..base }), "next");
    assert_eq!(next_step_hint(UiLocale::EnUs, MenuState { phase: Phase::Play, ..base }), "play <idx..> or discard <idx..>");
    assert_eq!(next_step_hint(UiLocale::EnUs, MenuState { phase: Phase::Cleanup, ..base }), "summary");
}

#[test]
fn history_browse_round_trip() {
    let mut editor = LineEditor::new(None, Some("deal\nplay 1 2\n"));
    let mut buffer = String::from("disc");
    let mut cursor: usize = 2;
    editor.history_prev(&mut buffer, &mut cursor);
    assert_eq!(buffer, "play 1 2");
    assert_eq!(cursor, 8);
    editor.history_prev(&mut buffer, &mut cursor);
    assert_eq!(buffer, "deal");
    editor.history_next(&mut buffer, &mut cursor);
    assert_eq!(buffer, "play 1 2");
    editor.history_next(&mut buffer, &mut cursor);
    assert_eq!(buffer, "disc");
    assert_eq!(cursor, 4);
    assert_eq!(editor.history_index, None);
    assert!(editor.draft_line.is_none());
    editor.history_next(&mut buffer, &mut cursor);
    assert_eq!(buffer, "disc");
}

#[test]
fn command_words() {

    assert_eq!(parse_cui_command("h"), CuiCommand::Help);
    assert_eq!(parse_cui_command("?"), CuiCommand::Help);
    assert_eq!(parse_cui_command("exit"), CuiCommand::Quit);
    assert_eq!(parse_cui_command("status"), CuiCommand::Summary);
    assert_eq!(parse_cui_command("ls"), CuiCommand::Board);
    assert_eq!(parse_cui_command("x"), CuiCommand::Discard);
    assert_eq!(parse_cui_command("skip_blind"), CuiCommand::SkipBlind);
    assert_eq!(parse_cui_command("sp"), CuiCommand::SkipPack);
    assert_eq!(parse_cui_command("n"), CuiCommand::Next);
    assert_eq!(parse_cui_command("q"), CuiCommand::Unknown);
    assert_eq!(parse_cui_command("Play"), CuiCommand::Unknown);
    assert!(parse_command_line("   ").is_none());
    let (c, args) = parse_command_line("  play 1  2 ").unwrap();
    assert_eq!(c, CuiCommand::Play);
    assert_eq!(args, vec!["1".to_string(), "2".to_string()]);
    let (c, args) = parse_command_line("buy card 0").unwrap();
    assert_eq!(c, CuiCommand::Buy);
    assert_eq!(args, vec!["card".to_string(), "0".to_string()]);
}

#[test]
fn menu_choices() {
    assert!(matches!(menu_choice("  ", 5), MenuChoice::Blank));
    assert!(matches!(menu_choice(" 3 ", 5), MenuChoice::Entry(2)));
    assert!(matches!(menu_choice("+1", 5), MenuChoice::Entry(0)));
    assert!(matches!(menu_choice("0", 5), MenuChoice::Invalid));
    assert!(matches!(menu_choice("6", 5), MenuChoice::Invalid));
    match menu_choice("  play 1 2 ", 5) {
        MenuChoice::Command(c) => assert_eq!(c, "play 1 2"),
        other => panic!("unexpected {:?}", other),
    }
    match menu_choice("-1", 5) {
        MenuChoice::Command(c) => assert_eq!(c, "-1"),
        other => panic!("unexpected {:?}", other),
    }
}

#[test]
fn prompt_command_lines() {
    let en = UiLocale::EnUs;
    let zh = UiLocale::ZhCn;
    assert_eq!(indices_command_line(en, "play", " 0 1,2").unwrap(), "play 0 1 2");
    assert_eq!(indices_command_line(en, "pick", "1-3").unwrap(), "pick 1 2 3");
    assert_eq!(indices_command_line(en, "discard", "").unwrap_err(), "error: missing indices");
    assert_eq!(indices_command_line(en, "play", "a").unwrap_err(), "error: invalid index 'a'");

    assert_eq!(buy_command_line(en, "card 007").unwrap(), "buy card 7");
    assert_eq!(buy_command_line(en, "voucher +1").unwrap(), "buy voucher 1");
    assert_eq!(buy_command_line(en, "card").unwrap_err(), "usage: card|pack|voucher <index>");
    assert_eq!(buy_command_line(zh, "joker 1").unwrap_err(), "类型必须是 card、pack 或 voucher");
    assert_eq!(buy_command_line(en, "pack x").unwrap_err(), "invalid index");

    assert_eq!(use_command_line(en, "2").unwrap(), "use 2");
    assert_eq!(use_command_line(en, "2 0 3").unwrap(), "use 2 0 3");
    assert_eq!(use_command_line(en, "2 ,").unwrap_err(), "error: missing indices");
    assert_eq!(use_command_line(en, "").unwrap_err(), "usage: <consumable_index> [selected idxs]");
    assert_eq!(use_command_line(en, "z 1").unwrap_err(), "invalid index");
    assert_eq!(use_command_line(en, "1 3-1").unwrap_err(), "error: range start larger than end");

    assert_eq!(sell_command_line(en, " 4 ").unwrap(), "sell 4");
    assert_eq!(sell_command_line(zh, "four").unwrap_err(), "无效索引");

    assert_eq!(peek_command_line(en, "draw").unwrap(), "peek draw");
    assert_eq!(peek_command_line(en, "discard 5 extra").unwrap(), "peek discard 5");
    assert_eq!(peek_command_line(en, "hand").unwrap_err(), "target must be draw or discard");
    assert_eq!(peek_command_line(en, "draw -1").unwrap_err(), "invalid count");
    assert_eq!(peek_command_line(en, " ").unwrap_err(), "usage: draw|discard [count]");
}


#[test]
fn status_prompts() {
    let st = StatusLine {
        ante: 2,
        blind: BlindKind::Big,
        phase: Phase::Play,
        money: -3,
        blind_score: 120,
        target: 450,
        hands_left: 3,
        hands_max: 4,
        discards_left: 1,
        discards_max: 3,
        blinds_skipped: 0,
        pack_open: false,
    };
    assert_eq!(prompt_text(UiLocale::EnUs, st), "[A2 Big Play $-3 120/450 H3/4 D1/3 SK0] > ");
    assert_eq!(
        prompt_text(UiLocale::ZhCn, StatusLine { pack_open: true, ..st }),
        "[A2 大盲 出牌 $-3 120/450 H3/4 D1/3 SK0 PK] > "
    );
}

#[test]
fn index_errors_are_translated() {
    for args in [vec![], vec!["x"], vec!["a-3"], vec!["1-b"], vec!["3-1"], vec![","]] {
        let err = rulatro::parse::parse_indices_result(&args).unwrap_err();
        assert_eq!(localize_parse_error(UiLocale::EnUs, &err), err);
        assert_ne!(localize_parse_error(UiLocale::ZhCn, &err), err);
    }
    assert_eq!(localize_parse_error(UiLocale::ZhCn, "invalid index 'x'"), "无效索引 'x'");
}

#[test]
fn effect_op_texts() {
    let en = UiLocale::EnUs;
    assert_eq!(summarize_effect_op(en, &EffectOpView::AddMoney(5)), "+$5");
    assert_eq!(summarize_effect_op(UiLocale::ZhCn, &EffectOpView::SetMoney(-2)), "金钱=-2");
    assert_eq!(summarize_effect_op(en, &EffectOpView::DoubleMoney { cap: 20 }), "money x2 (cap 20)");
    assert_eq!(summarize_effect_op(en, &EffectOpView::AddHandSize(1)), "hand size +1");
    assert_eq!(summarize_effect_op(en, &EffectOpView::AddJoker { rarity: JokerRarity::Rare, count: 1 }), "+1 joker(Rare)");
    assert_eq!(
        summarize_effect_op(en, &EffectOpView::DuplicateRandomJokerDestroyOthers { remove_negative: true }),
        "duplicate random joker (remove negative)"
    );
    assert_eq!(
        summarize_effect_op(en, &EffectOpView::AddEditionToSelected { editions: vec![Edition::Foil, Edition::Negative], count: 2 }),
        "selected2 edition [Foil, Negative]"
    );
    assert_eq!(summarize_effect_op(en, &EffectOpView::IncreaseSelectedRank { count: 1, delta: -1 }), "selected1 rank -1");
    assert_eq!(summarize_effect_op(UiLocale::ZhCn, &EffectOpView::ConvertLeftIntoRight), "左牌变为右牌");
    assert_eq!(
        summarize_effect_op(en, &EffectOpView::CreateLastConsumable { exclude: Some("the  fool ".to_string()) }),
        "repeat last consumable exclude (the fool )"
    );
    assert_eq!(summarize_effect_op(en, &EffectOpView::CreateLastConsumable { exclude: None }), "repeat last consumable");
    assert_eq!(summarize_effect_op(en, &EffectOpView::RetriggerHeld(2)), "retrigger held +2");
    assert_eq!(
        summarize_effect_op(en, &EffectOpView::CreateLastConsumable { exclude: Some("   ".to_string()) }),
        "repeat last consumable exclude (  )"
    );
}
