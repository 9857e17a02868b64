//! The command help of the interactive front end, in both interface languages.
use crate::console::UiLocale;
use crate::text::{join_strings, join_with, string_views};
use vstd::prelude::*;

verus! {

/// A help row as plain text: the command column, then its English and Chinese texts.
pub open spec fn help_row_view(r: (&str, &str, &str)) -> (Seq<char>, Seq<char>, Seq<char>) {
    (r.0@, r.1@, r.2@)
}

/// The rows of the command help, in order: section titles and notes have an empty command
/// column, and a row with all three texts empty is a blank line.
pub open spec fn spec_help_rows() -> Seq<(Seq<char>, Seq<char>, Seq<char>)> {
    seq![
        (""@, "Commands:"@, "命令："@),
        ("  help|h|?                 "@, "show help"@, "显示帮助"@),
        ("  actions|a                "@, "show context-aware next actions"@, "显示当前推荐操作"@),
        ("  save [path]              "@, "save run state to local file"@, "保存运行状态到本地文件"@),
        ("  load [path]              "@, "load run state from local file"@, "从本地文件加载运行状态"@),
        ("  quit|exit                "@, "exit"@, "退出"@),
        (""@, ""@, ""@),
        (""@, "View:"@, "查看："@),
        ("  summary|status           "@, "one-line run status"@, "单行状态"@),
        ("  state|s                  "@, "detailed run state"@, "详细状态"@),
        ("  board|overview|ls        "@, "full current view (state+hand+inv+shop+pack)"@, "完整视图（状态+手牌+背包+商店+卡包）"@),
        ("  hand                      "@, "show hand table"@, "显示手牌"@),
        ("  deck                      "@, "show draw/discard sizes"@, "显示抽牌/弃牌堆"@),
        ("  levels                    "@, "show hand levels"@, "显示牌型等级"@),
        ("  tags                      "@, "show tags"@, "显示标签"@),
        ("  inv|inventory             "@, "show jokers and consumables"@, "显示小丑与消耗牌"@),
        ("  reward                    "@, "estimate clear reward"@, "估算通关奖励"@),
        ("  data|ref                  "@, "print enhancement/joker/consumable reference"@, "显示效果参考"@),
        (""@, ""@, ""@),
        (""@, "Run:"@, "流程："@),
        ("  deal|d                    "@, "draw hand (Deal phase)"@, "发牌（Deal 阶段）"@),
        ("  play|p <idx..>            "@, "play cards"@, "出牌"@),
        ("  discard|x <idx..>         "@, "discard cards"@, "弃牌"@),
        ("  skip|skip_blind           "@, "skip current blind (Small/Big only)"@, "跳过当前盲注（仅小/大盲）"@),
        ("  next|n                    "@, "start next blind"@, "进入下一个盲注"@),
        (""@, ""@, ""@),
        (""@, "Shop / Pack:"@, "商店 / 卡包："@),
        ("  shop|sh                   "@, "enter shop"@, "进入商店"@),
        ("  reroll|r                  "@, "reroll shop"@, "刷新商店"@),
        ("  buy card|pack|voucher <idx>  "@, "buy from shop"@, "购买商店商品"@),
        ("  leave                     "@, "leave shop"@, "离开商店"@),
        ("  pack                      "@, "show open pack options"@, "显示当前卡包选项"@),
        ("  pick <idx..>              "@, "pick pack options"@, "选择卡包选项"@),
        ("  skip_pack|sp              "@, "skip open pack"@, "跳过当前卡包"@),
        (""@, ""@, ""@),
        (""@, "Debug / Edit:"@, "调试 / 编辑："@),
        ("  use <consumable_idx> [sel..]  "@, "use a consumable"@, "使用消耗牌"@),
        ("  sell <joker_idx>          "@, "sell joker"@, "出售小丑"@),
        ("  edit <idx..> enh=.. ed=.. seal=.. bonus=.. face_down=..  "@, "edit cards in hand"@, "编辑手牌属性"@),
        ("  peek draw|discard [n]     "@, "peek deck top cards"@, "查看牌堆顶部"@),
        (""@, "note: indices support comma and ranges (e.g. 0,2-4 7)"@, "说明：索引支持逗号和区间（如 0,2-4 7）"@),
        (""@, "tip: actions print a flow summary automatically"@, "提示：操作后会自动显示流程摘要"@),
        (""@, "tip: use Up/Down for command history, Tab for command completion"@, "提示：可使用 上/下 键浏览历史命令，Tab 自动补全命令"@),
        (""@, "tip: run with --auto for scripted demo"@, "提示：可使用 --auto 运行自动演示"@),
        (""@, "tip: set language with --lang zh_CN (or env RULATRO_LANG=zh_CN)"@, "提示：可用 --lang zh_CN（或环境变量 RULATRO_LANG=zh_CN）切换中文"@),
        (""@, "tip: save/load default path can be overridden via RULATRO_SAVE"@, "提示：save/load 默认路径可通过环境变量 RULATRO_SAVE 覆盖"@)
    ]
}

/// One help line: the command column followed by the text in the interface language.
pub open spec fn spec_help_line(locale: UiLocale, row: (Seq<char>, Seq<char>, Seq<char>)) -> Seq<char> {
    row.0 + if locale == UiLocale::ZhCn {
        row.2
    } else {
        row.1
    }
}

/// The whole help: its lines joined by line breaks.
pub open spec fn spec_help_text(locale: UiLocale) -> Seq<char> {
    join_with(
        spec_help_rows().map_values(|r: (Seq<char>, Seq<char>, Seq<char>)| spec_help_line(locale, r)),
        "\n"@,
    )
}

/// The rows of the command help.
fn help_rows() -> (rows: Vec<(&'static str, &'static str, &'static str)>)
    ensures
        rows@.map_values(|r: (&'static str, &'static str, &'static str)| help_row_view(r)) == spec_help_rows(),
{
    let rows = vec![
        ("", "Commands:", "命令："),
        ("  help|h|?                 ", "show help", "显示帮助"),
        ("  actions|a                ", "show context-aware next actions", "显示当前推荐操作"),
        ("  save [path]              ", "save run state to local file", "保存运行状态到本地文件"),
        ("  load [path]              ", "load run state from local file", "从本地文件加载运行状态"),
        ("  quit|exit                ", "exit", "退出"),
        ("", "", ""),
        ("", "View:", "查看："),
        ("  summary|status           ", "one-line run status", "单行状态"),
        ("  state|s                  ", "detailed run state", "详细状态"),
        ("  board|overview|ls        ", "full current view (state+hand+inv+shop+pack)", "完整视图（状态+手牌+背包+商店+卡包）"),
        ("  hand                      ", "show hand table", "显示手牌"),
        ("  deck                      ", "show draw/discard sizes", "显示抽牌/弃牌堆"),
        ("  levels                    ", "show hand levels", "显示牌型等级"),
        ("  tags                      ", "show tags", "显示标签"),
        ("  inv|inventory             ", "show jokers and consumables", "显示小丑与消耗牌"),
        ("  reward                    ", "estimate clear reward", "估算通关奖励"),
        ("  data|ref                  ", "print enhancement/joker/consumable reference", "显示效果参考"),
        ("", "", ""),
        ("", "Run:", "流程："),
        ("  deal|d                    ", "draw hand (Deal phase)", "发牌（Deal 阶段）"),
        ("  play|p <idx..>            ", "play cards", "出牌"),
        ("  discard|x <idx..>         ", "discard cards", "弃牌"),
        ("  skip|skip_blind           ", "skip current blind (Small/Big only)", "跳过当前盲注（仅小/大盲）"),
        ("  next|n                    ", "start next blind", "进入下一个盲注"),
        ("", "", ""),
        ("", "Shop / Pack:", "商店 / 卡包："),
        ("  shop|sh                   ", "enter shop", "进入商店"),
        ("  reroll|r                  ", "reroll shop", "刷新商店"),
        ("  buy card|pack|voucher <idx>  ", "buy from shop", "购买商店商品"),
        ("  leave                     ", "leave shop", "离开商店"),
        ("  pack                      ", "show open pack options", "显示当前卡包选项"),
        ("  pick <idx..>              ", "pick pack options", "选择卡包选项"),
        ("  skip_pack|sp              ", "skip open pack", "跳过当前卡包"),
        ("", "", ""),
        ("", "Debug / Edit:", "调试 / 编辑："),
        ("  use <consumable_idx> [sel..]  ", "use a consumable", "使用消耗牌"),
        ("  sell <joker_idx>          ", "sell joker", "出售小丑"),
        ("  edit <idx..> enh=.. ed=.. seal=.. bonus=.. face_down=..  ", "edit cards in hand", "编辑手牌属性"),
        ("  peek draw|discard [n]     ", "peek deck top cards", "查看牌堆顶部"),
        ("", "note: indices support comma and ranges (e.g. 0,2-4 7)", "说明：索引支持逗号和区间（如 0,2-4 7）"),
        ("", "tip: actions print a flow summary automatically", "提示：操作后会自动显示流程摘要"),
        ("", "tip: use Up/Down for command history, Tab for command completion", "提示：可使用 上/下 键浏览历史命令，Tab 自动补全命令"),
        ("", "tip: run with --auto for scripted demo", "提示：可使用 --auto 运行自动演示"),
        ("", "tip: set language with --lang zh_CN (or env RULATRO_LANG=zh_CN)", "提示：可用 --lang zh_CN（或环境变量 RULATRO_LANG=zh_CN）切换中文"),
        ("", "tip: save/load default path can be overridden via RULATRO_SAVE", "提示：save/load 默认路径可通过环境变量 RULATRO_SAVE 覆盖")
    ];
    assert(rows@.map_values(|r: (&'static str, &'static str, &'static str)| help_row_view(r)) =~= spec_help_rows());
    rows
}

/// The command help for `locale`, one line per command, section title or note.
pub fn help_text(locale: UiLocale) -> (out: String)
    ensures
        out@ == spec_help_text(locale),
{
    let rows = help_rows();
    let ghost spec_rows = spec_help_rows();
    let ghost lines = spec_rows.map_values(|r: (Seq<char>, Seq<char>, Seq<char>)| spec_help_line(locale, r));
    let mut out: Vec<String> = Vec::new();
    let mut i: usize = 0;
    while i < rows.len()
        invariant
            i <= rows@.len(),
            rows@.map_values(|r: (&'static str, &'static str, &'static str)| help_row_view(r)) == spec_rows,
            lines == spec_rows.map_values(|r: (Seq<char>, Seq<char>, Seq<char>)| spec_help_line(locale, r)),
            string_views(out@) == lines.subrange(0, i as int),
        decreases rows.len() - i,
    {
        let (command, en, zh) = rows[i];
        assert(help_row_view(rows@[i as int]) == spec_rows[i as int]);
        let mut line = String::from_str(command);
        line.append(locale.text(en, zh));
        let ghost before = out@;
        out.push(line);
        assert(string_views(out@) =~= string_views(before).push(lines[i as int]));
        assert(lines.subrange(0, i + 1) =~= lines.subrange(0, i as int).push(lines[i as int]));
        i = i + 1;
    }
    assert(lines.subrange(0, rows@.len() as int) =~= lines);
    join_strings(&out, "\n")
}

} // verus!
