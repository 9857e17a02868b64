//! Command-line options of the program: the interactive front end's switches and the
//! autoplay settings, read one argument at a time.
use crate::autoplay::{default_targets, TargetConfig};
use crate::parse::{digits_in, spec_parse_i64, parse_i64_range, unsigned_text_value};
use crate::text::{chars_of, str_eq, str_views};
use vstd::prelude::*;

verus! {

// ---------------------------------------------------------------------------
// Unsigned numbers of a given width
// ---------------------------------------------------------------------------

/// What `s.parse()` gives for an unsigned type whose largest value is `max`.
pub open spec fn spec_parse_uint(s: Seq<char>, max: nat) -> Option<nat> {
    match unsigned_text_value(s) {
        Some(v) => if v <= max {
            Some(v)
        } else {
            None
        },
        None => None,
    }
}

/// `s.parse()` for an unsigned type whose largest value is `max`.
pub fn parse_uint(s: &str, max: u64) -> (r: Option<u64>)
    ensures
        match spec_parse_uint(s@, max as nat) {
            Some(v) => r == Some(v as u64),
            None => r is None,
        },
{
    let c = chars_of(s);
    let n = c.len();
    let start = if n > 0 && c[0] == '+' { 1 } else { 0 };
    proof {
        if n > 0 && c@[0] == '+' {
            assert(c@.drop_first() =~= c@.subrange(1, n as int));
        } else {
            assert(c@ =~= c@.subrange(0, n as int));
        }
    }
    digits_in(&c, start, n, max)
}

/// `s.parse::<i64>()`.
pub fn parse_i64(s: &str) -> (r: Option<i64>)
    ensures
        r == spec_parse_i64(s@),
{
    let c = chars_of(s);
    assert(c@ =~= c@.subrange(0, c@.len() as int));
    parse_i64_range(&c, 0, c.len())
}

// ---------------------------------------------------------------------------
// Autoplay options
// ---------------------------------------------------------------------------

/// Autoplay settings that take a floating-point value; the caller reads those.
#[derive(Debug, Clone, Copy, PartialEq, Eq, Structural)]
pub enum FloatOption {
    WeightScore,
    WeightAnte,
    WeightMoney,
    WeightSurvival,
    WeightSteps,
    ExplorationC,
}

/// The flag of a floating-point setting.
pub open spec fn spec_float_flag(o: FloatOption) -> Seq<char> {
    match o {
        FloatOption::WeightScore => "--weight-score"@,
        FloatOption::WeightAnte => "--weight-ante"@,
        FloatOption::WeightMoney => "--weight-money"@,
        FloatOption::WeightSurvival => "--weight-survival"@,
        FloatOption::WeightSteps => "--weight-steps"@,
        FloatOption::ExplorationC => "--exploration-c"@,
    }
}

/// The flag of a floating-point setting, as used in messages.
pub fn float_flag(o: FloatOption) -> (s: &'static str)
    ensures
        s@ == spec_float_flag(o),
{
    match o {
        FloatOption::WeightScore => "--weight-score",
        FloatOption::WeightAnte => "--weight-ante",
        FloatOption::WeightMoney => "--weight-money",
        FloatOption::WeightSurvival => "--weight-survival",
        FloatOption::WeightSteps => "--weight-steps",
        FloatOption::ExplorationC => "--exploration-c",
    }
}

/// What an autoplay argument is.
#[derive(Debug, Clone, Copy, PartialEq, Eq, Structural)]
pub enum AutoplayFlag {
    Seed,
    Lang,
    TargetScore,
    TargetAnte,
    TargetMoney,
    TimeMs,
    MaxSims,
    MinSims,
    MaxSteps,
    MaxPlayCandidates,
    MaxDiscardCandidates,
    MaxShopCandidates,
    RolloutDepth,
    ActionRetries,
    RolloutTopK,
    TacticalFinishMargin,
    TraceJson,
    TraceText,
    KeepGoing,
    NoMods,
    Help,
    Float(FloatOption),
    Unknown,
}

/// The kind of the autoplay argument `a`.
pub open spec fn autoplay_flag(a: Seq<char>) -> AutoplayFlag {
    if a == "--seed"@ {
        AutoplayFlag::Seed
    } else if a == "--lang"@ || a == "-l"@ {
        AutoplayFlag::Lang
    } else if a == "--target-score"@ {
        AutoplayFlag::TargetScore
    } else if a == "--target-ante"@ {
        AutoplayFlag::TargetAnte
    } else if a == "--target-money"@ {
        AutoplayFlag::TargetMoney
    } else if a == "--weight-score"@ {
        AutoplayFlag::Float(FloatOption::WeightScore)
    } else if a == "--weight-ante"@ {
        AutoplayFlag::Float(FloatOption::WeightAnte)
    } else if a == "--weight-money"@ {
        AutoplayFlag::Float(FloatOption::WeightMoney)
    } else if a == "--weight-survival"@ {
        AutoplayFlag::Float(FloatOption::WeightSurvival)
    } else if a == "--weight-steps"@ {
        AutoplayFlag::Float(FloatOption::WeightSteps)
    } else if a == "--time-ms"@ {
        AutoplayFlag::TimeMs
    } else if a == "--max-sims"@ {
        AutoplayFlag::MaxSims
    } else if a == "--min-sims"@ {
        AutoplayFlag::MinSims
    } else if a == "--max-steps"@ {
        AutoplayFlag::MaxSteps
    } else if a == "--max-play-candidates"@ {
        AutoplayFlag::MaxPlayCandidates
    } else if a == "--max-discard-candidates"@ {
        AutoplayFlag::MaxDiscardCandidates
    } else if a == "--max-shop-candidates"@ {
        AutoplayFlag::MaxShopCandidates
    } else if a == "--rollout-depth"@ {
        AutoplayFlag::RolloutDepth
    } else if a == "--exploration-c"@ {
        AutoplayFlag::Float(FloatOption::ExplorationC)
    } else if a == "--action-retries"@ {
        AutoplayFlag::ActionRetries
    } else if a == "--rollout-top-k"@ {
        AutoplayFlag::RolloutTopK
    } else if a == "--tactical-finish-margin"@ {
        AutoplayFlag::TacticalFinishMargin
    } else if a == "--trace-json"@ {
        AutoplayFlag::TraceJson
    } else if a == "--trace-text"@ {
        AutoplayFlag::TraceText
    } else if a == "--keep-going-on-fail"@ {
        AutoplayFlag::KeepGoing
    } else if a == "--no-mods"@ {
        AutoplayFlag::NoMods
    } else if a == "--help"@ || a == "-h"@ {
        AutoplayFlag::Help
    } else {
        AutoplayFlag::Unknown
    }
}

fn read_autoplay_flag(a: &str) -> (f: AutoplayFlag)
    ensures
        f == autoplay_flag(a@),
{
    if str_eq(a, "--seed") {
        AutoplayFlag::Seed
    } else if str_eq(a, "--lang") || str_eq(a, "-l") {
        AutoplayFlag::Lang
    } else if str_eq(a, "--target-score") {
        AutoplayFlag::TargetScore
    } else if str_eq(a, "--target-ante") {
        AutoplayFlag::TargetAnte
    } else if str_eq(a, "--target-money") {
        AutoplayFlag::TargetMoney
    } else if str_eq(a, "--weight-score") {
        AutoplayFlag::Float(FloatOption::WeightScore)
    } else if str_eq(a, "--weight-ante") {
        AutoplayFlag::Float(FloatOption::WeightAnte)
    } else if str_eq(a, "--weight-money") {
        AutoplayFlag::Float(FloatOption::WeightMoney)
    } else if str_eq(a, "--weight-survival") {
        AutoplayFlag::Float(FloatOption::WeightSurvival)
    } else if str_eq(a, "--weight-steps") {
        AutoplayFlag::Float(FloatOption::WeightSteps)
    } else if str_eq(a, "--time-ms") {
        AutoplayFlag::TimeMs
    } else if str_eq(a, "--max-sims") {
        AutoplayFlag::MaxSims
    } else if str_eq(a, "--min-sims") {
        AutoplayFlag::MinSims
    } else if str_eq(a, "--max-steps") {
        AutoplayFlag::MaxSteps
    } else if str_eq(a, "--max-play-candidates") {
        AutoplayFlag::MaxPlayCandidates
    } else if str_eq(a, "--max-discard-candidates") {
        AutoplayFlag::MaxDiscardCandidates
    } else if str_eq(a, "--max-shop-candidates") {
        AutoplayFlag::MaxShopCandidates
    } else if str_eq(a, "--rollout-depth") {
        AutoplayFlag::RolloutDepth
    } else if str_eq(a, "--exploration-c") {
        AutoplayFlag::Float(FloatOption::ExplorationC)
    } else if str_eq(a, "--action-retries") {
        AutoplayFlag::ActionRetries
    } else if str_eq(a, "--rollout-top-k") {
        AutoplayFlag::RolloutTopK
    } else if str_eq(a, "--tactical-finish-margin") {
        AutoplayFlag::TacticalFinishMargin
    } else if str_eq(a, "--trace-json") {
        AutoplayFlag::TraceJson
    } else if str_eq(a, "--trace-text") {
        AutoplayFlag::TraceText
    } else if str_eq(a, "--keep-going-on-fail") {
        AutoplayFlag::KeepGoing
    } else if str_eq(a, "--no-mods") {
        AutoplayFlag::NoMods
    } else if str_eq(a, "--help") || str_eq(a, "-h") {
        AutoplayFlag::Help
    } else {
        AutoplayFlag::Unknown
    }
}

/// The flag named in messages about a setting (`--lang` also for `-l`).
pub open spec fn flag_name(f: AutoplayFlag) -> Seq<char> {
    match f {
        AutoplayFlag::Seed => "--seed"@,
        AutoplayFlag::Lang => "--lang"@,
        AutoplayFlag::TargetScore => "--target-score"@,
        AutoplayFlag::TargetAnte => "--target-ante"@,
        AutoplayFlag::TargetMoney => "--target-money"@,
        AutoplayFlag::TimeMs => "--time-ms"@,
        AutoplayFlag::MaxSims => "--max-sims"@,
        AutoplayFlag::MinSims => "--min-sims"@,
        AutoplayFlag::MaxSteps => "--max-steps"@,
        AutoplayFlag::MaxPlayCandidates => "--max-play-candidates"@,
        AutoplayFlag::MaxDiscardCandidates => "--max-discard-candidates"@,
        AutoplayFlag::MaxShopCandidates => "--max-shop-candidates"@,
        AutoplayFlag::RolloutDepth => "--rollout-depth"@,
        AutoplayFlag::ActionRetries => "--action-retries"@,
        AutoplayFlag::RolloutTopK => "--rollout-top-k"@,
        AutoplayFlag::TacticalFinishMargin => "--tactical-finish-margin"@,
        AutoplayFlag::TraceJson => "--trace-json"@,
        AutoplayFlag::TraceText => "--trace-text"@,
        AutoplayFlag::Float(o) => spec_float_flag(o),
        _ => ""@,
    }
}

/// Whether the setting reads the next argument.
pub open spec fn takes_value(f: AutoplayFlag) -> bool {
    !(f == AutoplayFlag::KeepGoing || f == AutoplayFlag::NoMods || f == AutoplayFlag::Help || f
        == AutoplayFlag::Unknown)
}

/// Integer and text settings read from the autoplay command line.
#[derive(Debug, Clone)]
pub struct AutoplayArgs {
    pub seed: u64,
    pub max_steps: u32,
    pub per_step_time_ms: u64,
    pub per_step_max_simulations: u32,
    pub min_simulations_per_step: u32,
    pub action_retry_limit: u32,
    pub max_play_candidates: usize,
    pub max_discard_candidates: usize,
    pub max_shop_candidates: usize,
    pub rollout_depth: u32,
    pub rollout_top_k: usize,
    pub tactical_finish_margin: i64,
    pub targets: TargetConfig,
    pub locale_arg: Option<String>,
    pub use_mods: bool,
    pub trace_json: Option<String>,
    pub trace_text: Option<String>,
}

impl AutoplayArgs {
    /// The defaults of an autoplay run, with `locale_arg` as the starting language choice.
    pub fn new(locale_arg: Option<String>) -> (a: Self)
        ensures
            a.seed == 0xC0FFEE,
            a.max_steps == 500,
            a.per_step_time_ms == 120,
            a.per_step_max_simulations == 800,
            a.min_simulations_per_step == 12,
            a.action_retry_limit == 6,
            a.max_play_candidates == 24,
            a.max_discard_candidates == 16,
            a.max_shop_candidates == 16,
            a.rollout_depth == 24,
            a.rollout_top_k == 4,
            a.tactical_finish_margin == 180,
            a.targets == default_targets(),
            a.locale_arg == locale_arg,
            a.use_mods,
            a.trace_json is None,
            a.trace_text is None,
    {
        AutoplayArgs {
            seed: 0xC0FFEE,
            max_steps: 500,
            per_step_time_ms: 120,
            per_step_max_simulations: 800,
            min_simulations_per_step: 12,
            action_retry_limit: 6,
            max_play_candidates: 24,
            max_discard_candidates: 16,
            max_shop_candidates: 16,
            rollout_depth: 24,
            rollout_top_k: 4,
            tactical_finish_margin: 180,
            targets: TargetConfig::default(),
            locale_arg,
            use_mods: true,
            trace_json: None,
            trace_text: None,
        }
    }
}

/// The value an integer setting reads from `text`, if it is valid for the setting's type.
pub open spec fn int_setting_value(f: AutoplayFlag, text: Seq<char>) -> Option<int> {
    match f {
        AutoplayFlag::Seed => match spec_parse_uint(text, 0xffff_ffff_ffff_ffff as nat) {
            Some(v) => Some(v as int),
            None => None,
        },
        AutoplayFlag::TargetScore => match spec_parse_i64(text) {
            Some(v) => Some(v as int),
            None => None,
        },
        AutoplayFlag::TargetAnte => match spec_parse_uint(text, 0xff as nat) {
            Some(v) => Some(v as int),
            None => None,
        },
        AutoplayFlag::TargetMoney => match spec_parse_i64(text) {
            Some(v) => Some(v as int),
            None => None,
        },
        AutoplayFlag::TimeMs => match spec_parse_uint(text, 0xffff_ffff_ffff_ffff as nat) {
            Some(v) => Some(v as int),
            None => None,
        },
        AutoplayFlag::MaxSims => match spec_parse_uint(text, 0xffff_ffff as nat) {
            Some(v) => Some(v as int),
            None => None,
        },
        AutoplayFlag::MinSims => match spec_parse_uint(text, 0xffff_ffff as nat) {
            Some(v) => Some(v as int),
            None => None,
        },
        AutoplayFlag::MaxSteps => match spec_parse_uint(text, 0xffff_ffff as nat) {
            Some(v) => Some(v as int),
            None => None,
        },
        AutoplayFlag::MaxPlayCandidates => match spec_parse_uint(text, usize::MAX as nat) {
            Some(v) => Some(v as int),
            None => None,
        },
        AutoplayFlag::MaxDiscardCandidates => match spec_parse_uint(text, usize::MAX as nat) {
            Some(v) => Some(v as int),
            None => None,
        },
        AutoplayFlag::MaxShopCandidates => match spec_parse_uint(text, usize::MAX as nat) {
            Some(v) => Some(v as int),
            None => None,
        },
        AutoplayFlag::RolloutDepth => match spec_parse_uint(text, 0xffff_ffff as nat) {
            Some(v) => Some(v as int),
            None => None,
        },
        AutoplayFlag::ActionRetries => match spec_parse_uint(text, 0xffff_ffff as nat) {
            Some(v) => Some(v as int),
            None => None,
        },
        AutoplayFlag::RolloutTopK => match spec_parse_uint(text, usize::MAX as nat) {
            Some(v) => Some(v as int),
            None => None,
        },
        AutoplayFlag::TacticalFinishMargin => match spec_parse_i64(text) {
            Some(v) => Some(v as int),
            None => None,
        },
        _ => None,
    }
}

/// Whether `f` is an integer setting.
pub open spec fn is_int_setting(f: AutoplayFlag) -> bool {
    f == AutoplayFlag::Seed
        || f == AutoplayFlag::TargetScore
        || f == AutoplayFlag::TargetAnte
        || f == AutoplayFlag::TargetMoney
        || f == AutoplayFlag::TimeMs
        || f == AutoplayFlag::MaxSims
        || f == AutoplayFlag::MinSims
        || f == AutoplayFlag::MaxSteps
        || f == AutoplayFlag::MaxPlayCandidates
        || f == AutoplayFlag::MaxDiscardCandidates
        || f == AutoplayFlag::MaxShopCandidates
        || f == AutoplayFlag::RolloutDepth
        || f == AutoplayFlag::ActionRetries
        || f == AutoplayFlag::RolloutTopK
        || f == AutoplayFlag::TacticalFinishMargin
}

/// The settings with the integer setting `f` changed to `v`.
pub open spec fn with_int_setting(a: AutoplayArgs, f: AutoplayFlag, v: int) -> AutoplayArgs {
    match f {
        AutoplayFlag::Seed => AutoplayArgs { seed: v as u64, ..a },
        AutoplayFlag::TargetScore => AutoplayArgs { targets: TargetConfig { target_score: Some(v as i64), ..a.targets }, ..a },
        AutoplayFlag::TargetAnte => AutoplayArgs { targets: TargetConfig { target_ante: Some(v as u8), ..a.targets }, ..a },
        AutoplayFlag::TargetMoney => AutoplayArgs { targets: TargetConfig { target_money: Some(v as i64), ..a.targets }, ..a },
        AutoplayFlag::TimeMs => AutoplayArgs { per_step_time_ms: v as u64, ..a },
        AutoplayFlag::MaxSims => AutoplayArgs { per_step_max_simulations: v as u32, ..a },
        AutoplayFlag::MinSims => AutoplayArgs { min_simulations_per_step: v as u32, ..a },
        AutoplayFlag::MaxSteps => AutoplayArgs { max_steps: v as u32, ..a },
        AutoplayFlag::MaxPlayCandidates => AutoplayArgs { max_play_candidates: v as usize, ..a },
        AutoplayFlag::MaxDiscardCandidates => AutoplayArgs { max_discard_candidates: v as usize, ..a },
        AutoplayFlag::MaxShopCandidates => AutoplayArgs { max_shop_candidates: v as usize, ..a },
        AutoplayFlag::RolloutDepth => AutoplayArgs { rollout_depth: v as u32, ..a },
        AutoplayFlag::ActionRetries => AutoplayArgs { action_retry_limit: v as u32, ..a },
        AutoplayFlag::RolloutTopK => AutoplayArgs { rollout_top_k: v as usize, ..a },
        AutoplayFlag::TacticalFinishMargin => AutoplayArgs { tactical_finish_margin: v as i64, ..a },
        _ => a,
    }
}

/// What the caller does after one autoplay argument was read.
#[derive(Debug, Clone, Copy, PartialEq, Eq)]
pub enum AutoplayStep {
    /// Go on with the argument at this position.
    Next(usize),
    /// Read the argument at this position as the value of a floating-point setting, then
    /// go on after it.
    Float(FloatOption, usize),
    /// Show the option help and stop.
    Help,
}

/// Read the autoplay argument at `idx` (and its value, for a setting that takes one).
pub fn autoplay_arg_step(args: &[&str], idx: usize, st: &mut AutoplayArgs) -> (r: Result<AutoplayStep, String>)
    requires
        idx < args@.len(),
    ensures
        ({
            let f = autoplay_flag(args@[idx as int]@);
            let n = args@.len();
            &&& f == AutoplayFlag::Unknown ==> r is Err && r->Err_0@ == "unknown autoplay option: "@ + args@[idx as int]@
            &&& f == AutoplayFlag::Help ==> r == Ok::<AutoplayStep, String>(AutoplayStep::Help)
            &&& f == AutoplayFlag::KeepGoing ==> r == Ok::<AutoplayStep, String>(AutoplayStep::Next((idx + 1) as usize))
                && *final(st) == (AutoplayArgs { targets: TargetConfig { stop_on_blind_failed: false, ..old(st).targets }, ..*old(st) })
            &&& f == AutoplayFlag::NoMods ==> r == Ok::<AutoplayStep, String>(AutoplayStep::Next((idx + 1) as usize))
                && *final(st) == (AutoplayArgs { use_mods: false, ..*old(st) })
            &&& takes_value(f) && idx + 1 >= n ==> r is Err && r->Err_0@ == "missing value for "@ + flag_name(f)
            &&& takes_value(f) && idx + 1 < n ==> {
                let text = args@[idx + 1]@;
                &&& (f matches AutoplayFlag::Float(o) ==> r == Ok::<AutoplayStep, String>(AutoplayStep::Float(o, (idx + 1) as usize)) && *final(st) == *old(st))
                &&& is_int_setting(f) ==> match int_setting_value(f, text) {
                    Some(v) => r == Ok::<AutoplayStep, String>(AutoplayStep::Next((idx + 2) as usize))
                        && *final(st) == with_int_setting(*old(st), f, v),
                    None => r is Err && r->Err_0@ == "invalid "@ + flag_name(f) + " value"@,
                }
                &&& f == AutoplayFlag::Lang ==> r == Ok::<AutoplayStep, String>(AutoplayStep::Next((idx + 2) as usize))
                    && final(st).locale_arg is Some && final(st).locale_arg->0@ == text
                    && *final(st) == (AutoplayArgs { locale_arg: final(st).locale_arg, ..*old(st) })
                &&& f == AutoplayFlag::TraceJson ==> r == Ok::<AutoplayStep, String>(AutoplayStep::Next((idx + 2) as usize))
                    && final(st).trace_json is Some && final(st).trace_json->0@ == text
                    && *final(st) == (AutoplayArgs { trace_json: final(st).trace_json, ..*old(st) })
                &&& f == AutoplayFlag::TraceText ==> r == Ok::<AutoplayStep, String>(AutoplayStep::Next((idx + 2) as usize))
                    && final(st).trace_text is Some && final(st).trace_text->0@ == text
                    && *final(st) == (AutoplayArgs { trace_text: final(st).trace_text, ..*old(st) })
            }
        }),
{
    let a = args[idx];
    let f = read_autoplay_flag(a);
    match f {
        AutoplayFlag::Unknown => {
            let mut msg = String::from_str("unknown autoplay option: ");
            msg.append(a);
            return Err(msg);
        },
        AutoplayFlag::Help => {
            return Ok(AutoplayStep::Help);
        },
        AutoplayFlag::KeepGoing => {
            st.targets.stop_on_blind_failed = false;
            return Ok(AutoplayStep::Next(idx + 1));
        },
        AutoplayFlag::NoMods => {
            st.use_mods = false;
            return Ok(AutoplayStep::Next(idx + 1));
        },
        _ => {},
    }
    if idx + 1 >= args.len() {
        let mut msg = String::from_str("missing value for ");
        msg.append(flag_text(f));
        return Err(msg);
    }
    let text = args[idx + 1];
    match f {
        AutoplayFlag::Float(o) => {
            return Ok(AutoplayStep::Float(o, idx + 1));
        },
        AutoplayFlag::Lang => {
            st.locale_arg = Some(String::from_str(text));
            return Ok(AutoplayStep::Next(idx + 2));
        },
        AutoplayFlag::TraceJson => {
            st.trace_json = Some(String::from_str(text));
            return Ok(AutoplayStep::Next(idx + 2));
        },
        AutoplayFlag::TraceText => {
            st.trace_text = Some(String::from_str(text));
            return Ok(AutoplayStep::Next(idx + 2));
        },
        _ => {},
    }
    if f == AutoplayFlag::Seed {
        match parse_uint(text, 0xffff_ffff_ffff_ffff) {
            Some(v) => {
                st.seed = v as u64;
                return Ok(AutoplayStep::Next(idx + 2));
            },
            None => {
                return Err(invalid_value_message(f));
            },
        }
    }
    if f == AutoplayFlag::TargetScore {
        match parse_i64(text) {
            Some(v) => {
                st.targets.target_score = Some(v);
                return Ok(AutoplayStep::Next(idx + 2));
            },
            None => {
                return Err(invalid_value_message(f));
            },
        }
    }
    if f == AutoplayFlag::TargetAnte {
        match parse_uint(text, 0xff) {
            Some(v) => {
                st.targets.target_ante = Some(v as u8);
                return Ok(AutoplayStep::Next(idx + 2));
            },
            None => {
                return Err(invalid_value_message(f));
            },
        }
    }
    if f == AutoplayFlag::TargetMoney {
        match parse_i64(text) {
            Some(v) => {
                st.targets.target_money = Some(v);
                return Ok(AutoplayStep::Next(idx + 2));
            },
            None => {
                return Err(invalid_value_message(f));
            },
        }
    }
    if f == AutoplayFlag::TimeMs {
        match parse_uint(text, 0xffff_ffff_ffff_ffff) {
            Some(v) => {
                st.per_step_time_ms = v as u64;
                return Ok(AutoplayStep::Next(idx + 2));
            },
            None => {
                return Err(invalid_value_message(f));
            },
        }
    }
    if f == AutoplayFlag::MaxSims {
        match parse_uint(text, 0xffff_ffff) {
            Some(v) => {
                st.per_step_max_simulations = v as u32;
                return Ok(AutoplayStep::Next(idx + 2));
            },
            None => {
                return Err(invalid_value_message(f));
            },
        }
    }
    if f == AutoplayFlag::MinSims {
        match parse_uint(text, 0xffff_ffff) {
            Some(v) => {
                st.min_simulations_per_step = v as u32;
                return Ok(AutoplayStep::Next(idx + 2));
            },
            None => {
                return Err(invalid_value_message(f));
            },
        }
    }
    if f == AutoplayFlag::MaxSteps {
        match parse_uint(text, 0xffff_ffff) {
            Some(v) => {
                st.max_steps = v as u32;
                return Ok(AutoplayStep::Next(idx + 2));
            },
            None => {
                return Err(invalid_value_message(f));
            },
        }
    }
    if f == AutoplayFlag::MaxPlayCandidates {
        match parse_uint(text, usize::MAX as u64) {
            Some(v) => {
                st.max_play_candidates = v as usize;
                return Ok(AutoplayStep::Next(idx + 2));
            },
            None => {
                return Err(invalid_value_message(f));
            },
        }
    }
    if f == AutoplayFlag::MaxDiscardCandidates {
        match parse_uint(text, usize::MAX as u64) {
            Some(v) => {
                st.max_discard_candidates = v as usize;
                return Ok(AutoplayStep::Next(idx + 2));
            },
            None => {
                return Err(invalid_value_message(f));
            },
        }
    }
    if f == AutoplayFlag::MaxShopCandidates {
        match parse_uint(text, usize::MAX as u64) {
            Some(v) => {
                st.max_shop_candidates = v as usize;
                return Ok(AutoplayStep::Next(idx + 2));
            },
            None => {
                return Err(invalid_value_message(f));
            },
        }
    }
    if f == AutoplayFlag::RolloutDepth {
        match parse_uint(text, 0xffff_ffff) {
            Some(v) => {
                st.rollout_depth = v as u32;
                return Ok(AutoplayStep::Next(idx + 2));
            },
            None => {
                return Err(invalid_value_message(f));
            },
        }
    }
    if f == AutoplayFlag::ActionRetries {
        match parse_uint(text, 0xffff_ffff) {
            Some(v) => {
                st.action_retry_limit = v as u32;
                return Ok(AutoplayStep::Next(idx + 2));
            },
            None => {
                return Err(invalid_value_message(f));
            },
        }
    }
    if f == AutoplayFlag::RolloutTopK {
        match parse_uint(text, usize::MAX as u64) {
            Some(v) => {
                st.rollout_top_k = v as usize;
                return Ok(AutoplayStep::Next(idx + 2));
            },
            None => {
                return Err(invalid_value_message(f));
            },
        }
    }
    if f == AutoplayFlag::TacticalFinishMargin {
        match parse_i64(text) {
            Some(v) => {
                st.tactical_finish_margin = v;
                return Ok(AutoplayStep::Next(idx + 2));
            },
            None => {
                return Err(invalid_value_message(f));
            },
        }
    }
    Ok(AutoplayStep::Next(idx + 2))
}

fn flag_text(f: AutoplayFlag) -> (s: &'static str)
    ensures
        s@ == flag_name(f),
{
    match f {
        AutoplayFlag::Seed => "--seed",
        AutoplayFlag::Lang => "--lang",
        AutoplayFlag::TargetScore => "--target-score",
        AutoplayFlag::TargetAnte => "--target-ante",
        AutoplayFlag::TargetMoney => "--target-money",
        AutoplayFlag::TimeMs => "--time-ms",
        AutoplayFlag::MaxSims => "--max-sims",
        AutoplayFlag::MinSims => "--min-sims",
        AutoplayFlag::MaxSteps => "--max-steps",
        AutoplayFlag::MaxPlayCandidates => "--max-play-candidates",
        AutoplayFlag::MaxDiscardCandidates => "--max-discard-candidates",
        AutoplayFlag::MaxShopCandidates => "--max-shop-candidates",
        AutoplayFlag::RolloutDepth => "--rollout-depth",
        AutoplayFlag::ActionRetries => "--action-retries",
        AutoplayFlag::RolloutTopK => "--rollout-top-k",
        AutoplayFlag::TacticalFinishMargin => "--tactical-finish-margin",
        AutoplayFlag::TraceJson => "--trace-json",
        AutoplayFlag::TraceText => "--trace-text",
        AutoplayFlag::Float(o) => float_flag(o),
        _ => "",
    }
}

fn invalid_value_message(f: AutoplayFlag) -> (s: String)
    ensures
        s@ == "invalid "@ + flag_name(f) + " value"@,
{
    let mut msg = String::from_str("invalid ");
    msg.append(flag_text(f));
    msg.append(" value");
    msg
}

// ---------------------------------------------------------------------------
// Front-end switches
// ---------------------------------------------------------------------------

/// Switches of the program: autoplay, the plain command interface, the menu, a seed and
/// a language choice (resolved to a locale by the caller).
#[derive(Debug, Clone)]
pub struct CliOptions {
    pub auto: bool,
    pub cui: bool,
    pub menu: bool,
    pub seed: Option<u64>,
    pub locale_arg: Option<String>,
}

/// The switches read from `args[idx..]`, starting from `acc` (auto, cui, menu, seed,
/// language). `--lang`/`-l` and `--seed` take the next argument when there is one; a
/// seed that does not read as a `u64` clears the seed; other arguments are ignored.
pub open spec fn cli_scan(
    args: Seq<Seq<char>>,
    idx: int,
    acc: (bool, bool, bool, Option<u64>, Option<Seq<char>>),
) -> (bool, bool, bool, Option<u64>, Option<Seq<char>>)
    decreases args.len() - idx,
{
    if idx < 0 || idx >= args.len() {
        acc
    } else {
        let a = args[idx];
        if a == "--auto"@ {
            cli_scan(args, idx + 1, (true, acc.1, acc.2, acc.3, acc.4))
        } else if a == "--cui"@ {
            cli_scan(args, idx + 1, (acc.0, true, acc.2, acc.3, acc.4))
        } else if a == "--menu"@ {
            cli_scan(args, idx + 1, (acc.0, acc.1, true, acc.3, acc.4))
        } else if (a == "--lang"@ || a == "-l"@) && idx + 1 < args.len() {
            cli_scan(args, idx + 2, (acc.0, acc.1, acc.2, acc.3, Some(args[idx + 1])))
        } else if a == "--seed"@ && idx + 1 < args.len() {
            let seed = match spec_parse_uint(args[idx + 1], 0xffff_ffff_ffff_ffff) {
                Some(v) => Some(v as u64),
                None => None,
            };
            cli_scan(args, idx + 2, (acc.0, acc.1, acc.2, seed, acc.4))
        } else {
            cli_scan(args, idx + 1, acc)
        }
    }
}

/// The text of an optional string.
pub open spec fn opt_string_view(o: Option<String>) -> Option<Seq<char>> {
    match o {
        Some(s) => Some(s@),
        None => None,
    }
}

/// Read the program switches; `locale_arg` is the language chosen before the arguments
/// (from the environment), which `--lang` overrides.
pub fn parse_cli_options(args: &[&str], locale_arg: Option<String>) -> (o: CliOptions)
    ensures
        ({
            let start = (
                false,
                false,
                false,
                None::<u64>,
                opt_string_view(locale_arg),
            );
            let end = cli_scan(str_views(args@), 0, start);
            &&& o.auto == end.0
            &&& o.cui == end.1
            &&& o.menu == end.2
            &&& o.seed == end.3
            &&& match end.4 {
                Some(l) => o.locale_arg is Some && o.locale_arg->0@ == l,
                None => o.locale_arg is None,
            }
        }),
{
    let ghost views = str_views(args@);
    let ghost start = (
        false,
        false,
        false,
        None::<u64>,
        opt_string_view(locale_arg),
    );
    let mut auto = false;
    let mut cui = false;
    let mut menu = false;
    let mut seed: Option<u64> = None;
    let mut lang = locale_arg;
    let mut idx: usize = 0;
    while idx < args.len()
        invariant
            idx <= args@.len(),
            views == str_views(args@),
            cli_scan(views, 0, start) == cli_scan(
                views,
                idx as int,
                (
                    auto,
                    cui,
                    menu,
                    seed,
                    opt_string_view(lang),
                ),
            ),
        decreases args.len() - idx,
    {
        let a = args[idx];
        assert(views[idx as int] == a@);
        if str_eq(a, "--auto") {
            auto = true;
        } else if str_eq(a, "--cui") {
            cui = true;
        } else if str_eq(a, "--menu") {
            menu = true;
        } else if (str_eq(a, "--lang") || str_eq(a, "-l")) && idx + 1 < args.len() {
            lang = Some(String::from_str(args[idx + 1]));
            idx = idx + 1;
        } else if str_eq(a, "--seed") && idx + 1 < args.len() {
            seed = parse_uint(args[idx + 1], 0xffff_ffff_ffff_ffff);
            idx = idx + 1;
        }
        idx = idx + 1;
    }
    CliOptions { auto, cui, menu, seed, locale_arg: lang }
}

} // verus!
