//! Editing cards from the command line: modifier names, edit arguments, applying edits
//! to the hand, picking the played cards, and card text.
use crate::cards::{Card, Edition, Enhancement, Seal};
use crate::labels::{
    edition_short, enhancement_short, rank_debug_name, rank_short, seal_short, spec_edition_short,
    spec_enhancement_short, spec_rank_debug_name, spec_rank_short, spec_seal_short, spec_suit_debug_name,
    spec_suit_short, suit_debug_name, suit_short,
};
use crate::parse::{
    bonus_negation_fits, bonus_negation_ok, find_char, first_index_of, is_none, lemma_first_index, parse_bonus_edit,
    parse_bool, parse_indices_result, spec_bonus_edit, spec_is_none_word, spec_parse_bool_word,
    spec_parse_indices, BonusEdit,
};
use crate::run::RunError;
use crate::text::{
    chars_of, decimal, int_text, join_strings, join_with, lowercase, push_char, push_decimal, push_int,
    same_result, spec_lowercase, str_eq, str_views, string_of_chars, string_views, sub_chars, trim,
    trim_chars,
};
use vstd::prelude::*;

verus! {

// ---------------------------------------------------------------------------
// Modifier names
// ---------------------------------------------------------------------------

/// The enhancement a trimmed, lowercased word names.
pub open spec fn spec_enhancement_word(w: Seq<char>) -> Result<Enhancement, Seq<char>> {
    if w == "bonus"@ {
        Ok(Enhancement::Bonus)
    } else if w == "mult"@ {
        Ok(Enhancement::Mult)
    } else if w == "wild"@ {
        Ok(Enhancement::Wild)
    } else if w == "glass"@ {
        Ok(Enhancement::Glass)
    } else if w == "steel"@ {
        Ok(Enhancement::Steel)
    } else if w == "stone"@ {
        Ok(Enhancement::Stone)
    } else if w == "lucky"@ {
        Ok(Enhancement::Lucky)
    } else if w == "gold"@ {
        Ok(Enhancement::Gold)
    } else {
        Err("invalid enhancement '"@ + w + "'"@)
    }
}

/// Read a trimmed, lowercased enhancement name.
pub fn parse_enhancement_word(w: &str) -> (r: Result<Enhancement, String>)
    ensures
        same_result(r, spec_enhancement_word(w@)),
{
    if str_eq(w, "bonus") {
        Ok(Enhancement::Bonus)
    } else if str_eq(w, "mult") {
        Ok(Enhancement::Mult)
    } else if str_eq(w, "wild") {
        Ok(Enhancement::Wild)
    } else if str_eq(w, "glass") {
        Ok(Enhancement::Glass)
    } else if str_eq(w, "steel") {
        Ok(Enhancement::Steel)
    } else if str_eq(w, "stone") {
        Ok(Enhancement::Stone)
    } else if str_eq(w, "lucky") {
        Ok(Enhancement::Lucky)
    } else if str_eq(w, "gold") {
        Ok(Enhancement::Gold)
    } else {
        let mut msg = String::from_str("invalid enhancement '");
        msg.append(w);
        msg.append("'");
        Err(msg)
    }
}

/// Read an enhancement name, ignoring case and surrounding whitespace.
pub fn parse_enhancement(value: &str) -> (r: Result<Enhancement, String>)
    ensures
        same_result(r, spec_enhancement_word(spec_lowercase(trim_chars(value@)))),
{
    let lowered = lowercase(trim(value));
    parse_enhancement_word(lowered.as_str())
}

/// What `parse_optional_enhancement` returns: no enhancement for `none`, `null` or `clear`.
pub open spec fn spec_optional_enhancement(value: Seq<char>) -> Result<Option<Enhancement>, Seq<char>> {
    let w = spec_lowercase(trim_chars(value));
    if spec_is_none_word(w) {
        Ok(None)
    } else {
        match spec_enhancement_word(w) {
            Ok(v) => Ok(Some(v)),
            Err(m) => Err(m),
        }
    }
}

/// Read an enhancement name, or a word meaning none.
pub fn parse_optional_enhancement(value: &str) -> (r: Result<Option<Enhancement>, String>)
    ensures
        same_result(r, spec_optional_enhancement(value@)),
{
    if is_none(value) {
        return Ok(None);
    }
    match parse_enhancement(value) {
        Ok(v) => Ok(Some(v)),
        Err(m) => Err(m),
    }
}

/// The edition a trimmed, lowercased word names.
pub open spec fn spec_edition_word(w: Seq<char>) -> Result<Edition, Seq<char>> {
    if w == "foil"@ {
        Ok(Edition::Foil)
    } else if w == "holo"@ {
        Ok(Edition::Holographic)
    } else if w == "holographic"@ {
        Ok(Edition::Holographic)
    } else if w == "poly"@ {
        Ok(Edition::Polychrome)
    } else if w == "polychrome"@ {
        Ok(Edition::Polychrome)
    } else if w == "neg"@ {
        Ok(Edition::Negative)
    } else if w == "negative"@ {
        Ok(Edition::Negative)
    } else {
        Err("invalid edition '"@ + w + "'"@)
    }
}

/// Read a trimmed, lowercased edition name.
pub fn parse_edition_word(w: &str) -> (r: Result<Edition, String>)
    ensures
        same_result(r, spec_edition_word(w@)),
{
    if str_eq(w, "foil") {
        Ok(Edition::Foil)
    } else if str_eq(w, "holo") {
        Ok(Edition::Holographic)
    } else if str_eq(w, "holographic") {
        Ok(Edition::Holographic)
    } else if str_eq(w, "poly") {
        Ok(Edition::Polychrome)
    } else if str_eq(w, "polychrome") {
        Ok(Edition::Polychrome)
    } else if str_eq(w, "neg") {
        Ok(Edition::Negative)
    } else if str_eq(w, "negative") {
        Ok(Edition::Negative)
    } else {
        let mut msg = String::from_str("invalid edition '");
        msg.append(w);
        msg.append("'");
        Err(msg)
    }
}

/// Read an edition name, ignoring case and surrounding whitespace.
pub fn parse_edition(value: &str) -> (r: Result<Edition, String>)
    ensures
        same_result(r, spec_edition_word(spec_lowercase(trim_chars(value@)))),
{
    let lowered = lowercase(trim(value));
    parse_edition_word(lowered.as_str())
}

/// What `parse_optional_edition` returns: no edition for `none`, `null` or `clear`.
pub open spec fn spec_optional_edition(value: Seq<char>) -> Result<Option<Edition>, Seq<char>> {
    let w = spec_lowercase(trim_chars(value));
    if spec_is_none_word(w) {
        Ok(None)
    } else {
        match spec_edition_word(w) {
            Ok(v) => Ok(Some(v)),
            Err(m) => Err(m),
        }
    }
}

/// Read an edition name, or a word meaning none.
pub fn parse_optional_edition(value: &str) -> (r: Result<Option<Edition>, String>)
    ensures
        same_result(r, spec_optional_edition(value@)),
{
    if is_none(value) {
        return Ok(None);
    }
    match parse_edition(value) {
        Ok(v) => Ok(Some(v)),
        Err(m) => Err(m),
    }
}

/// The seal a trimmed, lowercased word names.
pub open spec fn spec_seal_word(w: Seq<char>) -> Result<Seal, Seq<char>> {
    if w == "red"@ {
        Ok(Seal::Red)
    } else if w == "blue"@ {
        Ok(Seal::Blue)
    } else if w == "gold"@ {
        Ok(Seal::Gold)
    } else if w == "purple"@ {
        Ok(Seal::Purple)
    } else {
        Err("invalid seal '"@ + w + "'"@)
    }
}

/// Read a trimmed, lowercased seal name.
pub fn parse_seal_word(w: &str) -> (r: Result<Seal, String>)
    ensures
        same_result(r, spec_seal_word(w@)),
{
    if str_eq(w, "red") {
        Ok(Seal::Red)
    } else if str_eq(w, "blue") {
        Ok(Seal::Blue)
    } else if str_eq(w, "gold") {
        Ok(Seal::Gold)
    } else if str_eq(w, "purple") {
        Ok(Seal::Purple)
    } else {
        let mut msg = String::from_str("invalid seal '");
        msg.append(w);
        msg.append("'");
        Err(msg)
    }
}

/// Read a seal name, ignoring case and surrounding whitespace.
pub fn parse_seal(value: &str) -> (r: Result<Seal, String>)
    ensures
        same_result(r, spec_seal_word(spec_lowercase(trim_chars(value@)))),
{
    let lowered = lowercase(trim(value));
    parse_seal_word(lowered.as_str())
}

/// What `parse_optional_seal` returns: no seal for `none`, `null` or `clear`.
pub open spec fn spec_optional_seal(value: Seq<char>) -> Result<Option<Seal>, Seq<char>> {
    let w = spec_lowercase(trim_chars(value));
    if spec_is_none_word(w) {
        Ok(None)
    } else {
        match spec_seal_word(w) {
            Ok(v) => Ok(Some(v)),
            Err(m) => Err(m),
        }
    }
}

/// Read a seal name, or a word meaning none.
pub fn parse_optional_seal(value: &str) -> (r: Result<Option<Seal>, String>)
    ensures
        same_result(r, spec_optional_seal(value@)),
{
    if is_none(value) {
        return Ok(None);
    }
    match parse_seal(value) {
        Ok(v) => Ok(Some(v)),
        Err(m) => Err(m),
    }
}

// ---------------------------------------------------------------------------
// Edit arguments
// ---------------------------------------------------------------------------

/// Changes to apply to cards; `None` leaves a field as it is.
#[derive(Debug, Clone, Copy)]
pub struct CardEdits {
    pub enhancement: Option<Option<Enhancement>>,
    pub edition: Option<Option<Edition>>,
    pub seal: Option<Option<Seal>>,
    pub bonus: Option<BonusEdit>,
    pub face_down: Option<bool>,
}

pub open spec fn no_edits() -> CardEdits {
    CardEdits { enhancement: None, edition: None, seal: None, bonus: None, face_down: None }
}

/// The key of a `key=value` argument: trimmed and lowercased.
pub open spec fn edit_key(arg: Seq<char>, k: int) -> Seq<char> {
    spec_lowercase(trim_chars(arg.subrange(0, k)))
}

/// The value of a `key=value` argument: trimmed.
pub open spec fn edit_value(arg: Seq<char>, k: int) -> Seq<char> {
    trim_chars(arg.subrange(k + 1, arg.len() as int))
}

/// Reading one argument: a `key=value` edit (at the first `=`) sets that edit; anything
/// else is an index token.
pub open spec fn edit_step(tokens: Seq<Seq<char>>, edits: CardEdits, arg: Seq<char>) -> Result<
    (Seq<Seq<char>>, CardEdits),
    Seq<char>,
> {
    match first_index_of(arg, '=') {
        None => Ok((tokens.push(arg), edits)),
        Some(k) => {
            let key = edit_key(arg, k);
            let value = edit_value(arg, k);
            if key == "enh"@ || key == "enhancement"@ {
                match spec_optional_enhancement(value) {
                    Ok(v) => Ok((tokens, CardEdits { enhancement: Some(v), ..edits })),
                    Err(m) => Err(m),
                }
            } else if key == "ed"@ || key == "edition"@ {
                match spec_optional_edition(value) {
                    Ok(v) => Ok((tokens, CardEdits { edition: Some(v), ..edits })),
                    Err(m) => Err(m),
                }
            } else if key == "seal"@ {
                match spec_optional_seal(value) {
                    Ok(v) => Ok((tokens, CardEdits { seal: Some(v), ..edits })),
                    Err(m) => Err(m),
                }
            } else if key == "bonus"@ {
                match spec_bonus_edit(value) {
                    Ok(v) => Ok((tokens, CardEdits { bonus: Some(v), ..edits })),
                    Err(m) => Err(m),
                }
            } else if key == "face"@ || key == "face_down"@ {
                match spec_parse_bool_word(spec_lowercase(trim_chars(value))) {
                    Ok(v) => Ok((tokens, CardEdits { face_down: Some(v), ..edits })),
                    Err(m) => Err(m),
                }
            } else {
                Err("unknown edit key '"@ + key + "'"@)
            }
        },
    }
}

/// The arguments read in order; the first rejected one decides the error.
pub open spec fn edit_fold(args: Seq<Seq<char>>) -> Result<(Seq<Seq<char>>, CardEdits), Seq<char>>
    decreases args.len(),
{
    if args.len() == 0 {
        Ok((Seq::empty(), no_edits()))
    } else {
        match edit_fold(args.drop_last()) {
            Err(m) => Err(m),
            Ok(acc) => edit_step(acc.0, acc.1, args.last()),
        }
    }
}

/// What `parse_edit_args` returns: the indices given and the edits asked for.
pub open spec fn spec_parse_edit_args(args: Seq<Seq<char>>) -> Result<(Seq<usize>, CardEdits), Seq<char>> {
    match edit_fold(args) {
        Err(m) => Err(m),
        Ok(acc) => match spec_parse_indices(acc.0) {
            Err(m) => Err(m),
            Ok(v) => Ok((v, acc.1)),
        },
    }
}

/// A `bonus=` argument asks for a representable change (other arguments always do).
pub open spec fn bonus_arg_fits(arg: Seq<char>) -> bool {
    match first_index_of(arg, '=') {
        Some(k) => edit_key(arg, k) == "bonus"@ ==> bonus_negation_fits(edit_value(arg, k)),
        None => true,
    }
}

/// Every `bonus=` edit that reading reaches (no earlier argument was rejected) asks for a
/// representable change.
pub open spec fn edit_args_ok(args: Seq<Seq<char>>) -> bool {
    forall|i: int|
        0 <= i < args.len() && edit_fold(args.subrange(0, i)) is Ok ==> #[trigger] bonus_arg_fits(args[i])
}

proof fn lemma_edit_fold_err_prefix(x: Seq<Seq<char>>, y: Seq<Seq<char>>)
    requires
        x.len() <= y.len(),
        forall|j: int| 0 <= j < x.len() ==> x[j] == y[j],
        edit_fold(x) is Err,
    ensures
        edit_fold(y) == edit_fold(x),
    decreases y.len(),
{
    if y.len() == x.len() {
        assert(x =~= y);
    } else {
        lemma_edit_fold_err_prefix(x, y.drop_last());
    }
}

/// Read the edit arguments in order: the index tokens kept, and the edits asked for.
fn fold_edit_args<'a>(args: &[&'a str]) -> (r: Result<(Vec<&'a str>, CardEdits), String>)
    requires
        edit_args_ok(str_views(args@)),
    ensures
        match edit_fold(str_views(args@)) {
            Ok(acc) => r is Ok && str_views(r->Ok_0.0@) == acc.0 && r->Ok_0.1 == acc.1,
            Err(m) => r is Err && r->Err_0@ == m,
        },
{
    let ghost views = str_views(args@);
    let mut tokens: Vec<&str> = Vec::new();
    let mut edits = CardEdits { enhancement: None, edition: None, seal: None, bonus: None, face_down: None };
    let mut i: usize = 0;
    assert(str_views(tokens@) =~= Seq::<Seq<char>>::empty());
    assert(views.subrange(0, 0) =~= Seq::<Seq<char>>::empty());
    while i < args.len()
        invariant
            i <= args@.len(),
            views == str_views(args@),
            edit_args_ok(views),
            edit_fold(views.subrange(0, i as int)) == Ok::<(Seq<Seq<char>>, CardEdits), Seq<char>>(
                (str_views(tokens@), edits),
            ),
        decreases args.len() - i,
    {
        let ghost upto = views.subrange(0, i + 1);
        assert(upto.drop_last() =~= views.subrange(0, i as int));
        assert(upto.last() == views[i as int]);
        let arg = args[i];
        let chars = chars_of(arg);
        match find_char(&chars, '=') {
            None => {
                let ghost before = tokens@;
                tokens.push(arg);
                assert(str_views(tokens@) =~= str_views(before).push(arg@));
            },
            Some(k) => {
                proof {
                    lemma_first_index(chars@, '=', k as int);
                }
                let key_chars = sub_chars(&chars, 0, k);
                let key_raw = string_of_chars(&key_chars, key_chars.len());
                assert(key_chars@.subrange(0, key_chars@.len() as int) =~= key_chars@);
                let key = lowercase(trim(key_raw.as_str()));
                let value_chars = sub_chars(&chars, k + 1, chars.len());
                let value_raw = string_of_chars(&value_chars, value_chars.len());
                assert(value_chars@.subrange(0, value_chars@.len() as int) =~= value_chars@);
                let value = trim(value_raw.as_str());
                let k_str = key.as_str();
                let step: Result<(), String> = if str_eq(k_str, "enh") || str_eq(k_str, "enhancement") {
                    match parse_optional_enhancement(value) {
                        Ok(v) => {
                            edits.enhancement = Some(v);
                            Ok(())
                        },
                        Err(m) => Err(m),
                    }
                } else if str_eq(k_str, "ed") || str_eq(k_str, "edition") {
                    match parse_optional_edition(value) {
                        Ok(v) => {
                            edits.edition = Some(v);
                            Ok(())
                        },
                        Err(m) => Err(m),
                    }
                } else if str_eq(k_str, "seal") {
                    match parse_optional_seal(value) {
                        Ok(v) => {
                            edits.seal = Some(v);
                            Ok(())
                        },
                        Err(m) => Err(m),
                    }
                } else if str_eq(k_str, "bonus") {
                    proof {
                        assert(views.subrange(0, i as int) == views.subrange(0, i as int));
                        assert(bonus_arg_fits(views[i as int]));
                    }
                    match parse_bonus_edit(value) {
                        Ok(v) => {
                            edits.bonus = Some(v);
                            Ok(())
                        },
                        Err(m) => Err(m),
                    }
                } else if str_eq(k_str, "face") || str_eq(k_str, "face_down") {
                    match parse_bool(value) {
                        Ok(v) => {
                            edits.face_down = Some(v);
                            Ok(())
                        },
                        Err(m) => Err(m),
                    }
                } else {
                    let mut msg = String::from_str("unknown edit key '");
                    msg.append(k_str);
                    msg.append("'");
                    Err(msg)
                };
                match step {
                    Ok(()) => {},
                    Err(m) => {
                        proof {
                            lemma_edit_fold_err_prefix(upto, views);
                        }
                        return Err(m);
                    },
                }
            },
        }
        i = i + 1;
    }
    assert(views.subrange(0, args@.len() as int) =~= views);
    Ok((tokens, edits))
}

/// Edit arguments such as `1 3 enh=glass seal=none bonus=+10 face=off`: `key=value`
/// edits and index tokens, in any order.
pub fn parse_edit_args(args: &[&str]) -> (r: Result<(Vec<usize>, CardEdits), String>)
    requires
        edit_args_ok(str_views(args@)),
    ensures
        match spec_parse_edit_args(str_views(args@)) {
            Ok(v) => r is Ok && r->Ok_0.0@ == v.0 && r->Ok_0.1 == v.1,
            Err(m) => r is Err && r->Err_0@ == m,
        },
{
    match fold_edit_args(args) {
        Ok((tokens, edits)) => match parse_indices_result(tokens.as_slice()) {
            Ok(indices) => Ok((indices, edits)),
            Err(m) => Err(m),
        },
        Err(m) => Err(m),
    }
}

// ---------------------------------------------------------------------------
// Applying edits and picking cards
// ---------------------------------------------------------------------------

/// `a + b`, clamped to the `i64` range.
pub open spec fn saturating_sum(a: i64, b: i64) -> i64 {
    if a + b > i64::MAX {
        i64::MAX
    } else if a + b < i64::MIN {
        i64::MIN
    } else {
        (a + b) as i64
    }
}

fn add_saturating(a: i64, b: i64) -> (r: i64)
    ensures
        r == saturating_sum(a, b),
{
    match a.checked_add(b) {
        Some(v) => v,
        None => if b > 0 {
            i64::MAX
        } else {
            i64::MIN
        },
    }
}

/// A card with the edits applied; a bonus added saturates.
pub open spec fn edited_card(c: Card, e: CardEdits) -> Card {
    Card {
        enhancement: match e.enhancement {
            Some(v) => v,
            None => c.enhancement,
        },
        edition: match e.edition {
            Some(v) => v,
            None => c.edition,
        },
        seal: match e.seal {
            Some(v) => v,
            None => c.seal,
        },
        bonus_chips: match e.bonus {
            Some(BonusEdit::SetTo(v)) => v,
            Some(BonusEdit::Add(d)) => saturating_sum(c.bonus_chips, d),
            None => c.bonus_chips,
        },
        face_down: match e.face_down {
            Some(b) => b,
            None => c.face_down,
        },
        ..c
    }
}

fn edit_card(c: Card, e: &CardEdits) -> (out: Card)
    ensures
        out == edited_card(c, *e),
{
    let mut out = c;
    if let Some(v) = e.enhancement {
        out.enhancement = v;
    }
    if let Some(v) = e.edition {
        out.edition = v;
    }
    if let Some(v) = e.seal {
        out.seal = v;
    }
    match e.bonus {
        Some(BonusEdit::SetTo(v)) => {
            out.bonus_chips = v;
        },
        Some(BonusEdit::Add(d)) => {
            out.bonus_chips = add_saturating(c.bonus_chips, d);
        },
        None => {},
    }
    if let Some(b) = e.face_down {
        out.face_down = b;
    }
    out
}

/// The hand after editing the cards at `indices`, one after another (a repeated index is
/// edited again).
pub open spec fn edited_hand(h: Seq<Card>, indices: Seq<usize>, e: CardEdits) -> Seq<Card>
    decreases indices.len(),
{
    if indices.len() == 0 {
        h
    } else {
        let g = edited_hand(h, indices.drop_last(), e);
        g.update(indices.last() as int, edited_card(g[indices.last() as int], e))
    }
}

proof fn lemma_edited_hand_len(h: Seq<Card>, indices: Seq<usize>, e: CardEdits)
    requires
        forall|k: int| 0 <= k < indices.len() ==> indices[k] < h.len(),
    ensures
        edited_hand(h, indices, e).len() == h.len(),
    decreases indices.len(),
{
    if indices.len() > 0 {
        lemma_edited_hand_len(h, indices.drop_last(), e);
    }
}

/// `indices[k]` is the first index past the end of a hand of `n` cards.
pub open spec fn first_out_of_range(indices: Seq<usize>, n: int, k: int) -> bool {
    &&& 0 <= k < indices.len()
    &&& indices[k] >= n
    &&& forall|m: int| 0 <= m < k ==> indices[m] < n
}

/// Apply `edits` to the cards of `hand` at `indices`. Nothing changes when no index is
/// given or an index is past the end of the hand.
pub fn apply_card_edits(hand: &mut [Card], indices: &[usize], edits: CardEdits) -> (r: Result<(), String>)
    ensures
        indices@.len() == 0 ==> r is Err && r->Err_0@ == "missing indices"@ && final(hand)@ == old(hand)@,
        indices@.len() > 0 && (exists|k: int| 0 <= k < indices@.len() && indices@[k] >= old(hand)@.len()) ==> {
            &&& r is Err
            &&& final(hand)@ == old(hand)@
            &&& forall|k: int| first_out_of_range(indices@, old(hand)@.len() as int, k) ==> r->Err_0@ == "index "@
                + decimal(indices@[k] as nat) + " out of range"@
        },
        indices@.len() > 0 && (forall|k: int| 0 <= k < indices@.len() ==> indices@[k] < old(hand)@.len()) ==> r
            is Ok && final(hand)@ == edited_hand(old(hand)@, indices@, edits),
{
    if indices.len() == 0 {
        return Err(String::from_str("missing indices"));
    }
    let n = hand.len();
    let mut i: usize = 0;
    while i < indices.len()
        invariant
            n == hand@.len(),
            hand@ == old(hand)@,
            i <= indices@.len(),
            forall|m: int| 0 <= m < i ==> indices@[m] < n,
        decreases indices.len() - i,
    {
        let idx = indices[i];
        if idx >= n {
            let mut msg = String::from_str("index ");
            push_decimal(&mut msg, idx as u64);
            msg.append(" out of range");
            proof {
                assert(first_out_of_range(indices@, n as int, i as int));
                assert forall|k: int| first_out_of_range(indices@, old(hand)@.len() as int, k) implies k == i by {
                    if k < i {
                        assert(indices@[k] < n);
                    } else if k > i {
                        assert(indices@[i as int] < n);
                    }
                }
            }
            return Err(msg);
        }
        i = i + 1;
    }
    let mut j: usize = 0;
    while j < indices.len()
        invariant
            n == old(hand)@.len(),
            j <= indices@.len(),
            forall|m: int| 0 <= m < indices@.len() ==> indices@[m] < n,
            hand@ == edited_hand(old(hand)@, indices@.subrange(0, j as int), edits),
        decreases indices.len() - j,
    {
        let idx = indices[j];
        proof {
            let sub = indices@.subrange(0, j + 1);
            assert(sub.drop_last() =~= indices@.subrange(0, j as int));
            lemma_edited_hand_len(old(hand)@, indices@.subrange(0, j as int), edits);
        }
        let c = hand[idx];
        hand[idx] = edit_card(c, &edits);
        j = j + 1;
    }
    assert(indices@.subrange(0, indices@.len() as int) =~= indices@);
    Ok(())
}

/// `d` strictly decreases.
pub open spec fn strictly_decreasing(d: Seq<usize>) -> bool {
    forall|i: int, j: int| 0 <= i < j < d.len() ==> d[i] > d[j]
}

/// The cards played for the selected `indices`: each selected card once, highest index
/// first. Refused when nothing is selected or an index is past the end of the hand.
pub fn collect_played_cards(hand: &[Card], indices: &[usize]) -> (r: Result<Vec<Card>, RunError>)
    ensures
        indices@.len() == 0 ==> r == Err::<Vec<Card>, RunError>(RunError::InvalidSelection),
        (exists|k: int| 0 <= k < indices@.len() && indices@[k] >= hand@.len()) ==> r == Err::<
            Vec<Card>,
            RunError,
        >(RunError::InvalidSelection),
        indices@.len() > 0 && (forall|k: int| 0 <= k < indices@.len() ==> indices@[k] < hand@.len()) ==> r is Ok
            && exists|d: Seq<usize>|
            strictly_decreasing(d) && d.to_set() == indices@.to_set() && r->Ok_0@ == d.map_values(
                |i: usize| hand@[i as int],
            ),
{
    if indices.len() == 0 {
        return Err(RunError::InvalidSelection);
    }
    let mut i: usize = 0;
    while i < indices.len()
        invariant
            i <= indices@.len(),
            forall|m: int| 0 <= m < i ==> indices@[m] < hand@.len(),
        decreases indices.len() - i,
    {
        if indices[i] >= hand.len() {
            return Err(RunError::InvalidSelection);
        }
        i = i + 1;
    }
    let mut picked: Vec<Card> = Vec::new();
    let ghost mut d: Seq<usize> = Seq::empty();
    let mut bound: usize = hand.len();
    loop
        invariant
            indices@.len() > 0,
            bound <= hand@.len(),
            forall|m: int| 0 <= m < indices@.len() ==> indices@[m] < hand@.len(),
            strictly_decreasing(d),
            forall|t: int| 0 <= t < d.len() ==> d[t] >= bound && indices@.contains(d[t]),
            forall|m: int| 0 <= m < indices@.len() && indices@[m] >= bound ==> d.contains(indices@[m]),
            picked@ == d.map_values(|x: usize| hand@[x as int]),
        decreases bound,
    {
        let mut best: Option<usize> = None;
        let mut k: usize = 0;
        while k < indices.len()
            invariant
                k <= indices@.len(),
                match best {
                    Some(b) => b < bound && indices@.subrange(0, k as int).contains(b) && forall|m: int|
                        0 <= m < k && indices@[m] < bound ==> indices@[m] <= b,
                    None => forall|m: int| 0 <= m < k ==> indices@[m] >= bound,
                },
            decreases indices.len() - k,
        {
            let v = indices[k];
            if v < bound {
                match best {
                    Some(b) => {
                        if v > b {
                            best = Some(v);
                        }
                    },
                    None => {
                        best = Some(v);
                    },
                }
            }
            proof {
                let sub = indices@.subrange(0, k + 1);
                assert(sub[k as int] == v);
                if best is Some {
                    let b = best->0;
                    if b != v {
                        let w = choose|w: int| 0 <= w < k && indices@.subrange(0, k as int)[w] == b;
                        assert(sub[w] == b);
                    }
                }
            }
            k = k + 1;
        }
        match best {
            None => {
                proof {
                    assert(indices@.subrange(0, indices@.len() as int) =~= indices@);
                    assert forall|x: usize| d.to_set().contains(x) <==> indices@.to_set().contains(x) by {
                        if indices@.contains(x) {
                            let m = choose|m: int| 0 <= m < indices@.len() && indices@[m] == x;
                            assert(d.contains(indices@[m]));
                        }
                    }
                    assert(d.to_set() =~= indices@.to_set());
                }
                return Ok(picked);
            },
            Some(b) => {
                proof {
                    assert(indices@.subrange(0, indices@.len() as int) =~= indices@);
                    let w = choose|w: int| 0 <= w < indices@.len() && indices@.subrange(0, indices@.len() as int)[w] == b;
                    assert(indices@[w] == b);
                }
                let ghost before = d;
                picked.push(hand[b]);
                proof {
                    d = d.push(b);
                    assert(picked@ =~= d.map_values(|x: usize| hand@[x as int]));
                    assert forall|m: int| 0 <= m < indices@.len() && indices@[m] >= b implies d.contains(indices@[m]) by {
                        if indices@[m] == b {
                            assert(d[d.len() - 1] == b);
                        } else {
                            assert(before.contains(indices@[m]));
                            let t = choose|t: int| 0 <= t < before.len() && before[t] == indices@[m];
                            assert(d[t] == indices@[m]);
                        }
                    }
                }
                bound = b;
            },
        }
    }
}

/// The hand without the cards at the selected positions; the others keep their order.
/// A position selected more than once is removed once.
pub open spec fn without_positions(hand: Seq<Card>, indices: Seq<usize>) -> Seq<Card>
    decreases hand.len(),
{
    if hand.len() == 0 {
        Seq::empty()
    } else {
        let rest = without_positions(hand.drop_last(), indices);
        if indices.contains((hand.len() - 1) as usize) {
            rest
        } else {
            rest.push(hand.last())
        }
    }
}

/// Whether `x` is one of `indices`.
fn contains_index(indices: &[usize], x: usize) -> (b: bool)
    ensures
        b == indices@.contains(x),
{
    let mut k: usize = 0;
    while k < indices.len()
        invariant
            k <= indices@.len(),
            forall|m: int| 0 <= m < k ==> indices@[m] != x,
        decreases indices.len() - k,
    {
        if indices[k] == x {
            return true;
        }
        k = k + 1;
    }
    false
}

/// Removes the cards at the selected positions from the hand, keeping the others in
/// their order.
pub fn remove_selected(hand: &mut Vec<Card>, indices: &[usize])
    requires
        forall|k: int| 0 <= k < indices@.len() ==> indices@[k] < old(hand)@.len(),
    ensures
        final(hand)@ == without_positions(old(hand)@, indices@),
{
    let mut kept: Vec<Card> = Vec::new();
    let mut i: usize = 0;
    while i < hand.len()
        invariant
            i <= hand@.len(),
            kept@ == without_positions(hand@.take(i as int), indices@),
        decreases hand.len() - i,
    {
        let ghost before = hand@.take(i as int);
        proof {
            assert(hand@.take(i + 1).drop_last() =~= before);
        }
        if !contains_index(indices, i) {
            kept.push(hand[i]);
        }
        i = i + 1;
    }
    proof {
        assert(hand@.take(hand@.len() as int) =~= hand@);
    }
    *hand = kept;
}

/// Takes the selected cards out of the hand: the played cards as `collect_played_cards`
/// gives them, and the hand left without them. A refused selection leaves the hand as
/// it was.
pub fn take_selected(hand: &mut Vec<Card>, indices: &[usize]) -> (r: Result<Vec<Card>, RunError>)
    ensures
        indices@.len() == 0 ==> r == Err::<Vec<Card>, RunError>(RunError::InvalidSelection),
        (exists|k: int| 0 <= k < indices@.len() && indices@[k] >= old(hand)@.len()) ==> r == Err::<
            Vec<Card>,
            RunError,
        >(RunError::InvalidSelection),
        indices@.len() > 0 && (forall|k: int| 0 <= k < indices@.len() ==> indices@[k] < old(hand)@.len()) ==> r is Ok
            && exists|d: Seq<usize>|
            strictly_decreasing(d) && d.to_set() == indices@.to_set() && r->Ok_0@ == d.map_values(
                |i: usize| old(hand)@[i as int],
            ),
        r is Ok ==> final(hand)@ == without_positions(old(hand)@, indices@),
        r is Err ==> final(hand)@ == old(hand)@,
{
    let picked = collect_played_cards(hand.as_slice(), indices);
    match picked {
        Ok(cards) => {
            remove_selected(hand, indices);
            Ok(cards)
        },
        Err(e) => Err(e),
    }
}

// ---------------------------------------------------------------------------
// Card text and value
// ---------------------------------------------------------------------------

/// The modifier tags shown after a card: enhancement, edition, seal, and `Bonus` when it
/// has bonus chips.
pub open spec fn card_tags(c: Card) -> Seq<Seq<char>> {
    let t1 = match c.enhancement {
        Some(e) => seq![spec_enhancement_short(e)],
        None => Seq::empty(),
    };
    let t2 = match c.edition {
        Some(e) => seq![spec_edition_short(e)],
        None => Seq::empty(),
    };
    let t3 = match c.seal {
        Some(e) => seq![spec_seal_short(e)],
        None => Seq::empty(),
    };
    let t4 = if c.bonus_chips != 0 {
        seq!["Bonus"@]
    } else {
        Seq::empty()
    };
    t1 + t2 + t3 + t4
}

/// Compact text of a card: `??` when face down, else rank and suit symbols with the tags
/// in brackets, as in `AS [Glass,Foil]`.
pub open spec fn spec_format_card(c: Card) -> Seq<char> {
    if c.face_down {
        "??"@
    } else {
        let base = spec_rank_short(c.rank) + spec_suit_short(c.suit);
        let tags = card_tags(c);
        if tags.len() == 0 {
            base
        } else {
            base + " ["@ + join_with(tags, ","@) + "]"@
        }
    }
}

fn push_tag(tags: &mut Vec<String>, tag: String)
    ensures
        string_views(final(tags)@) == string_views(old(tags)@).push(tag@),
{
    let ghost t = tag@;
    tags.push(tag);
    assert(string_views(tags@) =~= string_views(old(tags)@).push(t));
}

/// Compact text of a card.
pub fn format_card(card: &Card) -> (out: String)
    ensures
        out@ == spec_format_card(*card),
{
    if card.face_down {
        return String::from_str("??");
    }
    let mut out = String::from_str(rank_short(card.rank));
    out.append(suit_short(card.suit));
    let mut tags: Vec<String> = Vec::new();
    assert(string_views(tags@) =~= Seq::<Seq<char>>::empty());
    if let Some(e) = card.enhancement {
        push_tag(&mut tags, String::from_str(enhancement_short(e)));
    }
    if let Some(e) = card.edition {
        push_tag(&mut tags, String::from_str(edition_short(e)));
    }
    if let Some(e) = card.seal {
        push_tag(&mut tags, String::from_str(seal_short(e)));
    }
    if card.bonus_chips != 0 {
        push_tag(&mut tags, String::from_str("Bonus"));
    }
    assert(string_views(tags@) =~= card_tags(*card));
    if tags.len() > 0 {
        out.append(" [");
        let joined = join_strings(&tags, ",");
        out.append(joined.as_str());
        out.append("]");
    }
    out
}

/// The tags of the long card text.
pub open spec fn detail_tags(c: Card) -> Seq<Seq<char>> {
    let t0 = seq![spec_rank_debug_name(c.rank) + spec_suit_debug_name(c.suit)];
    let t1 = match c.enhancement {
        Some(e) => seq!["enh="@ + spec_enhancement_short(e)],
        None => Seq::empty(),
    };
    let t2 = match c.edition {
        Some(e) => seq!["ed="@ + spec_edition_short(e)],
        None => Seq::empty(),
    };
    let t3 = match c.seal {
        Some(e) => seq!["seal="@ + spec_seal_short(e)],
        None => Seq::empty(),
    };
    let t4 = if c.bonus_chips != 0 {
        seq!["bonus="@ + int_text(c.bonus_chips as int)]
    } else {
        Seq::empty()
    };
    t0 + t1 + t2 + t3 + t4
}

/// Long text of a card: `face_down`, or its rank and suit names and modifiers, as in
/// `AceSpades enh=Glass bonus=5`.
pub open spec fn spec_card_detail(c: Card) -> Seq<char> {
    if c.face_down {
        "face_down"@
    } else {
        join_with(detail_tags(c), " "@)
    }
}

fn tag_of(prefix: &str, name: &str) -> (out: String)
    ensures
        out@ == prefix@ + name@,
{
    let mut out = String::from_str(prefix);
    out.append(name);
    out
}

/// Long text of a card.
pub fn card_detail(card: &Card) -> (out: String)
    ensures
        out@ == spec_card_detail(*card),
{
    if card.face_down {
        return String::from_str("face_down");
    }
    let mut tags: Vec<String> = Vec::new();
    assert(string_views(tags@) =~= Seq::<Seq<char>>::empty());
    push_tag(&mut tags, tag_of(rank_debug_name(card.rank), suit_debug_name(card.suit)));
    if let Some(e) = card.enhancement {
        push_tag(&mut tags, tag_of("enh=", enhancement_short(e)));
    }
    if let Some(e) = card.edition {
        push_tag(&mut tags, tag_of("ed=", edition_short(e)));
    }
    if let Some(e) = card.seal {
        push_tag(&mut tags, tag_of("seal=", seal_short(e)));
    }
    if card.bonus_chips != 0 {
        let mut t = String::from_str("bonus=");
        push_int(&mut t, card.bonus_chips);
        push_tag(&mut tags, t);
    }
    assert(string_views(tags@) =~= detail_tags(*card));
    join_strings(&tags, " ")
}

/// Chips a card adds when scored: its rank's chips plus its bonus; stone cards add none
/// here.
pub fn card_value(card: &Card, rank_chips: i64) -> (v: i64)
    requires
        !card.spec_is_stone() ==> i64::MIN <= rank_chips + card.bonus_chips <= i64::MAX,
    ensures
        v == if card.spec_is_stone() {
            0
        } else {
            rank_chips + card.bonus_chips
        },
{
    if card.is_stone() {
        return 0;
    }
    rank_chips + card.bonus_chips
}

/// Integer division rounding toward zero, as Rust's `/` does (for `b > 0`).
pub open spec fn trunc_div(a: int, b: int) -> int {
    if a >= 0 {
        a / b
    } else {
        -((-a) / b)
    }
}

/// Interest paid at the end of a round: one `per` for each full `step` of money, at most
/// `cap / per` of them; nothing when `step` or `per` is not positive.
pub open spec fn spec_interest(money: i64, step: i64, per: i64, cap: i64) -> int {
    if step <= 0 || per <= 0 {
        0
    } else {
        let steps = if trunc_div(money as int, step as int) > 0 {
            trunc_div(money as int, step as int)
        } else {
            0
        };
        let cap_steps = trunc_div(cap as int, per as int);
        let capped = if steps < cap_steps {
            steps
        } else {
            cap_steps
        };
        capped * per
    }
}

/// Interest the current money would earn.
pub fn estimate_interest(money: i64, interest_step: i64, interest_per: i64, interest_cap: i64) -> (v: i64)
    ensures
        v == spec_interest(money, interest_step, interest_per, interest_cap),
{
    if interest_step <= 0 || interest_per <= 0 {
        return 0;
    }
    let q = money / interest_step;
    let steps = if q > 0 {
        q
    } else {
        0
    };
    let cap_steps = interest_cap / interest_per;
    let capped = if steps < cap_steps {
        steps
    } else {
        cap_steps
    };
    proof {
        let c = interest_cap as int;
        let p = interest_per as int;
        if c >= 0 {
            assert(0 <= (c / p) * p <= c) by (nonlinear_arith)
                requires
                    c >= 0,
                    p > 0,
            ;
        } else {
            assert(0 <= ((-c) / p) * p <= -c) by (nonlinear_arith)
                requires
                    -c >= 0,
                    p > 0,
            ;
        }
        assert(i64::MIN <= cap_steps * p <= i64::MAX) by (nonlinear_arith)
            requires
                cap_steps == trunc_div(c, p),
                c >= 0 ==> 0 <= (c / p) * p <= c,
                c < 0 ==> 0 <= ((-c) / p) * p <= -c,
                i64::MIN <= c <= i64::MAX,
        ;
        if steps < cap_steps {
            assert(0 <= capped * p <= cap_steps * p) by (nonlinear_arith)
                requires
                    0 <= capped <= cap_steps,
                    p > 0,
            ;
        }
    }
    capped * interest_per
}

/// Edits that change nothing leave every card as it is.
pub proof fn law_no_edits_identity(hand: Seq<Card>, indices: Seq<usize>)
    requires
        forall|k: int| 0 <= k < indices.len() ==> indices[k] < hand.len(),
    ensures
        edited_hand(hand, indices, no_edits()) == hand,
    decreases indices.len(),
{
    if indices.len() > 0 {
        law_no_edits_identity(hand, indices.drop_last());
        let i = indices.last() as int;
        assert(edited_card(hand[i], no_edits()) == hand[i]);
        assert(hand.update(i, hand[i]) =~= hand);
    }
}

proof fn lemma_decreasing_head_is_max(a: Seq<usize>, x: usize)
    requires
        strictly_decreasing(a),
        a.len() > 0,
        a.contains(x),
    ensures
        x <= a[0],
{
    let k = choose|k: int| 0 <= k < a.len() && a[k] == x;
    if k > 0 {
        assert(a[0] > a[k]);
    }
}

/// The played-card order is determined: two highest-first index lists with the same
/// indices are the same list.
pub proof fn law_played_order_determined(a: Seq<usize>, b: Seq<usize>)
    requires
        strictly_decreasing(a),
        strictly_decreasing(b),
        a.to_set() == b.to_set(),
    ensures
        a == b,
    decreases a.len(),
{
    if a.len() == 0 {
        if b.len() > 0 {
            assert(b.to_set().contains(b[0]));
            assert(a.to_set().contains(b[0]));
        }
        assert(a =~= b);
    } else {
        assert(a.to_set().contains(a[0]));
        assert(b.contains(a[0]));
        assert(b.len() > 0);
        assert(b.to_set().contains(b[0]));
        assert(a.contains(b[0]));
        lemma_decreasing_head_is_max(a, b[0]);
        lemma_decreasing_head_is_max(b, a[0]);
        let ta = a.drop_first();
        let tb = b.drop_first();
        assert forall|x: usize| ta.to_set().contains(x) <==> tb.to_set().contains(x) by {
            if ta.contains(x) {
                let k = choose|k: int| 0 <= k < ta.len() && ta[k] == x;
                assert(a[k + 1] == x);
                assert(a[0] > a[k + 1]);
                assert(a.to_set().contains(x));
                assert(b.contains(x));
                let m = choose|m: int| 0 <= m < b.len() && b[m] == x;
                assert(m != 0);
                assert(tb[m - 1] == x);
            }
            if tb.contains(x) {
                let k = choose|k: int| 0 <= k < tb.len() && tb[k] == x;
                assert(b[k + 1] == x);
                assert(b[0] > b[k + 1]);
                assert(b.to_set().contains(x));
                assert(a.contains(x));
                let m = choose|m: int| 0 <= m < a.len() && a[m] == x;
                assert(m != 0);
                assert(ta[m - 1] == x);
            }
        }
        assert(ta.to_set() =~= tb.to_set());
        law_played_order_determined(ta, tb);
        assert(a =~= seq![a[0]] + ta);
        assert(b =~= seq![b[0]] + tb);
    }
}

/// The arguments before `i` are readable when every bonus edit reached before `i` fits.
proof fn lemma_prefix_args_ok(views: Seq<Seq<char>>, i: int)
    requires
        0 <= i <= views.len(),
        forall|j: int| 0 <= j < i && edit_fold(views.subrange(0, j)) is Ok ==> #[trigger] bonus_arg_fits(views[j]),
    ensures
        edit_args_ok(views.subrange(0, i)),
{
    let pv = views.subrange(0, i);
    assert forall|j: int| 0 <= j < pv.len() && edit_fold(pv.subrange(0, j)) is Ok implies #[trigger] bonus_arg_fits(
        pv[j],
    ) by {
        assert(pv.subrange(0, j) =~= views.subrange(0, j));
        assert(pv[j] == views[j]);
    }
}

/// Once the arguments before `i` fail, no later bonus edit is reached.
proof fn lemma_args_ok_after_error(views: Seq<Seq<char>>, i: int)
    requires
        0 <= i <= views.len(),
        forall|j: int| 0 <= j < i && edit_fold(views.subrange(0, j)) is Ok ==> #[trigger] bonus_arg_fits(views[j]),
        edit_fold(views.subrange(0, i)) is Err,
    ensures
        edit_args_ok(views),
{
    let pv = views.subrange(0, i);
    assert forall|j: int| 0 <= j < views.len() && edit_fold(views.subrange(0, j)) is Ok implies #[trigger] bonus_arg_fits(
        views[j],
    ) by {
        if j >= i {
            lemma_edit_fold_err_prefix(pv, views.subrange(0, j));
        }
    }
}

fn bonus_arg_fits_exec(arg: &str) -> (b: bool)
    ensures
        b == bonus_arg_fits(arg@),
{
    let chars = chars_of(arg);
    let n = chars.len();
    match find_char(&chars, '=') {
        None => true,
        Some(k) => {
            proof {
                lemma_first_index(chars@, '=', k as int);
            }
            let key_chars = sub_chars(&chars, 0, k);
            let key_raw = string_of_chars(&key_chars, key_chars.len());
            assert(key_chars@.subrange(0, key_chars@.len() as int) =~= key_chars@);
            let key = lowercase(trim(key_raw.as_str()));
            if str_eq(key.as_str(), "bonus") {
                let value_chars = sub_chars(&chars, k + 1, n);
                let value_raw = string_of_chars(&value_chars, value_chars.len());
                assert(value_chars@.subrange(0, value_chars@.len() as int) =~= value_chars@);
                let value = trim(value_raw.as_str());
                bonus_negation_ok(value)
            } else {
                true
            }
        },
    }
}

/// Whether `parse_edit_args` can read the arguments without overflow: no `bonus=` edit it
/// reaches asks for a change that cannot be negated.
pub fn edit_args_representable(args: &[&str]) -> (b: bool)
    ensures
        b == edit_args_ok(str_views(args@)),
{
    let ghost views = str_views(args@);
    let mut i: usize = 0;
    while i < args.len()
        invariant
            i <= args@.len(),
            views == str_views(args@),
            forall|j: int|
                0 <= j < i && edit_fold(views.subrange(0, j)) is Ok ==> #[trigger] bonus_arg_fits(views[j]),
        decreases args.len() - i,
    {
        assert(views[i as int] == args@[i as int]@);
        if !bonus_arg_fits_exec(args[i]) {
            let mut prefix: Vec<&str> = Vec::new();
            let mut q: usize = 0;
            while q < i
                invariant
                    q <= i < args@.len(),
                    prefix@ == args@.subrange(0, q as int),
                decreases i - q,
            {
                prefix.push(args[q]);
                q = q + 1;
                assert(prefix@ =~= args@.subrange(0, q as int));
            }
            proof {
                lemma_prefix_args_ok(views, i as int);
                assert(str_views(prefix@) =~= views.subrange(0, i as int));
            }
            let r = fold_edit_args(prefix.as_slice());
            match r {
                Ok(_) => {
                    return false;
                },
                Err(_) => {
                    proof {
                        lemma_args_ok_after_error(views, i as int);
                    }
                    return true;
                },
            }
        }
        i = i + 1;
    }
    true
}

} // verus!
