//! Pure helpers of the interactive command line: locale texts, line editing,
//! tab completion, argument parsing and the save-file signature hash.
use crate::options::opt_string_view;
use crate::labels::{blind_label, phase_label, spec_blind_label, spec_phase_label};
use crate::parse::{
    lemma_index_errors, parse_indices_result, parse_optional_indices, parse_usize_range, spec_parse_indices,
    spec_parse_usize, trim_range,
};
use crate::run::{BlindKind, BlindOutcome, Phase};
use crate::text::{
    split_on_char,
    chars_of, decimal, is_whitespace, lemma_words_nonempty, push_char, push_decimal, signed_decimal, split_words,
    str_eq, str_views, string_of_chars, string_views, sub_chars, trim, trim_chars, trim_end, trim_end_chars,
    words, int_text, push_int,
};
use vstd::prelude::*;
use vstd::string::StringSliceAdditionalSpecFns;
use vstd::utf8::{decode_utf8, encode_utf8, is_char_boundary, is_continuation_byte};

verus! {

broadcast use vstd::utf8::encode_utf8_valid_utf8;

/// Language of the interface.
#[derive(Debug, Clone, Copy, PartialEq, Eq, Structural)]
pub enum UiLocale {
    EnUs,
    ZhCn,
}

/// Code of a locale: `en_US` or `zh_CN`.
pub open spec fn spec_locale_code(l: UiLocale) -> Seq<char> {
    match l {
        UiLocale::EnUs => "en_US"@,
        UiLocale::ZhCn => "zh_CN"@,
    }
}

/// Locale named by an optional command-line argument: `zh`, in either ASCII case, at the
/// start of the trimmed argument names Chinese.
pub open spec fn spec_locale_of_arg(arg: Option<Seq<char>>) -> UiLocale {
    match arg {
        Some(s) => {
            let t = trim_chars(s);
            if t.len() >= 2 && (t[0] == 'z' || t[0] == 'Z') && (t[1] == 'h' || t[1] == 'H') {
                UiLocale::ZhCn
            } else {
                UiLocale::EnUs
            }
        },
        None => UiLocale::EnUs,
    }
}

impl UiLocale {
    /// Locale code as used for content lookup.
    pub fn code(self) -> (s: &'static str)
        ensures
            s@ == spec_locale_code(self),
    {
        match self {
            UiLocale::EnUs => "en_US",
            UiLocale::ZhCn => "zh_CN",
        }
    }

    /// The locale of a normalized locale code: Chinese for `zh_CN`, English otherwise.
    pub fn from_normalized(code: &str) -> (l: Self)
        ensures
            l == (if code@ == "zh_CN"@ {
                UiLocale::ZhCn
            } else {
                UiLocale::EnUs
            }),
    {
        if str_eq(code, "zh_CN") {
            UiLocale::ZhCn
        } else {
            UiLocale::EnUs
        }
    }

    /// The locale a command-line argument names: Chinese when the argument, trimmed and
    /// with ASCII letters lowercased, starts with `zh`; English otherwise or when absent.
    pub fn from_opt(value: Option<&str>) -> (l: Self)
        ensures
            l == spec_locale_of_arg(
                match value {
                    Some(s) => Some(s@),
                    None => None,
                },
            ),
    {
        match value {
            None => UiLocale::EnUs,
            Some(s) => {
                let t = chars_of(trim(s));
                if t.len() >= 2 && (t[0] == 'z' || t[0] == 'Z') && (t[1] == 'h' || t[1] == 'H') {
                    UiLocale::ZhCn
                } else {
                    UiLocale::EnUs
                }
            },
        }
    }

    /// Pick the text for this locale.
    pub fn text<'a>(self, en: &'a str, zh: &'a str) -> (s: &'a str)
        ensures
            s == if self == UiLocale::ZhCn {
                zh
            } else {
                en
            },
    {
        match self {
            UiLocale::ZhCn => zh,
            UiLocale::EnUs => en,
        }
    }
}

/// The path a save or load command names: its first argument, else the default path
/// that the caller looked up (none where it has none).
pub fn parse_optional_path(args: &[&str], default: Option<String>) -> (p: Option<String>)
    ensures
        opt_string_view(p) == (if args@.len() > 0 {
            Some(args@[0]@)
        } else {
            opt_string_view(default)
        }),
{
    if args.len() > 0 {
        Some(String::from_str(args[0]))
    } else {
        default
    }
}

/// Seed of a new run when none is given.
pub fn default_run_seed() -> (seed: u64)
    ensures
        seed == 0xC0FFEE,
{
    0xC0FFEE
}

// ---------------------------------------------------------------------------
// FNV-1a hash for save signatures
// ---------------------------------------------------------------------------

/// 64-bit FNV-1a offset basis.
pub open spec fn fnv_offset() -> u64 {
    0xcbf29ce484222325u64
}

/// FNV-1a state after feeding `bytes` to state `h`.
pub open spec fn fnv_feed(h: u64, bytes: Seq<u8>) -> u64
    decreases bytes.len(),
{
    if bytes.len() == 0 {
        h
    } else {
        let prev = fnv_feed(h, bytes.drop_last());
        (prev ^ (bytes.last() as u64)).wrapping_mul(0x100000001b3u64)
    }
}

/// Incremental FNV-1a hash.
#[derive(Debug, Clone, Copy, PartialEq, Eq)]
pub struct Fnv64(pub u64);

impl Fnv64 {
    pub fn new() -> (h: Self)
        ensures
            h.0 == fnv_offset(),
    {
        Fnv64(0xcbf29ce484222325)
    }

    /// Feed bytes: for each byte, xor it in and multiply by the FNV prime, wrapping.
    pub fn update(&mut self, bytes: &[u8])
        ensures
            final(self).0 == fnv_feed(old(self).0, bytes@),
    {
        let ghost start = self.0;
        let mut i: usize = 0;
        while i < bytes.len()
            invariant
                i <= bytes.len(),
                self.0 == fnv_feed(start, bytes@.subrange(0, i as int)),
            decreases bytes.len() - i,
        {
            let ghost prefix = bytes@.subrange(0, i + 1);
            assert(prefix.drop_last() =~= bytes@.subrange(0, i as int));
            self.0 = (self.0 ^ (bytes[i] as u64)).wrapping_mul(0x100000001b3);
            i = i + 1;
        }
        assert(bytes@.subrange(0, bytes.len() as int) =~= bytes@);
    }

    pub fn finish(self) -> (h: u64)
        ensures
            h == self.0,
    {
        self.0
    }
}

proof fn lemma_fnv_feed_concat(h: u64, a: Seq<u8>, b: Seq<u8>)
    ensures
        fnv_feed(h, a + b) == fnv_feed(fnv_feed(h, a), b),
    decreases b.len(),
{
    if b.len() == 0 {
        assert(a + b =~= a);
    } else {
        lemma_fnv_feed_concat(h, a, b.drop_last());
        assert((a + b).drop_last() =~= a + b.drop_last());
    }
}

/// Feeding bytes in pieces gives the same hash as feeding them at once.
pub proof fn law_fnv_streaming(h: u64, a: Seq<u8>, b: Seq<u8>)
    ensures
        fnv_feed(fnv_feed(h, a), b) == fnv_feed(h, a + b),
{
    lemma_fnv_feed_concat(h, a, b);
}

// ---------------------------------------------------------------------------
// Cursor movement over UTF-8 text
// ---------------------------------------------------------------------------

/// Byte index of the start of the character before `index`.
pub fn prev_char_boundary(text: &str, index: usize) -> (r: usize)
    requires
        index <= text.spec_bytes().len(),
        is_char_boundary(text.spec_bytes(), index as int),
    ensures
        index == 0 ==> r == 0,
        index > 0 ==> r < index && is_char_boundary(text.spec_bytes(), r as int) && forall|j: int|
            r < j < index ==> !is_char_boundary(text.spec_bytes(), j),
{
    if index == 0 {
        return 0;
    }
    let bytes = text.as_bytes();
    let mut j = index - 1;
    while j > 0 && bytes[j] >= 0x80 && bytes[j] <= 0xbf
        invariant
            bytes@ == text.spec_bytes(),
            index <= bytes@.len(),
            j < index,
            forall|m: int| j < m < index ==> !is_char_boundary(bytes@, m),
        decreases j,
    {
        proof {
            vstd::utf8::is_char_boundary_iff_not_is_continuation_byte(bytes@, j as int);
        }
        j = j - 1;
    }
    proof {
        if j == 0 {
            vstd::utf8::is_char_boundary_start_end_of_seq(bytes@);
        } else {
            vstd::utf8::is_char_boundary_iff_not_is_continuation_byte(bytes@, j as int);
        }
    }
    j
}

/// Byte index just after the character that starts at `index` (the text length at the end).
pub fn next_char_boundary(text: &str, index: usize) -> (r: usize)
    requires
        index < text.spec_bytes().len() ==> is_char_boundary(text.spec_bytes(), index as int),
    ensures
        index >= text.spec_bytes().len() ==> r == text.spec_bytes().len(),
        index < text.spec_bytes().len() ==> index < r <= text.spec_bytes().len()
            && is_char_boundary(text.spec_bytes(), r as int) && forall|j: int|
            index < j < r ==> !is_char_boundary(text.spec_bytes(), j),
{
    let bytes = text.as_bytes();
    if index >= bytes.len() {
        return bytes.len();
    }
    let mut j = index + 1;
    while j < bytes.len() && bytes[j] >= 0x80 && bytes[j] <= 0xbf
        invariant
            bytes@ == text.spec_bytes(),
            index < j <= bytes@.len(),
            forall|m: int| index < m < j ==> !is_char_boundary(bytes@, m),
        decreases bytes.len() - j,
    {
        proof {
            vstd::utf8::is_char_boundary_iff_not_is_continuation_byte(bytes@, j as int);
        }
        j = j + 1;
    }
    proof {
        if j == bytes.len() {
            vstd::utf8::is_char_boundary_start_end_of_seq(bytes@);
        } else {
            vstd::utf8::is_char_boundary_iff_not_is_continuation_byte(bytes@, j as int);
        }
    }
    j
}

/// Moving right then left over a character returns to where the cursor was.
pub proof fn law_cursor_round_trip(bytes: Seq<u8>, index: int, next: int, back: int)
    requires
        0 <= index < next <= bytes.len(),
        is_char_boundary(bytes, index),
        is_char_boundary(bytes, next),
        forall|j: int| index < j < next ==> !is_char_boundary(bytes, j),
        back < next,
        is_char_boundary(bytes, back),
        forall|j: int| back < j < next ==> !is_char_boundary(bytes, j),
    ensures
        back == index,
{
}

// ---------------------------------------------------------------------------
// Numbers as text
// ---------------------------------------------------------------------------

/// Signed decimal text: `+12`, `+0`, `-7`.
pub fn signed_int(value: i64) -> (s: String)
    ensures
        s@ == signed_decimal(value as int),
{
    let mut out = String::new();
    if value >= 0 {
        push_char(&mut out, '+');
        push_decimal(&mut out, value as u64);
    } else {
        push_char(&mut out, '-');
        let magnitude: u64 = if value == i64::MIN {
            0x8000_0000_0000_0000u64
        } else {
            (-value) as u64
        };
        push_decimal(&mut out, magnitude);
    }
    out
}


// ---------------------------------------------------------------------------
// Prefix arithmetic over character sequences
// ---------------------------------------------------------------------------

/// `p` is a prefix of `s`.
pub open spec fn is_prefix(p: Seq<char>, s: Seq<char>) -> bool {
    p.len() <= s.len() && s.subrange(0, p.len() as int) == p
}

/// Length of the longest common prefix of `a` and `b`, scanning from `i`.
pub open spec fn common_len_from(a: Seq<char>, b: Seq<char>, i: int) -> int
    decreases a.len() - i,
{
    if 0 <= i < a.len() && i < b.len() && a[i] == b[i] {
        common_len_from(a, b, i + 1)
    } else {
        i
    }
}

/// Longest common prefix of two sequences.
pub open spec fn lcp(a: Seq<char>, b: Seq<char>) -> Seq<char> {
    a.subrange(0, common_len_from(a, b, 0))
}

/// Longest common prefix of all sequences of a list (empty for an empty list).
pub open spec fn lcp_list(s: Seq<Seq<char>>) -> Seq<char>
    decreases s.len(),
{
    if s.len() == 0 {
        Seq::empty()
    } else if s.len() == 1 {
        s[0]
    } else {
        lcp(lcp_list(s.drop_last()), s.last())
    }
}

proof fn lemma_common_len(a: Seq<char>, b: Seq<char>, i: int)
    requires
        0 <= i <= a.len(),
        i <= b.len(),
        forall|k: int| 0 <= k < i ==> a[k] == b[k],
    ensures
        i <= common_len_from(a, b, i) <= a.len(),
        common_len_from(a, b, i) <= b.len(),
        forall|k: int| 0 <= k < common_len_from(a, b, i) ==> a[k] == b[k],
        common_len_from(a, b, i) < a.len() && common_len_from(a, b, i) < b.len() ==> a[common_len_from(a, b, i)] != b[common_len_from(a, b, i)],
    decreases a.len() - i,
{
    if i < a.len() && i < b.len() && a[i] == b[i] {
        lemma_common_len(a, b, i + 1);
    }
}

/// A prefix of `a` of length `m` is a prefix of `b` exactly when `m` is at most the
/// common length.
proof fn lemma_prefix_iff_common(a: Seq<char>, b: Seq<char>, m: int)
    requires
        0 <= m <= a.len(),
    ensures
        is_prefix(a.subrange(0, m), b) <==> m <= common_len_from(a, b, 0),
{
    lemma_common_len(a, b, 0);
    let l = common_len_from(a, b, 0);
    if m <= l {
        assert(b.subrange(0, m) =~= a.subrange(0, m));
    } else if is_prefix(a.subrange(0, m), b) {
        assert(a.subrange(0, m)[l] == b.subrange(0, m)[l]);
    }
}

/// Being a prefix is transitive.
proof fn lemma_prefix_trans(p: Seq<char>, q: Seq<char>, r: Seq<char>)
    requires
        is_prefix(p, q),
        is_prefix(q, r),
    ensures
        is_prefix(p, r),
{
    assert(r.subrange(0, p.len() as int) =~= q.subrange(0, p.len() as int));
}

/// The common prefix of two sequences starts both, and every common prefix of the two
/// starts it.
proof fn lemma_lcp_pair(a: Seq<char>, b: Seq<char>)
    ensures
        is_prefix(lcp(a, b), a),
        is_prefix(lcp(a, b), b),
        forall|q: Seq<char>| is_prefix(q, a) && is_prefix(q, b) ==> #[trigger] is_prefix(q, lcp(a, b)),
{
    lemma_common_len(a, b, 0);
    let l = common_len_from(a, b, 0);
    assert(b.subrange(0, l) =~= a.subrange(0, l));
    assert forall|q: Seq<char>| is_prefix(q, a) && is_prefix(q, b) implies #[trigger] is_prefix(q, lcp(a, b)) by {
        let m = q.len() as int;
        assert(q =~= a.subrange(0, m));
        lemma_prefix_iff_common(a, b, m);
        assert(lcp(a, b).subrange(0, m) =~= a.subrange(0, m));
    }
}

/// What `longest_common_prefix` returns, `lcp_list` of the inputs, is the longest common
/// prefix: every input starts with it, and every string that starts all of the inputs
/// starts it too (so none longer does); of no inputs it is empty.
pub proof fn law_lcp_is_greatest_common_prefix(s: Seq<Seq<char>>)
    ensures
        s.len() == 0 ==> lcp_list(s) == Seq::<char>::empty(),
        forall|i: int| 0 <= i < s.len() ==> #[trigger] is_prefix(lcp_list(s), s[i]),
        forall|q: Seq<char>|
            s.len() > 0 && (forall|i: int| 0 <= i < s.len() ==> #[trigger] is_prefix(q, s[i]))
                ==> is_prefix(q, lcp_list(s)) && q.len() <= lcp_list(s).len(),
    decreases s.len(),
{
    if s.len() == 1 {
        assert(s[0].subrange(0, s[0].len() as int) =~= s[0]);
    } else if s.len() > 1 {
        let init = s.drop_last();
        law_lcp_is_greatest_common_prefix(init);
        let prev = lcp_list(init);
        lemma_lcp_pair(prev, s.last());
        assert forall|i: int| 0 <= i < s.len() implies #[trigger] is_prefix(lcp_list(s), s[i]) by {
            if i < s.len() - 1 {
                assert(is_prefix(prev, init[i]));
                lemma_prefix_trans(lcp_list(s), prev, s[i]);
            }
        }
        assert forall|q: Seq<char>|
            s.len() > 0 && (forall|i: int| 0 <= i < s.len() ==> #[trigger] is_prefix(q, s[i]))
            implies is_prefix(q, lcp_list(s)) && q.len() <= lcp_list(s).len() by {
            assert forall|i: int| 0 <= i < init.len() implies #[trigger] is_prefix(q, init[i]) by {
                assert(init[i] == s[i]);
            }
            assert(is_prefix(q, s[s.len() - 1]));
        }
    }
}

/// Whether the characters `p` start the characters `s`.
fn chars_start_with(s: &Vec<char>, p: &Vec<char>, plen: usize) -> (b: bool)
    requires
        plen <= p@.len(),
    ensures
        b == is_prefix(p@.subrange(0, plen as int), s@),
{
    if plen > s.len() {
        return false;
    }
    let mut i: usize = 0;
    while i < plen
        invariant
            plen <= p@.len(),
            plen <= s@.len(),
            i <= plen,
            forall|k: int| 0 <= k < i ==> s@[k] == p@[k],
        decreases plen - i,
    {
        if s[i] != p[i] {
            assert(s@.subrange(0, plen as int)[i as int] != p@.subrange(0, plen as int)[i as int]);
            return false;
        }
        i = i + 1;
    }
    assert(s@.subrange(0, plen as int) =~= p@.subrange(0, plen as int));
    true
}

/// Whether `s` starts with `prefix`.
pub fn str_starts_with(s: &str, prefix: &str) -> (b: bool)
    ensures
        b == is_prefix(prefix@, s@),
{
    let sc = chars_of(s);
    let pc = chars_of(prefix);
    assert(pc@.subrange(0, pc@.len() as int) =~= pc@);
    chars_start_with(&sc, &pc, pc.len())
}




/// Longest common prefix of a list of strings (empty for no strings).
pub fn longest_common_prefix(matches: &[&str]) -> (out: String)
    ensures
        out@ == lcp_list(str_views(matches@)),
{
    if matches.len() == 0 {
        return String::new();
    }
    let mut prefix = chars_of(matches[0]);
    let mut m: usize = prefix.len();
    let mut i: usize = 1;
    while i < matches.len()
        invariant
            1 <= i <= matches.len(),
            m <= prefix@.len(),
            prefix@.subrange(0, m as int) == lcp_list(str_views(matches@).subrange(0, i as int)),
        decreases matches.len() - i,
    {
        let entry = chars_of(matches[i]);
        let ghost a = prefix@.subrange(0, m as int);
        proof {
            lemma_common_len(a, entry@, 0);
        }
        while !chars_start_with(&entry, &prefix, m)
            invariant
                m <= a.len(),
                a.len() <= prefix@.len(),
                a == prefix@.subrange(0, a.len() as int),
                0 <= common_len_from(a, entry@, 0) <= m,
            decreases m,
        {
            proof {
                assert(prefix@.subrange(0, m as int) =~= a.subrange(0, m as int));
                lemma_prefix_iff_common(a, entry@, m as int);
            }
            m = m - 1;
        }
        proof {
            assert(prefix@.subrange(0, m as int) =~= a.subrange(0, m as int));
            lemma_prefix_iff_common(a, entry@, m as int);
            let views = str_views(matches@).subrange(0, i + 1);
            assert(views.drop_last() =~= str_views(matches@).subrange(0, i as int));
            assert(views.last() == entry@);
            assert(a.subrange(0, m as int) =~= lcp(a, entry@));
        }
        i = i + 1;
    }
    assert(str_views(matches@).subrange(0, matches.len() as int) =~= str_views(matches@));
    string_of_chars(&prefix, m)
}

// ---------------------------------------------------------------------------
// Localized parse errors
// ---------------------------------------------------------------------------

/// `s` ends with `p`.
pub open spec fn is_suffix(p: Seq<char>, s: Seq<char>) -> bool {
    p.len() <= s.len() && s.subrange(s.len() - p.len(), s.len() as int) == p
}

/// `s` is `pre`, some middle part, then `post` (the middle may be empty).
pub open spec fn wrapped_in(s: Seq<char>, pre: Seq<char>, post: Seq<char>) -> bool {
    pre.len() + post.len() <= s.len() && is_prefix(pre, s) && is_suffix(post, s)
}

/// The middle part of `s` between `pre` and `post`.
pub open spec fn middle_of(s: Seq<char>, pre: Seq<char>, post: Seq<char>) -> Seq<char> {
    s.subrange(pre.len() as int, s.len() - post.len())
}

/// `p` occurs in `s` at `k`.
pub open spec fn occurs_at(s: Seq<char>, p: Seq<char>, k: int) -> bool {
    0 <= k && k + p.len() <= s.len() && s.subrange(k, k + p.len()) == p
}

/// `s` with its first occurrence of `p` replaced by `to` (unchanged when `p` does not occur).
pub open spec fn replace_first(s: Seq<char>, p: Seq<char>, to: Seq<char>) -> Seq<char> {
    if exists|k: int| occurs_at(s, p, k) {
        let k = choose|k: int| occurs_at(s, p, k) && forall|m: int| 0 <= m < k ==> !occurs_at(s, p, m);
        s.subrange(0, k) + to + s.subrange(k + p.len(), s.len() as int)
    } else {
        s
    }
}

/// `s` with its leading `p` replaced by `to`.
pub open spec fn replace_lead(s: Seq<char>, p: Seq<char>, to: Seq<char>) -> Seq<char> {
    to + s.subrange(p.len() as int, s.len() as int)
}

/// The Chinese text of a parse error message; other locales keep the message.
pub open spec fn spec_localize_error(locale: UiLocale, err: Seq<char>) -> Seq<char> {
    if locale != UiLocale::ZhCn {
        err
    } else if err == "missing indices"@ {
        "缺少索引参数"@
    } else if err == "invalid range start"@ {
        "区间起始索引无效"@
    } else if err == "invalid range end"@ {
        "区间结束索引无效"@
    } else if err == "range start larger than end"@ {
        "区间起始值不能大于结束值"@
    } else if wrapped_in(err, "invalid index '"@, "'"@) {
        "无效索引 '"@ + middle_of(err, "invalid index '"@, "'"@) + "'"@
    } else if wrapped_in(err, "unknown edit key '"@, "'"@) {
        "未知编辑字段 '"@ + middle_of(err, "unknown edit key '"@, "'"@) + "'"@
    } else if is_prefix("invalid enhancement"@, err) {
        replace_lead(err, "invalid enhancement"@, "无效增强类型"@)
    } else if is_prefix("invalid edition"@, err) {
        replace_lead(err, "invalid edition"@, "无效版本类型"@)
    } else if is_prefix("invalid seal"@, err) {
        replace_lead(err, "invalid seal"@, "无效蜡封类型"@)
    } else if err == "invalid bonus delta"@ {
        "bonus 增量无效"@
    } else if err == "invalid bonus value"@ {
        "bonus 数值无效"@
    } else if is_prefix("invalid boolean"@, err) {
        replace_lead(err, "invalid boolean"@, "无效布尔值"@)
    } else if wrapped_in(err, "index "@, " out of range"@) {
        "索引 "@ + middle_of(err, "index "@, " out of range"@) + " 超出范围"@
    } else if wrapped_in(err, "unknown saved action '"@, "'"@) {
        "存档中存在未知动作 '"@ + middle_of(err, "unknown saved action '"@, "'"@) + "'"@
    } else if is_prefix("unsupported save version"@, err) {
        replace_lead(err, "unsupported save version"@, "不支持的存档版本"@)
    } else if is_prefix("content signature mismatch:"@, err) {
        replace_first(
            replace_first(replace_lead(err, "content signature mismatch:"@, "存档校验失败："@), "saved="@, "存档="@),
            "current="@,
            "当前="@,
        )
    } else {
        err
    }
}

/// Every error of the index parser is shown as it is in English and translated in
/// Chinese.
pub proof fn law_index_errors_localized(args: Seq<Seq<char>>)
    ensures
        spec_parse_indices(args) matches Err(e) ==> spec_localize_error(UiLocale::EnUs, e) == e
            && spec_localize_error(UiLocale::ZhCn, e) != e,
{
    lemma_index_errors(args);
    if let Err(e) = spec_parse_indices(args) {
        let z = spec_localize_error(UiLocale::ZhCn, e);
        reveal_strlit("missing indices");
        reveal_strlit("缺少索引参数");
        reveal_strlit("invalid range start");
        reveal_strlit("区间起始索引无效");
        reveal_strlit("invalid range end");
        reveal_strlit("区间结束索引无效");
        reveal_strlit("range start larger than end");
        reveal_strlit("区间起始值不能大于结束值");
        reveal_strlit("invalid index '");
        reveal_strlit("无效索引 '");
        reveal_strlit("'");
        if e == "missing indices"@ {
            assert(z[0] != e[0]);
        } else if e == "invalid range start"@ {
            assert(z[0] != e[0]);
        } else if e == "invalid range end"@ {
            assert(z[0] != e[0]);
        } else if e == "range start larger than end"@ {
            assert(z[0] != e[0]);
        } else {
            let p = choose|p: Seq<char>| e == "invalid index '"@ + p + "'"@;
            let pre = "invalid index '"@;
            assert(e.subrange(0, pre.len() as int) =~= pre);
            assert(e.subrange(e.len() - 1, e.len() as int) =~= "'"@);
            assert(wrapped_in(e, pre, "'"@));
            assert(z[0] == '无');
            assert(e[0] == 'i');
        }
    }
}

fn has_prefix(s: &Vec<char>, p: &Vec<char>) -> (b: bool)
    ensures
        b == is_prefix(p@, s@),
{
    assert(p@.subrange(0, p@.len() as int) =~= p@);
    chars_start_with(s, p, p.len())
}

fn has_suffix(s: &Vec<char>, p: &Vec<char>) -> (b: bool)
    ensures
        b == is_suffix(p@, s@),
{
    if p.len() > s.len() {
        return false;
    }
    let n = s.len();
    let off = n - p.len();
    let mut i: usize = 0;
    while i < p.len()
        invariant
            n == s@.len(),
            off + p@.len() == s@.len(),
            i <= p@.len(),
            forall|k: int| 0 <= k < i ==> s@[off + k] == p@[k],
        decreases p.len() - i,
    {
        if s[off + i] != p[i] {
            assert(s@.subrange(off as int, s@.len() as int)[i as int] == s@[off + i]);
            return false;
        }
        i = i + 1;
    }
    assert(s@.subrange(off as int, s@.len() as int) =~= p@);
    true
}


fn concat3(a: &Vec<char>, b: &Vec<char>, c: &Vec<char>) -> (out: Vec<char>)
    ensures
        out@ == a@ + b@ + c@,
{
    let mut out: Vec<char> = Vec::new();
    let mut i: usize = 0;
    while i < a.len()
        invariant
            i <= a@.len(),
            out@ == a@.subrange(0, i as int),
        decreases a.len() - i,
    {
        out.push(a[i]);
        i = i + 1;
        assert(out@ =~= a@.subrange(0, i as int));
    }
    assert(a@.subrange(0, a@.len() as int) =~= a@);
    let mut j: usize = 0;
    while j < b.len()
        invariant
            j <= b@.len(),
            out@ == a@ + b@.subrange(0, j as int),
        decreases b.len() - j,
    {
        out.push(b[j]);
        j = j + 1;
        assert(out@ =~= a@ + b@.subrange(0, j as int));
    }
    assert(b@.subrange(0, b@.len() as int) =~= b@);
    let mut k: usize = 0;
    while k < c.len()
        invariant
            k <= c@.len(),
            out@ == a@ + b@ + c@.subrange(0, k as int),
        decreases c.len() - k,
    {
        out.push(c[k]);
        k = k + 1;
        assert(out@ =~= a@ + b@ + c@.subrange(0, k as int));
    }
    assert(c@.subrange(0, c@.len() as int) =~= c@);
    out
}

fn occurs_here(s: &Vec<char>, p: &Vec<char>, k: usize) -> (b: bool)
    requires
        k <= s@.len(),
    ensures
        b == occurs_at(s@, p@, k as int),
{
    let n = s.len();
    if p.len() > n - k {
        return false;
    }
    let mut i: usize = 0;
    while i < p.len()
        invariant
            n == s@.len(),
            k + p@.len() <= s@.len(),
            i <= p@.len(),
            forall|m: int| 0 <= m < i ==> s@[k + m] == p@[m],
        decreases p.len() - i,
    {
        if s[k + i] != p[i] {
            assert(s@.subrange(k as int, k + p@.len())[i as int] == s@[k + i]);
            return false;
        }
        i = i + 1;
    }
    assert(s@.subrange(k as int, k + p@.len()) =~= p@);
    true
}

fn replace_first_chars(s: &Vec<char>, p: &Vec<char>, to: &Vec<char>) -> (out: Vec<char>)
    ensures
        out@ == replace_first(s@, p@, to@),
{
    let n = s.len();
    let mut k: usize = 0;
    loop
        invariant
            n == s@.len(),
            k <= n,
            forall|m: int| 0 <= m < k ==> !occurs_at(s@, p@, m),
        ensures
            k == n,
            forall|m: int| 0 <= m <= k ==> !occurs_at(s@, p@, m),
        decreases n - k,
    {
        if occurs_here(s, p, k) {
            let head = sub_chars(s, 0, k);
            let tail = sub_chars(s, k + p.len(), s.len());
            proof {
                let c = choose|c: int| occurs_at(s@, p@, c) && forall|m: int| 0 <= m < c ==> !occurs_at(s@, p@, m);
                assert(occurs_at(s@, p@, k as int));
                assert(c == k);
            }
            return concat3(&head, to, &tail);
        }
        if k == n {
            break;
        }
        k = k + 1;
    }
    proof {
        assert forall|m: int| !occurs_at(s@, p@, m) by {
            if 0 <= m && m <= n {
                assert(m <= k);
            }
        }
    }
    sub_chars(s, 0, s.len())
}

/// The parse error `err` in the interface language.
#[verifier::rlimit(60)]
pub fn localize_parse_error(locale: UiLocale, err: &str) -> (out: String)
    ensures
        out@ == spec_localize_error(locale, err@),
{
    if locale != UiLocale::ZhCn {
        return String::from_str(err);
    }
    if str_eq(err, "missing indices") {
        return String::from_str("缺少索引参数");
    }
    if str_eq(err, "invalid range start") {
        return String::from_str("区间起始索引无效");
    }
    if str_eq(err, "invalid range end") {
        return String::from_str("区间结束索引无效");
    }
    if str_eq(err, "range start larger than end") {
        return String::from_str("区间起始值不能大于结束值");
    }
    let e = chars_of(err);
    if let Some(out) = rewrap(&e, "invalid index '", "'", "无效索引 '", "'") {
        return out;
    }
    if let Some(out) = rewrap(&e, "unknown edit key '", "'", "未知编辑字段 '", "'") {
        return out;
    }
    if let Some(out) = relead(&e, "invalid enhancement", "无效增强类型") {
        return out;
    }
    if let Some(out) = relead(&e, "invalid edition", "无效版本类型") {
        return out;
    }
    if let Some(out) = relead(&e, "invalid seal", "无效蜡封类型") {
        return out;
    }
    if str_eq(err, "invalid bonus delta") {
        return String::from_str("bonus 增量无效");
    }
    if str_eq(err, "invalid bonus value") {
        return String::from_str("bonus 数值无效");
    }
    if let Some(out) = relead(&e, "invalid boolean", "无效布尔值") {
        return out;
    }
    if let Some(out) = rewrap(&e, "index ", " out of range", "索引 ", " 超出范围") {
        return out;
    }
    if let Some(out) = rewrap(&e, "unknown saved action '", "'", "存档中存在未知动作 '", "'") {
        return out;
    }
    if let Some(out) = relead(&e, "unsupported save version", "不支持的存档版本") {
        return out;
    }
    let lead = chars_of("content signature mismatch:");
    if has_prefix(&e, &lead) {
        let to = chars_of("存档校验失败：");
        let rest = sub_chars(&e, lead.len(), e.len());
        let empty: Vec<char> = Vec::new();
        let first = concat3(&to, &rest, &empty);
        assert(first@ =~= replace_lead(e@, lead@, to@));
        let saved = chars_of("saved=");
        let saved_to = chars_of("存档=");
        let second = replace_first_chars(&first, &saved, &saved_to);
        let current = chars_of("current=");
        let current_to = chars_of("当前=");
        let third = replace_first_chars(&second, &current, &current_to);
        return string_of_chars(&third, third.len());
    }
    String::from_str(err)
}

/// When `e` is `pre`, a middle part and `post`: `new_pre`, the middle part and `new_post`.
fn rewrap(e: &Vec<char>, pre: &str, post: &str, new_pre: &str, new_post: &str) -> (r: Option<String>)
    ensures
        match r {
            Some(out) => wrapped_in(e@, pre@, post@) && out@ == new_pre@ + middle_of(e@, pre@, post@) + new_post@,
            None => !wrapped_in(e@, pre@, post@),
        },
{
    let p = chars_of(pre);
    let q = chars_of(post);
    if p.len() > e.len() || q.len() > e.len() - p.len() {
        return None;
    }
    if !has_prefix(e, &p) || !has_suffix(e, &q) {
        return None;
    }
    let mid = sub_chars(e, p.len(), e.len() - q.len());
    let np = chars_of(new_pre);
    let nq = chars_of(new_post);
    let out = concat3(&np, &mid, &nq);
    Some(string_of_chars(&out, out.len()))
}

/// When `e` starts with `lead`: `e` with that lead replaced by `to`.
fn relead(e: &Vec<char>, lead: &str, to: &str) -> (r: Option<String>)
    ensures
        match r {
            Some(out) => is_prefix(lead@, e@) && out@ == replace_lead(e@, lead@, to@),
            None => !is_prefix(lead@, e@),
        },
{
    let p = chars_of(lead);
    if !has_prefix(e, &p) {
        return None;
    }
    let t = chars_of(to);
    let rest = sub_chars(e, p.len(), e.len());
    let empty: Vec<char> = Vec::new();
    let out = concat3(&t, &rest, &empty);
    assert(out@ =~= replace_lead(e@, lead@, to@));
    Some(string_of_chars(&out, out.len()))
}

// ---------------------------------------------------------------------------
// Tab completion
// ---------------------------------------------------------------------------

/// What a completion request produced: the new line, if it changes, and the candidates
/// to list.
pub struct CompletionResult {
    pub updated_line: Option<String>,
    pub suggestions: Vec<String>,
}

/// Entries of `table` that start with `token`, in table order.
pub open spec fn matching(table: Seq<Seq<char>>, token: Seq<char>) -> Seq<Seq<char>>
    decreases table.len(),
{
    if table.len() == 0 {
        Seq::empty()
    } else if is_prefix(token, table.last()) {
        matching(table.drop_last(), token).push(table.last())
    } else {
        matching(table.drop_last(), token)
    }
}

/// The line `complete_token` proposes, if any.
pub open spec fn token_update(table: Seq<Seq<char>>, token: Seq<char>, append_space: bool) -> Option<Seq<char>> {
    let m = matching(table, token);
    if m.len() == 0 {
        None
    } else if m.len() == 1 {
        Some(if append_space { m[0].push(' ') } else { m[0] })
    } else if lcp_list(m).len() > token.len() {
        Some(lcp_list(m))
    } else {
        None
    }
}

/// The candidates `complete_token` lists: all matches when there are several.
pub open spec fn token_suggestions(table: Seq<Seq<char>>, token: Seq<char>) -> Seq<Seq<char>> {
    let m = matching(table, token);
    if m.len() <= 1 {
        Seq::empty()
    } else {
        m
    }
}

pub open spec fn result_matches(r: CompletionResult, update: Option<Seq<char>>, suggestions: Seq<Seq<char>>) -> bool {
    &&& (update is None <==> r.updated_line is None)
    &&& (update is Some ==> r.updated_line->0@ == update->0)
    &&& string_views(r.suggestions@) == suggestions
}

/// Complete `token` against `table`: a single match is completed (with a space if asked);
/// several matches are listed and the token is extended to their common prefix.
pub fn complete_token(token: &str, table: &[&str], append_space: bool) -> (r: CompletionResult)
    ensures
        result_matches(
            r,
            token_update(str_views(table@), token@, append_space),
            token_suggestions(str_views(table@), token@),
        ),
{
    let ghost views = str_views(table@);
    let mut matches: Vec<&str> = Vec::new();
    let mut i: usize = 0;
    while i < table.len()
        invariant
            i <= table.len(),
            views == str_views(table@),
            str_views(matches@) == matching(views.subrange(0, i as int), token@),
        decreases table.len() - i,
    {
        let ghost sub = views.subrange(0, i + 1);
        assert(sub.drop_last() =~= views.subrange(0, i as int));
        assert(sub.last() == table@[i as int]@);
        if str_starts_with(table[i], token) {
            matches.push(table[i]);
            assert(str_views(matches@) =~= matching(views.subrange(0, i as int), token@).push(table@[i as int]@));
        }
        i = i + 1;
    }
    assert(views.subrange(0, table.len() as int) =~= views);
    let ghost m = matching(views, token@);
    if matches.len() == 0 {
        let r = CompletionResult { updated_line: None, suggestions: Vec::new() };
        assert(string_views(r.suggestions@) =~= Seq::<Seq<char>>::empty());
        return r;
    }
    if matches.len() == 1 {
        let mut value = String::from_str(matches[0]);
        if append_space {
            push_char(&mut value, ' ');
        }
        let r = CompletionResult { updated_line: Some(value), suggestions: Vec::new() };
        assert(string_views(r.suggestions@) =~= Seq::<Seq<char>>::empty());
        assert(m[0] == matches@[0]@);
        return r;
    }
    let common = longest_common_prefix(matches.as_slice());
    let common_chars = chars_of(common.as_str());
    let token_chars = chars_of(token);
    let updated = if common_chars.len() > token_chars.len() {
        Some(common)
    } else {
        None
    };
    let mut suggestions: Vec<String> = Vec::new();
    let mut k: usize = 0;
    while k < matches.len()
        invariant
            k <= matches.len(),
            suggestions@.len() == k,
            string_views(suggestions@) == str_views(matches@).subrange(0, k as int),
        decreases matches.len() - k,
    {
        let item = String::from_str(matches[k]);
        let ghost before = suggestions@;
        proof {
            assert(item@ == str_views(matches@)[k as int]);
        }
        suggestions.push(item);
        proof {
            assert(suggestions@ == before.push(item));
            assert(str_views(matches@).len() == matches@.len());
            assert(string_views(suggestions@).len() == k + 1);
            assert(string_views(suggestions@)[k as int] == item@);
            assert(str_views(matches@).subrange(0, k + 1)[k as int] == str_views(matches@)[k as int]);
            assert forall|j: int| 0 <= j <= k implies #[trigger] string_views(suggestions@)[j] == str_views(matches@).subrange(0, k + 1)[j] by {
                if j < k {
                    assert(string_views(before)[j] == str_views(matches@).subrange(0, k as int)[j]);
                }
            }
        }
        k = k + 1;
        assert(string_views(suggestions@) =~= str_views(matches@).subrange(0, k as int));
    }
    assert(str_views(matches@).subrange(0, matches.len() as int) =~= str_views(matches@));
    CompletionResult { updated_line: updated, suggestions }
}

/// Owned copies of a table's entries.
fn owned_list(table: &Vec<&str>) -> (out: Vec<String>)
    ensures
        string_views(out@) == str_views(table@),
{
    let mut out: Vec<String> = Vec::new();
    let mut k: usize = 0;
    while k < table.len()
        invariant
            k <= table.len(),
            out@.len() == k,
            string_views(out@) == str_views(table@).subrange(0, k as int),
        decreases table.len() - k,
    {
        let item = String::from_str(table[k]);
        let ghost before = out@;
        out.push(item);
        proof {
            assert(string_views(out@) =~= string_views(before).push(item@));
        }
        k = k + 1;
        assert(string_views(out@) =~= str_views(table@).subrange(0, k as int));
    }
    assert(str_views(table@).subrange(0, table.len() as int) =~= str_views(table@));
    out
}

fn contains_char(chars: &Vec<char>, c: char) -> (b: bool)
    ensures
        b == chars@.contains(c),
{
    let mut i: usize = 0;
    while i < chars.len()
        invariant
            i <= chars.len(),
            forall|k: int| 0 <= k < i ==> chars@[k] != c,
        decreases chars.len() - i,
    {
        if chars[i] == c {
            assert(chars@[i as int] == c);
            return true;
        }
        i = i + 1;
    }
    false
}

proof fn lemma_trim_end_last(s: Seq<char>)
    requires
        trim_end_chars(s).len() > 0,
    ensures
        !is_whitespace(trim_end_chars(s).last()),
        trim_end_chars(s).len() <= s.len(),
        trim_end_chars(s) == s.subrange(0, trim_end_chars(s).len() as int),
    decreases s.len(),
{
    if s.len() > 0 && is_whitespace(s.last()) {
        lemma_trim_end_last(s.drop_last());
        let n = trim_end_chars(s).len() as int;
        assert(s.drop_last().subrange(0, n) =~= s.subrange(0, n));
    } else {
        assert(s.subrange(0, s.len() as int) =~= s);
    }
}

/// Byte offset in `line` where its second word starts, counted back from the end.
pub open spec fn second_word_start(line: Seq<char>) -> int {
    encode_utf8(line).len() - encode_utf8(words(trim_end_chars(line))[1]).len()
}

/// What completing the whole `line` proposes with the cursor at byte `cursor`: the new
/// line, if any, and the candidates to list.
pub open spec fn line_completion(line: Seq<char>, cursor: int) -> (Option<Seq<char>>, Seq<Seq<char>>) {
    let trimmed = trim_end_chars(line);
    let parts = words(trimmed);
    let cmds = spec_completion_commands();
    if cursor != encode_utf8(line).len() {
        (None, Seq::empty())
    } else if trimmed.len() == 0 {
        (None, cmds)
    } else if !line.contains(' ') {
        (token_update(cmds, parts[0], true), token_suggestions(cmds, parts[0]))
    } else if parts.len() > 2 {
        (None, Seq::empty())
    } else if line.last() == ' ' {
        if parts.len() < 2 {
            (None, spec_completion_table(parts[0]))
        } else {
            (None, Seq::empty())
        }
    } else if parts.len() == 2 {
        let table = spec_completion_table(parts[0]);
        (
            match token_update(table, parts[1], true) {
                Some(u) => Some(decode_utf8(encode_utf8(line).subrange(0, second_word_start(line))) + u),
                None => None,
            },
            token_suggestions(table, parts[1]),
        )
    } else {
        (None, Seq::empty())
    }
}

/// Where a completed second word is spliced back into `line`, the splice point falls on a
/// character boundary (the line is cut there by byte offset).
pub open spec fn line_cut_ok(line: Seq<char>) -> bool {
    let trimmed = trim_end_chars(line);
    let parts = words(trimmed);
    (trimmed.len() > 0 && line.contains(' ') && parts.len() == 2 && line.last() != ' '
        && token_update(spec_completion_table(parts[0]), parts[1], true) is Some)
        ==> is_char_boundary(encode_utf8(line), second_word_start(line))
}

/// Complete the command line, or `None` where splicing the completed second word back
/// into the line would cut a character in two.
pub fn try_complete_line(line: &str, cursor: usize) -> (r: Option<CompletionResult>)
    ensures
        r is None <==> (cursor as int == encode_utf8(line@).len() && !line_cut_ok(line@)),
        r matches Some(c) ==> result_matches(
            c,
            line_completion(line@, cursor as int).0,
            line_completion(line@, cursor as int).1,
        ),
{
    let none = CompletionResult { updated_line: None, suggestions: Vec::new() };
    proof {
        assert(string_views(none.suggestions@) =~= Seq::<Seq<char>>::empty());
    }
    if cursor != line.as_bytes().len() {
        return Some(none);
    }
    let trimmed = trim_end(line);
    if trimmed.is_empty() {
        let cmds = completion_commands();
        let listed = owned_list(&cmds);
        proof {
        }
        return Some(CompletionResult { updated_line: None, suggestions: listed });
    }
    proof {
        lemma_trim_end_last(line@);
        lemma_words_nonempty(trimmed@);
    }
    let parts = split_words(trimmed);
    proof {
        assert(string_views(parts@)[0] == parts@[0]@);
    }
    let line_chars = chars_of(line);
    if !contains_char(&line_chars, ' ') {
        let cmds = completion_commands();
        return Some(complete_token(parts[0].as_str(), cmds.as_slice(), true));
    }
    if parts.len() > 2 {
        return Some(none);
    }
    if line_chars[line_chars.len() - 1] == ' ' {
        if parts.len() < 2 {
            let table = completion_table_for(parts[0].as_str());
            return Some(CompletionResult { updated_line: None, suggestions: owned_list(&table) });
        }
        return Some(none);
    }
    if parts.len() == 2 {
        proof {
            assert(string_views(parts@)[1] == parts@[1]@);
        }
        let table = completion_table_for(parts[0].as_str());
        let result = complete_token(parts[1].as_str(), table.as_slice(), true);
        let CompletionResult { updated_line, suggestions } = result;
        match updated_line {
            Some(u) => {
                let second = parts[1].as_str();
                let total = line.as_bytes().len();
                let cut = second.as_bytes().len();
                if cut > total {
                    return None;
                }
                let base = total - cut;
                if !line.is_char_boundary(base) {
                    return None;
                }
                let (head, _) = line.split_at(base);
                let mut v = String::from_str(head);
                v.append(u.as_str());
                proof {
                    vstd::utf8::encode_utf8_decode_utf8(head@);
                    assert(head@ == decode_utf8(encode_utf8(line@).subrange(0, base as int)));
                }
                return Some(CompletionResult { updated_line: Some(v), suggestions });
            },
            None => {
                return Some(CompletionResult { updated_line: None, suggestions });
            },
        }
    }
    Some(none)
}

/// Complete the command line: the command word from the command list, the second word
/// from that command's table; with the cursor anywhere but the end nothing happens.
pub fn complete_line(line: &str, cursor: usize) -> (r: CompletionResult)
    requires
        cursor as int == encode_utf8(line@).len() ==> line_cut_ok(line@),
    ensures
        result_matches(r, line_completion(line@, cursor as int).0, line_completion(line@, cursor as int).1),
{
    match try_complete_line(line, cursor) {
        Some(c) => c,
        None => {
            proof {
                assert(false);
            }
            CompletionResult { updated_line: None, suggestions: Vec::new() }
        },
    }
}

/// Commands offered when completing the first word of a line.
pub open spec fn spec_completion_commands() -> Seq<Seq<char>> {
    seq!["?"@, "a"@, "actions"@, "board"@, "buy"@, "d"@, "data"@, "deal"@, "deck"@, "discard"@, "edit"@, "exit"@, "h"@, "hand"@, "help"@, "inv"@, "inventory"@, "leave"@, "levels"@, "load"@, "ls"@, "n"@, "next"@, "overview"@, "p"@, "pack"@, "peek"@, "pick"@, "play"@, "quit"@, "r"@, "ref"@, "reroll"@, "reward"@, "s"@, "sell"@, "sh"@, "shop"@, "skip"@, "skip_blind"@, "skip_pack"@, "sp"@, "save"@, "state"@, "status"@, "summary"@, "tags"@, "use"@, "x"@]
}

/// Commands offered when completing the first word of a line.
pub fn completion_commands() -> (table: Vec<&'static str>)
    ensures
        str_views(table@) == spec_completion_commands(),
{
    let table: Vec<&'static str> = vec!["?", "a", "actions", "board", "buy", "d", "data", "deal", "deck", "discard", "edit", "exit", "h", "hand", "help", "inv", "inventory", "leave", "levels", "load", "ls", "n", "next", "overview", "p", "pack", "peek", "pick", "play", "quit", "r", "ref", "reroll", "reward", "s", "sell", "sh", "shop", "skip", "skip_blind", "skip_pack", "sp", "save", "state", "status", "summary", "tags", "use", "x"];
    assert(str_views(table@) =~= spec_completion_commands());
    table
}

/// Second-word completions of a command: `buy` takes an offer kind, `peek` a pile.
pub open spec fn spec_completion_table(command: Seq<char>) -> Seq<Seq<char>> {
    if command == "buy"@ {
        seq!["card"@, "pack"@, "voucher"@]
    } else if command == "peek"@ {
        seq!["draw"@, "discard"@]
    } else {
        Seq::empty()
    }
}

pub fn completion_table_for(command: &str) -> (table: Vec<&'static str>)
    ensures
        str_views(table@) == spec_completion_table(command@),
{
    if str_eq(command, "buy") {
        let t: Vec<&'static str> = vec!["card", "pack", "voucher"];
        assert(str_views(t@) =~= spec_completion_table(command@));
        t
    } else if str_eq(command, "peek") {
        let t: Vec<&'static str> = vec!["draw", "discard"];
        assert(str_views(t@) =~= spec_completion_table(command@));
        t
    } else {
        let t: Vec<&'static str> = Vec::new();
        assert(str_views(t@) =~= spec_completion_table(command@));
        t
    }
}

// ---------------------------------------------------------------------------
// Line editor history
// ---------------------------------------------------------------------------

/// Most lines the history keeps.
pub const HISTORY_LIMIT: usize = 500;

/// Input history of the line editor, with the browsing position and the line being
/// typed before browsing started.
pub struct LineEditor {
    pub history: Vec<String>,
    pub history_path: Option<String>,
    pub history_index: Option<usize>,
    pub draft_line: Option<String>,
}

/// The non-blank lines of a history file, trimmed, in order.
pub open spec fn history_entries(pieces: Seq<Seq<char>>) -> Seq<Seq<char>>
    decreases pieces.len(),
{
    if pieces.len() == 0 {
        Seq::empty()
    } else {
        let rest = history_entries(pieces.drop_last());
        let t = trim_chars(pieces.last());
        if t.len() == 0 {
            rest
        } else {
            rest.push(t)
        }
    }
}

/// The history kept after remembering `line`: blank lines and repeats of the last entry
/// are not kept, and only the newest `HISTORY_LIMIT` entries stay.
pub open spec fn pushed_history(history: Seq<Seq<char>>, line: Seq<char>) -> Seq<Seq<char>> {
    let t = trim_chars(line);
    if t.len() == 0 || (history.len() > 0 && history.last() == t) {
        history
    } else {
        let grown = history.push(t);
        if grown.len() > HISTORY_LIMIT {
            grown.subrange(grown.len() - HISTORY_LIMIT, grown.len() as int)
        } else {
            grown
        }
    }
}

/// History entries joined by newlines.
pub open spec fn joined_lines(entries: Seq<Seq<char>>) -> Seq<char>
    decreases entries.len(),
{
    if entries.len() == 0 {
        Seq::empty()
    } else if entries.len() == 1 {
        entries[0]
    } else {
        joined_lines(entries.drop_last()) + seq!['\n'] + entries.last()
    }
}

/// Text of the history file: the entries joined by newlines, with a final newline unless
/// it is empty.
pub open spec fn history_file_text(entries: Seq<Seq<char>>) -> Seq<char> {
    let j = joined_lines(entries);
    if j.len() == 0 {
        j
    } else {
        j.push('\n')
    }
}

/// Copy of a string.
fn copy_string(s: &String) -> (out: String)
    ensures
        out@ == s@,
{
    String::from_str(s.as_str())
}

/// The history entries stored in the text of a history file.
pub fn history_from_text(contents: &str) -> (out: Vec<String>)
    ensures
        string_views(out@) == history_entries(split_on_char(contents@, '\n')),
{
    let chars = chars_of(contents);
    let mut out: Vec<String> = Vec::new();
    let ghost mut done: Seq<Seq<char>> = Seq::empty();
    let mut start: usize = 0;
    let mut i: usize = 0;
    assert(chars@.subrange(0, 0) =~= Seq::<char>::empty());
    assert(chars@.subrange(0, 0) =~= chars@.subrange(start as int, 0));
    while i < chars.len()
        invariant
            chars@ == contents@,
            start <= i <= chars@.len(),
            split_on_char(chars@.subrange(0, i as int), '\n') == done.push(chars@.subrange(start as int, i as int)),
            string_views(out@) == history_entries(done),
        decreases chars.len() - i,
    {
        let ghost q = chars@.subrange(0, i + 1);
        assert(q.drop_last() =~= chars@.subrange(0, i as int));
        if chars[i] == '\n' {
            let ghost piece = chars@.subrange(start as int, i as int);
            let t = trim_range(&chars, start, i);
            assert(done.push(piece).drop_last() =~= done);
            if t.len() > 0 {
                let line = string_of_chars(&t, t.len());
                assert(t@.subrange(0, t@.len() as int) =~= t@);
                let ghost before = out@;
                out.push(line);
                assert(string_views(out@) =~= string_views(before).push(line@));
            }
            proof {
                done = done.push(piece);
            }
            start = i + 1;
            assert(chars@.subrange(start as int, i + 1) =~= Seq::<char>::empty());
        } else {
            assert(chars@.subrange(start as int, i + 1) =~= chars@.subrange(start as int, i as int).push(chars@[i as int]));
        }
        i = i + 1;
    }
    assert(chars@.subrange(0, chars@.len() as int) =~= chars@);
    let ghost piece = chars@.subrange(start as int, chars@.len() as int);
    let t = trim_range(&chars, start, chars.len());
    assert(done.push(piece).drop_last() =~= done);
    if t.len() > 0 {
        let line = string_of_chars(&t, t.len());
        assert(t@.subrange(0, t@.len() as int) =~= t@);
        let ghost before = out@;
        out.push(line);
        assert(string_views(out@) =~= string_views(before).push(line@));
    }
    out
}

/// Up arrow over a history: the position, draft and line after the key. Nothing changes
/// with an empty history; otherwise browsing starts at the newest entry (keeping the line
/// being typed as the draft) or steps one entry back, staying at the oldest.
pub open spec fn browse_up(
    history: Seq<Seq<char>>,
    index: Option<usize>,
    draft: Option<Seq<char>>,
    buffer: Seq<char>,
) -> (Option<usize>, Option<Seq<char>>, Seq<char>) {
    if history.len() == 0 {
        (index, draft, buffer)
    } else {
        let idx: usize = match index {
            Some(i) => if i == 0 {
                0
            } else {
                (i - 1) as usize
            },
            None => (history.len() - 1) as usize,
        };
        (
            Some(idx),
            match index {
                Some(_) => draft,
                None => Some(buffer),
            },
            history[idx as int],
        )
    }
}

/// Down arrow over a history: nothing changes unless browsing; otherwise the next newer
/// entry is shown, or past the newest the draft comes back and browsing ends.
pub open spec fn browse_down(
    history: Seq<Seq<char>>,
    index: Option<usize>,
    draft: Option<Seq<char>>,
    buffer: Seq<char>,
) -> (Option<usize>, Option<Seq<char>>, Seq<char>) {
    match index {
        None => (index, draft, buffer),
        Some(i) => if i + 1 < history.len() {
            (Some((i + 1) as usize), draft, history[i + 1])
        } else {
            (
                None,
                None,
                match draft {
                    Some(d) => d,
                    None => Seq::empty(),
                },
            )
        },
    }
}

impl LineEditor {
    /// Browsing positions point into the history.
    pub open spec fn wf(&self) -> bool {
        self.history_index is Some ==> self.history_index->0 < self.history@.len()
    }

    /// An editor with the history read from a history file (`None` when there is none).
    pub fn new(history_path: Option<String>, saved: Option<&str>) -> (e: Self)
        ensures
            e.wf(),
            e.history_path == history_path,
            e.history_index is None,
            e.draft_line is None,
            string_views(e.history@) == match saved {
                Some(text) => history_entries(split_on_char(text@, '\n')),
                None => Seq::<Seq<char>>::empty(),
            },
    {
        let history = match saved {
            Some(text) => history_from_text(text),
            None => {
                let h: Vec<String> = Vec::new();
                assert(string_views(h@) =~= Seq::<Seq<char>>::empty());
                h
            },
        };
        LineEditor { history, history_path, history_index: None, draft_line: None }
    }

    /// Up arrow: step back through the history, keeping the line being typed as the draft
    /// when browsing starts; the cursor goes to the end of the line shown.
    pub fn history_prev(&mut self, buffer: &mut String, cursor: &mut usize)
        requires
            old(self).wf(),
        ensures
            final(self).wf(),
            final(self).history@ == old(self).history@,
            final(self).history_path == old(self).history_path,
            (final(self).history_index, opt_string_view(final(self).draft_line), final(buffer)@) == browse_up(
                string_views(old(self).history@),
                old(self).history_index,
                opt_string_view(old(self).draft_line),
                old(buffer)@,
            ),
            *final(cursor) == if old(self).history@.len() == 0 {
                *old(cursor) as int
            } else {
                encode_utf8(final(buffer)@).len() as int
            },
    {
        if self.history.len() == 0 {
            return;
        }
        match self.history_index {
            Some(0) => {},
            Some(index) => {
                self.history_index = Some(index - 1);
            },
            None => {
                self.draft_line = Some(copy_string(buffer));
                self.history_index = Some(self.history.len() - 1);
            },
        }
        if let Some(index) = self.history_index {
            *buffer = copy_string(&self.history[index]);
            *cursor = buffer.as_str().as_bytes().len();
        }
    }

    /// Down arrow: step forward through the history; past the newest entry the draft
    /// line comes back and browsing ends; the cursor goes to the end of the line shown.
    pub fn history_next(&mut self, buffer: &mut String, cursor: &mut usize)
        requires
            old(self).wf(),
        ensures
            final(self).wf(),
            final(self).history@ == old(self).history@,
            final(self).history_path == old(self).history_path,
            (final(self).history_index, opt_string_view(final(self).draft_line), final(buffer)@) == browse_down(
                string_views(old(self).history@),
                old(self).history_index,
                opt_string_view(old(self).draft_line),
                old(buffer)@,
            ),
            *final(cursor) == if old(self).history_index is None {
                *old(cursor) as int
            } else {
                encode_utf8(final(buffer)@).len() as int
            },
    {
        let index = match self.history_index {
            Some(i) => i,
            None => {
                return;
            },
        };
        let n = self.history.len();
        if index + 1 < n {
            self.history_index = Some(index + 1);
            *buffer = copy_string(&self.history[index + 1]);
        } else {
            self.history_index = None;
            let draft = self.draft_line.take();
            *buffer = match draft {
                Some(d) => d,
                None => String::new(),
            };
        }
        *cursor = buffer.as_str().as_bytes().len();
    }

    /// Remember a submitted line.
    pub fn push_history(&mut self, line: &str)
        ensures
            string_views(final(self).history@) == pushed_history(string_views(old(self).history@), line@),
            final(self).history_index == old(self).history_index,
            final(self).history_path == old(self).history_path,
            final(self).draft_line == old(self).draft_line,
    {
        let t = trim(line);
        if t.as_bytes().len() == 0 {
            proof {
                vstd::utf8::encode_utf8_decode_utf8(t@);
                assert(t@.len() == 0);
            }
            return;
        }
        proof {
            if t@.len() == 0 {
                assert(t.spec_bytes() =~= Seq::<u8>::empty());
            }
        }
        let n = self.history.len();
        if n > 0 && str_eq(self.history[n - 1].as_str(), t) {
            return;
        }
        let ghost before = self.history@;
        self.history.push(String::from_str(t));
        assert(string_views(self.history@) =~= string_views(before).push(t@));
        if self.history.len() > HISTORY_LIMIT {
            let drop = self.history.len() - HISTORY_LIMIT;
            let ghost grown = self.history@;
            let mut k: usize = 0;
            while k < drop
                invariant
                    k <= drop,
                    self.history_index == old(self).history_index,
                    self.history_path == old(self).history_path,
                    self.draft_line == old(self).draft_line,
                    drop + HISTORY_LIMIT == grown.len(),
                    self.history@ == grown.subrange(k as int, grown.len() as int),
                decreases drop - k,
            {
                self.history.remove(0);
                k = k + 1;
                assert(self.history@ =~= grown.subrange(k as int, grown.len() as int));
            }
            assert(string_views(self.history@) =~= string_views(grown).subrange(drop as int, grown.len() as int));
        }
    }

    /// Text to store in the history file.
    pub fn history_text(&self) -> (out: String)
        ensures
            out@ == history_file_text(string_views(self.history@)),
    {
        let ghost views = string_views(self.history@);
        let mut out = String::new();
        let mut i: usize = 0;
        while i < self.history.len()
            invariant
                i <= self.history@.len(),
                views == string_views(self.history@),
                out@ == joined_lines(views.subrange(0, i as int)),
            decreases self.history.len() - i,
        {
            let ghost sub = views.subrange(0, i + 1);
            assert(sub.drop_last() =~= views.subrange(0, i as int));
            if i > 0 {
                push_char(&mut out, '\n');
            }
            out.append(self.history[i].as_str());
            proof {
                if i == 0 {
                    assert(out@ =~= sub[0]);
                } else {
                    assert(out@ =~= joined_lines(sub.drop_last()) + seq!['\n'] + sub.last());
                }
            }
            i = i + 1;
        }
        assert(views.subrange(0, self.history@.len() as int) =~= views);
        let nbytes = out.as_str().as_bytes().len();
        if nbytes > 0 {
            proof {
                if out@.len() == 0 {
                    assert(out@ =~= Seq::<char>::empty());
                    assert(encode_utf8(out@) =~= Seq::<u8>::empty());
                }
            }
            push_char(&mut out, '\n');
        } else {
            proof {
                vstd::utf8::encode_utf8_decode_utf8(out@);
            }
        }
        out
    }
}

// ---------------------------------------------------------------------------
// Menu entries
// ---------------------------------------------------------------------------

/// What choosing a menu entry does.
#[derive(Debug, Clone, Copy)]
pub enum MenuCommand {
    Static(&'static str),
    Play,
    Discard,
    Buy,
    Pick,
    Use,
    Sell,
    Peek,
    Save,
    Load,
    Custom,
    Quit,
}

/// A labelled menu entry.
pub struct MenuEntry {
    pub label: String,
    pub command: MenuCommand,
}

/// A menu entry labelled in the interface language.
pub fn menu_entry(locale: UiLocale, en: &str, zh: &str, command: MenuCommand) -> (m: MenuEntry)
    ensures
        m.label@ == (if locale == UiLocale::ZhCn { zh@ } else { en@ }),
        m.command == command,
{
    MenuEntry { label: String::from_str(locale.text(en, zh)), command }
}

/// A menu entry that runs a fixed command line.
pub fn menu_static(locale: UiLocale, en: &str, zh: &str, command: &'static str) -> (m: MenuEntry)
    ensures
        m.label@ == (if locale == UiLocale::ZhCn { zh@ } else { en@ }),
        m.command == MenuCommand::Static(command),
{
    menu_entry(locale, en, zh, MenuCommand::Static(command))
}

/// The facts about a run that decide which menu entries are offered.
#[derive(Debug, Clone, Copy)]
pub struct MenuState {
    pub pack_open: bool,
    pub phase: Phase,
    pub blind: BlindKind,
    pub discards_left: u8,
    pub outcome: Option<BlindOutcome>,
    pub has_consumables: bool,
    pub has_jokers: bool,
}

/// What a line typed at the numbered menu asks for.
#[derive(Debug)]
pub enum MenuChoice {
    /// Nothing was typed.
    Blank,
    /// A number that names no entry.
    Invalid,
    /// The entry at this position (counted from zero).
    Entry(usize),
    /// A command typed directly.
    Command(String),
}

/// Read a line typed at a menu of `count` entries: blank, an entry's number (counted from
/// one), a number out of range, or otherwise a command typed directly (trimmed).
pub fn menu_choice(input: &str, count: usize) -> (r: MenuChoice)
    ensures
        ({
            let t = trim_chars(input@);
            if t.len() == 0 {
                r is Blank
            } else {
                match spec_parse_usize(t) {
                    Some(c) => if 1 <= c <= count {
                        r == MenuChoice::Entry((c - 1) as usize)
                    } else {
                        r is Invalid
                    },
                    None => r matches MenuChoice::Command(s) && s@ == t,
                }
            }
        }),
{
    let t = trim(input);
    let chars = chars_of(t);
    if chars.len() == 0 {
        return MenuChoice::Blank;
    }
    assert(chars@.subrange(0, chars@.len() as int) =~= chars@);
    match parse_usize_range(&chars, 0, chars.len()) {
        Some(c) => if 1 <= c && c <= count {
            MenuChoice::Entry(c - 1)
        } else {
            MenuChoice::Invalid
        },
        None => MenuChoice::Command(String::from_str(t)),
    }
}

/// The hint shown for what to do next: English text, then Chinese text.
pub open spec fn next_step_texts(st: MenuState) -> (&'static str, &'static str) {
    if st.pack_open {
        ("pick <idx..> or skip_pack", "pick <idx..> 或 skip_pack")
    } else if st.outcome == Some(BlindOutcome::Cleared) {
        if st.phase == Phase::Shop {
            ("buy/reroll/leave, then next", "buy/reroll/leave，然后 next")
        } else {
            ("shop or next", "shop 或 next")
        }
    } else if st.outcome == Some(BlindOutcome::Failed) {
        ("next", "next")
    } else {
        match st.phase {
            Phase::Deal => if st.blind == BlindKind::Boss {
                ("deal", "deal")
            } else {
                ("deal (or skip)", "deal（或 skip）")
            },
            Phase::Play => ("play <idx..> or discard <idx..>", "play <idx..> 或 discard <idx..>"),
            Phase::Shop => ("buy/reroll/leave", "buy/reroll/leave"),
            Phase::Setup => ("next", "next"),
            Phase::Score | Phase::Cleanup => ("summary", "summary"),
        }
    }
}

/// What the player can do next, in the interface language: the open pack first, then the
/// blind's outcome, then the phase.
pub fn next_step_hint(locale: UiLocale, st: MenuState) -> (hint: String)
    ensures
        hint@ == (if locale == UiLocale::ZhCn {
            next_step_texts(st).1@
        } else {
            next_step_texts(st).0@
        }),
{
    let (en, zh): (&'static str, &'static str) = if st.pack_open {
        ("pick <idx..> or skip_pack", "pick <idx..> 或 skip_pack")
    } else {
        match st.outcome {
            Some(BlindOutcome::Cleared) => if st.phase == Phase::Shop {
                ("buy/reroll/leave, then next", "buy/reroll/leave，然后 next")
            } else {
                ("shop or next", "shop 或 next")
            },
            Some(BlindOutcome::Failed) => ("next", "next"),
            None => match st.phase {
                Phase::Deal => if st.blind == BlindKind::Boss {
                    ("deal", "deal")
                } else {
                    ("deal (or skip)", "deal（或 skip）")
                },
                Phase::Play => ("play <idx..> or discard <idx..>", "play <idx..> 或 discard <idx..>"),
                Phase::Shop => ("buy/reroll/leave", "buy/reroll/leave"),
                Phase::Setup => ("next", "next"),
                Phase::Score | Phase::Cleanup => ("summary", "summary"),
            },
        }
    };
    String::from_str(locale.text(en, zh))
}

/// Entries offered whatever the state: the views of the run.
pub open spec fn menu_head() -> Seq<(&'static str, &'static str, MenuCommand)> {
    seq![
        ("Show overview", "查看总览", MenuCommand::Static("board")),
        ("Show hand", "查看手牌", MenuCommand::Static("hand")),
        ("Show inventory", "查看背包", MenuCommand::Static("inv")),
        ("Show action guide", "查看推荐操作", MenuCommand::Static("actions")),
        ("Show summary", "查看摘要", MenuCommand::Static("summary")),
    ]
}

/// Entries offered while a booster pack is open.
pub open spec fn menu_pack() -> Seq<(&'static str, &'static str, MenuCommand)> {
    seq![
        ("Pick pack options", "选择卡包选项", MenuCommand::Pick),
        ("Skip pack", "跳过卡包", MenuCommand::Static("skip_pack")),
        ("Show pack", "查看卡包", MenuCommand::Static("pack")),
    ]
}

/// Entries for the current phase of the round.
pub open spec fn menu_phase(st: MenuState) -> Seq<(&'static str, &'static str, MenuCommand)> {
    match st.phase {
        Phase::Deal => seq![("Deal hand", "发牌", MenuCommand::Static("deal"))] + if st.blind
            != BlindKind::Boss {
            seq![("Skip blind", "跳过盲注", MenuCommand::Static("skip"))]
        } else {
            Seq::empty()
        },
        Phase::Play => seq![("Play cards", "出牌", MenuCommand::Play)] + if st.discards_left > 0 {
            seq![("Discard cards", "弃牌", MenuCommand::Discard)]
        } else {
            Seq::empty()
        },
        Phase::Shop => seq![
            ("Buy from shop", "购买商店商品", MenuCommand::Buy),
            ("Reroll shop", "刷新商店", MenuCommand::Static("reroll")),
            ("Leave shop", "离开商店", MenuCommand::Static("leave")),
        ],
        Phase::Setup => seq![("Start next blind", "开始下一盲注", MenuCommand::Static("next"))],
        Phase::Score | Phase::Cleanup => Seq::empty(),
    }
}

/// Entries that depend on the blind's outcome and on the inventory, then the peek entry.
pub open spec fn menu_extras(st: MenuState) -> Seq<(&'static str, &'static str, MenuCommand)> {
    (if st.outcome == Some(BlindOutcome::Cleared) && st.phase != Phase::Shop {
        seq![("Enter shop", "进入商店", MenuCommand::Static("shop"))]
    } else {
        Seq::empty()
    }) + (if st.has_consumables {
        seq![("Use consumable", "使用消耗牌", MenuCommand::Use)]
    } else {
        Seq::empty()
    }) + (if st.has_jokers {
        seq![("Sell joker", "出售小丑", MenuCommand::Sell)]
    } else {
        Seq::empty()
    }) + seq![("Peek draw/discard", "查看牌堆顶部", MenuCommand::Peek)]
}

/// Entries offered whatever the state, after the others.
pub open spec fn menu_tail() -> Seq<(&'static str, &'static str, MenuCommand)> {
    seq![
        ("Save run", "保存进度", MenuCommand::Save),
        ("Load run", "加载进度", MenuCommand::Load),
        ("Show help", "显示帮助", MenuCommand::Static("help")),
        ("Type custom command", "输入自定义命令", MenuCommand::Custom),
        ("Quit", "退出", MenuCommand::Quit),
    ]
}

/// The menu of a state, in order: English label, Chinese label, command.
pub open spec fn menu_items(st: MenuState) -> Seq<(&'static str, &'static str, MenuCommand)> {
    menu_head() + (if st.pack_open {
        menu_pack()
    } else {
        menu_phase(st) + menu_extras(st)
    }) + menu_tail()
}

fn push_all(
    plan: &mut Vec<(&'static str, &'static str, MenuCommand)>,
    items: &[(&'static str, &'static str, MenuCommand)],
)
    ensures
        final(plan)@ == old(plan)@ + items@,
{
    let ghost start = plan@;
    let mut i: usize = 0;
    while i < items.len()
        invariant
            i <= items.len(),
            plan@ == start + items@.subrange(0, i as int),
        decreases items.len() - i,
    {
        plan.push(items[i]);
        i = i + 1;
        assert(items@.subrange(0, i as int) =~= items@.subrange(0, i - 1 as int).push(items@[i - 1]));
        assert(plan@ =~= start + items@.subrange(0, i as int));
    }
    assert(items@.subrange(0, items.len() as int) =~= items@);
}

fn menu_phase_plan(st: MenuState) -> (plan: Vec<(&'static str, &'static str, MenuCommand)>)
    ensures
        plan@ == menu_phase(st),
{
    let mut plan: Vec<(&'static str, &'static str, MenuCommand)> = Vec::new();
    match st.phase {
        Phase::Deal => {
            plan.push(("Deal hand", "发牌", MenuCommand::Static("deal")));
            if st.blind != BlindKind::Boss {
                plan.push(("Skip blind", "跳过盲注", MenuCommand::Static("skip")));
            }
        },
        Phase::Play => {
            plan.push(("Play cards", "出牌", MenuCommand::Play));
            if st.discards_left > 0 {
                plan.push(("Discard cards", "弃牌", MenuCommand::Discard));
            }
        },
        Phase::Shop => {
            plan.push(("Buy from shop", "购买商店商品", MenuCommand::Buy));
            plan.push(("Reroll shop", "刷新商店", MenuCommand::Static("reroll")));
            plan.push(("Leave shop", "离开商店", MenuCommand::Static("leave")));
        },
        Phase::Setup => {
            plan.push(("Start next blind", "开始下一盲注", MenuCommand::Static("next")));
        },
        Phase::Score | Phase::Cleanup => {},
    }
    assert(plan@ =~= menu_phase(st));
    plan
}

fn menu_extras_plan(st: MenuState) -> (plan: Vec<(&'static str, &'static str, MenuCommand)>)
    ensures
        plan@ == menu_extras(st),
{
    let mut plan: Vec<(&'static str, &'static str, MenuCommand)> = Vec::new();
    let cleared = match st.outcome {
        Some(BlindOutcome::Cleared) => true,
        _ => false,
    };
    if cleared && st.phase != Phase::Shop {
        plan.push(("Enter shop", "进入商店", MenuCommand::Static("shop")));
    }
    let ghost a = plan@;
    if st.has_consumables {
        plan.push(("Use consumable", "使用消耗牌", MenuCommand::Use));
    }
    let ghost b = plan@;
    if st.has_jokers {
        plan.push(("Sell joker", "出售小丑", MenuCommand::Sell));
    }
    let ghost c = plan@;
    plan.push(("Peek draw/discard", "查看牌堆顶部", MenuCommand::Peek));
    assert(b =~= a + (if st.has_consumables {
        seq![("Use consumable", "使用消耗牌", MenuCommand::Use)]
    } else {
        Seq::empty()
    }));
    assert(c =~= b + (if st.has_jokers {
        seq![("Sell joker", "出售小丑", MenuCommand::Sell)]
    } else {
        Seq::empty()
    }));
    assert(plan@ =~= menu_extras(st));
    plan
}

fn menu_plan(st: MenuState) -> (plan: Vec<(&'static str, &'static str, MenuCommand)>)
    ensures
        plan@ == menu_items(st),
{
    let mut plan: Vec<(&'static str, &'static str, MenuCommand)> = Vec::new();
    push_all(
        &mut plan,
        &[
            ("Show overview", "查看总览", MenuCommand::Static("board")),
            ("Show hand", "查看手牌", MenuCommand::Static("hand")),
            ("Show inventory", "查看背包", MenuCommand::Static("inv")),
            ("Show action guide", "查看推荐操作", MenuCommand::Static("actions")),
            ("Show summary", "查看摘要", MenuCommand::Static("summary")),
        ],
    );
    assert(plan@ =~= menu_head());
    if st.pack_open {
        push_all(
            &mut plan,
            &[
                ("Pick pack options", "选择卡包选项", MenuCommand::Pick),
                ("Skip pack", "跳过卡包", MenuCommand::Static("skip_pack")),
                ("Show pack", "查看卡包", MenuCommand::Static("pack")),
            ],
        );
        assert(plan@ =~= menu_head() + menu_pack());
    } else {
        let mut phase = menu_phase_plan(st);
        plan.append(&mut phase);
        let mut extras = menu_extras_plan(st);
        plan.append(&mut extras);
        assert(plan@ =~= menu_head() + (menu_phase(st) + menu_extras(st)));
    }
    let ghost body = plan@;
    push_all(
        &mut plan,
        &[
            ("Save run", "保存进度", MenuCommand::Save),
            ("Load run", "加载进度", MenuCommand::Load),
            ("Show help", "显示帮助", MenuCommand::Static("help")),
            ("Type custom command", "输入自定义命令", MenuCommand::Custom),
            ("Quit", "退出", MenuCommand::Quit),
        ],
    );
    assert(plan@ =~= body + menu_tail());
    plan
}

/// The numbered menu of the interactive mode for a state: each entry is labelled in the
/// interface language and carries the command of `menu_items` at its place.
pub fn build_menu_entries(locale: UiLocale, st: MenuState) -> (entries: Vec<MenuEntry>)
    ensures
        entries.len() == menu_items(st).len(),
        forall|i: int|
            0 <= i < entries.len() ==> {
                let (en, zh, command) = #[trigger] menu_items(st)[i];
                &&& entries@[i].label@ == (if locale == UiLocale::ZhCn { zh@ } else { en@ })
                &&& entries@[i].command == command
            },
{
    let plan = menu_plan(st);
    let mut entries: Vec<MenuEntry> = Vec::new();
    let mut i: usize = 0;
    while i < plan.len()
        invariant
            i <= plan.len(),
            plan@ == menu_items(st),
            entries.len() == i,
            forall|j: int|
                0 <= j < i ==> {
                    let (en, zh, command) = #[trigger] menu_items(st)[j];
                    &&& entries@[j].label@ == (if locale == UiLocale::ZhCn { zh@ } else { en@ })
                    &&& entries@[j].command == command
                },
        decreases plan.len() - i,
    {
        let (en, zh, command) = plan[i];
        entries.push(menu_entry(locale, en, zh, command));
        i = i + 1;
    }
    entries
}

// ---------------------------------------------------------------------------
// Status prompt
// ---------------------------------------------------------------------------

/// The figures of a run shown in the command prompt.
#[derive(Debug, Clone, Copy)]
pub struct StatusLine {
    pub ante: u8,
    pub blind: BlindKind,
    pub phase: Phase,
    pub money: i64,
    pub blind_score: i64,
    pub target: i64,
    pub hands_left: u8,
    pub hands_max: u8,
    pub discards_left: u8,
    pub discards_max: u8,
    pub blinds_skipped: u32,
    pub pack_open: bool,
}

/// The prompt of the interactive mode:
/// `[A<ante> <blind> <phase> $<money> <score>/<target> H<hands>/<max> D<discards>/<max> SK<skipped>]`,
/// with ` PK` before the bracket closes while a pack is open, then ` > `.
pub open spec fn spec_prompt_text(locale: UiLocale, st: StatusLine) -> Seq<char> {
    "[A"@ + decimal(st.ante as nat) + " "@ + spec_blind_label(locale, st.blind) + " "@ + spec_phase_label(
        locale,
        st.phase,
    ) + " $"@ + int_text(st.money as int) + " "@ + int_text(st.blind_score as int) + "/"@ + int_text(
        st.target as int,
    ) + " H"@ + decimal(st.hands_left as nat) + "/"@ + decimal(st.hands_max as nat) + " D"@ + decimal(
        st.discards_left as nat,
    ) + "/"@ + decimal(st.discards_max as nat) + " SK"@ + decimal(st.blinds_skipped as nat) + (if st.pack_open {
        " PK"@
    } else {
        Seq::empty()
    }) + "] > "@
}

/// The command prompt for a run's status.
pub fn prompt_text(locale: UiLocale, st: StatusLine) -> (s: String)
    ensures
        s@ == spec_prompt_text(locale, st),
{
    let mut out = String::from_str("[A");
    push_decimal(&mut out, st.ante as u64);
    out.append(" ");
    out.append(blind_label(locale, st.blind));
    out.append(" ");
    out.append(phase_label(locale, st.phase));
    out.append(" $");
    push_int(&mut out, st.money);
    out.append(" ");
    push_int(&mut out, st.blind_score);
    out.append("/");
    push_int(&mut out, st.target);
    out.append(" H");
    push_decimal(&mut out, st.hands_left as u64);
    out.append("/");
    push_decimal(&mut out, st.hands_max as u64);
    out.append(" D");
    push_decimal(&mut out, st.discards_left as u64);
    out.append("/");
    push_decimal(&mut out, st.discards_max as u64);
    out.append(" SK");
    push_decimal(&mut out, st.blinds_skipped as u64);
    if st.pack_open {
        out.append(" PK");
    }
    out.append("] > ");
    out
}

// ---------------------------------------------------------------------------
// Commands of the interactive mode
// ---------------------------------------------------------------------------

/// A command of the interactive mode, named by the first word of a line.
#[derive(Debug, Clone, Copy, PartialEq, Eq, Structural)]
pub enum CuiCommand {
    Help,
    Quit,
    Actions,
    State,
    Summary,
    Hand,
    Deck,
    Levels,
    Tags,
    Inventory,
    Reward,
    Board,
    Reference,
    Save,
    Load,
    Deal,
    Play,
    Discard,
    SkipBlind,
    Shop,
    Leave,
    Reroll,
    Buy,
    Pack,
    Edit,
    Pick,
    SkipPack,
    Peek,
    Use,
    Sell,
    Next,
    Unknown,
}

/// The command a word names, with its short forms; `Unknown` for any other word.
pub open spec fn spec_cui_command(w: Seq<char>) -> CuiCommand {
    if w == "help"@ || w == "h"@ || w == "?"@ {
        CuiCommand::Help
    } else if w == "quit"@ || w == "exit"@ {
        CuiCommand::Quit
    } else if w == "actions"@ || w == "a"@ {
        CuiCommand::Actions
    } else if w == "state"@ || w == "s"@ {
        CuiCommand::State
    } else if w == "status"@ || w == "summary"@ {
        CuiCommand::Summary
    } else if w == "hand"@ {
        CuiCommand::Hand
    } else if w == "deck"@ {
        CuiCommand::Deck
    } else if w == "levels"@ {
        CuiCommand::Levels
    } else if w == "tags"@ {
        CuiCommand::Tags
    } else if w == "inv"@ || w == "inventory"@ {
        CuiCommand::Inventory
    } else if w == "reward"@ {
        CuiCommand::Reward
    } else if w == "board"@ || w == "overview"@ || w == "ls"@ {
        CuiCommand::Board
    } else if w == "data"@ || w == "ref"@ {
        CuiCommand::Reference
    } else if w == "save"@ {
        CuiCommand::Save
    } else if w == "load"@ {
        CuiCommand::Load
    } else if w == "deal"@ || w == "d"@ {
        CuiCommand::Deal
    } else if w == "play"@ || w == "p"@ {
        CuiCommand::Play
    } else if w == "discard"@ || w == "x"@ {
        CuiCommand::Discard
    } else if w == "skip"@ || w == "skip_blind"@ {
        CuiCommand::SkipBlind
    } else if w == "shop"@ || w == "sh"@ {
        CuiCommand::Shop
    } else if w == "leave"@ {
        CuiCommand::Leave
    } else if w == "reroll"@ || w == "r"@ {
        CuiCommand::Reroll
    } else if w == "buy"@ {
        CuiCommand::Buy
    } else if w == "pack"@ {
        CuiCommand::Pack
    } else if w == "edit"@ {
        CuiCommand::Edit
    } else if w == "pick"@ {
        CuiCommand::Pick
    } else if w == "skip_pack"@ || w == "sp"@ {
        CuiCommand::SkipPack
    } else if w == "peek"@ {
        CuiCommand::Peek
    } else if w == "use"@ {
        CuiCommand::Use
    } else if w == "sell"@ {
        CuiCommand::Sell
    } else if w == "next"@ || w == "n"@ {
        CuiCommand::Next
    } else {
        CuiCommand::Unknown
    }
}

/// Every word offered by command completion names a command (none parses as `Unknown`),
/// and the commands with no short form are named by their words: `use`, `sell`, `buy`,
/// `edit`, `pick`, `peek`, and the card commands `play` and `discard`.
pub proof fn law_completion_words_are_commands()
    ensures
        forall|k: int|
            0 <= k < spec_completion_commands().len() ==> spec_cui_command(#[trigger] spec_completion_commands()[k])
                != CuiCommand::Unknown,
        spec_cui_command("use"@) == CuiCommand::Use,
        spec_cui_command("sell"@) == CuiCommand::Sell,
        spec_cui_command("buy"@) == CuiCommand::Buy,
        spec_cui_command("edit"@) == CuiCommand::Edit,
        spec_cui_command("pick"@) == CuiCommand::Pick,
        spec_cui_command("peek"@) == CuiCommand::Peek,
        spec_cui_command("play"@) == CuiCommand::Play,
        spec_cui_command("discard"@) == CuiCommand::Discard,
{
    reveal_strlit("help");
    assert("help"@.len() == 4);
    reveal_strlit("h");
    assert("h"@.len() == 1);
    reveal_strlit("?");
    assert("?"@.len() == 1);
    reveal_strlit("quit");
    assert("quit"@.len() == 4);
    reveal_strlit("exit");
    assert("exit"@.len() == 4);
    reveal_strlit("actions");
    assert("actions"@.len() == 7);
    reveal_strlit("a");
    assert("a"@.len() == 1);
    reveal_strlit("state");
    assert("state"@.len() == 5);
    reveal_strlit("s");
    assert("s"@.len() == 1);
    reveal_strlit("status");
    assert("status"@.len() == 6);
    reveal_strlit("summary");
    assert("summary"@.len() == 7);
    reveal_strlit("hand");
    assert("hand"@.len() == 4);
    reveal_strlit("deck");
    assert("deck"@.len() == 4);
    reveal_strlit("levels");
    assert("levels"@.len() == 6);
    reveal_strlit("tags");
    assert("tags"@.len() == 4);
    reveal_strlit("inv");
    assert("inv"@.len() == 3);
    reveal_strlit("inventory");
    assert("inventory"@.len() == 9);
    reveal_strlit("reward");
    assert("reward"@.len() == 6);
    reveal_strlit("board");
    assert("board"@.len() == 5);
    reveal_strlit("overview");
    assert("overview"@.len() == 8);
    reveal_strlit("ls");
    assert("ls"@.len() == 2);
    reveal_strlit("data");
    assert("data"@.len() == 4);
    reveal_strlit("ref");
    assert("ref"@.len() == 3);
    reveal_strlit("save");
    assert("save"@.len() == 4);
    reveal_strlit("load");
    assert("load"@.len() == 4);
    reveal_strlit("deal");
    assert("deal"@.len() == 4);
    reveal_strlit("d");
    assert("d"@.len() == 1);
    reveal_strlit("play");
    assert("play"@.len() == 4);
    reveal_strlit("p");
    assert("p"@.len() == 1);
    reveal_strlit("discard");
    assert("discard"@.len() == 7);
    reveal_strlit("x");
    assert("x"@.len() == 1);
    reveal_strlit("skip");
    assert("skip"@.len() == 4);
    reveal_strlit("skip_blind");
    assert("skip_blind"@.len() == 10);
    reveal_strlit("shop");
    assert("shop"@.len() == 4);
    reveal_strlit("sh");
    assert("sh"@.len() == 2);
    reveal_strlit("leave");
    assert("leave"@.len() == 5);
    reveal_strlit("reroll");
    assert("reroll"@.len() == 6);
    reveal_strlit("r");
    assert("r"@.len() == 1);
    reveal_strlit("buy");
    assert("buy"@.len() == 3);
    reveal_strlit("pack");
    assert("pack"@.len() == 4);
    reveal_strlit("edit");
    assert("edit"@.len() == 4);
    reveal_strlit("pick");
    assert("pick"@.len() == 4);
    reveal_strlit("skip_pack");
    assert("skip_pack"@.len() == 9);
    reveal_strlit("sp");
    assert("sp"@.len() == 2);
    reveal_strlit("peek");
    assert("peek"@.len() == 4);
    reveal_strlit("use");
    assert("use"@.len() == 3);
    reveal_strlit("sell");
    assert("sell"@.len() == 4);
    assert("use"@[0] != "inv"@[0]);
    assert("use"@[0] != "ref"@[0]);
    assert("use"@[0] != "buy"@[0]);
    assert("sell"@[0] != "help"@[0]);
    assert("sell"@[0] != "quit"@[0]);
    assert("sell"@[0] != "exit"@[0]);
    assert("sell"@[0] != "hand"@[0]);
    assert("sell"@[0] != "deck"@[0]);
    assert("sell"@[0] != "tags"@[0]);
    assert("sell"@[0] != "data"@[0]);
    assert("sell"@[1] != "save"@[1]);
    assert("sell"@[0] != "load"@[0]);
    assert("sell"@[0] != "deal"@[0]);
    assert("sell"@[0] != "play"@[0]);
    assert("sell"@[1] != "skip"@[1]);
    assert("sell"@[1] != "shop"@[1]);
    assert("sell"@[0] != "pack"@[0]);
    assert("sell"@[0] != "edit"@[0]);
    assert("sell"@[0] != "pick"@[0]);
    assert("sell"@[0] != "peek"@[0]);
    assert("buy"@[0] != "inv"@[0]);
    assert("buy"@[0] != "ref"@[0]);
    assert("edit"@[0] != "help"@[0]);
    assert("edit"@[0] != "quit"@[0]);
    assert("edit"@[1] != "exit"@[1]);
    assert("edit"@[0] != "hand"@[0]);
    assert("edit"@[0] != "deck"@[0]);
    assert("edit"@[0] != "tags"@[0]);
    assert("edit"@[0] != "data"@[0]);
    assert("edit"@[0] != "save"@[0]);
    assert("edit"@[0] != "load"@[0]);
    assert("edit"@[0] != "deal"@[0]);
    assert("edit"@[0] != "play"@[0]);
    assert("edit"@[0] != "skip"@[0]);
    assert("edit"@[0] != "shop"@[0]);
    assert("edit"@[0] != "pack"@[0]);
    assert("pick"@[0] != "help"@[0]);
    assert("pick"@[0] != "quit"@[0]);
    assert("pick"@[0] != "exit"@[0]);
    assert("pick"@[0] != "hand"@[0]);
    assert("pick"@[0] != "deck"@[0]);
    assert("pick"@[0] != "tags"@[0]);
    assert("pick"@[0] != "data"@[0]);
    assert("pick"@[0] != "save"@[0]);
    assert("pick"@[0] != "load"@[0]);
    assert("pick"@[0] != "deal"@[0]);
    assert("pick"@[1] != "play"@[1]);
    assert("pick"@[0] != "skip"@[0]);
    assert("pick"@[0] != "shop"@[0]);
    assert("pick"@[1] != "pack"@[1]);
    assert("pick"@[0] != "edit"@[0]);
    assert("peek"@[0] != "help"@[0]);
    assert("peek"@[0] != "quit"@[0]);
    assert("peek"@[0] != "exit"@[0]);
    assert("peek"@[0] != "hand"@[0]);
    assert("peek"@[0] != "deck"@[0]);
    assert("peek"@[0] != "tags"@[0]);
    assert("peek"@[0] != "data"@[0]);
    assert("peek"@[0] != "save"@[0]);
    assert("peek"@[0] != "load"@[0]);
    assert("peek"@[0] != "deal"@[0]);
    assert("peek"@[1] != "play"@[1]);
    assert("peek"@[0] != "skip"@[0]);
    assert("peek"@[0] != "shop"@[0]);
    assert("peek"@[1] != "pack"@[1]);
    assert("peek"@[0] != "edit"@[0]);
    assert("peek"@[1] != "pick"@[1]);
    assert("play"@[0] != "help"@[0]);
    assert("play"@[0] != "quit"@[0]);
    assert("play"@[0] != "exit"@[0]);
    assert("play"@[0] != "hand"@[0]);
    assert("play"@[0] != "deck"@[0]);
    assert("play"@[0] != "tags"@[0]);
    assert("play"@[0] != "data"@[0]);
    assert("play"@[0] != "save"@[0]);
    assert("play"@[0] != "load"@[0]);
    assert("play"@[0] != "deal"@[0]);
    assert("discard"@[0] != "actions"@[0]);
    assert("discard"@[0] != "summary"@[0]);
    let table = spec_completion_commands();
    assert forall|k: int| 0 <= k < table.len() implies spec_cui_command(#[trigger] table[k]) != CuiCommand::Unknown by {
        if k == 0 {
            assert(spec_cui_command("?"@) != CuiCommand::Unknown);
        } else if k == 1 {
            assert(spec_cui_command("a"@) != CuiCommand::Unknown);
        } else if k == 2 {
            assert(spec_cui_command("actions"@) != CuiCommand::Unknown);
        } else if k == 3 {
            assert(spec_cui_command("board"@) != CuiCommand::Unknown);
        } else if k == 4 {
            assert(spec_cui_command("buy"@) != CuiCommand::Unknown);
        } else if k == 5 {
            assert(spec_cui_command("d"@) != CuiCommand::Unknown);
        } else if k == 6 {
            assert(spec_cui_command("data"@) != CuiCommand::Unknown);
        } else if k == 7 {
            assert(spec_cui_command("deal"@) != CuiCommand::Unknown);
        } else if k == 8 {
            assert(spec_cui_command("deck"@) != CuiCommand::Unknown);
        } else if k == 9 {
            assert(spec_cui_command("discard"@) != CuiCommand::Unknown);
        } else if k == 10 {
            assert(spec_cui_command("edit"@) != CuiCommand::Unknown);
        } else if k == 11 {
            assert(spec_cui_command("exit"@) != CuiCommand::Unknown);
        } else if k == 12 {
            assert(spec_cui_command("h"@) != CuiCommand::Unknown);
        } else if k == 13 {
            assert(spec_cui_command("hand"@) != CuiCommand::Unknown);
        } else if k == 14 {
            assert(spec_cui_command("help"@) != CuiCommand::Unknown);
        } else if k == 15 {
            assert(spec_cui_command("inv"@) != CuiCommand::Unknown);
        } else if k == 16 {
            assert(spec_cui_command("inventory"@) != CuiCommand::Unknown);
        } else if k == 17 {
            assert(spec_cui_command("leave"@) != CuiCommand::Unknown);
        } else if k == 18 {
            assert(spec_cui_command("levels"@) != CuiCommand::Unknown);
        } else if k == 19 {
            assert(spec_cui_command("load"@) != CuiCommand::Unknown);
        } else if k == 20 {
            assert(spec_cui_command("ls"@) != CuiCommand::Unknown);
        } else if k == 21 {
            assert(spec_cui_command("n"@) != CuiCommand::Unknown);
        } else if k == 22 {
            assert(spec_cui_command("next"@) != CuiCommand::Unknown);
        } else if k == 23 {
            assert(spec_cui_command("overview"@) != CuiCommand::Unknown);
        } else if k == 24 {
            assert(spec_cui_command("p"@) != CuiCommand::Unknown);
        } else if k == 25 {
            assert(spec_cui_command("pack"@) != CuiCommand::Unknown);
        } else if k == 26 {
            assert(spec_cui_command("peek"@) != CuiCommand::Unknown);
        } else if k == 27 {
            assert(spec_cui_command("pick"@) != CuiCommand::Unknown);
        } else if k == 28 {
            assert(spec_cui_command("play"@) != CuiCommand::Unknown);
        } else if k == 29 {
            assert(spec_cui_command("quit"@) != CuiCommand::Unknown);
        } else if k == 30 {
            assert(spec_cui_command("r"@) != CuiCommand::Unknown);
        } else if k == 31 {
            assert(spec_cui_command("ref"@) != CuiCommand::Unknown);
        } else if k == 32 {
            assert(spec_cui_command("reroll"@) != CuiCommand::Unknown);
        } else if k == 33 {
            assert(spec_cui_command("reward"@) != CuiCommand::Unknown);
        } else if k == 34 {
            assert(spec_cui_command("s"@) != CuiCommand::Unknown);
        } else if k == 35 {
            assert(spec_cui_command("sell"@) != CuiCommand::Unknown);
        } else if k == 36 {
            assert(spec_cui_command("sh"@) != CuiCommand::Unknown);
        } else if k == 37 {
            assert(spec_cui_command("shop"@) != CuiCommand::Unknown);
        } else if k == 38 {
            assert(spec_cui_command("skip"@) != CuiCommand::Unknown);
        } else if k == 39 {
            assert(spec_cui_command("skip_blind"@) != CuiCommand::Unknown);
        } else if k == 40 {
            assert(spec_cui_command("skip_pack"@) != CuiCommand::Unknown);
        } else if k == 41 {
            assert(spec_cui_command("sp"@) != CuiCommand::Unknown);
        } else if k == 42 {
            assert(spec_cui_command("save"@) != CuiCommand::Unknown);
        } else if k == 43 {
            assert(spec_cui_command("state"@) != CuiCommand::Unknown);
        } else if k == 44 {
            assert(spec_cui_command("status"@) != CuiCommand::Unknown);
        } else if k == 45 {
            assert(spec_cui_command("summary"@) != CuiCommand::Unknown);
        } else if k == 46 {
            assert(spec_cui_command("tags"@) != CuiCommand::Unknown);
        } else if k == 47 {
            assert(spec_cui_command("use"@) != CuiCommand::Unknown);
        } else if k == 48 {
            assert(spec_cui_command("x"@) != CuiCommand::Unknown);
        }
    }
}

/// The command a word names.
pub fn parse_cui_command(word: &str) -> (c: CuiCommand)
    ensures
        c == spec_cui_command(word@),
        spec_completion_commands().contains(word@) ==> c != CuiCommand::Unknown,
        word@ == "use"@ ==> c == CuiCommand::Use,
{
    proof {
        law_completion_words_are_commands();
    }
    if str_eq(word, "help") || str_eq(word, "h") || str_eq(word, "?") {
        CuiCommand::Help
    } else if str_eq(word, "quit") || str_eq(word, "exit") {
        CuiCommand::Quit
    } else if str_eq(word, "actions") || str_eq(word, "a") {
        CuiCommand::Actions
    } else if str_eq(word, "state") || str_eq(word, "s") {
        CuiCommand::State
    } else if str_eq(word, "status") || str_eq(word, "summary") {
        CuiCommand::Summary
    } else if str_eq(word, "hand") {
        CuiCommand::Hand
    } else if str_eq(word, "deck") {
        CuiCommand::Deck
    } else if str_eq(word, "levels") {
        CuiCommand::Levels
    } else if str_eq(word, "tags") {
        CuiCommand::Tags
    } else if str_eq(word, "inv") || str_eq(word, "inventory") {
        CuiCommand::Inventory
    } else if str_eq(word, "reward") {
        CuiCommand::Reward
    } else if str_eq(word, "board") || str_eq(word, "overview") || str_eq(word, "ls") {
        CuiCommand::Board
    } else if str_eq(word, "data") || str_eq(word, "ref") {
        CuiCommand::Reference
    } else if str_eq(word, "save") {
        CuiCommand::Save
    } else if str_eq(word, "load") {
        CuiCommand::Load
    } else if str_eq(word, "deal") || str_eq(word, "d") {
        CuiCommand::Deal
    } else if str_eq(word, "play") || str_eq(word, "p") {
        CuiCommand::Play
    } else if str_eq(word, "discard") || str_eq(word, "x") {
        CuiCommand::Discard
    } else if str_eq(word, "skip") || str_eq(word, "skip_blind") {
        CuiCommand::SkipBlind
    } else if str_eq(word, "shop") || str_eq(word, "sh") {
        CuiCommand::Shop
    } else if str_eq(word, "leave") {
        CuiCommand::Leave
    } else if str_eq(word, "reroll") || str_eq(word, "r") {
        CuiCommand::Reroll
    } else if str_eq(word, "buy") {
        CuiCommand::Buy
    } else if str_eq(word, "pack") {
        CuiCommand::Pack
    } else if str_eq(word, "edit") {
        CuiCommand::Edit
    } else if str_eq(word, "pick") {
        CuiCommand::Pick
    } else if str_eq(word, "skip_pack") || str_eq(word, "sp") {
        CuiCommand::SkipPack
    } else if str_eq(word, "peek") {
        CuiCommand::Peek
    } else if str_eq(word, "use") {
        CuiCommand::Use
    } else if str_eq(word, "sell") {
        CuiCommand::Sell
    } else if str_eq(word, "next") || str_eq(word, "n") {
        CuiCommand::Next
    } else {
        CuiCommand::Unknown
    }
}

/// Split a command line into its command and the words after it; `None` for a blank line.
pub fn parse_command_line(line: &str) -> (r: Option<(CuiCommand, Vec<String>)>)
    ensures
        match r {
            None => words(line@).len() == 0,
            Some((c, args)) => words(line@).len() > 0 && c == spec_cui_command(words(line@)[0])
                && string_views(args@) == words(line@).drop_first(),
        },
{
    let mut parts = split_words(line);
    if parts.len() == 0 {
        return None;
    }
    let ghost all = string_views(parts@);
    let first = parts.remove(0);
    let c = parse_cui_command(first.as_str());
    assert(string_views(parts@) =~= all.drop_first());
    Some((c, parts))
}

// ---------------------------------------------------------------------------
// Command prompts
// ---------------------------------------------------------------------------

/// Text in the interface language.
pub open spec fn in_locale(locale: UiLocale, en: &str, zh: &str) -> Seq<char> {
    if locale == UiLocale::ZhCn {
        zh@
    } else {
        en@
    }
}

/// The message shown for a parse error: `error: ` and the localized error.
pub open spec fn error_line(locale: UiLocale, err: Seq<char>) -> Seq<char> {
    in_locale(locale, "error", "错误") + ": "@ + spec_localize_error(locale, err)
}

/// Indices in decimal, separated by single spaces.
pub open spec fn spaced_indices(s: Seq<usize>) -> Seq<char>
    decreases s.len(),
{
    if s.len() == 0 {
        Seq::empty()
    } else if s.len() == 1 {
        decimal(s[0] as nat)
    } else {
        spaced_indices(s.drop_last()) + seq![' '] + decimal(s.last() as nat)
    }
}

fn push_spaced_indices(out: &mut String, items: &Vec<usize>)
    ensures
        final(out)@ == old(out)@ + spaced_indices(items@),
{
    let ghost start = out@;
    let mut i: usize = 0;
    assert(items@.subrange(0, 0) =~= Seq::<usize>::empty());
    while i < items.len()
        invariant
            i <= items.len(),
            out@ == start + spaced_indices(items@.subrange(0, i as int)),
        decreases items.len() - i,
    {
        if i > 0 {
            push_char(out, ' ');
        }
        push_decimal(out, items[i] as u64);
        assert(items@.subrange(0, i + 1).drop_last() =~= items@.subrange(0, i as int));
        i = i + 1;
    }
    assert(items@.subrange(0, items.len() as int) =~= items@);
}

fn parse_usize_str(s: &str) -> (r: Option<usize>)
    ensures
        r == spec_parse_usize(s@),
{
    let chars = chars_of(s);
    assert(chars@.subrange(0, chars@.len() as int) =~= chars@);
    parse_usize_range(&chars, 0, chars.len())
}

fn localized(locale: UiLocale, en: &str, zh: &str) -> (s: String)
    ensures
        s@ == in_locale(locale, en, zh),
{
    String::from_str(locale.text(en, zh))
}

fn error_message(locale: UiLocale, err: &str) -> (s: String)
    ensures
        s@ == error_line(locale, err@),
{
    let mut out = localized(locale, "error", "错误");
    out.append(": ");
    let e = localize_parse_error(locale, err);
    out.append(e.as_str());
    out
}

fn word_refs(words: &Vec<String>) -> (refs: Vec<&str>)
    ensures
        str_views(refs@) == string_views(words@),
{
    let mut refs: Vec<&str> = Vec::new();
    let mut i: usize = 0;
    while i < words.len()
        invariant
            i <= words.len(),
            refs@.len() == i,
            forall|k: int| 0 <= k < i ==> (#[trigger] refs@[k])@ == words@[k]@,
        decreases words.len() - i,
    {
        refs.push(words[i].as_str());
        i = i + 1;
    }
    assert(str_views(refs@) =~= string_views(words@));
    refs
}

/// A line typed at an index prompt (`play`, `discard`, `pick`): the command followed by the
/// indices read from the line, or the error to show.
pub fn indices_command_line(locale: UiLocale, action: &str, line: &str) -> (r: Result<String, String>)
    ensures
        match spec_parse_indices(words(line@)) {
            Ok(v) => r matches Ok(c) && c@ == action@ + " "@ + spaced_indices(v),
            Err(e) => r matches Err(m) && m@ == error_line(locale, e),
        },
{
    let parts = split_words(line);
    let refs = word_refs(&parts);
    match parse_indices_result(refs.as_slice()) {
        Ok(indices) => {
            let mut out = String::from_str(action);
            out.append(" ");
            push_spaced_indices(&mut out, &indices);
            Ok(out)
        },
        Err(e) => Err(error_message(locale, e.as_str())),
    }
}

/// A line typed at the buy prompt: `buy`, the kind (`card`, `pack` or `voucher`) and the
/// index, or the message to show: usage unless there are exactly two words, then a wrong
/// kind, then an index that is not a number.
pub fn buy_command_line(locale: UiLocale, line: &str) -> (r: Result<String, String>)
    ensures
        ({
            let w = words(line@);
            if w.len() != 2 {
                r matches Err(m) && m@ == in_locale(
                    locale,
                    "usage: card|pack|voucher <index>",
                    "用法：card|pack|voucher <index>",
                )
            } else if w[0] != "card"@ && w[0] != "pack"@ && w[0] != "voucher"@ {
                r matches Err(m) && m@ == in_locale(
                    locale,
                    "kind must be card, pack, or voucher",
                    "类型必须是 card、pack 或 voucher",
                )
            } else {
                match spec_parse_usize(w[1]) {
                    Some(i) => r matches Ok(c) && c@ == "buy "@ + w[0] + " "@ + decimal(i as nat),
                    None => r matches Err(m) && m@ == in_locale(locale, "invalid index", "无效索引"),
                }
            }
        }),
{
    let parts = split_words(line);
    if parts.len() != 2 {
        return Err(localized(locale, "usage: card|pack|voucher <index>", "用法：card|pack|voucher <index>"));
    }
    let kind = parts[0].as_str();
    if !str_eq(kind, "card") && !str_eq(kind, "pack") && !str_eq(kind, "voucher") {
        return Err(localized(locale, "kind must be card, pack, or voucher", "类型必须是 card、pack 或 voucher"));
    }
    match parse_usize_str(parts[1].as_str()) {
        Some(idx) => {
            let mut out = String::from_str("buy ");
            out.append(kind);
            out.append(" ");
            push_decimal(&mut out, idx as u64);
            Ok(out)
        },
        None => Err(localized(locale, "invalid index", "无效索引")),
    }
}

/// A line typed at the use prompt: `use`, the consumable's index, then any hand indices
/// read from the rest of the line; or the message to show.
pub fn use_command_line(locale: UiLocale, line: &str) -> (r: Result<String, String>)
    ensures
        ({
            let w = words(line@);
            if w.len() == 0 {
                r matches Err(m) && m@ == in_locale(
                    locale,
                    "usage: <consumable_index> [selected idxs]",
                    "用法：<消耗牌索引> [手牌索引]",
                )
            } else {
                match spec_parse_usize(w[0]) {
                    None => r matches Err(m) && m@ == in_locale(locale, "invalid index", "无效索引"),
                    Some(i) => if w.len() == 1 {
                        r matches Ok(c) && c@ == "use "@ + decimal(i as nat)
                    } else {
                        match spec_parse_indices(w.drop_first()) {
                            Ok(v) => r matches Ok(c) && c@ == "use "@ + decimal(i as nat) + (if v.len() == 0 {
                                Seq::<char>::empty()
                            } else {
                                " "@ + spaced_indices(v)
                            }),
                            Err(e) => r matches Err(m) && m@ == error_line(locale, e),
                        }
                    },
                }
            }
        }),
{
    let parts = split_words(line);
    if parts.len() == 0 {
        return Err(localized(locale, "usage: <consumable_index> [selected idxs]", "用法：<消耗牌索引> [手牌索引]"));
    }
    let idx = match parse_usize_str(parts[0].as_str()) {
        Some(v) => v,
        None => {
            return Err(localized(locale, "invalid index", "无效索引"));
        },
    };
    let refs = word_refs(&parts);
    let rest = slice_from(&refs, 1);
    assert(str_views(rest@) =~= words(line@).drop_first());
    match parse_optional_indices(rest.as_slice()) {
        Ok(selected) => {
            let mut out = String::from_str("use ");
            push_decimal(&mut out, idx as u64);
            if selected.len() > 0 {
                out.append(" ");
                push_spaced_indices(&mut out, &selected);
            }
            Ok(out)
        },
        Err(e) => Err(error_message(locale, e.as_str())),
    }
}

fn slice_from<'a>(refs: &Vec<&'a str>, from: usize) -> (out: Vec<&'a str>)
    requires
        from <= refs@.len(),
    ensures
        out@ == refs@.subrange(from as int, refs@.len() as int),
        str_views(out@) == str_views(refs@).subrange(from as int, refs@.len() as int),
{
    let mut out: Vec<&'a str> = Vec::new();
    let mut i = from;
    while i < refs.len()
        invariant
            from <= i <= refs@.len(),
            out@ == refs@.subrange(from as int, i as int),
        decreases refs.len() - i,
    {
        out.push(refs[i]);
        i = i + 1;
        assert(out@ =~= refs@.subrange(from as int, i as int));
    }
    assert(str_views(out@) =~= str_views(refs@).subrange(from as int, refs@.len() as int));
    out
}

/// A line typed at the sell prompt: `sell` and the joker's index, or the message to show.
pub fn sell_command_line(locale: UiLocale, line: &str) -> (r: Result<String, String>)
    ensures
        match spec_parse_usize(trim_chars(line@)) {
            Some(i) => r matches Ok(c) && c@ == "sell "@ + decimal(i as nat),
            None => r matches Err(m) && m@ == in_locale(locale, "invalid index", "无效索引"),
        },
{
    match parse_usize_str(trim(line)) {
        Some(idx) => {
            let mut out = String::from_str("sell ");
            push_decimal(&mut out, idx as u64);
            Ok(out)
        },
        None => Err(localized(locale, "invalid index", "无效索引")),
    }
}

/// A line typed at the peek prompt: `peek`, the pile (`draw` or `discard`) and the count if
/// one is given; or the message to show.
pub fn peek_command_line(locale: UiLocale, line: &str) -> (r: Result<String, String>)
    ensures
        ({
            let w = words(line@);
            if w.len() == 0 {
                r matches Err(m) && m@ == in_locale(locale, "usage: draw|discard [count]", "用法：draw|discard [数量]")
            } else if w[0] != "draw"@ && w[0] != "discard"@ {
                r matches Err(m) && m@ == in_locale(
                    locale,
                    "target must be draw or discard",
                    "目标必须是 draw 或 discard",
                )
            } else if w.len() == 1 {
                r matches Ok(c) && c@ == "peek "@ + w[0]
            } else {
                match spec_parse_usize(w[1]) {
                    Some(n) => r matches Ok(c) && c@ == "peek "@ + w[0] + " "@ + decimal(n as nat),
                    None => r matches Err(m) && m@ == in_locale(locale, "invalid count", "数量无效"),
                }
            }
        }),
{
    let parts = split_words(line);
    if parts.len() == 0 {
        return Err(localized(locale, "usage: draw|discard [count]", "用法：draw|discard [数量]"));
    }
    let target = parts[0].as_str();
    if !str_eq(target, "draw") && !str_eq(target, "discard") {
        return Err(localized(locale, "target must be draw or discard", "目标必须是 draw 或 discard"));
    }
    let mut out = String::from_str("peek ");
    out.append(target);
    if parts.len() >= 2 {
        match parse_usize_str(parts[1].as_str()) {
            Some(n) => {
                out.append(" ");
                push_decimal(&mut out, n as u64);
            },
            None => {
                return Err(localized(locale, "invalid count", "数量无效"));
            },
        }
    }
    Ok(out)
}

// ---------------------------------------------------------------------------
// Save signature
// ---------------------------------------------------------------------------

/// Hasher for a content signature, already fed with the scheme tag and the locale code.
pub fn signature_hasher(locale: UiLocale) -> (h: Fnv64)
    ensures
        h.0 == fnv_feed(
            fnv_feed(fnv_offset(), encode_utf8("rulatro-save-signature-v1"@)),
            encode_utf8(spec_locale_code(locale)),
        ),
{
    let mut h = Fnv64::new();
    h.update("rulatro-save-signature-v1".as_bytes());
    h.update(locale.code().as_bytes());
    h
}

/// `b^i`.
pub open spec fn power(b: int, i: int) -> int
    decreases i,
{
    if i <= 0 {
        1
    } else {
        b * power(b, i - 1)
    }
}

proof fn lemma_power_positive(b: int, i: int)
    requires
        b > 0,
    ensures
        power(b, i) > 0,
    decreases i,
{
    if i > 0 {
        lemma_power_positive(b, i - 1);
        assert(b * power(b, i - 1) > 0) by (nonlinear_arith)
            requires
                b > 0,
                power(b, i - 1) > 0,
        ;
    }
}

/// Dividing by `b^i` and then by `b` is dividing by `b^(i+1)`.
proof fn lemma_div_power_step(v: int, b: int, i: int)
    requires
        v >= 0,
        b > 0,
        i >= 0,
    ensures
        (v / power(b, i)) / b == v / power(b, i + 1),
{
    lemma_power_positive(b, i);
    vstd::arithmetic::div_mod::lemma_div_denominator(v, power(b, i), b);
    assert(power(b, i) * b == b * power(b, i)) by (nonlinear_arith);
}

/// The `n` base-`b` digits of `v`, least significant first.
fn digits_of(v: u64, b: u64, n: usize) -> (out: Vec<u64>)
    requires
        b >= 2,
    ensures
        out@.len() == n,
        forall|k: int| 0 <= k < n ==> out@[k] as int == (v as int / power(b as int, k)) % (b as int),
{
    let mut out: Vec<u64> = Vec::new();
    let mut x = v;
    let mut i: usize = 0;
    while i < n
        invariant
            b >= 2,
            i <= n,
            out@.len() == i,
            x as int == v as int / power(b as int, i as int),
            forall|k: int| 0 <= k < i ==> out@[k] as int == (v as int / power(b as int, k)) % (b as int),
        decreases n - i,
    {
        proof {
            lemma_div_power_step(v as int, b as int, i as int);
        }
        out.push(x % b);
        x = x / b;
        i = i + 1;
    }
    out
}

/// The eight little-endian bytes of `v`.
pub open spec fn u64_le_bytes(v: u64) -> Seq<u8> {
    Seq::new(8, |k: int| ((v as int / power(256, k)) % 256) as u8)
}

fn le_bytes(v: u64) -> (out: Vec<u8>)
    ensures
        out@ == u64_le_bytes(v),
{
    let digits = digits_of(v, 256, 8);
    let mut out: Vec<u8> = Vec::new();
    let mut i: usize = 0;
    while i < 8
        invariant
            i <= 8,
            digits@.len() == 8,
            forall|k: int| 0 <= k < 8 ==> digits@[k] as int == (v as int / power(256, k)) % 256,
            out@.len() == i,
            forall|k: int| 0 <= k < i ==> out@[k] == ((v as int / power(256, k)) % 256) as u8,
        decreases 8 - i,
    {
        out.push(digits[i] as u8);
        i = i + 1;
    }
    assert(out@ =~= u64_le_bytes(v));
    out
}

/// Feed one entry of the content tree: `D`, the relative path and a zero byte for a
/// directory; `F`, the path, a zero byte, the length as eight little-endian bytes and the
/// contents for a file.
pub fn record_entry(h: &mut Fnv64, is_dir: bool, rel_path: &str, contents: &[u8])
    ensures
        final(h).0 == fnv_feed(
            old(h).0,
            if is_dir {
                seq![68u8] + rel_path.spec_bytes() + seq![0u8]
            } else {
                seq![70u8] + rel_path.spec_bytes() + seq![0u8] + u64_le_bytes(contents@.len() as u64)
                    + contents@
            },
        ),
{
    let ghost start = h.0;
    let marker: [u8; 1] = if is_dir { [68u8] } else { [70u8] };
    let zero: [u8; 1] = [0u8];
    h.update(&marker);
    h.update(rel_path.as_bytes());
    h.update(&zero);
    let ghost a = marker@;
    let ghost b = rel_path.spec_bytes();
    let ghost c = zero@;
    proof {
        law_fnv_streaming(start, a, b);
        law_fnv_streaming(start, a + b, c);
        if is_dir {
            assert(a =~= seq![68u8]);
        } else {
            assert(a =~= seq![70u8]);
        }
        assert(c =~= seq![0u8]);
    }
    if !is_dir {
        let len_bytes = le_bytes(contents.len() as u64);
        h.update(len_bytes.as_slice());
        h.update(contents);
        proof {
            let d = len_bytes@;
            law_fnv_streaming(start, a + b + c, d);
            law_fnv_streaming(start, a + b + c + d, contents@);
        }
    }
}

/// Lowercase hexadecimal digit for `d < 16`.
pub open spec fn hex_digit(d: int) -> char {
    if d < 10 {
        ((48 + d) as u8) as char
    } else {
        ((87 + d) as u8) as char
    }
}

/// `v` as sixteen lowercase hexadecimal digits, most significant first (`{:016x}`).
pub open spec fn hex16(v: u64) -> Seq<char> {
    Seq::new(16, |i: int| hex_digit((v as int / power(16, 15 - i)) % 16))
}

fn hex_char(d: u64) -> (c: char)
    requires
        d < 16,
    ensures
        c == hex_digit(d as int),
{
    if d < 10 {
        ((48 + d) as u8) as char
    } else {
        ((87 + d) as u8) as char
    }
}

/// Text of a content signature: the hash as sixteen lowercase hexadecimal digits.
pub fn signature_text(hash: u64) -> (s: String)
    ensures
        s@ == hex16(hash),
{
    let digits = digits_of(hash, 16, 16);
    let mut s = String::new();
    let mut i: usize = 0;
    while i < 16
        invariant
            i <= 16,
            digits@.len() == 16,
            forall|k: int| 0 <= k < 16 ==> digits@[k] as int == (hash as int / power(16, k)) % 16,
            s@.len() == i,
            forall|k: int| 0 <= k < i ==> s@[k] == hex_digit((hash as int / power(16, 15 - k)) % 16),
        decreases 16 - i,
    {
        let d = digits[15 - i];
        push_char(&mut s, hex_char(d));
        i = i + 1;
    }
    assert(s@ =~= hex16(hash));
    s
}

// ---------------------------------------------------------------------------
// Recorded actions, trace names, save and load prompts
// ---------------------------------------------------------------------------

/// One command of a run, kept to replay the run from a save.
#[derive(Debug, Clone)]
pub struct SavedAction {
    pub action: String,
    pub indices: Vec<usize>,
    pub target: Option<String>,
}

/// Remember a command that changed the run.
pub fn push_recorded_action(
    actions: &mut Vec<SavedAction>,
    action: &str,
    indices: Vec<usize>,
    target: Option<String>,
)
    ensures
        final(actions)@.len() == old(actions)@.len() + 1,
        final(actions)@.subrange(0, old(actions)@.len() as int) == old(actions)@,
        final(actions)@.last().action@ == action@,
        final(actions)@.last().indices@ == indices@,
        final(actions)@.last().target == target,
{
    actions.push(SavedAction { action: String::from_str(action), indices, target });
    assert(actions@.subrange(0, old(actions)@.len() as int) =~= old(actions)@);
}

/// File name of an autoplay trace: `autoplay_<time>_<seed>.<ext>`.
pub fn trace_file_name(timestamp: u64, seed: u64, ext: &str) -> (s: String)
    ensures
        s@ == "autoplay_"@ + decimal(timestamp as nat) + "_"@ + decimal(seed as nat) + "."@ + ext@,
{
    let mut s = String::from_str("autoplay_");
    push_decimal(&mut s, timestamp);
    s.append("_");
    push_decimal(&mut s, seed);
    s.append(".");
    s.append(ext);
    s
}

/// Prompt asking for a save or load path.
pub fn save_load_prompt(locale: UiLocale, command: &str) -> (s: &'static str)
    ensures
        s@ == (if command@ == "save"@ {
            if locale == UiLocale::ZhCn {
                "保存路径（留空=默认）> "@
            } else {
                "save path (empty=default) > "@
            }
        } else {
            if locale == UiLocale::ZhCn {
                "加载路径（留空=默认）> "@
            } else {
                "load path (empty=default) > "@
            }
        }),
{
    if str_eq(command, "save") {
        locale.text("save path (empty=default) > ", "保存路径（留空=默认）> ")
    } else {
        locale.text("load path (empty=default) > ", "加载路径（留空=默认）> ")
    }
}

/// The command line for a save or load with the path typed at the prompt: the bare
/// command when the path is blank, else the command, a space and the trimmed path.
pub fn save_or_load_line(command: &str, line: &str) -> (s: String)
    ensures
        s@ == (if trim_chars(line@).len() == 0 {
            command@
        } else {
            command@ + " "@ + trim_chars(line@)
        }),
{
    let t = trim(line);
    let mut s = String::from_str(command);
    if t.as_bytes().len() > 0 {
        s.append(" ");
        s.append(t);
    } else {
        proof {
            vstd::utf8::encode_utf8_decode_utf8(t@);
        }
    }
    proof {
        if t@.len() == 0 {
            assert(encode_utf8(t@) =~= Seq::<u8>::empty());
        }
    }
    s
}

// ---------------------------------------------------------------------------
// Escape sequences
// ---------------------------------------------------------------------------

/// Keys that arrive as escape sequences.
#[derive(Debug, Clone, Copy, PartialEq, Eq, Structural)]
pub enum EscapeKey {
    Up,
    Down,
    Left,
    Right,
    Home,
    End,
    Delete,
}

/// Where reading an escape sequence stands.
#[derive(Debug, Clone, Copy, PartialEq, Eq, Structural)]
pub enum EscapeRead {
    /// Another byte is needed.
    More,
    /// The sequence is complete: the key it names, if any.
    Done(Option<EscapeKey>),
}

/// The key named by the numeric code of a `ESC [ <code> ~` sequence.
pub open spec fn tilde_key(code: Seq<u8>) -> Option<EscapeKey> {
    if code.len() != 1 {
        None
    } else if code[0] == 49u8 || code[0] == 55u8 {
        Some(EscapeKey::Home)
    } else if code[0] == 51u8 {
        Some(EscapeKey::Delete)
    } else if code[0] == 52u8 || code[0] == 56u8 {
        Some(EscapeKey::End)
    } else {
        None
    }
}

/// What the bytes read after an escape byte (at least one) amount to: `ESC [` then
/// `A`/`B`/`C`/`D` for the arrows, `H`/`F` for home and end, or a digit `1`-`8` and more
/// bytes up to `~`; `ESC O` then `H` or `F`.
pub open spec fn escape_read(seq: Seq<u8>) -> EscapeRead {
    if seq[0] == 91u8 {
        if seq.len() < 2 {
            EscapeRead::More
        } else {
            let b = seq[1];
            if b == 65u8 {
                EscapeRead::Done(Some(EscapeKey::Up))
            } else if b == 66u8 {
                EscapeRead::Done(Some(EscapeKey::Down))
            } else if b == 67u8 {
                EscapeRead::Done(Some(EscapeKey::Right))
            } else if b == 68u8 {
                EscapeRead::Done(Some(EscapeKey::Left))
            } else if b == 72u8 {
                EscapeRead::Done(Some(EscapeKey::Home))
            } else if b == 70u8 {
                EscapeRead::Done(Some(EscapeKey::End))
            } else if 49u8 <= b <= 56u8 {
                if seq.len() >= 3 && seq.last() == 126u8 {
                    EscapeRead::Done(tilde_key(seq.subrange(1, seq.len() - 1)))
                } else {
                    EscapeRead::More
                }
            } else {
                EscapeRead::Done(None)
            }
        }
    } else if seq[0] == 79u8 {
        if seq.len() < 2 {
            EscapeRead::More
        } else if seq[1] == 72u8 {
            EscapeRead::Done(Some(EscapeKey::Home))
        } else if seq[1] == 70u8 {
            EscapeRead::Done(Some(EscapeKey::End))
        } else {
            EscapeRead::Done(None)
        }
    } else {
        EscapeRead::Done(None)
    }
}

/// Decide on the bytes read so far after an escape byte.
pub fn read_escape(seq: &[u8]) -> (r: EscapeRead)
    requires
        seq@.len() >= 1,
    ensures
        r == escape_read(seq@),
{
    let first = seq[0];
    if first == 91u8 {
        if seq.len() < 2 {
            return EscapeRead::More;
        }
        let b = seq[1];
        if b == 65u8 {
            EscapeRead::Done(Some(EscapeKey::Up))
        } else if b == 66u8 {
            EscapeRead::Done(Some(EscapeKey::Down))
        } else if b == 67u8 {
            EscapeRead::Done(Some(EscapeKey::Right))
        } else if b == 68u8 {
            EscapeRead::Done(Some(EscapeKey::Left))
        } else if b == 72u8 {
            EscapeRead::Done(Some(EscapeKey::Home))
        } else if b == 70u8 {
            EscapeRead::Done(Some(EscapeKey::End))
        } else if 49u8 <= b && b <= 56u8 {
            let n = seq.len();
            if n >= 3 && seq[n - 1] == 126u8 {
                let code_len = n - 2;
                let key = if code_len == 1 {
                    let c = seq[1];
                    if c == 49u8 || c == 55u8 {
                        Some(EscapeKey::Home)
                    } else if c == 51u8 {
                        Some(EscapeKey::Delete)
                    } else if c == 52u8 || c == 56u8 {
                        Some(EscapeKey::End)
                    } else {
                        None
                    }
                } else {
                    None
                };
                EscapeRead::Done(key)
            } else {
                EscapeRead::More
            }
        } else {
            EscapeRead::Done(None)
        }
    } else if first == 79u8 {
        if seq.len() < 2 {
            EscapeRead::More
        } else if seq[1] == 72u8 {
            EscapeRead::Done(Some(EscapeKey::Home))
        } else if seq[1] == 70u8 {
            EscapeRead::Done(Some(EscapeKey::End))
        } else {
            EscapeRead::Done(None)
        }
    } else {
        EscapeRead::Done(None)
    }
}

// ---------------------------------------------------------------------------
// Properties of completion and history
// ---------------------------------------------------------------------------

proof fn lemma_matching_have_prefix(table: Seq<Seq<char>>, token: Seq<char>)
    ensures
        forall|i: int| 0 <= i < matching(table, token).len() ==> is_prefix(token, #[trigger] matching(table, token)[i]),
        matching(table, token).len() <= table.len(),
    decreases table.len(),
{
    if table.len() > 0 {
        lemma_matching_have_prefix(table.drop_last(), token);
    }
}

proof fn lemma_lcp_keeps_prefix(m: Seq<Seq<char>>, t: Seq<char>)
    requires
        m.len() > 0,
        forall|i: int| 0 <= i < m.len() ==> is_prefix(t, #[trigger] m[i]),
    ensures
        is_prefix(t, lcp_list(m)),
    decreases m.len(),
{
    if m.len() > 1 {
        let rest = m.drop_last();
        assert forall|i: int| 0 <= i < rest.len() implies is_prefix(t, #[trigger] rest[i]) by {
            assert(rest[i] == m[i]);
        }
        lemma_lcp_keeps_prefix(rest, t);
        let a = lcp_list(rest);
        let b = m.last();
        assert(is_prefix(t, b));
        assert(a.subrange(0, t.len() as int) =~= t);
        lemma_prefix_iff_common(a, b, t.len() as int);
        lemma_common_len(a, b, 0);
        let l = common_len_from(a, b, 0);
        assert(lcp(a, b).subrange(0, t.len() as int) =~= t);
    }
}

/// Completion only ever extends what was typed: a proposed line starts with the token.
pub proof fn law_completion_extends_token(table: Seq<Seq<char>>, token: Seq<char>, append_space: bool)
    ensures
        token_update(table, token, append_space) matches Some(u) ==> is_prefix(token, u),
{
    lemma_matching_have_prefix(table, token);
    let m = matching(table, token);
    if m.len() == 1 {
        assert(is_prefix(token, m[0]));
        if append_space {
            assert(m[0].push(' ').subrange(0, token.len() as int) =~= m[0].subrange(0, token.len() as int));
        }
    } else if m.len() > 1 {
        lemma_lcp_keeps_prefix(m, token);
    }
}

/// Every listed candidate starts with the token.
pub proof fn law_suggestions_start_with_token(table: Seq<Seq<char>>, token: Seq<char>)
    ensures
        forall|i: int|
            0 <= i < token_suggestions(table, token).len() ==> is_prefix(
                token,
                #[trigger] token_suggestions(table, token)[i],
            ),
{
    lemma_matching_have_prefix(table, token);
}

/// Up then down gives back the line being typed: starting to browse a non-empty history
/// (one a vector can hold) and stepping straight back out restores that line and ends
/// browsing.
pub proof fn law_browse_round_trip(history: Seq<Seq<char>>, draft: Option<Seq<char>>, buffer: Seq<char>)
    requires
        0 < history.len() <= usize::MAX,
    ensures
        ({
            let up = browse_up(history, None, draft, buffer);
            browse_down(history, up.0, up.1, up.2) == (None::<usize>, None::<Seq<char>>, buffer)
        }),
{
}

/// While browsing, down then up returns to the same entry with the same draft.
pub proof fn law_browse_down_up(history: Seq<Seq<char>>, i: usize, draft: Option<Seq<char>>, buffer: Seq<char>)
    requires
        i + 1 < history.len() <= usize::MAX,
    ensures
        ({
            let down = browse_down(history, Some(i), draft, buffer);
            browse_up(history, down.0, down.1, down.2) == (Some(i), draft, history[i as int])
        }),
{
}

/// The history never grows past its limit.
pub proof fn law_history_bounded(history: Seq<Seq<char>>, line: Seq<char>)
    requires
        history.len() <= HISTORY_LIMIT,
    ensures
        pushed_history(history, line).len() <= HISTORY_LIMIT,
{
}

/// Submitting the same line twice in a row remembers it once.
pub proof fn law_history_no_repeat(history: Seq<Seq<char>>, line: Seq<char>)
    ensures
        pushed_history(pushed_history(history, line), line) == pushed_history(history, line),
{
    let t = trim_chars(line);
    let once = pushed_history(history, line);
    if !(t.len() == 0 || (history.len() > 0 && history.last() == t)) {
        let grown = history.push(t);
        if grown.len() > HISTORY_LIMIT {
            let kept = grown.subrange(grown.len() - HISTORY_LIMIT, grown.len() as int);
            assert(kept.last() == t);
        }
        assert(once.last() == t);
    }
}

/// A line that is not blank and differs from the newest entry becomes the newest entry.
pub proof fn law_history_newest(history: Seq<Seq<char>>, line: Seq<char>)
    requires
        trim_chars(line).len() > 0,
        history.len() == 0 || history.last() != trim_chars(line),
    ensures
        pushed_history(history, line).len() > 0,
        pushed_history(history, line).last() == trim_chars(line),
{
    let grown = history.push(trim_chars(line));
    if grown.len() > HISTORY_LIMIT {
        let kept = grown.subrange(grown.len() - HISTORY_LIMIT, grown.len() as int);
        assert(kept.last() == grown.last());
    }
}

// ---------------------------------------------------------------------------
// Line editing keys
// ---------------------------------------------------------------------------

proof fn lemma_encode_concat(a: Seq<char>, b: Seq<char>)
    ensures
        encode_utf8(a + b) == encode_utf8(a) + encode_utf8(b),
    decreases a.len(),
{
    if a.len() == 0 {
        assert(a + b =~= b);
    } else {
        lemma_encode_concat(a.drop_first(), b);
        assert((a + b).drop_first() =~= a.drop_first() + b);
    }
}

/// A char boundary of `bytes` at or after `lo` is one of `bytes[lo..]`, shifted.
proof fn lemma_boundary_in_suffix(bytes: Seq<u8>, lo: int, hi: int)
    requires
        vstd::utf8::valid_utf8(bytes),
        0 <= lo <= hi <= bytes.len(),
        is_char_boundary(bytes, lo),
        is_char_boundary(bytes, hi),
    ensures
        vstd::utf8::valid_utf8(bytes.subrange(lo, bytes.len() as int)),
        is_char_boundary(bytes.subrange(lo, bytes.len() as int), hi - lo),
{
    let rest = bytes.subrange(lo, bytes.len() as int);
    vstd::utf8::valid_utf8_split(bytes, lo);
    if hi == bytes.len() {
        vstd::utf8::is_char_boundary_start_end_of_seq(rest);
    } else if hi == lo {
        vstd::utf8::is_char_boundary_start_end_of_seq(rest);
    } else {
        vstd::utf8::is_char_boundary_iff_not_is_continuation_byte(bytes, hi);
        vstd::utf8::is_char_boundary_iff_not_is_continuation_byte(rest, hi - lo);
        assert(rest[hi - lo] == bytes[hi]);
    }
}

/// `s` with its bytes `lo..hi` (both char boundaries) replaced by the text `mid`.
fn splice(s: &str, lo: usize, hi: usize, mid: &str) -> (out: String)
    requires
        lo <= hi <= s.spec_bytes().len(),
        is_char_boundary(s.spec_bytes(), lo as int),
        is_char_boundary(s.spec_bytes(), hi as int),
    ensures
        encode_utf8(out@) == s.spec_bytes().subrange(0, lo as int) + encode_utf8(mid@) + s.spec_bytes().subrange(
            hi as int,
            s.spec_bytes().len() as int,
        ),
{
    let ghost bytes = s.spec_bytes();
    proof {
        lemma_boundary_in_suffix(bytes, lo as int, hi as int);
    }
    let (head, rest) = s.split_at(lo);
    proof {
        assert(rest.spec_bytes() =~= bytes.subrange(lo as int, bytes.len() as int));
    }
    let (_, tail) = rest.split_at(hi - lo);
    let mut out = String::from_str(head);
    out.append(mid);
    out.append(tail);
    proof {
        lemma_encode_concat(head@ + mid@, tail@);
        lemma_encode_concat(head@, mid@);
        assert(tail.spec_bytes() =~= bytes.subrange(hi as int, bytes.len() as int));
    }
    out
}

/// A key press of the line editor: a plain byte, or a completed escape sequence.
#[derive(Debug, Clone, Copy, PartialEq, Eq, Structural)]
pub enum KeyInput {
    Byte(u8),
    Escape(Option<EscapeKey>),
}

/// What the line editor does after a key.
#[derive(Debug)]
pub enum KeyOutcome {
    /// The line is entered (and remembered).
    Submit(String),
    /// Ctrl-C: the line is dropped; an empty line is entered.
    Interrupt,
    /// Ctrl-D on an empty line: end of input.
    Eof,
    /// The line or cursor may have changed; show it again.
    Redraw,
    /// Tab: list these candidates (when there are any), then show the line again.
    Completion(Vec<String>),
}

/// The bytes of a line.
pub open spec fn line_bytes(s: String) -> Seq<u8> {
    encode_utf8(s@)
}

/// `c` is the previous char boundary before `i` (none before the start).
pub open spec fn prev_boundary_of(bytes: Seq<u8>, i: int, c: int) -> bool {
    if i == 0 {
        c == 0
    } else {
        c < i && is_char_boundary(bytes, c) && forall|j: int| c < j < i ==> !is_char_boundary(bytes, j)
    }
}

/// `c` is the next char boundary after `i` (the end at the end).
pub open spec fn next_boundary_of(bytes: Seq<u8>, i: int, c: int) -> bool {
    if i >= bytes.len() {
        c == bytes.len()
    } else {
        i < c <= bytes.len() && is_char_boundary(bytes, c) && forall|j: int| i < j < c ==> !is_char_boundary(bytes, j)
    }
}

/// Whether a byte is an ASCII control character.
pub open spec fn is_control_byte(b: u8) -> bool {
    b < 0x20 || b == 0x7f
}

/// Two editors hold the same history, browsing position, draft and history file.
pub open spec fn same_editor(a: LineEditor, b: LineEditor) -> bool {
    &&& a.history@ == b.history@
    &&& a.history_index == b.history_index
    &&& a.draft_line == b.draft_line
    &&& a.history_path == b.history_path
}

impl LineEditor {
    /// Start reading a line: no browsing position, no draft.
    pub fn start_line(&mut self)
        ensures
            final(self).wf(),
            final(self).history == old(self).history,
            final(self).history_path == old(self).history_path,
            final(self).history_index is None,
            final(self).draft_line is None,
    {
        self.history_index = None;
        self.draft_line = None;
    }

    /// Apply one key to the line being edited, whose cursor is a byte offset on a
    /// character boundary.
    #[verifier::rlimit(60)]
    pub fn handle_key(&mut self, buffer: &mut String, cursor: &mut usize, key: KeyInput) -> (out: KeyOutcome)
        requires
            old(self).wf(),
            *old(cursor) <= line_bytes(*old(buffer)).len(),
            is_char_boundary(line_bytes(*old(buffer)), *old(cursor) as int),
            key == KeyInput::Byte(9) && *old(cursor) as int == line_bytes(*old(buffer)).len() ==> line_cut_ok(
                old(buffer)@,
            ),
        ensures
            !(out is Submit) ==> final(self).wf() && *final(cursor) <= line_bytes(*final(buffer)).len()
                && is_char_boundary(line_bytes(*final(buffer)), *final(cursor) as int),
            final(self).history_path == old(self).history_path,
            ({
                let b = line_bytes(*old(buffer));
                let c = *old(cursor) as int;
                match key {
                    KeyInput::Byte(k) => if k == 10 || k == 13 {
                        &&& out matches KeyOutcome::Submit(line) && line@ == old(buffer)@
                        &&& string_views(final(self).history@) == pushed_history(string_views(old(self).history@), old(buffer)@)
                    } else if k == 3 {
                        out is Interrupt && same_editor(*final(self), *old(self)) && final(buffer)@ == old(buffer)@
                    } else if k == 4 && old(buffer)@.len() == 0 {
                        out is Eof && same_editor(*final(self), *old(self))
                    } else if k == 9 {
                        let done = line_completion(old(buffer)@, c);
                        &&& out matches KeyOutcome::Completion(list) && string_views(list@) == done.1
                        &&& same_editor(*final(self), *old(self))
                        &&& match done.0 {
                            Some(u) => final(buffer)@ == u && *final(cursor) == encode_utf8(u).len(),
                            None => final(buffer)@ == old(buffer)@ && *final(cursor) == *old(cursor),
                        }
                    } else if k == 127 || k == 8 {
                        &&& out is Redraw
                        &&& c == 0 ==> final(buffer)@ == old(buffer)@ && *final(cursor) == 0 && same_editor(*final(self), *old(self))
                        &&& c > 0 ==> prev_boundary_of(b, c, *final(cursor) as int) && line_bytes(*final(buffer))
                            == b.subrange(0, *final(cursor) as int) + b.subrange(c, b.len() as int)
                            && final(self).history_index is None && final(self).history@ == old(self).history@
                            && final(self).draft_line == old(self).draft_line
                    } else if is_control_byte(k) {
                        out is Redraw && same_editor(*final(self), *old(self)) && final(buffer)@ == old(buffer)@ && *final(cursor)
                            == *old(cursor)
                    } else {
                        &&& out is Redraw
                        &&& line_bytes(*final(buffer)) == b.subrange(0, c) + encode_utf8(seq![k as char]) + b.subrange(c, b.len() as int)
                        &&& *final(cursor) == c + encode_utf8(seq![k as char]).len()
                        &&& final(self).history_index is None && final(self).history@ == old(self).history@
                        &&& final(self).draft_line == old(self).draft_line
                    },
                    KeyInput::Escape(e) => {
                        &&& out is Redraw
                        &&& match e {
                            Some(EscapeKey::Left) => prev_boundary_of(b, c, *final(cursor) as int)
                                && final(buffer)@ == old(buffer)@ && same_editor(*final(self), *old(self)),
                            Some(EscapeKey::Right) => next_boundary_of(b, c, *final(cursor) as int)
                                && final(buffer)@ == old(buffer)@ && same_editor(*final(self), *old(self)),
                            Some(EscapeKey::Home) => *final(cursor) == 0 && final(buffer)@ == old(buffer)@ && *final(self)
                                == *old(self),
                            Some(EscapeKey::End) => *final(cursor) == b.len() && final(buffer)@ == old(buffer)@
                                && same_editor(*final(self), *old(self)),
                            Some(EscapeKey::Delete) => if c < b.len() {
                                exists|n: int| next_boundary_of(b, c, n) && line_bytes(*final(buffer)) == b.subrange(0, c)
                                    + b.subrange(n, b.len() as int)
                                    && *final(cursor) == *old(cursor) && final(self).history_index is None
                                    && final(self).history@ == old(self).history@ && final(self).draft_line == old(self).draft_line
                            } else {
                                final(buffer)@ == old(buffer)@ && *final(cursor) == *old(cursor) && same_editor(*final(self), *old(self))
                            },
                            Some(EscapeKey::Up) => {
                                &&& final(self).history@ == old(self).history@
                                &&& (final(self).history_index, opt_string_view(final(self).draft_line), final(buffer)@)
                                    == browse_up(
                                    string_views(old(self).history@),
                                    old(self).history_index,
                                    opt_string_view(old(self).draft_line),
                                    old(buffer)@,
                                )
                                &&& *final(cursor) == if old(self).history@.len() == 0 {
                                    *old(cursor) as int
                                } else {
                                    encode_utf8(final(buffer)@).len() as int
                                }
                            },
                            Some(EscapeKey::Down) => {
                                &&& final(self).history@ == old(self).history@
                                &&& (final(self).history_index, opt_string_view(final(self).draft_line), final(buffer)@)
                                    == browse_down(
                                    string_views(old(self).history@),
                                    old(self).history_index,
                                    opt_string_view(old(self).draft_line),
                                    old(buffer)@,
                                )
                                &&& *final(cursor) == if old(self).history_index is None {
                                    *old(cursor) as int
                                } else {
                                    encode_utf8(final(buffer)@).len() as int
                                }
                            },
                            None => final(buffer)@ == old(buffer)@ && *final(cursor) == *old(cursor) && *final(self)
                                == *old(self),
                        }
                    },
                }
            }),
    {
        let ghost b = line_bytes(*buffer);
        proof {
            vstd::utf8::is_char_boundary_start_end_of_seq(b);
        }
        match key {
            KeyInput::Byte(k) => {
                if k == 10 || k == 13 {
                    let line = copy_string(buffer);
                    self.push_history(buffer.as_str());
                    return KeyOutcome::Submit(line);
                }
                if k == 3 {
                    return KeyOutcome::Interrupt;
                }
                if k == 4 && buffer.as_str().as_bytes().len() == 0 {
                    proof {
                        vstd::utf8::encode_utf8_decode_utf8(buffer@);
                    }
                    return KeyOutcome::Eof;
                }
                if k == 4 {
                    proof {
                        if buffer@.len() == 0 {
                            assert(encode_utf8(buffer@) =~= Seq::<u8>::empty());
                        }
                    }
                    return KeyOutcome::Redraw;
                }
                if k == 9 {
                    let completion = complete_line(buffer.as_str(), *cursor);
                    let CompletionResult { updated_line, suggestions } = completion;
                    if let Some(updated) = updated_line {
                        *buffer = updated;
                        *cursor = buffer.as_str().as_bytes().len();
                        proof {
                            vstd::utf8::is_char_boundary_start_end_of_seq(line_bytes(*buffer));
                        }
                    }
                    return KeyOutcome::Completion(suggestions);
                }
                if k == 127 || k == 8 {
                    if *cursor > 0 {
                        let previous = prev_char_boundary(buffer.as_str(), *cursor);
                        let next = splice(buffer.as_str(), previous, *cursor, "");
                        proof {
                            assert(encode_utf8(""@) =~= Seq::<u8>::empty()) by {
                                reveal_strlit("");
                            }
                            assert(b.subrange(0, previous as int) + Seq::<u8>::empty() =~= b.subrange(0, previous as int));
                            vstd::utf8::valid_utf8_split(b, previous as int);
                            vstd::utf8::valid_utf8_split(b, *cursor as int);
                            lemma_boundary_join(b, previous as int, *cursor as int);
                        }
                        *buffer = next;
                        *cursor = previous;
                        self.history_index = None;
                    }
                    return KeyOutcome::Redraw;
                }
                if k < 0x20 || k == 0x7f {
                    return KeyOutcome::Redraw;
                }
                let ch = k as char;
                let mut text = String::new();
                push_char(&mut text, ch);
                let ghost chs = seq![ch];
                assert(text@ =~= chs);
                let next = splice(buffer.as_str(), *cursor, *cursor, text.as_str());
                let width = text.as_str().as_bytes().len();
                let total = next.as_str().as_bytes().len();
                proof {
                    vstd::utf8::valid_utf8_split(b, *cursor as int);
                    lemma_boundary_after_insert(b, *cursor as int, encode_utf8(chs));
                    assert(total == b.len() + width);
                }
                *buffer = next;
                *cursor = *cursor + width;
                self.history_index = None;
                KeyOutcome::Redraw
            },
            KeyInput::Escape(e) => {
                match e {
                    Some(EscapeKey::Up) => {
                        self.history_prev(buffer, cursor);
                        proof {
                            vstd::utf8::is_char_boundary_start_end_of_seq(line_bytes(*buffer));
                        }
                    },
                    Some(EscapeKey::Down) => {
                        self.history_next(buffer, cursor);
                        proof {
                            vstd::utf8::is_char_boundary_start_end_of_seq(line_bytes(*buffer));
                        }
                    },
                    Some(EscapeKey::Left) => {
                        *cursor = prev_char_boundary(buffer.as_str(), *cursor);
                    },
                    Some(EscapeKey::Right) => {
                        *cursor = next_char_boundary(buffer.as_str(), *cursor);
                    },
                    Some(EscapeKey::Home) => {
                        *cursor = 0;
                    },
                    Some(EscapeKey::End) => {
                        *cursor = buffer.as_str().as_bytes().len();
                    },
                    Some(EscapeKey::Delete) => {
                        if *cursor < buffer.as_str().as_bytes().len() {
                            let next = next_char_boundary(buffer.as_str(), *cursor);
                            let spliced = splice(buffer.as_str(), *cursor, next, "");
                            proof {
                                assert(encode_utf8(""@) =~= Seq::<u8>::empty()) by {
                                    reveal_strlit("");
                                }
                                assert(b.subrange(0, *cursor as int) + Seq::<u8>::empty() =~= b.subrange(0, *cursor as int));
                                vstd::utf8::valid_utf8_split(b, *cursor as int);
                                vstd::utf8::valid_utf8_split(b, next as int);
                                lemma_boundary_join(b, *cursor as int, next as int);
                            }
                            *buffer = spliced;
                            self.history_index = None;
                            assert(next_boundary_of(b, *cursor as int, next as int));
                        }
                    },
                    None => {},
                }
                KeyOutcome::Redraw
            },
        }
    }
}

/// Removing the bytes between two char boundaries leaves the first one a boundary.
proof fn lemma_boundary_join(b: Seq<u8>, lo: int, hi: int)
    requires
        vstd::utf8::valid_utf8(b),
        0 <= lo <= hi <= b.len(),
        is_char_boundary(b, lo),
        is_char_boundary(b, hi),
    ensures
        vstd::utf8::valid_utf8(b.subrange(0, lo) + b.subrange(hi, b.len() as int)),
        is_char_boundary(b.subrange(0, lo) + b.subrange(hi, b.len() as int), lo),
{
    let x = b.subrange(0, lo);
    let y = b.subrange(hi, b.len() as int);
    vstd::utf8::valid_utf8_split(b, lo);
    vstd::utf8::valid_utf8_split(b, hi);
    vstd::utf8::valid_utf8_concat(x, y);
    let j = x + y;
    vstd::utf8::is_char_boundary_start_end_of_seq(j);
    if lo < j.len() {
        if hi < b.len() {
            vstd::utf8::is_char_boundary_iff_not_is_continuation_byte(b, hi);
            vstd::utf8::is_char_boundary_iff_not_is_continuation_byte(j, lo);
            assert(j[lo] == b[hi]);
        }
    }
}

/// Inserting whole characters at a char boundary keeps both ends of the insert boundaries.
proof fn lemma_boundary_after_insert(b: Seq<u8>, at: int, ins: Seq<u8>)
    requires
        vstd::utf8::valid_utf8(b),
        vstd::utf8::valid_utf8(ins),
        0 <= at <= b.len(),
        is_char_boundary(b, at),
    ensures
        vstd::utf8::valid_utf8(b.subrange(0, at) + ins + b.subrange(at, b.len() as int)),
        is_char_boundary(b.subrange(0, at) + ins + b.subrange(at, b.len() as int), at + ins.len()),
{
    let x = b.subrange(0, at);
    let y = b.subrange(at, b.len() as int);
    vstd::utf8::valid_utf8_split(b, at);
    vstd::utf8::valid_utf8_concat(x, ins);
    vstd::utf8::valid_utf8_concat(x + ins, y);
    let j = x + ins + y;
    vstd::utf8::is_char_boundary_start_end_of_seq(j);
    if at + ins.len() < j.len() {
        vstd::utf8::is_char_boundary_start_end_of_seq(y);
        vstd::utf8::is_char_boundary_iff_not_is_continuation_byte(y, 0);
        vstd::utf8::is_char_boundary_iff_not_is_continuation_byte(j, at + ins.len());
        assert(j[at + ins.len()] == y[0]);
    }
}

} // verus!
