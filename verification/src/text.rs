//! Small string primitives shared by the keyword parsers and the command line helpers.
use vstd::prelude::*;
use vstd::std_specs::iter::IteratorSpec;
use vstd::string::StringSliceAdditionalSpecFns;

verus! {

broadcast use vstd::utf8::encode_utf8_decode_utf8;

/// Equality of two string slices, decided on their UTF-8 bytes.
pub fn str_eq(a: &str, b: &str) -> (r: bool)
    ensures
        r == (a@ == b@),
{
    let x = a.as_bytes();
    let y = b.as_bytes();
    if x.len() != y.len() {
        proof {
            if a@ == b@ {
                assert(a.spec_bytes() == b.spec_bytes());
            }
        }
        return false;
    }
    let mut i: usize = 0;
    while i < x.len()
        invariant
            x@ == a.spec_bytes(),
            y@ == b.spec_bytes(),
            x.len() == y.len(),
            i <= x.len(),
            forall|k: int| 0 <= k < i ==> x@[k] == y@[k],
        decreases x.len() - i,
    {
        if x[i] != y[i] {
            proof {
                if a@ == b@ {
                    assert(a.spec_bytes() == b.spec_bytes());
                }
            }
            return false;
        }
        i = i + 1;
    }
    proof {
        assert(x@ =~= y@);
        vstd::utf8::encode_utf8_decode_utf8(a@);
        vstd::utf8::encode_utf8_decode_utf8(b@);
    }
    true
}

/// What `str::to_lowercase` returns for a string: Unicode lowercase mapping, char by char
/// (with its context rule for final sigma). Determined by the argument alone.
pub uninterp spec fn spec_lowercase(s: Seq<char>) -> Seq<char>;

/// `c` is an ASCII lowercase letter.
pub open spec fn is_ascii_lower(c: char) -> bool {
    'a' <= c && c <= 'z'
}

/// The text is made of ASCII lowercase letters and underscores only.
pub open spec fn is_snake_word(s: Seq<char>) -> bool {
    forall|i: int| 0 <= i < s.len() ==> is_ascii_lower(#[trigger] s[i]) || s[i] == '_'
}

/// Calls `str::to_lowercase`. Claimed: the result is `spec_lowercase` of the argument; and
/// text of ASCII lowercase letters and underscores comes back unchanged, since the Unicode
/// Character Database that the documentation defers to maps each of those characters to
/// itself. Nothing more is stated of other text.
#[verifier::external_body]
pub(crate) fn lowercase(s: &str) -> (r: String)
    ensures
        r@ == spec_lowercase(s@),
        is_snake_word(s@) ==> r@ == s@,
{
    s.to_lowercase()
}

/// Unicode `White_Space` property, as used by `char::is_whitespace` and `str::trim`.
pub open spec fn is_whitespace(c: char) -> bool {
    let u = c as u32;
    (0x09 <= u <= 0x0d) || u == 0x20 || u == 0x85 || u == 0xa0 || u == 0x1680 || (0x2000 <= u
        <= 0x200a) || u == 0x2028 || u == 0x2029 || u == 0x202f || u == 0x205f || u == 0x3000
}

pub open spec fn trim_start_chars(s: Seq<char>) -> Seq<char>
    decreases s.len(),
{
    if s.len() > 0 && is_whitespace(s[0]) {
        trim_start_chars(s.drop_first())
    } else {
        s
    }
}

pub open spec fn trim_end_chars(s: Seq<char>) -> Seq<char>
    decreases s.len(),
{
    if s.len() > 0 && is_whitespace(s.last()) {
        trim_end_chars(s.drop_last())
    } else {
        s
    }
}

/// The string without leading and trailing whitespace.
pub open spec fn trim_chars(s: Seq<char>) -> Seq<char> {
    trim_end_chars(trim_start_chars(s))
}

/// Calls `str::trim`, which removes leading and trailing `White_Space` characters.
#[verifier::external_body]
pub(crate) fn trim(s: &str) -> (r: &str)
    ensures
        r@ == trim_chars(s@),
{
    s.trim()
}

/// Calls `str::trim_end`, which removes trailing `White_Space` characters.
#[verifier::external_body]
pub(crate) fn trim_end(s: &str) -> (r: &str)
    ensures
        r@ == trim_end_chars(s@),
{
    s.trim_end()
}


/// Calls `String::push`, which appends one character.
#[verifier::external_body]
pub(crate) fn push_char(s: &mut String, c: char)
    ensures
        final(s)@ == old(s)@.push(c),
{
    s.push(c)
}

/// The decimal digit character for `d < 10`.
pub open spec fn digit_char(d: nat) -> char {
    if d == 0 {
        '0'
    } else if d == 1 {
        '1'
    } else if d == 2 {
        '2'
    } else if d == 3 {
        '3'
    } else if d == 4 {
        '4'
    } else if d == 5 {
        '5'
    } else if d == 6 {
        '6'
    } else if d == 7 {
        '7'
    } else if d == 8 {
        '8'
    } else {
        '9'
    }
}

/// Decimal text of a natural number, without leading zeros.
pub open spec fn decimal(n: nat) -> Seq<char>
    decreases n,
{
    if n < 10 {
        seq![digit_char(n)]
    } else {
        decimal(n / 10).push(digit_char(n % 10))
    }
}

fn digit(d: u64) -> (c: char)
    requires
        d < 10,
    ensures
        c == digit_char(d as nat),
{
    if d == 0 {
        '0'
    } else if d == 1 {
        '1'
    } else if d == 2 {
        '2'
    } else if d == 3 {
        '3'
    } else if d == 4 {
        '4'
    } else if d == 5 {
        '5'
    } else if d == 6 {
        '6'
    } else if d == 7 {
        '7'
    } else if d == 8 {
        '8'
    } else {
        '9'
    }
}

/// Append the decimal text of `n`.
pub fn push_decimal(out: &mut String, n: u64)
    ensures
        final(out)@ == old(out)@ + decimal(n as nat),
{
    let mut m = n;
    let mut rev: Vec<char> = Vec::new();
    while m >= 10
        invariant
            decimal(n as nat) == decimal(m as nat) + rev@.reverse(),
        decreases m,
    {
        let d = digit(m % 10);
        let ghost before = rev@;
        rev.push(d);
        assert(rev@.reverse() =~= seq![d] + before.reverse());
        assert(decimal(m as nat) == decimal((m / 10) as nat).push(d));
        assert(decimal(m as nat) + before.reverse() =~= decimal((m / 10) as nat) + rev@.reverse());
        m = m / 10;
    }
    push_char(out, digit(m));
    let ghost head = out@;
    let mut k: usize = rev.len();
    while k > 0
        invariant
            k <= rev.len(),
            out@ == head + rev@.reverse().subrange(0, rev.len() - k),
        decreases k,
    {
        k = k - 1;
        push_char(out, rev[k]);
        assert(out@ =~= head + rev@.reverse().subrange(0, rev.len() - k));
    }
    assert(rev@.reverse().subrange(0, rev.len() as int) =~= rev@.reverse());
    assert(decimal(m as nat) =~= seq![digit_char(m as nat)]);
    assert(out@ =~= old(out)@ + decimal(n as nat));
}

/// Decimal text of a signed integer with a leading `+` for zero and positive values.
pub open spec fn signed_decimal(v: int) -> Seq<char> {
    if v >= 0 {
        seq!['+'] + decimal(v as nat)
    } else {
        seq!['-'] + decimal((-v) as nat)
    }
}

/// Items of a list of indices joined with `", "`.
pub open spec fn joined_indices(s: Seq<usize>) -> Seq<char>
    decreases s.len(),
{
    if s.len() == 0 {
        Seq::empty()
    } else if s.len() == 1 {
        decimal(s[0] as nat)
    } else {
        joined_indices(s.drop_last()) + seq![',', ' '] + decimal(s.last() as nat)
    }
}

/// Debug text of a list of indices, e.g. `[0, 2, 3]`.
pub open spec fn index_list_text(s: Seq<usize>) -> Seq<char> {
    seq!['['] + joined_indices(s) + seq![']']
}

/// Append the debug text of a list of indices.
pub fn push_index_list(out: &mut String, items: &Vec<usize>)
    ensures
        final(out)@ == old(out)@ + index_list_text(items@),
{
    let ghost start = out@;
    push_char(out, '[');
    let mut i: usize = 0;
    while i < items.len()
        invariant
            i <= items.len(),
            out@ == start + seq!['['] + joined_indices(items@.subrange(0, i as int)),
        decreases items.len() - i,
    {
        let ghost before = out@;
        if i > 0 {
            push_char(out, ',');
            push_char(out, ' ');
        }
        push_decimal(out, items[i] as u64);
        let ghost sub = items@.subrange(0, i + 1);
        assert(sub.drop_last() =~= items@.subrange(0, i as int));
        assert(out@ =~= start + seq!['['] + joined_indices(sub));
        i = i + 1;
    }
    assert(items@.subrange(0, items.len() as int) =~= items@);
    push_char(out, ']');
    assert(out@ =~= start + index_list_text(items@));
}

/// Strict lexicographic order on character sequences, by code point. On UTF-8 text this
/// is the byte order in which `str` and `String` values compare.
#[verifier::opaque]
pub open spec fn lex_lt(a: Seq<char>, b: Seq<char>) -> bool
    decreases a.len(),
{
    if a.len() == 0 {
        b.len() > 0
    } else if b.len() == 0 {
        false
    } else if a[0] != b[0] {
        (a[0] as int) < (b[0] as int)
    } else {
        lex_lt(a.drop_first(), b.drop_first())
    }
}

/// No sequence precedes itself.
pub proof fn lemma_lex_irreflexive(a: Seq<char>)
    ensures
        !lex_lt(a, a),
    decreases a.len(),
{
    reveal_with_fuel(lex_lt, 2);
    if a.len() > 0 {
        lemma_lex_irreflexive(a.drop_first());
    }
}

/// The order is transitive.
pub proof fn lemma_lex_transitive(a: Seq<char>, b: Seq<char>, c: Seq<char>)
    requires
        lex_lt(a, b),
        lex_lt(b, c),
    ensures
        lex_lt(a, c),
    decreases a.len(),
{
    reveal_with_fuel(lex_lt, 2);
    if a.len() > 0 && b.len() > 0 && c.len() > 0 && a[0] == b[0] && b[0] == c[0] {
        lemma_lex_transitive(a.drop_first(), b.drop_first(), c.drop_first());
    }
}

/// Two different sequences are ordered one way or the other.
pub proof fn lemma_lex_total(a: Seq<char>, b: Seq<char>)
    ensures
        a == b || lex_lt(a, b) || lex_lt(b, a),
    decreases a.len(),
{
    reveal_with_fuel(lex_lt, 2);
    if a.len() > 0 && b.len() > 0 && a[0] == b[0] {
        lemma_lex_total(a.drop_first(), b.drop_first());
        if a.drop_first() == b.drop_first() {
            assert(a =~= seq![a[0]] + a.drop_first());
            assert(b =~= seq![b[0]] + b.drop_first());
        }
    } else if a.len() > 0 && b.len() > 0 {
        assert((a[0] as int) != (b[0] as int));
    } else if a.len() == 0 && b.len() == 0 {
        assert(a =~= b);
    }
}

proof fn lemma_lex_skip(a: Seq<char>, b: Seq<char>, i: int)
    requires
        0 <= i < a.len(),
        i < b.len(),
        a[i] == b[i],
    ensures
        lex_lt(a.skip(i), b.skip(i)) == lex_lt(a.skip(i + 1), b.skip(i + 1)),
{
    reveal_with_fuel(lex_lt, 2);
    assert(a.skip(i).drop_first() =~= a.skip(i + 1));
    assert(b.skip(i).drop_first() =~= b.skip(i + 1));
}

/// Whether `a` sorts strictly before `b`.
pub fn str_less(a: &str, b: &str) -> (r: bool)
    ensures
        r == lex_lt(a@, b@),
{
    reveal_with_fuel(lex_lt, 2);
    let ac = chars_of(a);
    let bc = chars_of(b);
    let mut i: usize = 0;
    assert(ac@.skip(0) =~= ac@);
    assert(bc@.skip(0) =~= bc@);
    while i < ac.len() && i < bc.len()
        invariant
            ac@ == a@,
            bc@ == b@,
            i <= ac@.len(),
            i <= bc@.len(),
            lex_lt(a@, b@) == lex_lt(ac@.skip(i as int), bc@.skip(i as int)),
        decreases ac.len() - i,
    {
        let x: char = ac[i];
        let y: char = bc[i];
        if x != y {
            proof {
                reveal_with_fuel(lex_lt, 2);
                assert(ac@.skip(i as int)[0] == x);
                assert(bc@.skip(i as int)[0] == y);
            }
            return x < y;
        }
        proof {
            lemma_lex_skip(ac@, bc@, i as int);
        }
        i = i + 1;
    }
    i < bc.len()
}

/// Whether `c` has the Unicode `White_Space` property.
pub fn char_is_whitespace(c: char) -> (b: bool)
    ensures
        b == is_whitespace(c),
{
    let u = c as u32;
    (0x09 <= u && u <= 0x0d) || u == 0x20 || u == 0x85 || u == 0xa0 || u == 0x1680 || (0x2000 <= u
        && u <= 0x200a) || u == 0x2028 || u == 0x2029 || u == 0x202f || u == 0x205f || u == 0x3000
}

/// The maximal runs of non-whitespace characters of `s`, in order (what
/// `str::split_whitespace` yields).
pub open spec fn words(s: Seq<char>) -> Seq<Seq<char>>
    decreases s.len(),
{
    if s.len() == 0 {
        Seq::empty()
    } else if is_whitespace(s.last()) {
        words(s.drop_last())
    } else if s.len() >= 2 && !is_whitespace(s[s.len() - 2]) {
        let w = words(s.drop_last());
        w.update(w.len() - 1, w.last().push(s.last()))
    } else {
        words(s.drop_last()).push(seq![s.last()])
    }
}

/// The views of a list of strings.
pub open spec fn string_views(s: Seq<String>) -> Seq<Seq<char>> {
    s.map_values(|x: String| x@)
}

/// The views of a list of string slices.
pub open spec fn str_views(s: Seq<&str>) -> Seq<Seq<char>> {
    s.map_values(|x: &str| x@)
}

pub proof fn lemma_words_nonempty(s: Seq<char>)
    requires
        s.len() > 0,
        !is_whitespace(s.last()),
    ensures
        words(s).len() > 0,
    decreases s.len(),
{
    if s.len() >= 2 && !is_whitespace(s[s.len() - 2]) {
        lemma_words_nonempty(s.drop_last());
    }
}

/// The whitespace-separated words of `s`.
pub fn split_words(s: &str) -> (out: Vec<String>)
    ensures
        string_views(out@) == words(s@),
{
    let chars = chars_of(s);
    let mut out: Vec<String> = Vec::new();
    let mut cur = String::new();
    let mut in_word = false;
    let mut i: usize = 0;
    while i < chars.len()
        invariant
            chars@ == s@,
            i <= chars@.len(),
            in_word == (i > 0 && !is_whitespace(chars@[i - 1])),
            in_word ==> cur@.len() > 0 && words(chars@.subrange(0, i as int)) == string_views(out@).push(cur@),
            !in_word ==> cur@.len() == 0 && words(chars@.subrange(0, i as int)) == string_views(out@),
        decreases chars.len() - i,
    {
        let c = chars[i];
        let ghost p = chars@.subrange(0, i as int);
        let ghost q = chars@.subrange(0, i + 1);
        assert(q.drop_last() =~= p);
        assert(q.last() == c);
        if char_is_whitespace(c) {
            if in_word {
                let ghost before = out@;
                let word = cur;
                cur = String::new();
                out.push(word);
                assert(string_views(out@) =~= string_views(before).push(word@));
            }
            in_word = false;
        } else {
            if in_word {
                assert(q[q.len() - 2] == chars@[i - 1]);
                let ghost old_cur = cur@;
                push_char(&mut cur, c);
                assert(words(q) =~= string_views(out@).push(cur@));
            } else {
                if i > 0 {
                    assert(q[q.len() - 2] == chars@[i - 1]);
                }
                push_char(&mut cur, c);
                assert(cur@ =~= seq![c]);
            }
            in_word = true;
        }
        i = i + 1;
    }
    assert(chars@.subrange(0, chars@.len() as int) =~= chars@);
    if in_word {
        let ghost before = out@;
        out.push(cur);
        assert(string_views(out@) =~= string_views(before).push(cur@));
    }
    out
}

/// The first `n` characters as a string.
pub fn string_of_chars(chars: &Vec<char>, n: usize) -> (s: String)
    requires
        n <= chars@.len(),
    ensures
        s@ == chars@.subrange(0, n as int),
{
    let mut s = String::new();
    let mut i: usize = 0;
    while i < n
        invariant
            n <= chars@.len(),
            i <= n,
            s@ == chars@.subrange(0, i as int),
        decreases n - i,
    {
        push_char(&mut s, chars[i]);
        i = i + 1;
        assert(s@ =~= chars@.subrange(0, i as int));
    }
    s
}

/// The characters `s[lo..hi]`.
pub fn sub_chars(s: &Vec<char>, lo: usize, hi: usize) -> (out: Vec<char>)
    requires
        lo <= hi <= s@.len(),
    ensures
        out@ == s@.subrange(lo as int, hi as int),
{
    let mut out: Vec<char> = Vec::new();
    let mut i = lo;
    while i < hi
        invariant
            lo <= i <= hi <= s@.len(),
            out@ == s@.subrange(lo as int, i as int),
        decreases hi - i,
    {
        out.push(s[i]);
        i = i + 1;
        assert(out@ =~= s@.subrange(lo as int, i as int));
    }
    out
}

/// Decimal text of an integer as `Display` writes it: `12`, `0`, `-7`.
pub open spec fn int_text(v: int) -> Seq<char> {
    if v >= 0 {
        decimal(v as nat)
    } else {
        seq!['-'] + decimal((-v) as nat)
    }
}

/// Append the decimal text of `value`.
pub fn push_int(out: &mut String, value: i64)
    ensures
        final(out)@ == old(out)@ + int_text(value as int),
{
    if value >= 0 {
        push_decimal(out, value as u64);
    } else {
        push_char(out, '-');
        let magnitude: u64 = if value == i64::MIN {
            0x8000_0000_0000_0000u64
        } else {
            (-value) as u64
        };
        push_decimal(out, magnitude);
    }
}

/// The items joined with `sep` between neighbours.
pub open spec fn join_with(items: Seq<Seq<char>>, sep: Seq<char>) -> Seq<char>
    decreases items.len(),
{
    if items.len() == 0 {
        Seq::empty()
    } else if items.len() == 1 {
        items[0]
    } else {
        join_with(items.drop_last(), sep) + sep + items.last()
    }
}

/// Join strings with a separator.
pub fn join_strings(items: &Vec<String>, sep: &str) -> (out: String)
    ensures
        out@ == join_with(string_views(items@), sep@),
{
    let ghost views = string_views(items@);
    let mut out = String::new();
    let mut i: usize = 0;
    while i < items.len()
        invariant
            i <= items@.len(),
            views == string_views(items@),
            out@ == join_with(views.subrange(0, i as int), sep@),
        decreases items.len() - i,
    {
        let ghost sub = views.subrange(0, i + 1);
        assert(sub.drop_last() =~= views.subrange(0, i as int));
        if i > 0 {
            out.append(sep);
        }
        out.append(items[i].as_str());
        proof {
            if i == 0 {
                assert(out@ =~= sub[0]);
            } else {
                assert(out@ =~= join_with(sub.drop_last(), sep@) + sep@ + sub.last());
            }
        }
        i = i + 1;
    }
    assert(views.subrange(0, items@.len() as int) =~= views);
    out
}

/// An executable result agrees with a specified one: the same value, or an error with
/// the specified message.
pub open spec fn same_result<T>(r: Result<T, String>, s: Result<T, Seq<char>>) -> bool {
    match s {
        Ok(v) => r == Ok::<T, String>(v),
        Err(m) => r is Err && r->Err_0@ == m,
    }
}

/// A line without the `\r` of a `\r\n` ending.
pub open spec fn strip_cr(line: Seq<char>) -> Seq<char> {
    if line.len() > 0 && line.last() == '\r' {
        line.drop_last()
    } else {
        line
    }
}

/// The lines of `s` as `str::lines` yields them: split at `\n`, a `\r` before a `\n`
/// dropped, and no empty line after a final `\n`.
pub open spec fn text_lines(s: Seq<char>) -> Seq<Seq<char>> {
    let pieces = split_on_char(s, '\n');
    let body = pieces.drop_last().map_values(|p: Seq<char>| strip_cr(p));
    if pieces.last().len() == 0 {
        body
    } else {
        body.push(pieces.last())
    }
}

/// The pieces of `s` between occurrences of `sep` (at least one piece).
pub open spec fn split_on_char(s: Seq<char>, sep: char) -> Seq<Seq<char>>
    decreases s.len(),
{
    if s.len() == 0 {
        seq![Seq::empty()]
    } else if s.last() == sep {
        split_on_char(s.drop_last(), sep).push(Seq::empty())
    } else {
        let w = split_on_char(s.drop_last(), sep);
        w.update(w.len() - 1, w.last().push(s.last()))
    }
}

pub proof fn lemma_split_on_char_nonempty(s: Seq<char>, sep: char)
    ensures
        split_on_char(s, sep).len() >= 1,
    decreases s.len(),
{
    if s.len() > 0 {
        lemma_split_on_char_nonempty(s.drop_last(), sep);
    }
}

/// The lines of a text.
pub fn lines_of(text: &str) -> (out: Vec<String>)
    ensures
        string_views(out@) == text_lines(text@),
{
    let chars = chars_of(text);
    let mut out: Vec<String> = Vec::new();
    let ghost mut done: Seq<Seq<char>> = Seq::empty();
    let mut start: usize = 0;
    let mut i: usize = 0;
    assert(chars@.subrange(0, 0) =~= Seq::<char>::empty());
    assert(chars@.subrange(0, 0) =~= chars@.subrange(start as int, 0));
    while i < chars.len()
        invariant
            chars@ == text@,
            start <= i <= chars@.len(),
            split_on_char(chars@.subrange(0, i as int), '\n') == done.push(chars@.subrange(start as int, i as int)),
            string_views(out@) == done.map_values(|p: Seq<char>| strip_cr(p)),
        decreases chars.len() - i,
    {
        let ghost q = chars@.subrange(0, i + 1);
        assert(q.drop_last() =~= chars@.subrange(0, i as int));
        if chars[i] == '\n' {
            let ghost piece = chars@.subrange(start as int, i as int);
            let end = if i > start && chars[i - 1] == '\r' { i - 1 } else { i };
            let part = sub_chars(&chars, start, end);
            let line = string_of_chars(&part, part.len());
            assert(part@.subrange(0, part@.len() as int) =~= part@);
            proof {
                if i > start && chars@[i - 1] == '\r' {
                    assert(piece.drop_last() =~= part@);
                } else {
                    assert(piece =~= part@);
                }
            }
            let ghost before = out@;
            out.push(line);
            proof {
                assert(string_views(out@) =~= string_views(before).push(strip_cr(piece)));
                assert(done.push(piece).map_values(|p: Seq<char>| strip_cr(p)) =~= done.map_values(
                    |p: Seq<char>| strip_cr(p),
                ).push(strip_cr(piece)));
                done = done.push(piece);
            }
            start = i + 1;
            assert(chars@.subrange(start as int, i + 1) =~= Seq::<char>::empty());
        } else {
            assert(chars@.subrange(start as int, i + 1) =~= chars@.subrange(start as int, i as int).push(chars@[i as int]));
        }
        i = i + 1;
    }
    assert(chars@.subrange(0, chars@.len() as int) =~= chars@);
    let ghost pieces = done.push(chars@.subrange(start as int, chars@.len() as int));
    assert(pieces.drop_last() =~= done);
    if start < chars.len() {
        let part = sub_chars(&chars, start, chars.len());
        let line = string_of_chars(&part, part.len());
        assert(part@.subrange(0, part@.len() as int) =~= part@);
        let ghost before = out@;
        out.push(line);
        assert(string_views(out@) =~= string_views(before).push(part@));
    }
    out
}

/// The characters of a string, in order.
pub fn chars_of(s: &str) -> (out: Vec<char>)
    ensures
        out@ == s@,
{
    let mut out: Vec<char> = Vec::new();
    broadcast use vstd::string::axiom_spec_iter;
    for c in it: s.chars()
        invariant
            out@ == it.seq().take(it.index() as int),
    {
        out.push(c);
    }
    out
}

} // verus!
