//! Argument parsing for the command line: trimming, splitting, decimal numbers, index
//! lists with ranges, booleans and bonus edits.
use crate::text::{
    decimal, digit_char, int_text, signed_decimal,
    lemma_split_on_char_nonempty, split_on_char,
    char_is_whitespace, chars_of, is_whitespace, lowercase, push_char, spec_lowercase, str_eq, str_views,
    trim, trim_chars, trim_end_chars, trim_start_chars,
};
use vstd::prelude::*;

verus! {

// ---------------------------------------------------------------------------
// Trimming and splitting character sequences
// ---------------------------------------------------------------------------

proof fn lemma_trim_start(s: Seq<char>, a: int)
    requires
        0 <= a <= s.len(),
        forall|k: int| 0 <= k < a ==> is_whitespace(#[trigger] s[k]),
        a == s.len() || !is_whitespace(s[a]),
    ensures
        trim_start_chars(s) == s.subrange(a, s.len() as int),
    decreases a,
{
    if a == 0 {
        assert(s.subrange(0, s.len() as int) =~= s);
    } else {
        let t = s.drop_first();
        assert forall|k: int| 0 <= k < a - 1 implies is_whitespace(#[trigger] t[k]) by {
            assert(t[k] == s[k + 1]);
        }
        lemma_trim_start(t, a - 1);
        assert(t.subrange(a - 1, t.len() as int) =~= s.subrange(a, s.len() as int));
    }
}

proof fn lemma_trim_end(s: Seq<char>, b: int)
    requires
        0 <= b <= s.len(),
        forall|k: int| b <= k < s.len() ==> is_whitespace(#[trigger] s[k]),
        b == 0 || !is_whitespace(s[b - 1]),
    ensures
        trim_end_chars(s) == s.subrange(0, b),
    decreases s.len() - b,
{
    if b == s.len() {
        assert(s.subrange(0, b) =~= s);
    } else {
        let t = s.drop_last();
        assert forall|k: int| b <= k < t.len() implies is_whitespace(#[trigger] t[k]) by {
            assert(t[k] == s[k]);
        }
        lemma_trim_end(t, b);
        assert(t.subrange(0, b) =~= s.subrange(0, b));
    }
}

/// `s[lo..hi]` without leading and trailing whitespace.
pub fn trim_range(s: &Vec<char>, lo: usize, hi: usize) -> (out: Vec<char>)
    requires
        lo <= hi <= s@.len(),
    ensures
        out@ == trim_chars(s@.subrange(lo as int, hi as int)),
{
    let ghost w = s@.subrange(lo as int, hi as int);
    let mut a = lo;
    while a < hi && char_is_whitespace(s[a])
        invariant
            lo <= a <= hi <= s@.len(),
            w == s@.subrange(lo as int, hi as int),
            forall|k: int| lo <= k < a ==> is_whitespace(#[trigger] s@[k]),
        decreases hi - a,
    {
        a = a + 1;
    }
    proof {
        assert forall|k: int| 0 <= k < a - lo implies is_whitespace(#[trigger] w[k]) by {
            assert(w[k] == s@[lo + k]);
        }
        if a < hi {
            assert(w[a - lo] == s@[a as int]);
        }
        lemma_trim_start(w, a - lo);
    }
    let ghost u = s@.subrange(a as int, hi as int);
    assert(w.subrange(a - lo, w.len() as int) =~= u);
    let mut b = hi;
    while b > a && char_is_whitespace(s[b - 1])
        invariant
            lo <= a <= b <= hi <= s@.len(),
            forall|k: int| b <= k < hi ==> is_whitespace(#[trigger] s@[k]),
        decreases b - a,
    {
        b = b - 1;
    }
    proof {
        assert forall|k: int| b - a <= k < u.len() implies is_whitespace(#[trigger] u[k]) by {
            assert(u[k] == s@[a + k]);
        }
        if b > a {
            assert(u[b - a - 1] == s@[b - 1]);
        }
        lemma_trim_end(u, b - a);
    }
    let mut out: Vec<char> = Vec::new();
    let mut i = a;
    while i < b
        invariant
            a <= i <= b <= s@.len(),
            out@ == s@.subrange(a as int, i as int),
        decreases b - i,
    {
        out.push(s[i]);
        i = i + 1;
        assert(out@ =~= s@.subrange(a as int, i as int));
    }
    assert(u.subrange(0, b - a) =~= s@.subrange(a as int, b as int));
    out
}

/// Index of the first `c` in `s`, if any.
pub open spec fn first_index_of(s: Seq<char>, c: char) -> Option<int> {
    if s.contains(c) {
        Some(choose|i: int| 0 <= i < s.len() && s[i] == c && forall|k: int| 0 <= k < i ==> s[k] != c)
    } else {
        None
    }
}

/// The first index of `c` is `k` when `s[k]` is `c` and no earlier character is.
pub proof fn lemma_first_index(s: Seq<char>, c: char, k: int)
    requires
        0 <= k < s.len(),
        s[k] == c,
        forall|m: int| 0 <= m < k ==> s[m] != c,
    ensures
        first_index_of(s, c) == Some(k),
{
    assert(s.contains(c));
    let w = choose|i: int| 0 <= i < s.len() && s[i] == c && forall|m: int| 0 <= m < i ==> s[m] != c;
    assert(w == k) by {
        if w < k {
            assert(s[w] != c);
        } else if k < w {
            assert(s[k] != c);
        }
    }
}

/// Position of the first `c` in `s`, if any.
pub fn find_char(s: &Vec<char>, c: char) -> (r: Option<usize>)
    ensures
        match r {
            Some(i) => i < s@.len() && s@[i as int] == c && forall|k: int| 0 <= k < i ==> s@[k] != c,
            None => !s@.contains(c),
        },
{
    let mut i: usize = 0;
    while i < s.len()
        invariant
            i <= s@.len(),
            forall|k: int| 0 <= k < i ==> s@[k] != c,
        decreases s.len() - i,
    {
        if s[i] == c {
            return Some(i);
        }
        i = i + 1;
    }
    None
}

// ---------------------------------------------------------------------------
// Decimal numbers
// ---------------------------------------------------------------------------

pub open spec fn is_digit(c: char) -> bool {
    48 <= (c as int) <= 57
}

/// Value of a string of decimal digits.
pub open spec fn digits_value(s: Seq<char>) -> nat
    decreases s.len(),
{
    if s.len() == 0 {
        0
    } else {
        digits_value(s.drop_last()) * 10 + ((s.last() as int - 48) as nat)
    }
}

pub open spec fn all_digits(s: Seq<char>) -> bool {
    forall|k: int| 0 <= k < s.len() ==> is_digit(#[trigger] s[k])
}

/// The number `str::parse` reads from `s` for an unsigned type: an optional `+`, then at
/// least one decimal digit. (The bound of the type is checked by the caller.)
pub open spec fn unsigned_text_value(s: Seq<char>) -> Option<nat> {
    let d = if s.len() > 0 && s[0] == '+' { s.drop_first() } else { s };
    if d.len() > 0 && all_digits(d) {
        Some(digits_value(d))
    } else {
        None
    }
}

/// What `s.parse::<usize>()` gives: the value when `s` is an optional `+` and digits
/// whose value fits, else an error.
pub open spec fn spec_parse_usize(s: Seq<char>) -> Option<usize> {
    match unsigned_text_value(s) {
        Some(v) => if v <= usize::MAX { Some(v as usize) } else { None },
        None => None,
    }
}

/// What `s.parse::<i64>()` gives: an optional sign, then digits whose signed value fits.
pub open spec fn spec_parse_i64(s: Seq<char>) -> Option<i64> {
    if s.len() > 0 && s[0] == '-' {
        let d = s.drop_first();
        if d.len() > 0 && all_digits(d) && digits_value(d) <= 0x8000_0000_0000_0000 {
            Some((0 - digits_value(d)) as i64)
        } else {
            None
        }
    } else {
        match unsigned_text_value(s) {
            Some(v) => if v <= i64::MAX { Some(v as i64) } else { None },
            None => None,
        }
    }
}

proof fn lemma_digits_grow(s: Seq<char>, k: int)
    requires
        0 <= k <= s.len(),
        all_digits(s),
    ensures
        digits_value(s.subrange(0, k)) <= digits_value(s),
    decreases s.len() - k,
{
    if k < s.len() {
        let t = s.subrange(0, k + 1);
        assert(t.drop_last() =~= s.subrange(0, k));
        assert(is_digit(s[k]));
        lemma_digits_grow(s, k + 1);
    } else {
        assert(s.subrange(0, k) =~= s);
    }
}

/// The value of the digits `s[lo..hi]`, or `None` when some character is not a digit, the
/// range is empty, or the value exceeds `limit`.
pub fn digits_in(s: &Vec<char>, lo: usize, hi: usize, limit: u64) -> (r: Option<u64>)
    requires
        lo <= hi <= s@.len(),
    ensures
        ({
            let d = s@.subrange(lo as int, hi as int);
            match r {
                Some(v) => d.len() > 0 && all_digits(d) && v == digits_value(d) && v <= limit,
                None => !(d.len() > 0 && all_digits(d) && digits_value(d) <= limit),
            }
        }),
{
    let ghost d = s@.subrange(lo as int, hi as int);
    if lo == hi {
        return None;
    }
    let mut v: u64 = 0;
    let mut i = lo;
    while i < hi
        invariant
            lo <= i <= hi <= s@.len(),
            d == s@.subrange(lo as int, hi as int),
            all_digits(s@.subrange(lo as int, i as int)),
            v == digits_value(s@.subrange(lo as int, i as int)),
            v <= limit,
        decreases hi - i,
    {
        let c = s[i];
        let ghost p = s@.subrange(lo as int, i + 1);
        assert(p.drop_last() =~= s@.subrange(lo as int, i as int));
        if !(c >= '0' && c <= '9') {
            proof {
                assert(d[i - lo] == c);
            }
            return None;
        }
        let digit = (c as u32 - 48) as u64;
        assert(digit == c as int - 48);
        if digit > limit || v > (limit - digit) / 10 {
            proof {
                assert(digits_value(p) == v * 10 + digit);
                if digit <= limit {
                    assert(v * 10 + digit > limit) by (nonlinear_arith)
                        requires
                            v > (limit - digit) / 10,
                            digit <= limit,
                    ;
                }
                if all_digits(d) {
                    assert(d.subrange(0, i + 1 - lo) =~= p);
                    lemma_digits_grow(d, i + 1 - lo);
                }
            }
            return None;
        }
        v = v * 10 + digit;
        i = i + 1;
    }
    assert(s@.subrange(lo as int, hi as int) =~= d);
    Some(v)
}

/// `s[lo..hi].parse::<usize>()`.
pub fn parse_usize_range(s: &Vec<char>, lo: usize, hi: usize) -> (r: Option<usize>)
    requires
        lo <= hi <= s@.len(),
    ensures
        r == spec_parse_usize(s@.subrange(lo as int, hi as int)),
{
    let ghost w = s@.subrange(lo as int, hi as int);
    let start = if lo < hi && s[lo] == '+' { lo + 1 } else { lo };
    proof {
        if lo < hi && s@[lo as int] == '+' {
            assert(w.drop_first() =~= s@.subrange(start as int, hi as int));
        } else {
            assert(w =~= s@.subrange(start as int, hi as int));
        }
    }
    match digits_in(s, start, hi, usize::MAX as u64) {
        Some(v) => Some(v as usize),
        None => None,
    }
}

/// `s[lo..hi].parse::<i64>()`.
pub fn parse_i64_range(s: &Vec<char>, lo: usize, hi: usize) -> (r: Option<i64>)
    requires
        lo <= hi <= s@.len(),
    ensures
        r == spec_parse_i64(s@.subrange(lo as int, hi as int)),
{
    let ghost w = s@.subrange(lo as int, hi as int);
    if lo < hi && s[lo] == '-' {
        assert(w.drop_first() =~= s@.subrange(lo + 1, hi as int));
        match digits_in(s, lo + 1, hi, 0x8000_0000_0000_0000u64) {
            Some(v) => {
                if v == 0x8000_0000_0000_0000u64 {
                    Some(i64::MIN)
                } else {
                    Some(-(v as i64))
                }
            },
            None => None,
        }
    } else {
        let start = if lo < hi && s[lo] == '+' { lo + 1 } else { lo };
        proof {
            if lo < hi && s@[lo as int] == '+' {
                assert(w.drop_first() =~= s@.subrange(start as int, hi as int));
            } else {
                assert(w =~= s@.subrange(start as int, hi as int));
            }
        }
        match digits_in(s, start, hi, 0x7fff_ffff_ffff_ffffu64) {
            Some(v) => Some(v as i64),
            None => None,
        }
    }
}

/// Append the characters `cs` to `out`.
pub fn push_chars(out: &mut String, cs: &Vec<char>)
    ensures
        final(out)@ == old(out)@ + cs@,
{
    let mut i: usize = 0;
    while i < cs.len()
        invariant
            i <= cs@.len(),
            out@ == old(out)@ + cs@.subrange(0, i as int),
        decreases cs.len() - i,
    {
        push_char(out, cs[i]);
        i = i + 1;
        assert(out@ =~= old(out)@ + cs@.subrange(0, i as int));
    }
    assert(cs@.subrange(0, cs@.len() as int) =~= cs@);
}

// ---------------------------------------------------------------------------
// Index lists
// ---------------------------------------------------------------------------

/// The indices `start..=end`.
pub open spec fn index_range(start: usize, end: usize) -> Seq<usize> {
    Seq::new((end - start + 1) as nat, |i: int| (start + i) as usize)
}

/// What one comma-separated piece of an index list contributes: nothing when blank, an
/// inclusive range `a-b`, or a single index; or the error it is rejected with.
pub open spec fn index_piece(piece: Seq<char>) -> Result<Seq<usize>, Seq<char>> {
    let p = trim_chars(piece);
    if p.len() == 0 {
        Ok(Seq::empty())
    } else {
        match first_index_of(p, '-') {
            Some(k) => {
                let start = spec_parse_usize(trim_chars(p.subrange(0, k)));
                let end = spec_parse_usize(trim_chars(p.subrange(k + 1, p.len() as int)));
                if start is None {
                    Err("invalid range start"@)
                } else if end is None {
                    Err("invalid range end"@)
                } else if start->0 > end->0 {
                    Err("range start larger than end"@)
                } else {
                    Ok(index_range(start->0, end->0))
                }
            },
            None => match spec_parse_usize(p) {
                Some(v) => Ok(seq![v]),
                None => Err("invalid index '"@ + p + "'"@),
            },
        }
    }
}

/// The pieces read in order; the first rejected piece decides the error.
pub open spec fn index_pieces(pieces: Seq<Seq<char>>) -> Result<Seq<usize>, Seq<char>>
    decreases pieces.len(),
{
    if pieces.len() == 0 {
        Ok(Seq::empty())
    } else {
        match index_pieces(pieces.drop_last()) {
            Err(e) => Err(e),
            Ok(v) => match index_piece(pieces.last()) {
                Err(e) => Err(e),
                Ok(w) => Ok(v + w),
            },
        }
    }
}

/// The arguments read in order, each split at commas.
pub open spec fn index_args(args: Seq<Seq<char>>) -> Result<Seq<usize>, Seq<char>>
    decreases args.len(),
{
    if args.len() == 0 {
        Ok(Seq::empty())
    } else {
        match index_args(args.drop_last()) {
            Err(e) => Err(e),
            Ok(v) => match index_pieces(split_on_char(args.last(), ',')) {
                Err(e) => Err(e),
                Ok(w) => Ok(v + w),
            },
        }
    }
}

/// What `parse_indices_result` returns for the arguments `args`.
pub open spec fn spec_parse_indices(args: Seq<Seq<char>>) -> Result<Seq<usize>, Seq<char>> {
    if args.len() == 0 {
        Err("missing indices"@)
    } else {
        match index_args(args) {
            Err(e) => Err(e),
            Ok(v) => if v.len() == 0 {
                Err("missing indices"@)
            } else {
                Ok(v)
            },
        }
    }
}

/// The errors the index parser can give: a missing list, a bad range, or a piece that is
/// not a number.
pub open spec fn index_error(e: Seq<char>) -> bool {
    ||| e == "missing indices"@
    ||| e == "invalid range start"@
    ||| e == "invalid range end"@
    ||| e == "range start larger than end"@
    ||| exists|p: Seq<char>| e == "invalid index '"@ + p + "'"@
}

proof fn lemma_piece_error(piece: Seq<char>)
    ensures
        index_piece(piece) matches Err(e) ==> index_error(e),
{
    let p = trim_chars(piece);
    if p.len() > 0 && first_index_of(p, '-') is None && spec_parse_usize(p) is None {
        assert("invalid index '"@ + p + "'"@ == "invalid index '"@ + p + "'"@);
    }
}

proof fn lemma_pieces_error(pieces: Seq<Seq<char>>)
    ensures
        index_pieces(pieces) matches Err(e) ==> index_error(e),
    decreases pieces.len(),
{
    if pieces.len() > 0 {
        lemma_pieces_error(pieces.drop_last());
        lemma_piece_error(pieces.last());
    }
}

proof fn lemma_args_error(args: Seq<Seq<char>>)
    ensures
        index_args(args) matches Err(e) ==> index_error(e),
    decreases args.len(),
{
    if args.len() > 0 {
        lemma_args_error(args.drop_last());
        lemma_pieces_error(split_on_char(args.last(), ','));
    }
}

/// Every error of the index parser is one of the forms of `index_error`.
pub proof fn lemma_index_errors(args: Seq<Seq<char>>)
    ensures
        spec_parse_indices(args) matches Err(e) ==> index_error(e),
{
    lemma_args_error(args);
}

proof fn lemma_pieces_err_prefix(x: Seq<Seq<char>>, y: Seq<Seq<char>>)
    requires
        x.len() <= y.len(),
        forall|j: int| 0 <= j < x.len() ==> x[j] == y[j],
        index_pieces(x) is Err,
    ensures
        index_pieces(y) == index_pieces(x),
    decreases y.len(),
{
    if y.len() == x.len() {
        assert(x =~= y);
    } else {
        lemma_pieces_err_prefix(x, y.drop_last());
    }
}

proof fn lemma_args_err_prefix(x: Seq<Seq<char>>, y: Seq<Seq<char>>)
    requires
        x.len() <= y.len(),
        forall|j: int| 0 <= j < x.len() ==> x[j] == y[j],
        index_args(x) is Err,
    ensures
        index_args(y) == index_args(x),
    decreases y.len(),
{
    if y.len() == x.len() {
        assert(x =~= y);
    } else {
        lemma_args_err_prefix(x, y.drop_last());
    }
}

/// The pieces of a prefix of `s`, but for the last (still growing) one, are pieces of `s`.
proof fn lemma_split_prefix(s: Seq<char>, k: int, sep: char)
    requires
        0 <= k <= s.len(),
    ensures
        split_on_char(s, sep).len() >= split_on_char(s.subrange(0, k), sep).len(),
        forall|j: int|
            0 <= j < split_on_char(s.subrange(0, k), sep).len() - 1 ==> split_on_char(s, sep)[j] == split_on_char(
                s.subrange(0, k),
                sep,
            )[j],
    decreases s.len(),
{
    lemma_split_on_char_nonempty(s, sep);
    if k == s.len() {
        assert(s.subrange(0, k) =~= s);
    } else {
        let t = s.drop_last();
        assert(t.subrange(0, k) =~= s.subrange(0, k));
        lemma_split_prefix(t, k, sep);
        lemma_split_on_char_nonempty(t, sep);
    }
}

/// Read the piece `s[lo..hi]`, appending its indices to `out`.
fn read_index_piece(s: &Vec<char>, lo: usize, hi: usize, out: &mut Vec<usize>) -> (r: Result<(), String>)
    requires
        lo <= hi <= s@.len(),
    ensures
        match index_piece(s@.subrange(lo as int, hi as int)) {
            Ok(v) => r is Ok && final(out)@ == old(out)@ + v,
            Err(e) => r is Err && r->Err_0@ == e,
        },
{
    let p = trim_range(s, lo, hi);
    if p.len() == 0 {
        assert(old(out)@ + Seq::<usize>::empty() =~= old(out)@);
        return Ok(());
    }
    match find_char(&p, '-') {
        Some(k) => {
            proof {
                lemma_first_index(p@, '-', k as int);
            }
            let st = trim_range(&p, 0, k);
            let en = trim_range(&p, k + 1, p.len());
            assert(st@.subrange(0, st@.len() as int) =~= st@);
            assert(en@.subrange(0, en@.len() as int) =~= en@);
            let start = match parse_usize_range(&st, 0, st.len()) {
                Some(v) => v,
                None => {
                    return Err(String::from_str("invalid range start"));
                },
            };
            let end = match parse_usize_range(&en, 0, en.len()) {
                Some(v) => v,
                None => {
                    return Err(String::from_str("invalid range end"));
                },
            };
            if start > end {
                return Err(String::from_str("range start larger than end"));
            }
            let mut idx = start;
            while idx < end
                invariant
                    start <= idx <= end,
                    out@ == old(out)@ + Seq::new((idx - start) as nat, |i: int| (start + i) as usize),
                decreases end - idx,
            {
                out.push(idx);
                idx = idx + 1;
                assert(out@ =~= old(out)@ + Seq::new((idx - start) as nat, |i: int| (start + i) as usize));
            }
            out.push(end);
            assert(out@ =~= old(out)@ + index_range(start, end));
            Ok(())
        },
        None => {
            assert(p@.subrange(0, p@.len() as int) =~= p@);
            match parse_usize_range(&p, 0, p.len()) {
                Some(v) => {
                    out.push(v);
                    assert(out@ =~= old(out)@ + seq![v]);
                    Ok(())
                },
                None => {
                    let mut msg = String::from_str("invalid index '");
                    push_chars(&mut msg, &p);
                    push_char(&mut msg, '\'');
                    assert(msg@ =~= "invalid index '"@ + p@ + "'"@) by {
                        reveal_strlit("'");
                    }
                    Err(msg)
                },
            }
        },
    }
}

/// Index arguments such as `1 3-5` or `2,4`: whitespace-separated arguments, each split at
/// commas; a piece `a-b` stands for the inclusive range. Blank pieces are skipped.
pub fn parse_indices_result(args: &[&str]) -> (r: Result<Vec<usize>, String>)
    ensures
        match spec_parse_indices(str_views(args@)) {
            Ok(v) => r is Ok && r->Ok_0@ == v,
            Err(e) => r is Err && r->Err_0@ == e,
        },
{
    let ghost views = str_views(args@);
    if args.len() == 0 {
        return Err(String::from_str("missing indices"));
    }
    let mut indices: Vec<usize> = Vec::new();
    let mut a: usize = 0;
    while a < args.len()
        invariant
            a <= args@.len(),
            views == str_views(args@),
            index_args(views.subrange(0, a as int)) == Ok::<Seq<usize>, Seq<char>>(indices@),
        decreases args.len() - a,
    {
        let chars = chars_of(args[a]);
        let ghost prefix = views.subrange(0, a as int);
        let ghost base = indices@;
        let ghost mut done: Seq<Seq<char>> = Seq::empty();
        let mut start: usize = 0;
        let mut i: usize = 0;
        assert(chars@.subrange(0, 0) =~= Seq::<char>::empty());
        assert(chars@.subrange(0, 0) =~= chars@.subrange(start as int, 0));
        while i < chars.len()
            invariant
                chars@ == views[a as int],
                start <= i <= chars@.len(),
                split_on_char(chars@.subrange(0, i as int), ',') == done.push(chars@.subrange(start as int, i as int)),
                index_pieces(done) is Ok,
                indices@ == base + index_pieces(done)->Ok_0,
                index_args(prefix) == Ok::<Seq<usize>, Seq<char>>(base),
                prefix == views.subrange(0, a as int),
                a < views.len(),
                views == str_views(args@),
            decreases chars.len() - i,
        {
            let ghost q = chars@.subrange(0, i + 1);
            assert(q.drop_last() =~= chars@.subrange(0, i as int));
            if chars[i] == ',' {
                let ghost piece = chars@.subrange(start as int, i as int);
                let ghost before = indices@;
                let res = read_index_piece(&chars, start, i, &mut indices);
                assert(done.push(piece).drop_last() =~= done);
                match res {
                    Ok(()) => {},
                    Err(e) => {
                        proof {
                            lemma_split_prefix(chars@, i + 1, ',');
                            lemma_pieces_err_prefix(done.push(piece), split_on_char(chars@, ','));
                            let upto = views.subrange(0, a + 1);
                            assert(upto.drop_last() =~= prefix);
                            lemma_args_err_prefix(upto, views);
                        }
                        return Err(e);
                    },
                }
                proof {
                    done = done.push(piece);
                    assert(indices@ =~= base + index_pieces(done)->Ok_0);
                }
                start = i + 1;
                assert(chars@.subrange(start as int, i + 1) =~= Seq::<char>::empty());
            } else {
                assert(chars@.subrange(start as int, i + 1) =~= chars@.subrange(start as int, i as int).push(chars@[i as int]));
            }
            i = i + 1;
        }
        assert(chars@.subrange(0, chars@.len() as int) =~= chars@);
        let ghost piece = chars@.subrange(start as int, chars@.len() as int);
        let res = read_index_piece(&chars, start, chars.len(), &mut indices);
        assert(done.push(piece).drop_last() =~= done);
        let ghost upto = views.subrange(0, a + 1);
        assert(upto.drop_last() =~= prefix);
        match res {
            Ok(()) => {},
            Err(e) => {
                proof {
                    lemma_args_err_prefix(upto, views);
                }
                return Err(e);
            },
        }
        assert(indices@ =~= base + index_pieces(split_on_char(chars@, ','))->Ok_0);
        a = a + 1;
    }
    assert(views.subrange(0, args@.len() as int) =~= views);
    if indices.len() == 0 {
        return Err(String::from_str("missing indices"));
    }
    Ok(indices)
}

/// Like `parse_indices_result`, but no arguments at all means no indices.
pub fn parse_optional_indices(args: &[&str]) -> (r: Result<Vec<usize>, String>)
    ensures
        args@.len() == 0 ==> r is Ok && r->Ok_0@.len() == 0,
        args@.len() > 0 ==> match spec_parse_indices(str_views(args@)) {
            Ok(v) => r is Ok && r->Ok_0@ == v,
            Err(e) => r is Err && r->Err_0@ == e,
        },
{
    if args.len() == 0 {
        return Ok(Vec::new());
    }
    parse_indices_result(args)
}

// ---------------------------------------------------------------------------
// Bonus edits and flags
// ---------------------------------------------------------------------------

/// A change to a card's bonus: set it, or add to it.
#[derive(Debug, Clone, Copy, PartialEq, Eq)]
pub enum BonusEdit {
    SetTo(i64),
    Add(i64),
}

/// What `parse_bonus_edit` returns: `+n` adds `n`, `-n` adds `-n`, a bare number sets it.
pub open spec fn spec_bonus_edit(value: Seq<char>) -> Result<BonusEdit, Seq<char>> {
    let v = trim_chars(value);
    if v.len() > 0 && v[0] == '+' {
        match spec_parse_i64(v.drop_first()) {
            Some(a) => Ok(BonusEdit::Add(a)),
            None => Err("invalid bonus delta"@),
        }
    } else if v.len() > 0 && v[0] == '-' {
        match spec_parse_i64(v.drop_first()) {
            Some(a) => Ok(BonusEdit::Add((0 - a) as i64)),
            None => Err("invalid bonus delta"@),
        }
    } else {
        match spec_parse_i64(v) {
            Some(a) => Ok(BonusEdit::SetTo(a)),
            None => Err("invalid bonus value"@),
        }
    }
}

/// The negation a `-` edit asks for is representable (it is not for `--9223372036854775808`).
pub open spec fn bonus_negation_fits(value: Seq<char>) -> bool {
    let v = trim_chars(value);
    (v.len() > 0 && v[0] == '-') ==> spec_parse_i64(v.drop_first()) != Some(i64::MIN)
}

/// Parse a bonus edit such as `+10`, `-5` or `30`.
pub fn parse_bonus_edit(value: &str) -> (r: Result<BonusEdit, String>)
    requires
        bonus_negation_fits(value@),
    ensures
        match spec_bonus_edit(value@) {
            Ok(e) => r == Ok::<BonusEdit, String>(e),
            Err(m) => r is Err && r->Err_0@ == m,
        },
{
    let chars = chars_of(value);
    let t = trim_range(&chars, 0, chars.len());
    assert(chars@.subrange(0, chars@.len() as int) =~= chars@);
    if t.len() > 0 && (t[0] == '+' || t[0] == '-') {
        assert(t@.drop_first() =~= t@.subrange(1, t@.len() as int));
        match parse_i64_range(&t, 1, t.len()) {
            Some(a) => {
                if t[0] == '+' {
                    Ok(BonusEdit::Add(a))
                } else {
                    Ok(BonusEdit::Add(-a))
                }
            },
            None => Err(String::from_str("invalid bonus delta")),
        }
    } else {
        assert(t@.subrange(0, t@.len() as int) =~= t@);
        match parse_i64_range(&t, 0, t.len()) {
            Some(a) => Ok(BonusEdit::SetTo(a)),
            None => Err(String::from_str("invalid bonus value")),
        }
    }
}

/// What `parse_bool` returns for an already trimmed, lowercased word.
pub open spec fn spec_parse_bool_word(v: Seq<char>) -> Result<bool, Seq<char>> {
    if v == "1"@ || v == "true"@ || v == "yes"@ || v == "on"@ {
        Ok(true)
    } else if v == "0"@ || v == "false"@ || v == "no"@ || v == "off"@ {
        Ok(false)
    } else {
        Err("invalid boolean '"@ + v + "'"@)
    }
}

/// Read a trimmed, lowercased flag word.
pub fn parse_bool_word(v: &str) -> (r: Result<bool, String>)
    ensures
        match spec_parse_bool_word(v@) {
            Ok(b) => r == Ok::<bool, String>(b),
            Err(m) => r is Err && r->Err_0@ == m,
        },
{
    if str_eq(v, "1") || str_eq(v, "true") || str_eq(v, "yes") || str_eq(v, "on") {
        Ok(true)
    } else if str_eq(v, "0") || str_eq(v, "false") || str_eq(v, "no") || str_eq(v, "off") {
        Ok(false)
    } else {
        let mut msg = String::from_str("invalid boolean '");
        msg.append(v);
        msg.append("'");
        Err(msg)
    }
}

/// Read a flag: `1`/`true`/`yes`/`on` or `0`/`false`/`no`/`off`, ignoring case and
/// surrounding whitespace.
pub fn parse_bool(value: &str) -> (r: Result<bool, String>)
    ensures
        match spec_parse_bool_word(spec_lowercase(trim_chars(value@))) {
            Ok(b) => r == Ok::<bool, String>(b),
            Err(m) => r is Err && r->Err_0@ == m,
        },
{
    let lowered = lowercase(trim(value));
    parse_bool_word(lowered.as_str())
}

/// Whether a trimmed, lowercased word means "no value".
pub open spec fn spec_is_none_word(v: Seq<char>) -> bool {
    v == "none"@ || v == "null"@ || v == "clear"@
}

pub fn is_none_word(v: &str) -> (b: bool)
    ensures
        b == spec_is_none_word(v@),
{
    str_eq(v, "none") || str_eq(v, "null") || str_eq(v, "clear")
}

/// Whether `value` means "no value" (`none`, `null` or `clear`, any case).
pub fn is_none(value: &str) -> (b: bool)
    ensures
        b == spec_is_none_word(spec_lowercase(trim_chars(value@))),
{
    let lowered = lowercase(trim(value));
    is_none_word(lowered.as_str())
}

// ---------------------------------------------------------------------------
// Number text round trips
// ---------------------------------------------------------------------------

proof fn lemma_digit_char(d: nat)
    requires
        d < 10,
    ensures
        is_digit(digit_char(d)),
        digit_char(d) as int - 48 == d,
{
}

/// Decimal text is a non-empty run of digits whose value is the number.
pub proof fn lemma_decimal_digits(n: nat)
    ensures
        decimal(n).len() > 0,
        all_digits(decimal(n)),
        digits_value(decimal(n)) == n,
    decreases n,
{
    if n < 10 {
        lemma_digit_char(n);
        assert(seq![digit_char(n)].drop_last() =~= Seq::<char>::empty());
        assert(digits_value(Seq::<char>::empty()) == 0);
        assert(digits_value(decimal(n)) == digits_value(Seq::<char>::empty()) * 10 + ((digit_char(n) as int - 48) as nat));
    } else {
        lemma_decimal_digits(n / 10);
        lemma_digit_char(n % 10);
        let s = decimal(n);
        assert(s.drop_last() =~= decimal(n / 10));
        assert(s.last() == digit_char(n % 10));
        assert((n / 10) * 10 + n % 10 == n);
        assert(digits_value(s) == digits_value(s.drop_last()) * 10 + ((s.last() as int - 48) as nat));
        assert forall|k: int| 0 <= k < s.len() implies is_digit(#[trigger] s[k]) by {
            if k < s.len() - 1 {
                assert(s[k] == decimal(n / 10)[k]);
            }
        }
    }
}

/// Decimal text reads back as the number it was written from.
pub proof fn law_usize_text_round_trip(n: usize)
    ensures
        spec_parse_usize(decimal(n as nat)) == Some(n),
{
    lemma_decimal_digits(n as nat);
    lemma_digit_char(n as nat % 10);
    assert(decimal(n as nat)[0] != '+') by {
        reveal_with_fuel(decimal, 1);
        assert(is_digit(decimal(n as nat)[0]));
    }
}

/// Signed text, as `signed_int` writes it (`+12`, `-7`), reads back as the number.
pub proof fn law_signed_text_round_trip(v: i64)
    ensures
        spec_parse_i64(signed_decimal(v as int)) == Some(v),
{
    if v >= 0 {
        let d = decimal(v as nat);
        lemma_decimal_digits(v as nat);
        let s = signed_decimal(v as int);
        assert(s.drop_first() =~= d);
        assert(is_digit(d[0]));
    } else {
        let d = decimal((-v) as nat);
        lemma_decimal_digits((-v) as nat);
        let s = signed_decimal(v as int);
        assert(s.drop_first() =~= d);
    }
}

/// Integer text, as `Display` writes it (`12`, `-7`), reads back as the number.
pub proof fn law_int_text_round_trip(v: i64)
    ensures
        spec_parse_i64(int_text(v as int)) == Some(v),
{
    if v >= 0 {
        let d = decimal(v as nat);
        lemma_decimal_digits(v as nat);
        assert(is_digit(d[0]));
    } else {
        let d = decimal((-v) as nat);
        lemma_decimal_digits((-v) as nat);
        let s = int_text(v as int);
        assert(s.drop_first() =~= d);
    }
}

/// Whether the `-` edit `value` asks for a representable change.
pub fn bonus_negation_ok(value: &str) -> (b: bool)
    ensures
        b == bonus_negation_fits(value@),
{
    let chars = chars_of(value);
    let t = trim_range(&chars, 0, chars.len());
    assert(chars@.subrange(0, chars@.len() as int) =~= chars@);
    if t.len() > 0 && t[0] == '-' {
        assert(t@.drop_first() =~= t@.subrange(1, t@.len() as int));
        match parse_i64_range(&t, 1, t.len()) {
            Some(v) => v != i64::MIN,
            None => true,
        }
    } else {
        true
    }
}

} // verus!
