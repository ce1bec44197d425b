//! Byte-level text helpers: first/last occurrence search, whitespace-delimited
//! tokens, and decimal digit reading and writing. These back the report parser
//! and the display formatting.
use vstd::prelude::*;

verus! {

/// A decimal digit as its character.
pub open spec fn digit_char(d: int) -> char {
    if d == 0 { '0' }
    else if d == 1 { '1' }
    else if d == 2 { '2' }
    else if d == 3 { '3' }
    else if d == 4 { '4' }
    else if d == 5 { '5' }
    else if d == 6 { '6' }
    else if d == 7 { '7' }
    else if d == 8 { '8' }
    else { '9' }
}

/// Decimal digits of a non-negative integer, most significant first.
pub open spec fn dec_digits(n: int) -> Seq<char>
    decreases n,
{
    if n < 10 {
        seq![digit_char(n)]
    } else {
        dec_digits(n / 10) + seq![digit_char(n % 10)]
    }
}

/// Every character of `s` is a decimal digit character.
pub open spec fn all_digit_chars(s: Seq<char>) -> bool {
    forall|i: int| 0 <= i < s.len() ==> '0' <= #[trigger] s[i] <= '9'
}

/// The decimal rendering never holds anything but digit characters.
pub proof fn lemma_dec_digits_are_digits(n: int)
    requires
        n >= 0,
    ensures
        dec_digits(n).len() >= 1,
        all_digit_chars(dec_digits(n)),
    decreases n,
{
    if n < 10 {
        assert(dec_digits(n) =~= seq![digit_char(n)]);
        assert('0' <= digit_char(n) <= '9');
    } else {
        lemma_dec_digits_are_digits(n / 10);
        assert('0' <= digit_char(n % 10) <= '9');
    }
}

/// Values below 1000 render as at most three digits.
pub proof fn lemma_dec_digits_len_small(n: int)
    requires
        0 <= n < 1000,
    ensures
        dec_digits(n).len() <= 3,
        n < 100 ==> dec_digits(n).len() <= 2,
        n < 10 ==> dec_digits(n).len() == 1,
    decreases n,
{
    if n >= 10 {
        lemma_dec_digits_len_small(n / 10);
    }
}

/// The single-character string for digit `d`.
pub fn digit_str(d: u64) -> (r: &'static str)
    requires
        d < 10,
    ensures
        r@ =~= seq![digit_char(d as int)],
{
    let r: &'static str = if d == 0 { "0" }
    else if d == 1 { "1" }
    else if d == 2 { "2" }
    else if d == 3 { "3" }
    else if d == 4 { "4" }
    else if d == 5 { "5" }
    else if d == 6 { "6" }
    else if d == 7 { "7" }
    else if d == 8 { "8" }
    else { "9" };
    proof {
        reveal_strlit("0");
        reveal_strlit("1");
        reveal_strlit("2");
        reveal_strlit("3");
        reveal_strlit("4");
        reveal_strlit("5");
        reveal_strlit("6");
        reveal_strlit("7");
        reveal_strlit("8");
        reveal_strlit("9");
    }
    r
}

/// Appends the decimal rendering of `n` to `out`.
pub fn push_decimal(out: &mut String, n: u64)
    ensures
        final(out)@ == old(out)@ + dec_digits(n as int),
    decreases n,
{
    if n >= 10 {
        push_decimal(out, n / 10);
        let d = digit_str(n % 10);
        out.append(d);
        proof {
            assert(out@ =~= old(out)@ + dec_digits(n as int));
        }
    } else {
        let d = digit_str(n);
        out.append(d);
        proof {
            assert(out@ =~= old(out)@ + dec_digits(n as int));
        }
    }
}

/// ASCII whitespace as it separates tokens inside one report line.
pub open spec fn spec_is_ws(b: u8) -> bool {
    b == 32 || b == 9 || b == 13
}

/// A decimal digit byte.
pub open spec fn spec_is_digit(b: u8) -> bool {
    48 <= b <= 57
}

/// Every byte of `s` is a decimal digit.
pub open spec fn all_digits(s: Seq<u8>) -> bool {
    forall|i: int| 0 <= i < s.len() ==> spec_is_digit(#[trigger] s[i])
}

/// The value of a digit string, most significant digit first.
pub open spec fn digits_value(s: Seq<u8>) -> int
    decreases s.len(),
{
    if s.len() == 0 {
        0
    } else {
        digits_value(s.drop_last()) * 10 + (s.last() - 48)
    }
}

/// Under `all_digits`, the value is non-negative and no prefix exceeds it.
pub proof fn lemma_digits_value_prefix(s: Seq<u8>, k: int)
    requires
        all_digits(s),
        0 <= k <= s.len(),
    ensures
        digits_value(s) >= 0,
        digits_value(s.take(k)) <= digits_value(s),
    decreases s.len(),
{
    if s.len() == 0 {
        assert(s.take(k) =~= s);
    } else {
        lemma_digits_value_prefix(s.drop_last(), if k <= s.len() - 1 { k } else { s.len() - 1 });
        if k == s.len() {
            assert(s.take(k) =~= s);
        } else {
            assert(s.take(k) =~= s.drop_last().take(k));
        }
    }
}

/// The number that a digit string denotes, when it is non-empty, all digits,
/// and fits in a `u64`.
pub open spec fn spec_parse_u64(s: Seq<u8>) -> Option<u64> {
    if s.len() > 0 && all_digits(s) && digits_value(s) <= u64::MAX {
        Some(digits_value(s) as u64)
    } else {
        None
    }
}

/// Reads `s[lo..hi]` as a decimal number.
pub fn parse_u64_digits(s: &[u8], lo: usize, hi: usize) -> (r: Option<u64>)
    requires
        lo <= hi <= s@.len(),
    ensures
        r == spec_parse_u64(s@.subrange(lo as int, hi as int)),
{
    let ghost digits = s@.subrange(lo as int, hi as int);
    if lo == hi {
        return None;
    }
    let mut acc: u64 = 0;
    let mut i: usize = lo;
    while i < hi
        invariant
            lo <= i <= hi <= s@.len(),
            digits == s@.subrange(lo as int, hi as int),
            all_digits(digits.take(i - lo)),
            acc == digits_value(digits.take(i - lo)),
        decreases hi - i,
    {
        let b = s[i];
        if b < 48 || b > 57 {
            proof {
                assert(digits[i - lo] == b);
                assert(!all_digits(digits));
            }
            return None;
        }
        let d: u64 = (b - 48) as u64;
        if acc > (u64::MAX - d) / 10 {
            proof {
                let q = ((u64::MAX - d) / 10) as int;
                assert(u64::MAX - d < 10 * q + 10);
                assert(acc * 10 >= 10 * (q + 1));
                assert(acc * 10 + d > u64::MAX);
                assert(digits.take(i - lo + 1).drop_last() =~= digits.take(i - lo));
                assert(digits.take(i - lo + 1).last() == b);
                assert(digits_value(digits.take(i - lo + 1)) > u64::MAX);
                if all_digits(digits) {
                    lemma_digits_value_prefix(digits, i - lo + 1);
                }
            }
            return None;
        }
        proof {
            let q = ((u64::MAX - d) / 10) as int;
            assert(10 * q <= u64::MAX - d);
            assert(acc * 10 <= 10 * q);
            assert(digits.take(i - lo + 1).drop_last() =~= digits.take(i - lo));
            assert(digits.take(i - lo + 1).last() == b);
        }
        acc = acc * 10 + d;
        i = i + 1;
    }
    proof {
        assert(digits.take(hi - lo) =~= digits);
    }
    Some(acc)
}

/// The first index at or after `i` where byte `b` occurs in `s`.
pub open spec fn find_byte_at_or_after(s: Seq<u8>, b: u8, i: int) -> Option<int>
    decreases s.len() - i + 1,
{
    if i < 0 || i >= s.len() {
        None
    } else if s[i] == b {
        Some(i)
    } else {
        find_byte_at_or_after(s, b, i + 1)
    }
}

/// Finds the first occurrence of `b` in `s` at or after `from`.
pub fn find_byte_from(s: &[u8], from: usize, b: u8) -> (r: Option<usize>)
    requires
        from <= s@.len(),
    ensures
        r.is_some() == find_byte_at_or_after(s@, b, from as int).is_some(),
        r.is_some() ==> find_byte_at_or_after(s@, b, from as int) == Some(r.unwrap() as int),
{
    let mut i: usize = from;
    while i < s.len()
        invariant
            from <= i <= s@.len(),
            find_byte_at_or_after(s@, b, from as int) == find_byte_at_or_after(s@, b, i as int),
        decreases s@.len() - i,
    {
        if s[i] == b {
            return Some(i);
        }
        i = i + 1;
    }
    None
}

/// The last index strictly below `i` where byte `b` occurs in `s`.
pub open spec fn find_byte_before(s: Seq<u8>, b: u8, i: int) -> Option<int>
    decreases i,
{
    if i <= 0 || i > s.len() {
        None
    } else if s[i - 1] == b {
        Some(i - 1)
    } else {
        find_byte_before(s, b, i - 1)
    }
}

/// Finds the last occurrence of `b` in `s` strictly below `hi`.
pub fn find_last_byte_before(s: &[u8], b: u8, hi: usize) -> (r: Option<usize>)
    requires
        hi <= s@.len(),
    ensures
        r.is_some() == find_byte_before(s@, b, hi as int).is_some(),
        r matches Some(j) ==> find_byte_before(s@, b, hi as int) == Some(j as int) && j < hi
            && s@[j as int] == b,
{
    let mut i: usize = hi;
    while i > 0
        invariant
            i <= hi <= s@.len(),
            find_byte_before(s@, b, hi as int) == find_byte_before(s@, b, i as int),
        decreases i,
    {
        if s[i - 1] == b {
            return Some(i - 1);
        }
        i = i - 1;
    }
    None
}

/// `pat` occurs in `s` starting at `i`.
pub open spec fn spec_match_at(s: Seq<u8>, pat: Seq<u8>, i: int) -> bool {
    0 <= i && i + pat.len() <= s.len() && s.subrange(i, i + pat.len() as int) =~= pat
}

/// Whether `pat` occurs in `s` starting at `i`.
pub fn match_at(s: &[u8], pat: &[u8], i: usize) -> (r: bool)
    requires
        i <= s@.len(),
    ensures
        r == spec_match_at(s@, pat@, i as int),
{
    if s.len() - i < pat.len() {
        return false;
    }
    let mut k: usize = 0;
    while k < pat.len()
        invariant
            0 <= k <= pat@.len(),
            i + pat@.len() <= s@.len(),
            s@.len() <= usize::MAX,
            forall|m: int| 0 <= m < k ==> s@[i + m] == #[trigger] pat@[m],
        decreases pat@.len() - k,
    {
        proof {
            assert(i + k < s@.len());
        }
        let j = i + k;
        if s[j] != pat[k] {
            proof {
                assert(s@.subrange(i as int, i + pat@.len() as int)[k as int] != pat@[k as int]);
            }
            return false;
        }
        k = k + 1;
    }
    proof {
        assert(s@.subrange(i as int, i + pat@.len() as int) =~= pat@);
    }
    true
}

/// The first index at or after `i` where `pat` occurs in `s`.
pub open spec fn find_pat_at_or_after(s: Seq<u8>, pat: Seq<u8>, i: int) -> Option<int>
    decreases s.len() - i + 1,
{
    if i < 0 || i > s.len() {
        None
    } else if spec_match_at(s, pat, i) {
        Some(i)
    } else if i == s.len() {
        None
    } else {
        find_pat_at_or_after(s, pat, i + 1)
    }
}

/// Finds the first occurrence of `pat` in `s` at or after `from`.
pub fn find_pat_from(s: &[u8], from: usize, pat: &[u8]) -> (r: Option<usize>)
    requires
        from <= s@.len(),
        pat@.len() > 0,
    ensures
        r.is_some() == find_pat_at_or_after(s@, pat@, from as int).is_some(),
        r.is_some() ==> find_pat_at_or_after(s@, pat@, from as int) == Some(r.unwrap() as int),
{
    let mut i: usize = from;
    while i < s.len()
        invariant
            from <= i <= s@.len(),
            pat@.len() > 0,
            find_pat_at_or_after(s@, pat@, from as int) == find_pat_at_or_after(s@, pat@, i as int),
        decreases s@.len() - i,
    {
        if match_at(s, pat, i) {
            return Some(i);
        }
        i = i + 1;
    }
    proof {
        assert(!spec_match_at(s@, pat@, s@.len() as int));
    }
    None
}

/// `i` starts a line of `s`: the start of the text, or right after a newline.
pub open spec fn spec_line_start(s: Seq<u8>, i: int) -> bool {
    i == 0 || (0 < i <= s.len() && s[i - 1] == 10)
}

/// The first index at or after `i` that starts a line and carries `pat`.
pub open spec fn find_line_with_prefix_at_or_after(s: Seq<u8>, pat: Seq<u8>, i: int) -> Option<int>
    decreases s.len() - i + 1,
{
    if i < 0 || i > s.len() {
        None
    } else if spec_line_start(s, i) && spec_match_at(s, pat, i) {
        Some(i)
    } else if i == s.len() {
        None
    } else {
        find_line_with_prefix_at_or_after(s, pat, i + 1)
    }
}

/// Finds the first line of `s` that begins with `pat`.
pub fn find_line_with_prefix(s: &[u8], pat: &[u8]) -> (r: Option<usize>)
    requires
        pat@.len() > 0,
    ensures
        r.is_some() == find_line_with_prefix_at_or_after(s@, pat@, 0).is_some(),
        r.is_some() ==> find_line_with_prefix_at_or_after(s@, pat@, 0) == Some(r.unwrap() as int),
{
    let mut i: usize = 0;
    while i < s.len()
        invariant
            0 <= i <= s@.len(),
            pat@.len() > 0,
            find_line_with_prefix_at_or_after(s@, pat@, 0) == find_line_with_prefix_at_or_after(
                s@,
                pat@,
                i as int,
            ),
        decreases s@.len() - i,
    {
        let at_line_start = i == 0 || s[i - 1] == 10;
        if at_line_start && match_at(s, pat, i) {
            return Some(i);
        }
        i = i + 1;
    }
    proof {
        assert(!spec_match_at(s@, pat@, s@.len() as int));
    }
    None
}

/// Trims trailing whitespace of `s[lo..e]`, yielding the new end.
pub open spec fn trim_ws_end(s: Seq<u8>, lo: int, e: int) -> int
    decreases e - lo,
{
    if e <= lo {
        lo
    } else if spec_is_ws(s[e - 1]) {
        trim_ws_end(s, lo, e - 1)
    } else {
        e
    }
}

/// The start of the token that ends at `e`, scanning left while non-whitespace.
pub open spec fn token_start(s: Seq<u8>, lo: int, e: int) -> int
    decreases e - lo,
{
    if e <= lo {
        lo
    } else if spec_is_ws(s[e - 1]) {
        e
    } else {
        token_start(s, lo, e - 1)
    }
}

/// The bounds of the last whitespace-delimited token of `s[lo..hi]`.
pub open spec fn spec_last_token(s: Seq<u8>, lo: int, hi: int) -> Option<(int, int)> {
    let e = trim_ws_end(s, lo, hi);
    if e == lo {
        None
    } else {
        Some((token_start(s, lo, e), e))
    }
}

/// Finds the last whitespace-delimited token of `s[lo..hi]`.
pub fn last_token_in(s: &[u8], lo: usize, hi: usize) -> (r: Option<(usize, usize)>)
    requires
        lo <= hi <= s@.len(),
    ensures
        r.is_some() == spec_last_token(s@, lo as int, hi as int).is_some(),
        r.is_some() ==> spec_last_token(s@, lo as int, hi as int) == Some(
            (r.unwrap().0 as int, r.unwrap().1 as int),
        ),
        r.is_some() ==> lo <= r.unwrap().0 < r.unwrap().1 <= hi,
{
    let mut e: usize = hi;
    while e > lo
        invariant
            lo <= e <= hi <= s@.len(),
            trim_ws_end(s@, lo as int, hi as int) == trim_ws_end(s@, lo as int, e as int),
        ensures
            lo <= e <= hi <= s@.len(),
            trim_ws_end(s@, lo as int, hi as int) == trim_ws_end(s@, lo as int, e as int),
            e == lo || !spec_is_ws(s@[e - 1]),
        decreases e,
    {
        let b = s[e - 1];
        if !(b == 32 || b == 9 || b == 13) {
            break;
        }
        e = e - 1;
    }
    if e == lo {
        return None;
    }
    let mut k: usize = e;
    while k > lo
        invariant
            lo <= k <= e <= s@.len(),
            token_start(s@, lo as int, e as int) == token_start(s@, lo as int, k as int),
        ensures
            lo <= k <= e <= s@.len(),
            token_start(s@, lo as int, e as int) == token_start(s@, lo as int, k as int),
            k == lo || spec_is_ws(s@[k - 1]),
        decreases k,
    {
        let b = s[k - 1];
        if b == 32 || b == 9 || b == 13 {
            break;
        }
        k = k - 1;
    }
    Some((k, e))
}

} // verus!
