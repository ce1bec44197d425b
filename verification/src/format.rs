//! Display formatting for the two metrics: CPU utilization as a whole-percent
//! string ("42%") and memory usage as binary gigabytes with one decimal place
//! ("8.3GB").
use crate::text::all_digit_chars;
use crate::text::dec_digits;
use crate::text::digit_char;
use crate::text::digit_str;
use crate::text::lemma_dec_digits_are_digits;
use crate::text::lemma_dec_digits_len_small;
use crate::text::push_decimal;
use vstd::prelude::*;

verus! {

/// Bytes in one binary gigabyte.
pub const BYTES_PER_GB: u64 = 0x4000_0000;

/// The numeric value of a digit character.
pub open spec fn char_digit(c: char) -> int {
    if c == '0' { 0 }
    else if c == '1' { 1 }
    else if c == '2' { 2 }
    else if c == '3' { 3 }
    else if c == '4' { 4 }
    else if c == '5' { 5 }
    else if c == '6' { 6 }
    else if c == '7' { 7 }
    else if c == '8' { 8 }
    else { 9 }
}

/// The number that a sequence of digit characters denotes.
pub open spec fn value_of_digit_chars(s: Seq<char>) -> int
    decreases s.len(),
{
    if s.len() == 0 {
        0
    } else {
        value_of_digit_chars(s.drop_last()) * 10 + char_digit(s.last())
    }
}

/// The decimal rendering of `n` reads back as `n`.
pub proof fn lemma_dec_digits_value(n: int)
    requires
        n >= 0,
    ensures
        value_of_digit_chars(dec_digits(n)) == n,
    decreases n,
{
    if n < 10 {
        let s = dec_digits(n);
        assert(s =~= seq![digit_char(n)]);
        assert(s.drop_last() =~= Seq::<char>::empty());
        assert(value_of_digit_chars(s) == value_of_digit_chars(s.drop_last()) * 10 + char_digit(
            s.last(),
        ));
        assert(char_digit(digit_char(n)) == n);
    } else {
        lemma_dec_digits_value(n / 10);
        let s = dec_digits(n);
        assert(s =~= dec_digits(n / 10) + seq![digit_char(n % 10)]);
        assert(s.drop_last() =~= dec_digits(n / 10));
        assert(s.last() == digit_char(n % 10));
        assert(char_digit(digit_char(n % 10)) == n % 10);
        assert(value_of_digit_chars(s) == (n / 10) * 10 + n % 10);
    }
}

/// CPU utilization in hundredths of a percent, rounded to the nearest whole
/// percent; a half rounds up.
pub open spec fn rounded_percent(centi: int) -> int {
    (centi + 50) / 100
}

/// The CPU display string: rounded whole percent, then a percent sign.
pub open spec fn spec_cpu_display(centi: int) -> Seq<char> {
    dec_digits(rounded_percent(centi)) + seq!['%']
}

/// Formats a CPU utilization, given in hundredths of a percent, as the
/// rounded whole-percent string, e.g. `4250` to `"43%"`.
pub fn format_cpu_percent(centi_percent: u64) -> (r: String)
    requires
        centi_percent <= 10000,
    ensures
        r@ == spec_cpu_display(centi_percent as int),
{
    let rounded = (centi_percent + 50) / 100;
    let mut out = String::new();
    push_decimal(&mut out, rounded);
    out.append("%");
    proof {
        reveal_strlit("%");
        assert(out@ =~= spec_cpu_display(centi_percent as int));
    }
    out
}

/// Used memory in tenths of a binary gigabyte, rounded to the nearest tenth;
/// a half rounds up.
pub open spec fn ram_tenths(bytes: int) -> int {
    (bytes * 10 + 0x2000_0000) / 0x4000_0000
}

/// The RAM display string: whole gigabytes, a dot, the tenths digit, "GB".
pub open spec fn spec_ram_display(bytes: int) -> Seq<char> {
    dec_digits(ram_tenths(bytes) / 10) + seq!['.', digit_char(ram_tenths(bytes) % 10), 'G', 'B']
}

/// Formats a byte count as binary gigabytes with one decimal place, e.g.
/// `8912896000` to `"8.3GB"`.
pub fn format_ram_display(bytes: u64) -> (r: String)
    ensures
        r@ == spec_ram_display(bytes as int),
{
    let whole: u64 = bytes / BYTES_PER_GB;
    let rem: u64 = bytes % BYTES_PER_GB;
    let t0: u64 = (rem * 10 + 0x2000_0000) / BYTES_PER_GB;
    let (w, f): (u64, u64) = if t0 == 10 { (whole + 1, 0u64) } else { (whole, t0) };
    proof {
        let g = 0x4000_0000int;
        let r0 = (rem * 10 + 0x2000_0000) % g;
        assert(bytes == g * whole + rem);
        assert(bytes * 10 + 0x2000_0000 == (10 * whole + t0) * g + r0);
        vstd::arithmetic::div_mod::lemma_fundamental_div_mod_converse(
            bytes * 10 + 0x2000_0000,
            g,
            10 * whole + t0,
            r0,
        );
        assert(ram_tenths(bytes as int) == 10 * whole + t0);
    }
    let mut out = String::new();
    push_decimal(&mut out, w);
    out.append(".");
    let fd = digit_str(f);
    out.append(fd);
    out.append("GB");
    proof {
        reveal_strlit(".");
        reveal_strlit("GB");
        assert("GB"@[0] == 'G' && "GB"@[1] == 'B');
        assert(ram_tenths(bytes as int) / 10 == w);
        assert(ram_tenths(bytes as int) % 10 == f);
        assert(out@ =~= spec_ram_display(bytes as int));
    }
    out
}

/// Saturating byte total: base used memory plus the compressed contribution,
/// capped at the largest representable count.
pub open spec fn spec_total_used(base: int, compressed: int) -> int {
    if base + compressed <= u64::MAX {
        base + compressed
    } else {
        u64::MAX as int
    }
}

/// Adds the compressed-memory contribution to the base used-memory figure,
/// saturating instead of wrapping.
pub fn total_used_bytes(base: u64, compressed: u64) -> (r: u64)
    ensures
        r == spec_total_used(base as int, compressed as int),
{
    if base <= u64::MAX - compressed {
        base + compressed
    } else {
        u64::MAX
    }
}

/// For any used-byte count, the RAM display is one or more digits, a dot,
/// one digit, then "GB", and the digits read back as the rounded tenths of
/// a binary gigabyte. With `used = total - available` this is the shape and
/// value promised for every non-negative split of total into available and
/// used.
pub proof fn lemma_ram_display_shape(total: u64, available: u64)
    requires
        available <= total,
    ensures
        ({
            let used = total - available;
            let s = spec_ram_display(used as int);
            let t = ram_tenths(used as int);
            let k = s.len() - 4;
            &&& 1 <= k
            &&& all_digit_chars(s.take(k))
            &&& s[k] == '.'
            &&& '0' <= s[k + 1] <= '9'
            &&& s[k + 2] == 'G'
            &&& s[k + 3] == 'B'
            &&& value_of_digit_chars(s.take(k)) == t / 10
            &&& char_digit(s[k + 1]) == t % 10
            &&& t == (used * 10 + 0x2000_0000) / 0x4000_0000
        }),
{
    let used = total - available;
    let t = ram_tenths(used as int);
    assert(t >= 0) by {
        vstd::arithmetic::div_mod::lemma_div_pos_is_pos(used * 10 + 0x2000_0000, 0x4000_0000);
    }
    assert(t / 10 >= 0);
    assert(0 <= t % 10 < 10);
    lemma_dec_digits_are_digits(t / 10);
    lemma_dec_digits_value(t / 10);
    let s = spec_ram_display(used as int);
    let k = s.len() - 4;
    assert(s.take(k) =~= dec_digits(t / 10));
    assert('0' <= digit_char(t % 10) <= '9');
}

/// For any CPU utilization up to one hundred percent, the display is one to
/// three digits then a percent sign, and the digits read back as the
/// half-up-rounded whole percent, which lies in [0, 100].
pub proof fn lemma_cpu_display_shape(centi: u64)
    requires
        centi <= 10000,
    ensures
        ({
            let s = spec_cpu_display(centi as int);
            let k = s.len() - 1;
            &&& 1 <= k <= 3
            &&& all_digit_chars(s.take(k))
            &&& s[k] == '%'
            &&& value_of_digit_chars(s.take(k)) == rounded_percent(centi as int)
            &&& 0 <= rounded_percent(centi as int) <= 100
        }),
{
    let p = rounded_percent(centi as int);
    assert(0 <= p <= 100);
    lemma_dec_digits_are_digits(p);
    lemma_dec_digits_len_small(p);
    lemma_dec_digits_value(p);
    let s = spec_cpu_display(centi as int);
    let k = s.len() - 1;
    assert(s.take(k) =~= dec_digits(p));
}

} // verus!
