//! How long a duration text can be at most, read span by span the way
//! `humantime` reads it: a number (spaces may stand between its digits), an
//! optional fraction after a dot, then a unit. The reading stops where
//! `humantime` stops with an error that is not about numbers: a character it
//! does not accept, an unknown unit, a number where none is allowed, or a
//! number too large for 64 bits.
use vstd::prelude::*;

verus! {

/// Where the reading stands.
#[derive(Debug, Clone, Copy, PartialEq, Eq, Structural)]
pub enum ScanMode {
    /// Before a number: only spaces and a digit may come.
    Between,
    /// In the integer part of a number.
    Integer,
    /// In the fraction part of a number.
    Fraction,
    /// In a unit.
    Unit,
    /// `humantime` has stopped here.
    Stopped,
}

/// The reading so far: the mode; the integer part, the fraction digits as a
/// number and their count, and whether there is a fraction, of the current
/// span; where its unit starts; and the nanoseconds of the spans before it.
pub struct ScanState {
    pub mode: ScanMode,
    pub number: int,
    pub frac_num: int,
    pub frac_digits: nat,
    pub has_frac: bool,
    pub unit_start: int,
    pub total: int,
}

/// 2^64 seconds in nanoseconds: no `std::time::Duration` reaches it.
pub open spec fn duration_limit() -> int {
    18_446_744_073_709_551_616_000_000_000
}

/// The same bound, in code.
pub const DURATION_LIMIT: u128 = 18_446_744_073_709_551_616_000_000_000;

pub open spec fn pow10(k: nat) -> int
    decreases k,
{
    if k == 0 {
        1
    } else {
        10 * pow10((k - 1) as nat)
    }
}

pub open spec fn is_digit(c: char) -> bool {
    '0' <= c <= '9'
}

pub open spec fn digit_value(c: char) -> int {
    c as int - 48
}

/// The characters `humantime` accepts in a unit.
pub open spec fn is_unit_char(c: char) -> bool {
    ('a' <= c <= 'z') || ('A' <= c <= 'Z') || c == 'µ'
}

/// The characters with the Unicode `White_Space` property, which is what
/// `char::is_whitespace` tests.
pub open spec fn is_white_space(c: char) -> bool {
    ||| '\u{9}' <= c <= '\u{d}'
    ||| c == ' '
    ||| c == '\u{85}'
    ||| c == '\u{a0}'
    ||| c == '\u{1680}'
    ||| '\u{2000}' <= c <= '\u{200a}'
    ||| c == '\u{2028}'
    ||| c == '\u{2029}'
    ||| c == '\u{202f}'
    ||| c == '\u{205f}'
    ||| c == '\u{3000}'
}

/// Nanoseconds in one of the units that `humantime` knows, and 0 for any
/// other text.
pub open spec fn unit_nanos(unit: Seq<char>) -> int {
    if unit == "nanos"@ || unit == "nsec"@ || unit == "ns"@ {
        1
    } else if unit == "usec"@ || unit == "us"@ || unit == "µs"@ {
        1_000
    } else if unit == "millis"@ || unit == "msec"@ || unit == "ms"@ {
        1_000_000
    } else if unit == "seconds"@ || unit == "second"@ || unit == "secs"@ || unit == "sec"@ || unit
        == "s"@ {
        1_000_000_000
    } else if unit == "minutes"@ || unit == "minute"@ || unit == "min"@ || unit == "mins"@ || unit
        == "m"@ {
        60_000_000_000
    } else if unit == "hours"@ || unit == "hour"@ || unit == "hr"@ || unit == "hrs"@ || unit
        == "h"@ {
        3_600_000_000_000
    } else if unit == "days"@ || unit == "day"@ || unit == "d"@ {
        86_400_000_000_000
    } else if unit == "weeks"@ || unit == "week"@ || unit == "wk"@ || unit == "wks"@ || unit
        == "w"@ {
        604_800_000_000_000
    } else if unit == "months"@ || unit == "month"@ || unit == "M"@ {
        2_630_016_000_000_000
    } else if unit == "years"@ || unit == "year"@ || unit == "yr"@ || unit == "yrs"@ || unit
        == "y"@ {
        31_557_600_000_000_000
    } else {
        0
    }
}

/// The nanoseconds that the current span adds once its unit ends at `end`.
pub open spec fn span_nanos(text: Seq<char>, s: ScanState, end: int) -> int {
    let f = unit_nanos(text.subrange(s.unit_start, end));
    s.number * f + if s.has_frac {
        s.frac_num * f / pow10(s.frac_digits)
    } else {
        0
    }
}

pub open spec fn initial_scan() -> ScanState {
    ScanState {
        mode: ScanMode::Between,
        number: 0,
        frac_num: 0,
        frac_digits: 0,
        has_frac: false,
        unit_start: 0,
        total: 0,
    }
}

pub open spec fn stopped(s: ScanState) -> ScanState {
    ScanState { mode: ScanMode::Stopped, ..s }
}

pub open spec fn start_number(s: ScanState, total: int, c: char) -> ScanState {
    ScanState {
        mode: ScanMode::Integer,
        number: digit_value(c),
        frac_num: 0,
        frac_digits: 0,
        has_frac: false,
        unit_start: 0,
        total,
    }
}

/// The reading after the character at `i`.
pub open spec fn scan_step(text: Seq<char>, i: int, s: ScanState) -> ScanState {
    let c = text[i];
    match s.mode {
        ScanMode::Stopped => s,
        ScanMode::Between => if is_digit(c) {
            start_number(s, s.total, c)
        } else if is_white_space(c) {
            s
        } else {
            stopped(s)
        },
        ScanMode::Integer => if is_digit(c) {
            let number = s.number * 10 + digit_value(c);
            if number > u64::MAX {
                stopped(s)
            } else {
                ScanState { number, ..s }
            }
        } else if is_white_space(c) {
            s
        } else if c == '.' {
            ScanState { mode: ScanMode::Fraction, has_frac: true, ..s }
        } else if is_unit_char(c) {
            ScanState { mode: ScanMode::Unit, unit_start: i, ..s }
        } else {
            stopped(s)
        },
        ScanMode::Fraction => if is_digit(c) {
            if s.frac_digits + 1 >= 20 {
                stopped(s)
            } else {
                ScanState {
                    frac_num: s.frac_num * 10 + digit_value(c),
                    frac_digits: s.frac_digits + 1,
                    ..s
                }
            }
        } else if is_white_space(c) {
            s
        } else if is_unit_char(c) && s.frac_digits > 0 {
            ScanState { mode: ScanMode::Unit, unit_start: i, ..s }
        } else {
            stopped(s)
        },
        ScanMode::Unit => if is_unit_char(c) {
            s
        } else if is_digit(c) || is_white_space(c) {
            if unit_nanos(text.subrange(s.unit_start, i)) == 0 {
                stopped(s)
            } else if is_digit(c) {
                start_number(s, s.total + span_nanos(text, s, i), c)
            } else {
                ScanState {
                    mode: ScanMode::Between,
                    total: s.total + span_nanos(text, s, i),
                    ..s
                }
            }
        } else {
            stopped(s)
        },
    }
}

/// The reading after the first `k` characters.
pub open spec fn scan_prefix(text: Seq<char>, k: nat) -> ScanState
    decreases k,
{
    if k == 0 {
        initial_scan()
    } else {
        scan_step(text, k - 1, scan_prefix(text, (k - 1) as nat))
    }
}

/// The most nanoseconds that `humantime` can have added up, at any point of
/// its reading of the text, before it stops or ends. Each span counts its
/// integer part times its unit, plus its fraction times its unit rounded
/// down, which is what `humantime` adds when the fraction divides evenly.
/// When it does not, or a product overflows, `humantime` stops with a number
/// error there.
pub open spec fn duration_bound(text: Seq<char>) -> int {
    let s = scan_prefix(text, text.len());
    if s.mode == ScanMode::Unit && unit_nanos(text.subrange(s.unit_start, text.len() as int)) != 0 {
        s.total + span_nanos(text, s, text.len() as int)
    } else {
        s.total
    }
}

/// The reading so far, in code: the fraction is kept with its denominator,
/// and the total is kept only up to [`DURATION_LIMIT`].
struct Scan {
    mode: ScanMode,
    number: u64,
    frac_num: u64,
    frac_digits: u32,
    frac_den: u64,
    has_frac: bool,
    unit_start: usize,
    total: u128,
}

spec fn min_limit(total: int) -> int {
    if total < duration_limit() {
        total
    } else {
        duration_limit()
    }
}

/// The code state stands for the reading `s` of the first `i` characters.
spec fn stands_for(e: Scan, s: ScanState, i: int) -> bool {
    &&& e.mode == s.mode
    &&& e.number == s.number
    &&& e.frac_num == s.frac_num
    &&& e.frac_digits == s.frac_digits
    &&& e.frac_digits <= 19
    &&& e.frac_den == pow10(s.frac_digits)
    &&& e.frac_num < e.frac_den
    &&& e.has_frac == s.has_frac
    &&& e.unit_start == s.unit_start
    &&& e.unit_start <= i
    &&& s.total >= 0
    &&& e.total == min_limit(s.total)
}

proof fn lemma_pow10_bounds(k: nat)
    requires
        k <= 19,
    ensures
        1 <= pow10(k) <= 10_000_000_000_000_000_000,
    decreases 19 - k,
{
    if k < 19 {
        lemma_pow10_bounds(k + 1);
        assert(pow10(k + 1) == 10 * pow10(k));
        if k == 0 {
            assert(pow10(0) == 1);
        } else {
            lemma_pow10_positive(k);
        }
    } else {
        reveal_with_fuel(pow10, 20);
    }
}

proof fn lemma_pow10_positive(k: nat)
    ensures
        pow10(k) >= 1,
    decreases k,
{
    if k > 0 {
        lemma_pow10_positive((k - 1) as nat);
    }
}

/// Whether two texts are the same.
fn same_text(a: &str, b: &str) -> (same: bool)
    ensures
        same == (a@ == b@),
{
    String::from_str(a) == String::from_str(b)
}

/// Nanoseconds in the unit `text[start..end]`.
fn unit_factor(text: &str, start: usize, end: usize) -> (factor: u128)
    requires
        start <= end <= text@.len(),
    ensures
        factor == unit_nanos(text@.subrange(start as int, end as int)),
        factor <= 31_557_600_000_000_000,
{
    let u = text.substring_char(start, end);
    if same_text(u, "nanos") || same_text(u, "nsec") || same_text(u, "ns") {
        1
    } else if same_text(u, "usec") || same_text(u, "us") || same_text(u, "µs") {
        1_000
    } else if same_text(u, "millis") || same_text(u, "msec") || same_text(u, "ms") {
        1_000_000
    } else if same_text(u, "seconds") || same_text(u, "second") || same_text(u, "secs")
        || same_text(u, "sec") || same_text(u, "s") {
        1_000_000_000
    } else if same_text(u, "minutes") || same_text(u, "minute") || same_text(u, "min")
        || same_text(u, "mins") || same_text(u, "m") {
        60_000_000_000
    } else if same_text(u, "hours") || same_text(u, "hour") || same_text(u, "hr") || same_text(
        u,
        "hrs",
    ) || same_text(u, "h") {
        3_600_000_000_000
    } else if same_text(u, "days") || same_text(u, "day") || same_text(u, "d") {
        86_400_000_000_000
    } else if same_text(u, "weeks") || same_text(u, "week") || same_text(u, "wk") || same_text(
        u,
        "wks",
    ) || same_text(u, "w") {
        604_800_000_000_000
    } else if same_text(u, "months") || same_text(u, "month") || same_text(u, "M") {
        2_630_016_000_000_000
    } else if same_text(u, "years") || same_text(u, "year") || same_text(u, "yr") || same_text(
        u,
        "yrs",
    ) || same_text(u, "y") {
        31_557_600_000_000_000
    } else {
        0
    }
}

fn is_white_space_char(c: char) -> (white: bool)
    ensures
        white == is_white_space(c),
{
    ('\u{9}' <= c && c <= '\u{d}') || c == ' ' || c == '\u{85}' || c == '\u{a0}' || c
        == '\u{1680}' || ('\u{2000}' <= c && c <= '\u{200a}') || c == '\u{2028}' || c
        == '\u{2029}' || c == '\u{202f}' || c == '\u{205f}' || c == '\u{3000}'
}

fn is_unit_char_exec(c: char) -> (unit: bool)
    ensures
        unit == is_unit_char(c),
{
    ('a' <= c && c <= 'z') || ('A' <= c && c <= 'Z') || c == 'µ'
}

/// The nanoseconds the current span adds, up to the limit added to the total.
fn add_span(text: &str, e: &Scan, end: usize, factor: u128, Ghost(s): Ghost<ScanState>) -> (total: u128)
    requires
        stands_for(*e, s, end as int),
        end <= text@.len(),
        factor == unit_nanos(text@.subrange(s.unit_start, end as int)),
        factor <= 31_557_600_000_000_000,
    ensures
        total == min_limit(s.total + span_nanos(text@, s, end as int)),
{
    proof {
        lemma_pow10_bounds(s.frac_digits);
    }
    let number = e.number as u128;
    assert(number * factor <= 18_446_744_073_709_551_615u128 * 31_557_600_000_000_000u128)
        by (nonlinear_arith)
        requires
            number <= 18_446_744_073_709_551_615u128,
            factor <= 31_557_600_000_000_000u128,
    ;
    let whole = number * factor;
    let part = if e.has_frac {
        let num = e.frac_num as u128;
        assert(num * factor <= 10_000_000_000_000_000_000u128 * 31_557_600_000_000_000u128)
            by (nonlinear_arith)
            requires
                num <= 10_000_000_000_000_000_000u128,
                factor <= 31_557_600_000_000_000u128,
        ;
        let prod = num * factor;
        let den = e.frac_den as u128;
        let p = prod / den;
        assert(p <= prod) by (nonlinear_arith)
            requires
                p == prod / den,
                den >= 1,
        ;
        p
    } else {
        0
    };
    let sum = e.total + whole + part;
    if sum < DURATION_LIMIT {
        sum
    } else {
        DURATION_LIMIT
    }
}

fn digit_of(c: char) -> (d: u64)
    requires
        is_digit(c),
    ensures
        d == digit_value(c),
        d <= 9,
{
    (c as u32 - 48) as u64
}

fn stop(e: Scan) -> (next: Scan)
    ensures
        next == (Scan { mode: ScanMode::Stopped, ..e }),
{
    Scan { mode: ScanMode::Stopped, ..e }
}

fn begin_number(c: char, total: u128) -> (next: Scan)
    requires
        is_digit(c),
    ensures
        next.mode == ScanMode::Integer,
        next.number == digit_value(c),
        next.frac_num == 0,
        next.frac_digits == 0,
        next.frac_den == 1,
        !next.has_frac,
        next.unit_start == 0,
        next.total == total,
{
    Scan {
        mode: ScanMode::Integer,
        number: digit_of(c),
        frac_num: 0,
        frac_digits: 0,
        frac_den: 1,
        has_frac: false,
        unit_start: 0,
        total,
    }
}

/// Reads the character at `i`.
fn scan_char(text: &str, i: usize, e: Scan, Ghost(s): Ghost<ScanState>) -> (next: Scan)
    requires
        i < text@.len(),
        stands_for(e, s, i as int),
    ensures
        stands_for(next, scan_step(text@, i as int, s), i + 1),
{
    let c = text.get_char(i);
    let digit = '0' <= c && c <= '9';
    match e.mode {
        ScanMode::Stopped => e,
        ScanMode::Between => {
            if digit {
                begin_number(c, e.total)
            } else if is_white_space_char(c) {
                e
            } else {
                stop(e)
            }
        },
        ScanMode::Integer => {
            if digit {
                let d = digit_of(c);
                if e.number > (u64::MAX - d) / 10 {
                    stop(e)
                } else {
                    Scan { number: e.number * 10 + d, ..e }
                }
            } else if is_white_space_char(c) {
                e
            } else if c == '.' {
                Scan { mode: ScanMode::Fraction, has_frac: true, ..e }
            } else if is_unit_char_exec(c) {
                Scan { mode: ScanMode::Unit, unit_start: i, ..e }
            } else {
                stop(e)
            }
        },
        ScanMode::Fraction => {
            if digit {
                if e.frac_digits + 1 >= 20 {
                    stop(e)
                } else {
                    let d = digit_of(c);
                    proof {
                        lemma_pow10_bounds((s.frac_digits + 1) as nat);
                    }
                    Scan {
                        frac_num: e.frac_num * 10 + d,
                        frac_digits: e.frac_digits + 1,
                        frac_den: e.frac_den * 10,
                        ..e
                    }
                }
            } else if is_white_space_char(c) {
                e
            } else if is_unit_char_exec(c) && e.frac_digits > 0 {
                Scan { mode: ScanMode::Unit, unit_start: i, ..e }
            } else {
                stop(e)
            }
        },
        ScanMode::Unit => {
            if is_unit_char_exec(c) {
                e
            } else if digit || is_white_space_char(c) {
                let factor = unit_factor(text, e.unit_start, i);
                if factor == 0 {
                    stop(e)
                } else {
                    let total = add_span(text, &e, i, factor, Ghost(s));
                    if digit {
                        begin_number(c, total)
                    } else {
                        Scan { mode: ScanMode::Between, total, ..e }
                    }
                }
            } else {
                stop(e)
            }
        },
    }
}

/// Whether the most that `humantime` can add up for the text reaches 2^64
/// seconds, the point past which it fails.
pub fn reaches_duration_limit(text: &str) -> (reaches: bool)
    ensures
        reaches == (duration_bound(text@) >= duration_limit()),
{
    let n = text.unicode_len();
    let mut e = Scan {
        mode: ScanMode::Between,
        number: 0,
        frac_num: 0,
        frac_digits: 0,
        frac_den: 1,
        has_frac: false,
        unit_start: 0,
        total: 0,
    };
    proof {
        reveal_with_fuel(pow10, 1);
    }
    for i in 0..n
        invariant
            n == text@.len(),
            stands_for(e, scan_prefix(text@, i as nat), i as int),
    {
        e = scan_char(text, i, e, Ghost(scan_prefix(text@, i as nat)));
    }
    let ghost s = scan_prefix(text@, n as nat);
    let total = if e.mode == ScanMode::Unit {
        let factor = unit_factor(text, e.unit_start, n);
        if factor == 0 {
            e.total
        } else {
            add_span(text, &e, n, factor, Ghost(s))
        }
    } else {
        e.total
    };
    total >= DURATION_LIMIT
}

} // verus!
