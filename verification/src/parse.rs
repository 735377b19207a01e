//! Numeric helpers over probe-derived text: fail-soft parsing of decimal
//! numbers into milli-units, aspect-ratio and frame-rate computation, the
//! closeness test for aspect comparison and the best-fraction form of the
//! target aspect.

use vstd::prelude::*;
use crate::config::PlayoutConfig;

verus! {

/// The numerator that puts `n/d` closest to the milli value `a`: `a`·d/1000
/// rounded to the nearest integer, half up.
pub open spec fn approx_num(a: int, d: int) -> int {
    (2 * a * d + 1000) / 2000
}

/// Approximation error of `approx_num(a, d)/d` against the milli value `a`,
/// scaled by 1000·d (so errors of two denominators compare by
/// cross-multiplication).
pub open spec fn approx_err(a: int, d: int) -> int {
    let e = a * d - 1000 * approx_num(a, d);
    if e < 0 {
        -e
    } else {
        e
    }
}

/// The best rational approximation of the milli value `a` among denominators
/// 1..=d: numerators rounded, errors compared exactly, the smallest
/// denominator kept when errors tie.  The result is automatically in lowest
/// terms: a reducible pair has the same value, hence the same error, as its
/// reduced form at a smaller denominator, which wins the tie.
pub open spec fn best_fraction_upto(a: int, d: int) -> (int, int)
    decreases d,
{
    if d <= 1 {
        (approx_num(a, 1), 1)
    } else {
        let prev = best_fraction_upto(a, d - 1);
        if approx_err(a, d) * prev.1 < approx_err(a, prev.1) * d {
            (approx_num(a, d), d)
        } else {
            prev
        }
    }
}

/// The reduced fraction closest to a milli-unit aspect value, over
/// denominators up to 100: a 16:9 target (1778 milli) gives 16/9.
pub open spec fn spec_fraction(a_milli: int) -> (int, int) {
    best_fraction_upto(a_milli, 100)
}

fn approx_num_exec(a: i64, d: i64) -> (n: i64)
    requires
        0 <= a <= 1_000_000_000,
        1 <= d <= 100,
    ensures
        n as int == approx_num(a as int, d as int),
        0 <= n <= 400_000_000_000,
{
    proof {
        assert(0 <= 2 * (a as int) * (d as int) <= 200_000_000_000) by (nonlinear_arith)
            requires
                0 <= a <= 1_000_000_000,
                1 <= d <= 100,
        ;
    }
    let x = 2 * a * d + 1000;
    proof {
        assert(0 <= x / 2000 <= x) by (nonlinear_arith)
            requires
                0 <= x,
        ;
    }
    x / 2000
}

fn approx_err_exec(a: i64, d: i64) -> (e: i64)
    requires
        0 <= a <= 1_000_000_000,
        1 <= d <= 100,
    ensures
        e as int == approx_err(a as int, d as int),
        0 <= e <= 500_000_000_000_000,
{
    let n = approx_num_exec(a, d);
    proof {
        assert(0 <= (a as int) * (d as int) <= 100_000_000_000) by (nonlinear_arith)
            requires
                0 <= a <= 1_000_000_000,
                1 <= d <= 100,
        ;
    }
    let raw = a * d - 1000 * n;
    if raw < 0 {
        -raw
    } else {
        raw
    }
}

/// Computes the reduced fraction of a milli-unit aspect value.
pub fn fraction(a_milli: i64) -> (r: (i64, i64))
    requires
        0 <= a_milli <= 1_000_000_000,
    ensures
        r.0 as int == spec_fraction(a_milli as int).0,
        r.1 as int == spec_fraction(a_milli as int).1,
{
    let mut bn = approx_num_exec(a_milli, 1);
    let mut bd: i64 = 1;
    let mut d: i64 = 2;
    while d <= 100
        invariant
            2 <= d <= 101,
            1 <= bd < d,
            0 <= a_milli <= 1_000_000_000,
            0 <= bn <= 400_000_000_000,
            bn as int == best_fraction_upto(a_milli as int, d - 1).0,
            bd as int == best_fraction_upto(a_milli as int, d - 1).1,
        decreases 101 - d,
    {
        let ed = approx_err_exec(a_milli, d);
        let eb = approx_err_exec(a_milli, bd);
        proof {
            assert(0 <= (ed as int) * (bd as int) <= 50_000_000_000_000_000 && 0 <= (eb as int) * (
            d as int) <= 50_000_000_000_000_000) by (nonlinear_arith)
                requires
                    0 <= ed <= 500_000_000_000_000,
                    0 <= eb <= 500_000_000_000_000,
                    1 <= bd <= 100,
                    1 <= d <= 100,
            ;
        }
        if ed * bd < eb * d {
            bn = approx_num_exec(a_milli, d);
            bd = d;
        }
        d += 1;
    }
    (bn, bd)
}

/// Two milli-unit values are close when they differ by less than `tol`.
pub open spec fn milli_close(a: int, b: int, tol: int) -> bool {
    -tol < a - b < tol
}

/// Tests closeness of two milli-unit values.
pub fn is_close(a: i64, b: i64, tol: i64) -> (r: bool)
    requires
        -1_000_000_000_000_000_000 <= a <= 1_000_000_000_000_000_000,
        -1_000_000_000_000_000_000 <= b <= 1_000_000_000_000_000_000,
        0 <= tol <= 1_000_000_000_000_000_000,
    ensures
        r == milli_close(a as int, b as int, tol as int),
{
    let d = a - b;
    -tol < d && d < tol
}

/// A decimal digit character.
pub open spec fn is_digit(c: char) -> bool {
    c == '0' || c == '1' || c == '2' || c == '3' || c == '4' || c == '5' || c == '6' || c == '7'
        || c == '8' || c == '9'
}

/// Numeric value of a digit character.
pub open spec fn digit_val(c: char) -> int {
    if c == '0' {
        0
    } else if c == '1' {
        1
    } else if c == '2' {
        2
    } else if c == '3' {
        3
    } else if c == '4' {
        4
    } else if c == '5' {
        5
    } else if c == '6' {
        6
    } else if c == '7' {
        7
    } else if c == '8' {
        8
    } else {
        9
    }
}

/// True iff every character of `s` is a decimal digit.
pub open spec fn all_digits(s: Seq<char>) -> bool {
    forall|i: int| 0 <= i < s.len() ==> is_digit(s[i])
}

/// Value of a digit string, most significant first.
pub open spec fn digits_val(s: Seq<char>) -> int
    decreases s.len(),
{
    if s.len() == 0 {
        0
    } else {
        digits_val(s.drop_last()) * 10 + digit_val(s.last())
    }
}

proof fn lemma_digits_val_nonneg(s: Seq<char>)
    ensures
        digits_val(s) >= 0,
    decreases s.len(),
{
    if s.len() > 0 {
        lemma_digits_val_nonneg(s.drop_last());
    }
}

/// Appending digits never decreases the value.
proof fn lemma_digits_val_step(s: Seq<char>, i: int)
    requires
        0 <= i < s.len(),
    ensures
        digits_val(s.take(i + 1)) == digits_val(s.take(i)) * 10 + digit_val(s[i]),
{
    assert(s.take(i + 1).drop_last() =~= s.take(i));
    assert(s.take(i + 1).last() == s[i]);
}

/// Milli-unit value of the fractional digits after the decimal point: the
/// first three digits, padded with zeros when fewer are given.
pub open spec fn frac_milli(s: Seq<char>) -> int {
    if s.len() == 0 {
        0
    } else if s.len() == 1 {
        digit_val(s[0]) * 100
    } else if s.len() == 2 {
        digit_val(s[0]) * 100 + digit_val(s[1]) * 10
    } else {
        digit_val(s[0]) * 100 + digit_val(s[1]) * 10 + digit_val(s[2])
    }
}

/// Index of the first occurrence of `c` in `s`, or -1.
pub open spec fn first_char_idx(s: Seq<char>, c: char) -> int
    decreases s.len(),
{
    if s.len() == 0 {
        -1
    } else if s[0] == c {
        0
    } else {
        let r = first_char_idx(s.skip(1), c);
        if r < 0 {
            -1
        } else {
            r + 1
        }
    }
}

pub proof fn lemma_first_char_idx(s: Seq<char>, c: char)
    ensures
        first_char_idx(s, c) == -1 ==> (forall|j: int| 0 <= j < s.len() ==> s[j] != c),
        first_char_idx(s, c) != -1 ==> {
            let r = first_char_idx(s, c);
            &&& 0 <= r < s.len()
            &&& s[r] == c
            &&& forall|j: int| 0 <= j < r ==> s[j] != c
        },
    decreases s.len(),
{
    if s.len() > 0 && s[0] != c {
        lemma_first_char_idx(s.skip(1), c);
        let r1 = first_char_idx(s.skip(1), c);
        if r1 == -1 {
            assert forall|j: int| 0 <= j < s.len() implies s[j] != c by {
                if j >= 1 {
                    assert(s.skip(1)[j - 1] == s[j]);
                }
            }
        } else {
            assert(s.skip(1)[r1] == s[r1 + 1]);
            assert forall|j: int| 0 <= j < r1 + 1 implies s[j] != c by {
                if j >= 1 {
                    assert(s.skip(1)[j - 1] == s[j]);
                }
            }
        }
    }
}

/// When `s[k]` is the first occurrence of `c`, `first_char_idx` finds it.
pub proof fn lemma_first_char_at(s: Seq<char>, c: char, k: int)
    requires
        0 <= k < s.len(),
        s[k] == c,
        forall|j: int| 0 <= j < k ==> s[j] != c,
    ensures
        first_char_idx(s, c) == k,
{
    lemma_first_char_idx(s, c);
}

/// Fail-soft parse of a decimal number into milli-units: digits with at most
/// one decimal point, at least one digit in all, the whole part within the
/// billion bound, fractional digits beyond the third ignored.  Anything else
/// is `None`.
pub open spec fn parse_milli(s: Seq<char>) -> Option<int> {
    let di = first_char_idx(s, '.');
    if di == -1 {
        if s.len() > 0 && all_digits(s) && digits_val(s) <= 1_000_000_000 {
            Some(digits_val(s) * 1000)
        } else {
            None
        }
    } else {
        let w = s.take(di);
        let fr = s.skip(di + 1);
        if w.len() + fr.len() > 0 && all_digits(w) && all_digits(fr) && digits_val(w)
            <= 1_000_000_000 {
            Some(digits_val(w) * 1000 + frac_milli(fr))
        } else {
            None
        }
    }
}

/// Finds the first occurrence of `c` in `s` at or after `from`, or the
/// length of `s`.
pub fn find_char(s: &str, c: char, from: usize) -> (r: usize)
    requires
        from <= s@.len(),
    ensures
        from <= r <= s@.len(),
        r < s@.len() ==> s@[r as int] == c,
        forall|j: int| from <= j < r ==> s@[j] != c,
    decreases s@.len() - from,
{
    let l = s.unicode_len();
    let mut i = from;
    while i < l
        invariant
            from <= i <= l,
            l == s@.len(),
            forall|j: int| from <= j < i ==> s@[j] != c,
        decreases l - i,
    {
        if s.get_char(i) == c {
            return i;
        }
        i += 1;
    }
    i
}

/// Parses `s[a..b]` as digits into a value, failing on a non-digit, an empty
/// range or a whole value beyond the billion bound.
fn parse_digits_range(s: &str, a: usize, b: usize) -> (r: Option<u64>)
    requires
        a <= b <= s@.len(),
    ensures
        match r {
            Some(v) => {
                &&& all_digits(s@.subrange(a as int, b as int))
                &&& b > a
                &&& v as int == digits_val(s@.subrange(a as int, b as int))
                &&& v <= 1_000_000_000
            },
            None => !(b > a && all_digits(s@.subrange(a as int, b as int)) && digits_val(
                s@.subrange(a as int, b as int),
            ) <= 1_000_000_000),
        },
{
    let ghost sub = s@.subrange(a as int, b as int);
    if a == b {
        return None;
    }
    let mut acc: u64 = 0;
    let mut i = a;
    while i < b
        invariant
            a <= i <= b <= s@.len(),
            sub == s@.subrange(a as int, b as int),
            all_digits(sub.take(i - a)),
            acc as int == digits_val(sub.take(i - a)),
            acc <= 1_000_000_000,
        decreases b - i,
    {
        let c = s.get_char(i);
        proof {
            assert(sub[i - a] == s@[i as int]);
        }
        let d: u64 = if c == '0' {
            0
        } else if c == '1' {
            1
        } else if c == '2' {
            2
        } else if c == '3' {
            3
        } else if c == '4' {
            4
        } else if c == '5' {
            5
        } else if c == '6' {
            6
        } else if c == '7' {
            7
        } else if c == '8' {
            8
        } else if c == '9' {
            9
        } else {
            proof {
                assert(!is_digit(sub[i - a]));
            }
            return None;
        };
        proof {
            lemma_digits_val_step(sub, i - a);
            assert(sub.take(i - a + 1).take(i - a) =~= sub.take(i - a));
        }
        let next: u64 = acc * 10 + d;
        if next > 1_000_000_000 {
            proof {
                if all_digits(sub) {
                    lemma_digits_val_grows(sub, i - a + 1);
                }
            }
            return None;
        }
        acc = next;
        i += 1;
    }
    proof {
        assert(sub.take(b - a) =~= sub);
    }
    Some(acc)
}

/// A digit prefix never exceeds the value of the whole digit string.
proof fn lemma_digits_val_grows(s: Seq<char>, i: int)
    requires
        0 <= i <= s.len(),
        all_digits(s),
    ensures
        digits_val(s.take(i)) <= digits_val(s),
    decreases s.len() - i,
{
    if i < s.len() {
        lemma_digits_val_step(s, i);
        lemma_digits_val_nonneg(s.take(i));
        lemma_digits_val_grows(s, i + 1);
    } else {
        assert(s.take(i) =~= s);
    }
}

/// Parses a decimal number into milli-units, exactly `parse_milli`.
pub fn str_parse_milli(s: &str) -> (r: Option<i64>)
    ensures
        match r {
            Some(v) => parse_milli(s@) == Some(v as int) && 0 <= v <= 1_000_000_001_000,
            None => parse_milli(s@) is None,
        },
{
    let l = s.unicode_len();
    let dot = find_char(s, '.', 0);
    if dot == l {
        proof {
            lemma_first_char_idx(s@, '.');
            if first_char_idx(s@, '.') != -1 {
                assert(false);
            }
        }
        match parse_digits_range(s, 0, l) {
            Some(v) => {
                proof {
                    assert(s@.subrange(0, l as int) =~= s@);
                }
                Some((v * 1000) as i64)
            },
            None => {
                proof {
                    assert(s@.subrange(0, l as int) =~= s@);
                }
                None
            },
        }
    } else {
        proof {
            lemma_first_char_at(s@, '.', dot as int);
        }
        let ghost w = s@.take(dot as int);
        let ghost fr = s@.skip(dot as int + 1);
        if l == 1 {
            // the string is just "."
            proof {
                assert(w.len() + fr.len() == 0);
            }
            return None;
        }
        if dot == 0 {
            // no whole part: value is the fraction alone
            let fv = frac_part(s, 1, l);
            match fv {
                Some(v) => {
                    proof {
                        assert(w.len() == 0 && digits_val(w) == 0 && all_digits(w));
                    }
                    Some(v as i64)
                },
                None => None,
            }
        } else {
            let wv = parse_digits_range(s, 0, dot);
            match wv {
                Some(v) => {
                    proof {
                        assert(s@.subrange(0, dot as int) =~= w);
                    }
                    if dot + 1 == l {
                        // trailing dot, empty fraction
                        proof {
                            assert(fr.len() == 0 && all_digits(fr) && frac_milli(fr) == 0);
                        }
                        Some((v * 1000) as i64)
                    } else {
                        match frac_part(s, dot + 1, l) {
                            Some(fv) => Some((v * 1000 + fv) as i64),
                            None => None,
                        }
                    }
                },
                None => {
                    proof {
                        assert(s@.subrange(0, dot as int) =~= w);
                        if w.len() == 0 {
                            assert(!(dot > 0));
                        }
                    }
                    None
                },
            }
        }
    }
}

/// Parses the fractional digits `s[a..b]` (non-empty) into milli-units.
fn frac_part(s: &str, a: usize, b: usize) -> (r: Option<u64>)
    requires
        a < b <= s@.len(),
    ensures
        match r {
            Some(v) => all_digits(s@.subrange(a as int, b as int)) && v as int == frac_milli(
                s@.subrange(a as int, b as int),
            ) && v < 1000,
            None => !all_digits(s@.subrange(a as int, b as int)),
        },
{
    let ghost sub = s@.subrange(a as int, b as int);
    // verify every character is a digit
    let mut i = a;
    while i < b
        invariant
            a <= i <= b <= s@.len(),
            sub == s@.subrange(a as int, b as int),
            forall|j: int| 0 <= j < i - a ==> is_digit(sub[j]),
        decreases b - i,
    {
        let c = s.get_char(i);
        proof {
            assert(sub[i - a] == s@[i as int]);
        }
        if !(c == '0' || c == '1' || c == '2' || c == '3' || c == '4' || c == '5' || c == '6' || c
            == '7' || c == '8' || c == '9') {
            proof {
                assert(!is_digit(sub[i - a]));
            }
            return None;
        }
        i += 1;
    }
    proof {
        assert(sub[0] == s@[a as int]);
    }
    let d0 = digit_at(s, a);
    let v0 = d0 * 100;
    if a + 1 < b {
        proof {
            assert(sub[1] == s@[a as int + 1]);
        }
        let d1 = digit_at(s, a + 1);
        if a + 2 < b {
            proof {
                assert(sub[2] == s@[a as int + 2]);
            }
            let d2 = digit_at(s, a + 2);
            Some(v0 + d1 * 10 + d2)
        } else {
            Some(v0 + d1 * 10)
        }
    } else {
        Some(v0)
    }
}

fn digit_at(s: &str, i: usize) -> (d: u64)
    requires
        i < s@.len(),
        is_digit(s@[i as int]),
    ensures
        d == digit_val(s@[i as int]),
        d < 10,
{
    let c = s.get_char(i);
    if c == '0' {
        0
    } else if c == '1' {
        1
    } else if c == '2' {
        2
    } else if c == '3' {
        3
    } else if c == '4' {
        4
    } else if c == '5' {
        5
    } else if c == '6' {
        6
    } else if c == '7' {
        7
    } else if c == '8' {
        8
    } else {
        9
    }
}

/// Rounded division of milli-scaled values: the milli-unit value of `a / b`,
/// rounding half up.
pub open spec fn milli_div_round(a: int, b: int) -> int {
    (2 * a * 1000 + b) / (2 * b)
}

proof fn lemma_milli_div_round_bound(a: int, b: int)
    requires
        0 <= a,
        1 <= b,
    ensures
        0 <= milli_div_round(a, b) <= 1000 * a + 1,
{
    assert(0 <= (2 * a * 1000 + b) / (2 * b) <= 1000 * a + 1) by (nonlinear_arith)
        requires
            0 <= a,
            1 <= b,
    ;
}

/// The source aspect ratio in milli-units: parsed from a `W:H` string when
/// one is given with both parts parseable and a positive denominator, the
/// configured target aspect when no ratio string is present, 0 otherwise
/// (parsing fails soft).
pub open spec fn spec_calc_aspect(config: &PlayoutConfig, aspect_string: &Option<String>) -> int {
    match aspect_string {
        Some(a) => {
            let ci = first_char_idx(a@, ':');
            if ci == -1 {
                config.processing.aspect_milli as int
            } else {
                let w = parse_milli(a@.take(ci));
                let h = parse_milli(a@.skip(ci + 1));
                match (w, h) {
                    (Some(wv), Some(hv)) => if hv > 0 {
                        milli_div_round(wv, hv)
                    } else {
                        0
                    },
                    _ => 0,
                }
            }
        },
        None => config.processing.aspect_milli as int,
    }
}

/// Computes the source aspect ratio from the probed ratio string.
pub fn calc_aspect(config: &PlayoutConfig, aspect_string: &Option<String>) -> (r: i64)
    requires
        config.wf(),
    ensures
        r as int == spec_calc_aspect(config, aspect_string),
        0 <= r <= 1_000_000_002_000_000,
{
    match aspect_string {
        Some(a) => {
            let l = a.as_str().unicode_len();
            let ci = find_char(a.as_str(), ':', 0);
            if ci == l {
                proof {
                    lemma_first_char_idx(a@, ':');
                    if first_char_idx(a@, ':') != -1 {
                        assert(false);
                    }
                }
                config.processing.aspect_milli
            } else {
                proof {
                    lemma_first_char_at(a@, ':', ci as int);
                }
                let w = substring_milli(a.as_str(), 0, ci);
                let h = substring_milli(a.as_str(), ci + 1, l);
                proof {
                    assert(a@.subrange(0, ci as int) =~= a@.take(ci as int));
                    assert(a@.subrange(ci as int + 1, l as int) =~= a@.skip(ci as int + 1));
                }
                match (w, h) {
                    (Some(wv), Some(hv)) => {
                        if hv > 0 {
                            proof {
                                lemma_milli_div_round_bound(wv as int, hv as int);
                            }
                            (2 * wv * 1000 + hv) / (2 * hv)
                        } else {
                            0
                        }
                    },
                    _ => 0,
                }
            }
        },
        None => config.processing.aspect_milli,
    }
}

/// Parses `s[a..b]` as a decimal number into milli-units.
fn substring_milli(s: &str, a: usize, b: usize) -> (r: Option<i64>)
    requires
        a <= b <= s@.len(),
    ensures
        match r {
            Some(v) => parse_milli(s@.subrange(a as int, b as int)) == Some(v as int) && 0 <= v
                <= 1_000_000_001_000,
            None => parse_milli(s@.subrange(a as int, b as int)) is None,
        },
{
    let sub = s.substring_char(a, b);
    str_parse_milli(sub)
}

/// The probed frame rate in milli-units: `n/d` parsed from the rate string
/// when a `/` is present with both parts parseable and a positive
/// denominator, the default otherwise (parsing fails soft).
pub open spec fn spec_fps_calc(rate: Seq<char>, default_milli: int) -> int {
    let ci = first_char_idx(rate, '/');
    if ci == -1 {
        default_milli
    } else {
        let n = parse_milli(rate.take(ci));
        let d = parse_milli(rate.skip(ci + 1));
        match (n, d) {
            (Some(nv), Some(dv)) => if dv > 0 {
                milli_div_round(nv, dv)
            } else {
                default_milli
            },
            _ => default_milli,
        }
    }
}

/// Computes the frame rate from the probed rate string.
pub fn fps_calc(rate: &str, default_milli: i64) -> (r: i64)
    requires
        0 <= default_milli <= 1_000_000_000,
    ensures
        r as int == spec_fps_calc(rate@, default_milli as int),
        0 <= r <= 1_000_000_002_000_000,
{
    let l = rate.unicode_len();
    let ci = find_char(rate, '/', 0);
    if ci == l {
        proof {
            lemma_first_char_idx(rate@, '/');
            if first_char_idx(rate@, '/') != -1 {
                assert(false);
            }
        }
        default_milli
    } else {
        proof {
            lemma_first_char_at(rate@, '/', ci as int);
        }
        let n = substring_milli(rate, 0, ci);
        let d = substring_milli(rate, ci + 1, l);
        proof {
            assert(rate@.subrange(0, ci as int) =~= rate@.take(ci as int));
            assert(rate@.subrange(ci as int + 1, l as int) =~= rate@.skip(ci as int + 1));
        }
        match (n, d) {
            (Some(nv), Some(dv)) => {
                if dv > 0 {
                    proof {
                        lemma_milli_div_round_bound(nv as int, dv as int);
                    }
                    (2 * nv * 1000 + dv) / (2 * dv)
                } else {
                    default_milli
                }
            },
            _ => default_milli,
        }
    }
}

} // verus!
