//! Decimal text for fixed-point lengths: writing them out in millimetres and
//! reading the number text that the generator emits.
use vstd::prelude::*;

verus! {

/// Lengths are held in nanometres: this many decimal places of a millimetre.
pub const MM_PLACES: u32 = 6;

pub open spec fn pow10(k: nat) -> nat
    decreases k,
{
    if k == 0 {
        1
    } else {
        10 * pow10((k - 1) as nat)
    }
}

/// The character for digit `d` (upper-case above nine).
pub open spec fn digit_text(d: nat) -> Seq<char> {
    "0123456789ABCDEF"@.subrange(d as int, d as int + 1)
}

/// `n` in decimal, without leading zeros.
pub open spec fn dec_text(n: nat) -> Seq<char>
    decreases n,
{
    if n < 10 {
        digit_text(n)
    } else {
        dec_text(n / 10) + digit_text(n % 10)
    }
}

/// `n` in upper-case hexadecimal, without leading zeros.
pub open spec fn hex_text(n: nat) -> Seq<char>
    decreases n,
{
    if n < 16 {
        digit_text(n)
    } else {
        hex_text(n / 16) + digit_text(n % 16)
    }
}

/// The last `k` decimal digits of `f`, zero-padded to exactly `k` characters.
pub open spec fn padded_text(f: nat, k: nat) -> Seq<char>
    decreases k,
{
    if k == 0 {
        Seq::empty()
    } else {
        padded_text(f / 10, (k - 1) as nat) + digit_text(f % 10)
    }
}

/// The `k` fractional digits of `f`, with trailing zeros left out.
pub open spec fn frac_text(f: nat, k: nat) -> Seq<char>
    decreases k,
{
    if k == 0 {
        Seq::empty()
    } else if f % 10 == 0 {
        frac_text(f / 10, (k - 1) as nat)
    } else {
        padded_text(f, k)
    }
}

pub open spec fn abs(v: int) -> nat {
    if v < 0 {
        (-v) as nat
    } else {
        v as nat
    }
}

/// `v / 10^places` as plain decimal: a sign for negatives, the integer part,
/// and a fractional part only where it is not zero, without trailing zeros.
pub open spec fn fixed_text(v: int, places: nat) -> Seq<char> {
    let a = abs(v);
    let ip = a / pow10(places);
    let fp = a % pow10(places);
    (if v < 0 {
        "-"@
    } else {
        Seq::empty()
    }) + dec_text(ip) + (if fp == 0 {
        Seq::empty()
    } else {
        "."@ + frac_text(fp, places)
    })
}

/// A length in nanometres written in millimetres.
pub open spec fn mm_text(v: int) -> Seq<char> {
    fixed_text(v, MM_PLACES as nat)
}

/// A signed 64-bit value as the unsigned word of the same bits.
pub open spec fn word_of(v: int) -> nat {
    if v < 0 {
        (v + 0x1_0000_0000_0000_0000) as nat
    } else {
        v as nat
    }
}

fn pow10_exec(k: u32) -> (r: u128)
    requires
        k <= 7,
    ensures
        r == pow10(k as nat),
        r <= 10_000_000,
{
    proof {
        reveal_with_fuel(pow10, 8);
    }
    let mut r: u128 = 1;
    let mut i: u32 = 0;
    while i < k
        invariant
            i <= k <= 7,
            r == pow10(i as nat),
            pow10(i as nat) * pow10((7 - i) as nat) == pow10(7),
            pow10(7) == 10_000_000,
        decreases k - i,
    {
        proof {
            let j = (7 - i - 1) as nat;
            assert(pow10((7 - i) as nat) == 10 * pow10(j));
            assert(pow10((i + 1) as nat) == 10 * pow10(i as nat));
            lemma_pow10_positive(j);
            assert(pow10(i as nat) * pow10((7 - i) as nat) == pow10((i + 1) as nat) * pow10(j))
                by (nonlinear_arith)
                requires
                    pow10((7 - i) as nat) == 10 * pow10(j),
                    pow10((i + 1) as nat) == 10 * pow10(i as nat),
            ;
            assert(pow10((i + 1) as nat) <= pow10((i + 1) as nat) * pow10(j)) by (nonlinear_arith)
                requires
                    pow10(j) >= 1,
            ;
        }
        r = r * 10;
        i = i + 1;
    }
    proof {
        lemma_pow10_positive((7 - i) as nat);
        assert(r <= r * pow10((7 - i) as nat)) by (nonlinear_arith)
            requires
                pow10((7 - i) as nat) >= 1,
        ;
    }
    r
}

pub proof fn lemma_pow10_positive(k: nat)
    ensures
        pow10(k) >= 1,
    decreases k,
{
    if k > 0 {
        lemma_pow10_positive((k - 1) as nat);
    }
}

/// Appends the digit `d`.
fn push_digit(out: &mut String, d: u128)
    requires
        d < 16,
    ensures
        final(out)@ == old(out)@ + digit_text(d as nat),
{
    let digits = "0123456789ABCDEF";
    proof {
        reveal_strlit("0123456789ABCDEF");
    }
    out.append(digits.substring_char(d as usize, d as usize + 1));
}

/// Appends `n` in decimal.
fn push_dec(out: &mut String, n: u128)
    ensures
        final(out)@ == old(out)@ + dec_text(n as nat),
    decreases n,
{
    if n < 10 {
        push_digit(out, n);
    } else {
        push_dec(out, n / 10);
        push_digit(out, n % 10);
        assert(final(out)@ =~= old(out)@ + dec_text(n as nat));
    }
}

/// Appends `n` in upper-case hexadecimal.
pub fn push_hex(out: &mut String, n: u64)
    ensures
        final(out)@ == old(out)@ + hex_text(n as nat),
    decreases n,
{
    if n < 16 {
        push_digit(out, n as u128);
    } else {
        push_hex(out, n / 16);
        push_digit(out, (n % 16) as u128);
        assert(final(out)@ =~= old(out)@ + hex_text(n as nat));
    }
}

/// Appends the last `k` digits of `f`, zero-padded.
fn push_padded(out: &mut String, f: u128, k: u32)
    ensures
        final(out)@ == old(out)@ + padded_text(f as nat, k as nat),
    decreases k,
{
    if k > 0 {
        push_padded(out, f / 10, k - 1);
        push_digit(out, f % 10);
        assert(final(out)@ =~= old(out)@ + padded_text(f as nat, k as nat));
    }
}

/// Appends `v / 10^places` as plain decimal.
pub fn push_fixed(out: &mut String, v: i128, places: u32)
    requires
        places <= 7,
        -0x1_0000_0000_0000_0000_0000_0000 < v < 0x1_0000_0000_0000_0000_0000_0000,
    ensures
        final(out)@ == old(out)@ + fixed_text(v as int, places as nat),
{
    let p = pow10_exec(places);
    proof {
        lemma_pow10_positive(places as nat);
    }
    let a: u128 = if v < 0 {
        (-v) as u128
    } else {
        v as u128
    };
    assert(a == abs(v as int));
    if v < 0 {
        out.append("-");
    }
    push_dec(out, a / p);
    let mut f: u128 = a % p;
    if f != 0 {
        out.append(".");
        let mut k: u32 = places;
        while k > 0 && f % 10 == 0
            invariant
                f != 0,
                frac_text(f as nat, k as nat) == frac_text((a % p) as nat, places as nat),
            decreases k,
        {
            f = f / 10;
            k = k - 1;
        }
        assert(frac_text(f as nat, k as nat) == padded_text(f as nat, k as nat));
        push_padded(out, f, k);
    }
    assert(final(out)@ =~= old(out)@ + fixed_text(v as int, places as nat));
}

/// Appends a length in nanometres, written in millimetres.
pub fn push_mm(out: &mut String, v: i64)
    ensures
        final(out)@ == old(out)@ + mm_text(v as int),
{
    push_fixed(out, v as i128, MM_PLACES);
}

/// Appends the unsigned word of the same bits as `v`, in hexadecimal.
pub fn push_word_hex(out: &mut String, v: i64)
    ensures
        final(out)@ == old(out)@ + hex_text(word_of(v as int)),
{
    let w: u64 = if v >= 0 {
        v as u64
    } else {
        u64::MAX - ((-(v + 1)) as u64)
    };
    assert(w as nat == word_of(v as int));
    push_hex(out, w);
}

/// Digits of the integer part that a length may have (a trillion millimetres
/// keeps every length within a signed 64-bit count of nanometres).
pub const MAX_INT_DIGITS: usize = 12;

pub open spec fn is_digit(c: char) -> bool {
    '0' <= c && c <= '9'
}

pub open spec fn all_digits(s: Seq<char>) -> bool {
    forall|i: int| 0 <= i < s.len() ==> is_digit(#[trigger] s[i])
}

pub open spec fn digit_value(c: char) -> nat {
    (c as u32 - '0' as u32) as nat
}

/// The value of a string of decimal digits.
pub open spec fn digits_value(s: Seq<char>) -> nat
    decreases s.len(),
{
    if s.len() == 0 {
        0
    } else {
        digits_value(s.drop_last()) * 10 + digit_value(s.last())
    }
}

/// Fractional digits as nanometres: the first six digits, rounded half up on
/// the seventh.
pub open spec fn frac_nm(f: Seq<char>) -> nat {
    let kept = if f.len() <= 6 {
        f
    } else {
        f.take(6)
    };
    digits_value(kept) * pow10((6 - kept.len()) as nat) + (if f.len() > 6 && digit_value(f[6])
        >= 5 {
        1nat
    } else {
        0nat
    })
}

/// The length of the run of digits that `t` starts with.
pub open spec fn digit_run(t: Seq<char>) -> nat
    decreases t.len(),
{
    if t.len() == 0 || !is_digit(t[0]) {
        0
    } else {
        1 + digit_run(t.skip(1))
    }
}

/// An unsigned decimal number of millimetres, in nanometres: one to twelve
/// integer digits, then optionally a point and one or more fractional digits.
pub open spec fn unsigned_nm(t: Seq<char>) -> Option<int> {
    let k = digit_run(t) as int;
    let whole = digits_value(t.take(k)) * pow10(6);
    if k == 0 || k > MAX_INT_DIGITS {
        None
    } else if k == t.len() {
        Some(whole as int)
    } else if t[k] == '.' && t.len() > k + 1 && all_digits(t.skip(k + 1)) {
        Some((whole + frac_nm(t.skip(k + 1))) as int)
    } else {
        None
    }
}

/// A decimal number of millimetres, optionally negative, in nanometres.
pub open spec fn number_nm(s: Seq<char>) -> Option<int> {
    if s.len() > 0 && s[0] == '-' {
        match unsigned_nm(s.skip(1)) {
            Some(v) => Some(-v),
            None => None,
        }
    } else {
        unsigned_nm(s)
    }
}

proof fn lemma_digits_push(s: Seq<char>, c: char)
    ensures
        digits_value(s.push(c)) == digits_value(s) * 10 + digit_value(c),
{
    assert(s.push(c).drop_last() =~= s);
}

proof fn lemma_digits_bound(s: Seq<char>)
    requires
        all_digits(s),
    ensures
        digits_value(s) < pow10(s.len()),
    decreases s.len(),
{
    if s.len() > 0 {
        let t = s.drop_last();
        assert(all_digits(t)) by {
            assert forall|i: int| 0 <= i < t.len() implies is_digit(#[trigger] t[i]) by {
                assert(t[i] == s[i]);
            }
        }
        lemma_digits_bound(t);
        assert(is_digit(s[s.len() - 1]));
        assert(digit_value(s.last()) < 10);
        assert(pow10(s.len()) == 10 * pow10(t.len()));
        assert(digits_value(t) * 10 + digit_value(s.last()) < 10 * pow10(t.len())) by (
        nonlinear_arith)
            requires
                digits_value(t) < pow10(t.len()),
                digit_value(s.last()) < 10,
        ;
    }
}

proof fn lemma_digit_run(t: Seq<char>, k: int)
    requires
        0 <= k <= t.len(),
        all_digits(t.take(k)),
        k == t.len() || !is_digit(t[k]),
    ensures
        digit_run(t) == k,
    decreases k,
{
    if k > 0 {
        assert(t.take(k)[0] == t[0]);
        let u = t.skip(1);
        assert(u.take(k - 1) =~= t.take(k).skip(1));
        assert(all_digits(u.take(k - 1))) by {
            assert forall|i: int| 0 <= i < k - 1 implies is_digit(#[trigger] u.take(k - 1)[i]) by {
                assert(u.take(k - 1)[i] == t.take(k)[i + 1]);
            }
        }
        if k < t.len() {
            assert(u[k - 1] == t[k]);
        }
        lemma_digit_run(u, k - 1);
    }
}

fn char_is_digit(c: char) -> (r: bool)
    ensures
        r == is_digit(c),
{
    '0' <= c && c <= '9'
}

/// The end of the run of digits in `s` that starts at `from`.
fn scan_digits(s: &str, from: usize) -> (end: usize)
    requires
        from <= s@.len(),
    ensures
        from <= end <= s@.len(),
        all_digits(s@.subrange(from as int, end as int)),
        end == s@.len() || !is_digit(s@[end as int]),
{
    let n = s.unicode_len();
    let mut j = from;
    while j < n && char_is_digit(s.get_char(j))
        invariant
            from <= j <= n,
            n == s@.len(),
            all_digits(s@.subrange(from as int, j as int)),
        decreases n - j,
    {
        assert(all_digits(s@.subrange(from as int, j + 1))) by {
            let a = s@.subrange(from as int, j + 1);
            assert forall|i: int| 0 <= i < a.len() implies is_digit(#[trigger] a[i]) by {
                if i < a.len() - 1 {
                    assert(a[i] == s@.subrange(from as int, j as int)[i]);
                }
            }
        }
        j = j + 1;
    }
    j
}

/// The value of the digits of `s` from `from` to `to`.
fn digits_u64(s: &str, from: usize, to: usize) -> (r: u64)
    requires
        from <= to <= s@.len(),
        to - from <= MAX_INT_DIGITS,
        all_digits(s@.subrange(from as int, to as int)),
    ensures
        r == digits_value(s@.subrange(from as int, to as int)),
        r < pow10((to - from) as nat),
        r < 1_000_000_000_000,
{
    proof {
        reveal_with_fuel(pow10, 13);
    }
    let mut j = from;
    let mut acc: u64 = 0;
    while j < to
        invariant
            from <= j <= to <= s@.len(),
            to - from <= MAX_INT_DIGITS,
            all_digits(s@.subrange(from as int, to as int)),
            acc == digits_value(s@.subrange(from as int, j as int)),
            acc < pow10((j - from) as nat),
            pow10((j - from) as nat) * pow10((to - j) as nat) == pow10((to - from) as nat),
            pow10((to - from) as nat) <= 1_000_000_000_000,
        decreases to - j,
    {
        let c = s.get_char(j);
        proof {
            let a = s@.subrange(from as int, j as int);
            assert(s@.subrange(from as int, j + 1) =~= a.push(c));
            assert(s@.subrange(from as int, to as int)[j - from] == c);
            lemma_digits_push(a, c);
            assert(digit_value(c) < 10);
            let m = (to - j - 1) as nat;
            assert(pow10((to - j) as nat) == 10 * pow10(m));
            assert(pow10((j + 1 - from) as nat) == 10 * pow10((j - from) as nat));
            lemma_pow10_positive(m);
            assert(acc * 10 + digit_value(c) < 10 * pow10((j - from) as nat)) by (nonlinear_arith)
                requires
                    acc < pow10((j - from) as nat),
                    digit_value(c) < 10,
            ;
            assert(pow10((j - from) as nat) * pow10((to - j) as nat) == pow10((j + 1 - from) as nat)
                * pow10(m)) by (nonlinear_arith)
                requires
                    pow10((to - j) as nat) == 10 * pow10(m),
                    pow10((j + 1 - from) as nat) == 10 * pow10((j - from) as nat),
            ;
            assert(pow10((j + 1 - from) as nat) <= pow10((j + 1 - from) as nat) * pow10(m)) by (
            nonlinear_arith)
                requires
                    pow10(m) >= 1,
            ;
        }
        acc = acc * 10 + (c as u32 - '0' as u32) as u64;
        j = j + 1;
    }
    proof {
        lemma_pow10_positive((to - j) as nat);
        assert(pow10((j - from) as nat) <= pow10((j - from) as nat) * pow10((to - j) as nat)) by (
        nonlinear_arith)
            requires
                pow10((to - j) as nat) >= 1,
        ;
    }
    acc
}

proof fn lemma_pow10_add(a: nat, b: nat)
    ensures
        pow10(a) * pow10(b) == pow10(a + b),
    decreases a,
{
    if a == 0 {
        assert(pow10(0) == 1);
        assert(a + b == b);
    } else {
        let a1 = (a - 1) as nat;
        lemma_pow10_add(a1, b);
        assert(pow10(a) == 10 * pow10(a1));
        assert(pow10(a + b) == 10 * pow10(a1 + b));
        assert(pow10(a) * pow10(b) == 10 * (pow10(a1) * pow10(b))) by (nonlinear_arith)
            requires
                pow10(a) == 10 * pow10(a1),
        ;
    }
}

/// The fractional digits of `s` from `from` to its end, as nanometres.
fn frac_u64(s: &str, from: usize) -> (r: u64)
    requires
        from < s@.len(),
        all_digits(s@.subrange(from as int, s@.len() as int)),
    ensures
        r == frac_nm(s@.subrange(from as int, s@.len() as int)),
        r <= 1_000_000,
{
    let n = s.unicode_len();
    let ghost fp = s@.subrange(from as int, n as int);
    let kept: usize = if n - from < 6 {
        n - from
    } else {
        6
    };
    proof {
        assert(all_digits(s@.subrange(from as int, from + kept))) by {
            let a = s@.subrange(from as int, from + kept);
            assert forall|i: int| 0 <= i < a.len() implies is_digit(#[trigger] a[i]) by {
                assert(a[i] == fp[i]);
            }
        }
    }
    let fv = digits_u64(s, from, from + kept);
    let up = n - from > 6 && s.get_char(from + 6) >= '5';
    let scale = pow10_exec((6 - kept) as u32);
    proof {
        reveal_with_fuel(pow10, 7);
        if fp.len() > 6 {
            assert(fp.take(6) =~= s@.subrange(from as int, from + 6));
            assert(fp[6] == s@[from + 6]);
        } else {
            assert(fp =~= s@.subrange(from as int, from + kept));
        }
        lemma_pow10_add(kept as nat, (6 - kept) as nat);
        assert(fv * scale <= 999_999) by (nonlinear_arith)
            requires
                fv < pow10(kept as nat),
                scale == pow10((6 - kept) as nat),
                pow10(kept as nat) * pow10((6 - kept) as nat) == 1_000_000,
        ;
    }
    fv * (scale as u64) + if up {
        1
    } else {
        0
    }
}

/// Reads the number text `s` as millimetres, in nanometres.
pub fn parse_mm(s: &str) -> (r: Option<i64>)
    ensures
        match r {
            Some(v) => number_nm(s@) == Some(v as int),
            None => number_nm(s@) is None,
        },
{
    proof {
        reveal_with_fuel(pow10, 7);
    }
    let n = s.unicode_len();
    let neg = n > 0 && s.get_char(0) == '-';
    let start: usize = if neg {
        1
    } else {
        0
    };
    let ghost t = s@.skip(start as int);
    assert(neg ==> t =~= s@.skip(1));
    assert(!neg ==> t =~= s@);
    let end = scan_digits(s, start);
    let ghost k = end - start;
    proof {
        assert(t.take(k) =~= s@.subrange(start as int, end as int));
        if end < n {
            assert(t[k] == s@[end as int]);
        }
        lemma_digit_run(t, k);
    }
    if end == start || end - start > MAX_INT_DIGITS {
        return None;
    }
    let ipv = digits_u64(s, start, end);
    let whole: u64 = ipv * 1_000_000;
    if end == n {
        let w = whole as i64;
        return Some(
            if neg {
                -w
            } else {
                w
            },
        );
    }
    if s.get_char(end) != '.' {
        return None;
    }
    let fstart = end + 1;
    let fend = scan_digits(s, fstart);
    let ghost fp = t.skip(k + 1);
    proof {
        assert(fp =~= s@.subrange(fstart as int, n as int));
        if fend < n {
            assert(fp[fend - fstart] == s@[fend as int]);
        }
    }
    if fend != n || fend == fstart {
        return None;
    }
    let fv = frac_u64(s, fstart);
    let v: i64 = (whole + fv) as i64;
    Some(
        if neg {
            -v
        } else {
            v
        },
    )
}

} // verus!
