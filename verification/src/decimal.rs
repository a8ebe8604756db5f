//! Unsigned decimal text: digits, their values, and the fixed-point
//! micro-unit amounts of `cost.budget`.

use vstd::prelude::*;

verus! {

broadcast use vstd::string::group_string_axioms;

/// The character of digit `d < 10`.
pub open spec fn digit_char(d: nat) -> char {
    "0123456789"@[d as int]
}

/// `c` is an ASCII digit.
pub open spec fn is_digit(c: char) -> bool {
    '0' <= c && c <= '9'
}

/// Value of an ASCII digit.
pub open spec fn digit_value(c: char) -> int {
    c as int - '0' as int
}

/// Every character of `s` is a digit.
pub open spec fn all_digits(s: Seq<char>) -> bool {
    forall|i: int| 0 <= i < s.len() ==> is_digit(#[trigger] s[i])
}

/// Value of a string of digits, most significant first.
pub open spec fn digits_value(s: Seq<char>) -> int
    decreases s.len(),
{
    if s.len() == 0 {
        0
    } else {
        digits_value(s.drop_last()) * 10 + digit_value(s.last())
    }
}

/// `10^n`.
pub open spec fn pow10(n: nat) -> nat
    decreases n,
{
    if n == 0 {
        1
    } else {
        10 * pow10((n - 1) as nat)
    }
}

/// `n` in decimal, without leading zeros (`"0"` for zero).
pub open spec fn decimal(n: nat) -> Seq<char>
    decreases n,
{
    if n < 10 {
        seq![digit_char(n)]
    } else {
        decimal(n / 10).push(digit_char(n % 10))
    }
}

/// An integer in decimal, with a leading `-` when it is negative.
pub open spec fn int_text(n: int) -> Seq<char> {
    if n >= 0 {
        decimal(n as nat)
    } else {
        "-"@ + decimal((-n) as nat)
    }
}

/// `n` in decimal, signed.
pub fn i64_decimal(n: i64) -> (s: String)
    ensures
        s@ == int_text(n as int),
{
    if n >= 0 {
        u64_decimal(n as u64)
    } else {
        let m: u64 = (0i128 - n as i128) as u64;
        let mut s = "-".to_owned();
        s.append(u64_decimal(m).as_str());
        s
    }
}

/// The last `k` decimal digits of `x`, zero-padded to exactly `k`.
pub open spec fn padded(x: nat, k: nat) -> Seq<char>
    decreases k,
{
    if k == 0 {
        Seq::empty()
    } else {
        padded(x / 10, (k - 1) as nat).push(digit_char(x % 10))
    }
}

/// The character of a digit is a digit of that value, and is neither a
/// point, a colon nor a minus sign.
pub proof fn lemma_digit_char(d: nat)
    requires
        d < 10,
    ensures
        is_digit(digit_char(d)),
        digit_value(digit_char(d)) == d,
        digit_char(d) != '.',
        digit_char(d) != ':',
        digit_char(d) != '-',
{
    reveal_strlit("0123456789");
    let t = "0123456789"@;
    assert(t[0] == '0' && t[1] == '1' && t[2] == '2' && t[3] == '3' && t[4] == '4' && t[5] == '5'
        && t[6] == '6' && t[7] == '7' && t[8] == '8' && t[9] == '9');
}

/// The decimal text of `n` is a non-empty string of digits of value `n`.
pub proof fn lemma_decimal(n: nat)
    ensures
        decimal(n).len() >= 1,
        all_digits(decimal(n)),
        digits_value(decimal(n)) == n,
    decreases n,
{
    if n < 10 {
        lemma_digit_char(n);
        assert(decimal(n).drop_last() =~= Seq::<char>::empty());
        assert(digits_value(Seq::<char>::empty()) == 0);
        assert(digits_value(decimal(n)) == digits_value(decimal(n).drop_last()) * 10 + digit_value(
            decimal(n).last(),
        ));
    } else {
        lemma_decimal(n / 10);
        lemma_digit_char(n % 10);
        vstd::arithmetic::div_mod::lemma_fundamental_div_mod(n as int, 10);
        let s = decimal(n);
        assert(s.drop_last() =~= decimal(n / 10));
        assert(digits_value(s) == digits_value(decimal(n / 10)) * 10 + (n % 10));
        assert forall|i: int| 0 <= i < s.len() implies is_digit(#[trigger] s[i]) by {
            if i < s.len() - 1 {
                assert(s[i] == decimal(n / 10)[i]);
            }
        }
    }
}

/// The padded text of `x` has `k` digits whose value is `x mod 10^k`.
pub proof fn lemma_padded(x: nat, k: nat)
    ensures
        padded(x, k).len() == k,
        all_digits(padded(x, k)),
        digits_value(padded(x, k)) == x % pow10(k),
    decreases k,
{
    if k > 0 {
        lemma_padded(x / 10, (k - 1) as nat);
        lemma_digit_char(x % 10);
        let s = padded(x, k);
        assert(s.drop_last() =~= padded(x / 10, (k - 1) as nat));
        assert forall|i: int| 0 <= i < s.len() implies is_digit(#[trigger] s[i]) by {
            if i < s.len() - 1 {
                assert(s[i] == padded(x / 10, (k - 1) as nat)[i]);
            }
        }
        let p = pow10((k - 1) as nat);
        assert(p > 0) by {
            lemma_pow10_positive((k - 1) as nat);
        }
        assert((x / 10) % p * 10 + x % 10 == x % (10 * p)) by (nonlinear_arith)
            requires
                p > 0,
        {
            vstd::arithmetic::div_mod::lemma_breakdown(x as int, 10, p as int);
        }
    } else {
        assert(x % 1 == 0);
    }
}

/// `10^n` is positive.
pub proof fn lemma_pow10_positive(n: nat)
    ensures
        pow10(n) >= 1,
    decreases n,
{
    if n > 0 {
        lemma_pow10_positive((n - 1) as nat);
    }
}

/// The digit of `d < 10` as a one-character text.
fn digit_text(d: u64) -> (s: &'static str)
    requires
        d < 10,
    ensures
        s@ == seq![digit_char(d as nat)],
{
    let digits = "0123456789";
    proof {
        reveal_strlit("0123456789");
    }
    let one = digits.substring_char(d as usize, d as usize + 1);
    assert(one@ =~= seq![digit_char(d as nat)]);
    one
}

/// `n` in decimal.
pub fn u64_decimal(n: u64) -> (s: String)
    ensures
        s@ == decimal(n as nat),
    decreases n,
{
    if n < 10 {
        digit_text(n).to_owned()
    } else {
        let mut s = u64_decimal(n / 10);
        s.append(digit_text(n % 10));
        s
    }
}

/// The last `k` decimal digits of `x`, zero-padded to exactly `k`.
pub fn padded_decimal(x: u64, k: u64) -> (s: String)
    ensures
        s@ == padded(x as nat, k as nat),
    decreases k,
{
    if k == 0 {
        String::new()
    } else {
        let mut s = padded_decimal(x / 10, k - 1);
        s.append(digit_text(x % 10));
        s
    }
}

// ---------------------------------------------------------------------
// Micro-unit amounts
// ---------------------------------------------------------------------

/// Micro-units in one currency unit.
pub const MICROS_PER_UNIT: u64 = 1000000;

/// `k` is the first `.` of `t`.
pub open spec fn is_first_dot(t: Seq<char>, k: int) -> bool {
    &&& 0 <= k < t.len()
    &&& t[k] == '.'
    &&& forall|j: int| 0 <= j < k ==> t[j] != '.'
}

/// `s` holds only `0`s.
pub open spec fn all_zeros(s: Seq<char>) -> bool {
    forall|i: int| 0 <= i < s.len() ==> s[i] == '0'
}

/// How many fractional digits count toward micro-units: at most six.
pub open spec fn counted_fraction(n: nat) -> nat {
    if n <= 6 {
        n
    } else {
        6
    }
}

/// Micro-units written by a non-negative decimal `digits`, `digits "."
/// [digits]` or `"." digits`, whose fractional digits past the sixth are
/// all `0`; `None` for any other text.
pub open spec fn amount_value(t: Seq<char>) -> Option<int> {
    if exists|k: int| is_first_dot(t, k) {
        let k = choose|k: int| is_first_dot(t, k);
        let ip = t.take(k);
        let fp = t.skip(k + 1);
        let f6 = counted_fraction(fp.len());
        if all_digits(ip) && all_digits(fp) && ip.len() + fp.len() >= 1 && all_zeros(fp.skip(f6 as int)) {
            Some(digits_value(ip) * 1000000 + digits_value(fp.take(f6 as int)) * pow10((6 - f6) as nat))
        } else {
            None
        }
    } else if t.len() > 0 && all_digits(t) {
        Some(digits_value(t) * 1000000)
    } else {
        None
    }
}

/// Drop trailing zero digits of a `k`-digit fraction `f` (keeping at
/// least one digit): the significant digits and their count.
pub open spec fn trim_fraction(f: nat, k: nat) -> (nat, nat)
    decreases k,
{
    if k > 1 && f % 10 == 0 {
        trim_fraction(f / 10, (k - 1) as nat)
    } else {
        (f, k)
    }
}

/// Text of an amount of micro-units: the whole units, then, when there is
/// a fraction, a point and its digits without trailing zeros.
pub open spec fn micros_text(m: nat) -> Seq<char> {
    let whole = m / 1000000;
    let f = m % 1000000;
    if f == 0 {
        decimal(whole)
    } else {
        let (q, k) = trim_fraction(f, 6);
        decimal(whole) + seq!['.'] + padded(q, k)
    }
}

pub proof fn lemma_trim_fraction(f: nat, k: nat)
    requires
        1 <= k,
        f < pow10(k),
    ensures
        ({
            let (q, j) = trim_fraction(f, k);
            &&& 1 <= j <= k
            &&& q < pow10(j)
            &&& q * pow10((k - j) as nat) == f
        }),
    decreases k,
{
    if k > 1 && f % 10 == 0 {
        let p = pow10((k - 1) as nat);
        assert(f / 10 < p) by (nonlinear_arith)
            requires
                f < 10 * p,
        ;
        lemma_trim_fraction(f / 10, (k - 1) as nat);
        let (q, j) = trim_fraction(f / 10, (k - 1) as nat);
        let e = pow10((k - 1 - j) as nat);
        assert(pow10((k - j) as nat) == 10 * e);
        vstd::arithmetic::div_mod::lemma_fundamental_div_mod(f as int, 10);
        assert(q * (10 * e) == (q * e) * 10) by (nonlinear_arith);
    } else {
        assert(pow10(0) == 1);
    }
}

/// Value of the digits of `s` between `from` and `to`, when it fits.
fn digits_u64(s: &Vec<char>, from: usize, to: usize) -> (r: Option<u64>)
    requires
        from <= to <= s@.len(),
        all_digits(s@.subrange(from as int, to as int)),
    ensures
        match r {
            Some(v) => v == digits_value(s@.subrange(from as int, to as int)),
            None => digits_value(s@.subrange(from as int, to as int)) > u64::MAX,
        },
{
    let ghost t = s@.subrange(from as int, to as int);
    let mut acc: u64 = 0;
    let mut over = false;
    let mut i: usize = from;
    assert(t.take(0) =~= Seq::<char>::empty());
    while i < to
        invariant
            from <= i <= to <= s@.len(),
            t == s@.subrange(from as int, to as int),
            all_digits(t),
            !over ==> acc == digits_value(t.take(i - from)),
            over ==> digits_value(t.take(i - from)) > u64::MAX,
            digits_value(t.take(i - from)) >= 0,
        decreases to - i,
    {
        let ghost j = (i - from) as int;
        assert(t.take(j + 1).drop_last() =~= t.take(j));
        assert(t.take(j + 1).last() == s@[i as int]);
        assert(is_digit(t[j]));
        let d = (s[i] as u32 - '0' as u32) as u64;
        assert(d == digit_value(s@[i as int]));
        if !over {
            if acc > (u64::MAX - d) / 10 {
                over = true;
                assert(acc * 10 + d > u64::MAX) by (nonlinear_arith)
                    requires
                        acc > (u64::MAX - d) / 10,
                        d <= 9,
                ;
            } else {
                assert(acc * 10 + d <= u64::MAX) by (nonlinear_arith)
                    requires
                        acc <= (u64::MAX - d) / 10,
                        d <= 9,
                ;
                acc = acc * 10 + d;
            }
        } else {
            assert(digits_value(t.take(j + 1)) >= digits_value(t.take(j))) by (nonlinear_arith)
                requires
                    digits_value(t.take(j + 1)) == digits_value(t.take(j)) * 10 + d,
                    digits_value(t.take(j)) >= 0,
                    d >= 0,
            ;
        }
        i = i + 1;
    }
    assert(t.take((to - from) as int) =~= t);
    if over {
        None
    } else {
        Some(acc)
    }
}

/// A string of `L` digits is worth less than `10^L`, and at least zero.
pub proof fn lemma_digits_bound(s: Seq<char>)
    requires
        all_digits(s),
    ensures
        0 <= digits_value(s) < pow10(s.len()),
    decreases s.len(),
{
    if s.len() > 0 {
        let init = s.drop_last();
        assert forall|i: int| 0 <= i < init.len() implies is_digit(#[trigger] init[i]) by {
            assert(init[i] == s[i]);
        }
        lemma_digits_bound(init);
        assert(is_digit(s[s.len() - 1]));
        let v = digits_value(init);
        let d = digit_value(s.last());
        let p = pow10(init.len());
        assert(v * 10 + d < 10 * p) by (nonlinear_arith)
            requires
                0 <= v < p,
                0 <= d <= 9,
        ;
        assert(v * 10 + d >= 0) by (nonlinear_arith)
            requires
                0 <= v,
                0 <= d,
        ;
    }
}

/// Whether the characters of `t` between `from` and `to` are all digits.
fn digits_between(t: &Vec<char>, from: usize, to: usize) -> (r: bool)
    requires
        from <= to <= t@.len(),
    ensures
        r == all_digits(t@.subrange(from as int, to as int)),
{
    let mut i: usize = from;
    while i < to
        invariant
            from <= i <= to <= t@.len(),
            forall|x: int| from <= x < i ==> is_digit(#[trigger] t@[x]),
        decreases to - i,
    {
        if !(t[i] >= '0' && t[i] <= '9') {
            assert(!is_digit(t@.subrange(from as int, to as int)[i - from]));
            return false;
        }
        i = i + 1;
    }
    assert forall|x: int| 0 <= x < to - from implies is_digit(
        #[trigger] t@.subrange(from as int, to as int)[x],
    ) by {
        assert(t@.subrange(from as int, to as int)[x] == t@[from + x]);
    }
    true
}

/// Whether the characters of `t` between `from` and `to` are all `0`.
fn zeros_between(t: &Vec<char>, from: usize, to: usize) -> (r: bool)
    requires
        from <= to <= t@.len(),
    ensures
        r == all_zeros(t@.subrange(from as int, to as int)),
{
    let mut i: usize = from;
    while i < to
        invariant
            from <= i <= to <= t@.len(),
            forall|x: int| from <= x < i ==> t@[x] == '0',
        decreases to - i,
    {
        if t[i] != '0' {
            assert(t@.subrange(from as int, to as int)[i - from] != '0');
            return false;
        }
        i = i + 1;
    }
    assert forall|x: int| 0 <= x < to - from implies #[trigger] t@.subrange(from as int, to as int)[x]
        == '0' by {
        assert(t@.subrange(from as int, to as int)[x] == t@[from + x]);
    }
    true
}

/// `10^n` for `n <= 6`.
fn small_pow10(n: usize) -> (p: u64)
    requires
        n <= 6,
    ensures
        p == pow10(n as nat),
{
    let mut p: u64 = 1;
    let mut i: usize = 0;
    while i < n
        invariant
            i <= n <= 6,
            p == pow10(i as nat),
        decreases n - i,
    {
        proof {
            lemma_pow10_mono((i + 1) as nat, 6);
            reveal_with_fuel(pow10, 7);
            assert(pow10(6) == 1000000);
        }
        p = p * 10;
        i = i + 1;
    }
    p
}

/// Read a non-negative decimal amount (see [`amount_value`]): `None` for
/// text outside the grammar, `Some(None)` for an amount beyond `u64`
/// micro-units, else its micro-units.
pub fn amount_micros(t: &Vec<char>) -> (r: Option<Option<u64>>)
    ensures
        match r {
            None => amount_value(t@) is None,
            Some(None) => amount_value(t@) matches Some(v) && v > u64::MAX,
            Some(Some(m)) => amount_value(t@) == Some(m as int),
        },
{
    let n = t.len();
    let mut dot: Option<usize> = None;
    let mut i: usize = 0;
    while i < n
        invariant_except_break
            i <= n == t@.len(),
            dot is None,
            forall|j: int| 0 <= j < i ==> t@[j] != '.',
        ensures
            n == t@.len(),
            match dot {
                Some(k) => k < n && t@[k as int] == '.' && forall|j: int| 0 <= j < k ==> t@[j] != '.',
                None => forall|j: int| 0 <= j < n ==> t@[j] != '.',
            },
        decreases n - i,
    {
        if t[i] == '.' {
            dot = Some(i);
            break;
        }
        i = i + 1;
    }
    match dot {
        None => {
            assert(!exists|k: int| is_first_dot(t@, k)) by {
                if exists|k: int| is_first_dot(t@, k) {
                    let k = choose|k: int| is_first_dot(t@, k);
                    assert(t@[k] == '.');
                }
            }
            assert(t@.subrange(0, n as int) =~= t@);
            if n == 0 || !digits_between(t, 0, n) {
                return None;
            }
            proof {
                lemma_digits_bound(t@);
            }
            match digits_u64(t, 0, n) {
                None => Some(None),
                Some(v) => match v.checked_mul(MICROS_PER_UNIT) {
                    None => Some(None),
                    Some(m) => Some(Some(m)),
                },
            }
        },
        Some(k) => {
            assert(is_first_dot(t@, k as int));
            assert(forall|x: int| is_first_dot(t@, x) ==> x == k as int) by {
                assert forall|x: int| is_first_dot(t@, x) implies x == k as int by {
                    if x < k {
                        assert(t@[x] != '.');
                    } else if x > k {
                        assert(t@[k as int] != '.');
                    }
                }
            }
            let ghost ip = t@.take(k as int);
            let ghost fp = t@.skip(k + 1);
            assert(ip =~= t@.subrange(0, k as int));
            assert(fp =~= t@.subrange(k + 1, n as int));
            let flen = n - k - 1;
            if !digits_between(t, 0, k) || !digits_between(t, k + 1, n) || (k == 0 && flen == 0) {
                return None;
            }
            let f6: usize = if flen <= 6 { flen } else { 6 };
            if !zeros_between(t, k + 1 + f6, n) {
                proof {
                    assert(fp.skip(f6 as int) =~= t@.subrange(k + 1 + f6, n as int));
                }
                return None;
            }
            proof {
                assert(fp.skip(f6 as int) =~= t@.subrange(k + 1 + f6, n as int));
                assert(fp.take(f6 as int) =~= t@.subrange(k + 1, k + 1 + f6));
                assert(all_digits(t@.subrange(k + 1, k + 1 + f6))) by {
                    assert forall|x: int| 0 <= x < f6 implies is_digit(
                        #[trigger] t@.subrange(k + 1, k + 1 + f6)[x],
                    ) by {
                        assert(t@.subrange(k + 1, k + 1 + f6)[x] == fp[x]);
                    }
                }
                lemma_digits_bound(ip);
                lemma_digits_bound(fp.take(f6 as int));
            }
            let fv = match digits_u64(t, k + 1, k + 1 + f6) {
                Some(v) => v,
                None => {
                    proof {
                        assert(pow10(f6 as nat) <= 1000000) by {
                            lemma_pow10_mono(f6 as nat, 6);
                            assert(pow10(6) == 1000000) by {
                                reveal_with_fuel(pow10, 7);
                            }
                        }
                    }
                    return None;
                },
            };
            let scale = small_pow10(6 - f6);
            proof {
                assert(pow10(6) == 1000000) by {
                    reveal_with_fuel(pow10, 7);
                }
                lemma_pow10_split(f6 as nat, (6 - f6) as nat);
                assert(fv * scale < 1000000) by (nonlinear_arith)
                    requires
                        fv < pow10(f6 as nat),
                        pow10(f6 as nat) * scale == 1000000,
                ;
            }
            let frac = fv * scale;
            match digits_u64(t, 0, k) {
                None => {
                    assert(digits_value(ip) * 1000000 + frac > u64::MAX) by (nonlinear_arith)
                        requires
                            digits_value(ip) > u64::MAX,
                            frac >= 0,
                    ;
                    Some(None)
                },
                Some(iv) => match iv.checked_mul(MICROS_PER_UNIT) {
                    None => Some(None),
                    Some(w) => match w.checked_add(frac) {
                        None => Some(None),
                        Some(m) => Some(Some(m)),
                    },
                },
            }
        },
    }
}

/// `10^a * 10^b == 10^(a+b)`.
pub proof fn lemma_pow10_split(a: nat, b: nat)
    ensures
        pow10(a) * pow10(b) == pow10(a + b),
    decreases a,
{
    if a > 0 {
        let c = (a - 1) as nat;
        lemma_pow10_split(c, b);
        assert(pow10(c) * pow10(b) == pow10(c + b));
        assert(c + b == (a + b - 1) as nat);
        assert(pow10(a + b) == 10 * pow10((a + b - 1) as nat));
        let x = pow10(c);
        let y = pow10(b);
        assert(pow10(a) == 10 * x);
        assert((10 * x) * y == 10 * (x * y)) by (nonlinear_arith);
        assert(pow10(a) * pow10(b) == pow10(a + b));
    } else {
        assert(pow10(0) == 1);
        assert(pow10(a) * pow10(b) == pow10(b)) by (nonlinear_arith)
            requires
                pow10(a) == 1,
        ;
    }
}

/// `10^a <= 10^b` when `a <= b`.
pub proof fn lemma_pow10_mono(a: nat, b: nat)
    requires
        a <= b,
    ensures
        pow10(a) <= pow10(b),
    decreases b,
{
    if a < b {
        lemma_pow10_mono(a, (b - 1) as nat);
        lemma_pow10_positive((b - 1) as nat);
    }
}

} // verus!
