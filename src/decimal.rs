use vstd::prelude::*;

verus! {

/// The character of a decimal digit `d < 10`.
pub open spec fn digit_char(d: nat) -> char {
    if d == 0 { '0' }
    else if d == 1 { '1' }
    else if d == 2 { '2' }
    else if d == 3 { '3' }
    else if d == 4 { '4' }
    else if d == 5 { '5' }
    else if d == 6 { '6' }
    else if d == 7 { '7' }
    else if d == 8 { '8' }
    else { '9' }
}

/// An ASCII decimal digit.
pub open spec fn is_digit(c: char) -> bool {
    '0' <= c && c <= '9'
}

/// The value of the digit `c`.
pub open spec fn digit_value(c: char) -> int {
    (c as int) - ('0' as int)
}

/// Every character of `d` is a digit.
pub open spec fn all_digits(d: Seq<char>) -> bool {
    forall|i: int| 0 <= i < d.len() ==> is_digit(#[trigger] d[i])
}

/// The number that a string of digits writes, most significant first.
pub open spec fn digits_value(d: Seq<char>) -> int
    decreases d.len(),
{
    if d.len() == 0 {
        0
    } else {
        digits_value(d.drop_last()) * 10 + digit_value(d.last())
    }
}

/// The shortest decimal text of `n`, without sign.
pub open spec fn nat_text(n: nat) -> Seq<char>
    decreases n,
{
    if n < 10 {
        seq![digit_char(n)]
    } else {
        nat_text(n / 10).push(digit_char(n % 10))
    }
}

/// The decimal text of `n`: a minus sign for negative values, then the digits.
pub open spec fn int_text(n: int) -> Seq<char> {
    if n < 0 {
        seq!['-'] + nat_text((-n) as nat)
    } else {
        nat_text(n as nat)
    }
}

/// Splits an optional sign from the digits: `+` always, `-` only where allowed.
pub open spec fn sign_split(t: Seq<char>, allow_minus: bool) -> (bool, Seq<char>) {
    if t.len() > 0 && t[0] == '+' {
        (false, t.drop_first())
    } else if allow_minus && t.len() > 0 && t[0] == '-' {
        (true, t.drop_first())
    } else {
        (false, t)
    }
}

/// The integer that `t` writes: an optional sign, then one or more ASCII digits,
/// nothing else.
pub open spec fn decimal_int(t: Seq<char>, allow_minus: bool) -> Option<int> {
    let d = sign_split(t, allow_minus).1;
    if d.len() > 0 && all_digits(d) {
        Some(if sign_split(t, allow_minus).0 { -digits_value(d) } else { digits_value(d) })
    } else {
        None
    }
}

/// The `i32` that `t` writes in decimal, if it writes one in range.
pub open spec fn i32_of(t: Seq<char>) -> Option<i32> {
    match decimal_int(t, true) {
        Some(v) => if i32::MIN <= v <= i32::MAX { Some(v as i32) } else { None },
        None => None,
    }
}

/// The `u16` that `t` writes in decimal, if it writes one in range.
pub open spec fn u16_of(t: Seq<char>) -> Option<u16> {
    match decimal_int(t, false) {
        Some(v) => if 0 <= v <= u16::MAX { Some(v as u16) } else { None },
        None => None,
    }
}

/// A digit string never writes a negative number.
proof fn lemma_digits_value_nonneg(d: Seq<char>)
    requires
        all_digits(d),
    ensures
        digits_value(d) >= 0,
    decreases d.len(),
{
    if d.len() > 0 {
        lemma_digits_value_nonneg(d.drop_last());
    }
}

/// A longer prefix of a digit string never writes a smaller number.
proof fn lemma_digits_value_monotone(d: Seq<char>, i: int, j: int)
    requires
        all_digits(d),
        0 <= i <= j <= d.len(),
    ensures
        digits_value(d.subrange(0, i)) <= digits_value(d.subrange(0, j)),
    decreases j - i,
{
    if i < j {
        lemma_digits_value_monotone(d, i, j - 1);
        let p = d.subrange(0, j);
        assert(p.drop_last() =~= d.subrange(0, j - 1));
        lemma_digits_value_nonneg(d.subrange(0, j - 1));
    }
}

/// Each digit character is a digit and stands for its own value.
proof fn lemma_digit_char(d: nat)
    requires
        d < 10,
    ensures
        is_digit(digit_char(d)),
        digit_value(digit_char(d)) == d,
{
}

/// The decimal text of `n` is a non-empty digit string that writes `n`.
pub proof fn lemma_nat_text_digits(n: nat)
    ensures
        nat_text(n).len() > 0,
        all_digits(nat_text(n)),
        digits_value(nat_text(n)) == n,
    decreases n,
{
    lemma_digit_char(n % 10);
    if n < 10 {
        assert(nat_text(n).drop_last() =~= Seq::<char>::empty());
        assert(digits_value(Seq::<char>::empty()) == 0);
    } else {
        lemma_nat_text_digits(n / 10);
        let t = nat_text(n);
        assert(t.drop_last() =~= nat_text(n / 10));
        assert(t.last() == digit_char(n % 10));
        assert(digits_value(t) == digits_value(nat_text(n / 10)) * 10 + digit_value(t.last()));
        assert(n == (n / 10) * 10 + n % 10);
        assert forall|i: int| 0 <= i < t.len() implies is_digit(#[trigger] t[i]) by {
            if i < t.len() - 1 {
                assert(t[i] == nat_text(n / 10)[i]);
            }
        }
    }
}

/// Reading back the decimal text of an integer gives the integer.
pub proof fn lemma_int_text_round_trip(n: int)
    ensures
        decimal_int(int_text(n), true) == Some(n),
        int_text(n).len() > 0,
{
    if n < 0 {
        lemma_nat_text_digits((-n) as nat);
        assert(int_text(n).drop_first() =~= nat_text((-n) as nat));
    } else {
        lemma_nat_text_digits(n as nat);
    }
}

/// The decimal text of an `i32` names that `i32`.
pub proof fn lemma_i32_text_round_trip(n: i32)
    ensures
        i32_of(int_text(n as int)) == Some(n),
{
    lemma_int_text_round_trip(n as int);
}

/// The text of one decimal digit.
fn digit_str(d: u32) -> (r: &'static str)
    requires
        d < 10,
    ensures
        r@ == seq![digit_char(d as nat)],
{
    proof {
        reveal_strlit("0");
        reveal_strlit("1");
        reveal_strlit("2");
        reveal_strlit("3");
        reveal_strlit("4");
        reveal_strlit("5");
        reveal_strlit("6");
        reveal_strlit("7");
        reveal_strlit("8");
        reveal_strlit("9");
    }
    if d == 0 { "0" }
    else if d == 1 { "1" }
    else if d == 2 { "2" }
    else if d == 3 { "3" }
    else if d == 4 { "4" }
    else if d == 5 { "5" }
    else if d == 6 { "6" }
    else if d == 7 { "7" }
    else if d == 8 { "8" }
    else { "9" }
}

/// Appends the decimal digits of `n` to `s`.
pub fn push_nat_text(s: &mut String, n: u32)
    ensures
        final(s)@ == old(s)@ + nat_text(n as nat),
    decreases n,
{
    if n >= 10 {
        push_nat_text(s, n / 10);
    }
    s.append(digit_str(n % 10));
    proof {
        if n >= 10 {
            assert(nat_text(n as nat) == nat_text((n / 10) as nat).push(digit_char((n % 10) as nat)));
        }
    }
    assert(final(s)@ =~= old(s)@ + nat_text(n as nat));
}

/// Appends the decimal text of `n` to `s`, with a minus sign where it is negative.
pub fn push_int_text(s: &mut String, n: i32)
    ensures
        final(s)@ == old(s)@ + int_text(n as int),
{
    if n < 0 {
        proof {
            reveal_strlit("-");
        }
        s.append("-");
        let m: u32 = (-(n as i64)) as u32;
        push_nat_text(s, m);
        assert(final(s)@ =~= old(s)@ + int_text(n as int));
    } else {
        push_nat_text(s, n as u32);
    }
}

/// Reads the integer that `t` writes in decimal, when it lies in `lo..=hi`.
fn decimal_in_range(t: &str, allow_minus: bool, lo: i64, hi: i64) -> (r: Option<i64>)
    requires
        -0x1_0000_0000 <= lo <= 0 <= hi <= 0x1_0000_0000,
    ensures
        r == (match decimal_int(t@, allow_minus) {
            Some(v) => if lo <= v <= hi { Some(v as i64) } else { None },
            None => None,
        }),
{
    let n = t.unicode_len();
    let ghost sd = sign_split(t@, allow_minus);
    let mut start: usize = 0;
    let mut neg = false;
    if n > 0 {
        let c = t.get_char(0);
        if c == '+' {
            start = 1;
        } else if allow_minus && c == '-' {
            start = 1;
            neg = true;
        }
    }
    let ghost d = t@.subrange(start as int, n as int);
    assert(sd.0 == neg && sd.1 =~= d);
    if start == n {
        return None;
    }
    let mut acc: i64 = 0;
    let mut i: usize = start;
    while i < n
        invariant
            start <= i <= n,
            start < n,
            -0x1_0000_0000 <= lo <= 0 <= hi <= 0x1_0000_0000,
            n == t@.len(),
            d == t@.subrange(start as int, n as int),
            sign_split(t@, allow_minus).1 == d,
            sign_split(t@, allow_minus).0 == neg,
            all_digits(d.subrange(0, i - start)),
            acc == digits_value(d.subrange(0, i - start)),
            0 <= acc <= 0x1_0000_0000,
        decreases n - i,
    {
        let c = t.get_char(i);
        if !(c >= '0' && c <= '9') {
            assert(!is_digit(d[i - start]));
            assert(!all_digits(d));
            return None;
        }
        let ghost p = d.subrange(0, i - start + 1);
        assert(p.drop_last() =~= d.subrange(0, i - start));
        assert(all_digits(p)) by {
            assert forall|k: int| 0 <= k < p.len() implies is_digit(#[trigger] p[k]) by {
                if k < p.len() - 1 {
                    assert(p[k] == d.subrange(0, i - start)[k]);
                }
            }
        }
        assert(p.last() == c);
        acc = acc * 10 + (c as u32 - '0' as u32) as i64;
        assert(acc == digits_value(p));
        i = i + 1;
        if acc > 0x1_0000_0000 {
            proof {
                if all_digits(d) {
                    lemma_digits_value_monotone(d, i - start, d.len() as int);
                    assert(d.subrange(0, d.len() as int) =~= d);
                    assert(p =~= d.subrange(0, i - start));
                }
            }
            return None;
        }
    }
    assert(d.subrange(0, n - start) =~= d);
    if neg {
        if -acc < lo {
            None
        } else {
            Some(-acc)
        }
    } else {
        if acc > hi {
            None
        } else {
            Some(acc)
        }
    }
}

/// Reads an `i32` written in decimal: an optional `+` or `-`, then ASCII digits.
pub fn parse_i32_text(t: &str) -> (r: Option<i32>)
    ensures
        r == i32_of(t@),
{
    match decimal_in_range(t, true, i32::MIN as i64, i32::MAX as i64) {
        Some(v) => Some(v as i32),
        None => None,
    }
}

/// Reads a `u16` written in decimal: an optional `+`, then ASCII digits.
pub fn parse_u16_text(t: &str) -> (r: Option<u16>)
    ensures
        r == u16_of(t@),
{
    match decimal_in_range(t, false, 0, u16::MAX as i64) {
        Some(v) => Some(v as u16),
        None => None,
    }
}

} // verus!
