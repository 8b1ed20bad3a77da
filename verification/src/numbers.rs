//! Decimal text of numbers, in both directions, and the clock formats built on it.
use crate::text::push_char;
use vstd::prelude::*;

verus! {

/// The character of the decimal digit `d`.
pub open spec fn digit_char(d: nat) -> char
    recommends
        d < 10,
{
    if d == 0 {
        '0'
    } else if d == 1 {
        '1'
    } else if d == 2 {
        '2'
    } else if d == 3 {
        '3'
    } else if d == 4 {
        '4'
    } else if d == 5 {
        '5'
    } else if d == 6 {
        '6'
    } else if d == 7 {
        '7'
    } else if d == 8 {
        '8'
    } else {
        '9'
    }
}

/// `c` is one of the ten decimal digits.
pub open spec fn is_digit(c: char) -> bool {
    '0' <= c <= '9'
}

/// The value of the decimal digit `c`.
pub open spec fn digit_value(c: char) -> nat
    recommends
        is_digit(c),
{
    (c as nat - '0' as nat) as nat
}

/// The decimal text of `n`, without leading zeros.
pub open spec fn decimal(n: nat) -> Seq<char>
    decreases n,
{
    if n < 10 {
        seq![digit_char(n)]
    } else {
        decimal(n / 10).push(digit_char(n % 10))
    }
}

/// `count` zeros.
pub open spec fn zeros(count: nat) -> Seq<char> {
    Seq::new(count, |i: int| '0')
}

/// The decimal text of `n`, with zeros in front where it has fewer than `width`
/// digits.
pub open spec fn zero_padded(n: nat, width: nat) -> Seq<char> {
    if decimal(n).len() >= width {
        decimal(n)
    } else {
        zeros((width - decimal(n).len()) as nat) + decimal(n)
    }
}

/// The decimal text of `n` with `separator` between groups of three digits,
/// counted from the right.
pub open spec fn grouped(n: nat, separator: Seq<char>) -> Seq<char>
    decreases n,
{
    if n < 1000 {
        decimal(n)
    } else {
        grouped(n / 1000, separator) + separator + zero_padded(n % 1000, 3)
    }
}

/// Every character of `s` is a decimal digit.
pub open spec fn all_digits(s: Seq<char>) -> bool {
    forall|i: int| 0 <= i < s.len() ==> is_digit(#[trigger] s[i])
}

/// The number that the digits of `s` write.
pub open spec fn digits_value(s: Seq<char>) -> nat
    decreases s.len(),
{
    if s.len() == 0 {
        0
    } else {
        digits_value(s.drop_last()) * 10 + digit_value(s.last())
    }
}

/// `s` without a sign in front. A minus sign counts only where `signed`.
pub open spec fn unsigned_part(s: Seq<char>, signed: bool) -> Seq<char> {
    if s.len() > 0 && (s[0] == '+' || (signed && s[0] == '-')) {
        s.skip(1)
    } else {
        s
    }
}

/// The integer that `s` writes: an optional sign, `+` or (where `signed`) `-`,
/// then one or more decimal digits and nothing else. `None` for any other text.
pub open spec fn parsed_integer(s: Seq<char>, signed: bool) -> Option<int> {
    let body = unsigned_part(s, signed);
    if body.len() > 0 && all_digits(body) {
        if signed && s[0] == '-' {
            Some(-(digits_value(body) as int))
        } else {
            Some(digits_value(body) as int)
        }
    } else {
        None
    }
}

/// The `u32` that `s` writes, `None` where it writes none or one out of range.
pub open spec fn parsed_u32(s: Seq<char>) -> Option<u32> {
    match parsed_integer(s, false) {
        Some(v) => if v <= u32::MAX {
            Some(v as u32)
        } else {
            None
        },
        None => None,
    }
}

/// The `i32` that `s` writes, `None` where it writes none or one out of range.
pub open spec fn parsed_i32(s: Seq<char>) -> Option<i32> {
    match parsed_integer(s, true) {
        Some(v) => if i32::MIN <= v <= i32::MAX {
            Some(v as i32)
        } else {
            None
        },
        None => None,
    }
}

/// The integer that `x` holds.
pub open spec fn integer(x: i32) -> int {
    x as int
}

/// The natural number that `x` holds.
pub open spec fn natural(x: u64) -> int {
    x as int
}

/// A number does not get smaller when digits are written behind it.
pub proof fn lemma_digits_value_grows(s: Seq<char>, i: int)
    requires
        0 <= i <= s.len(),
    ensures
        digits_value(s.take(i)) <= digits_value(s),
    decreases s.len() - i,
{
    if i < s.len() {
        lemma_digits_value_grows(s, i + 1);
        assert(s.take(i + 1).drop_last() == s.take(i));
    } else {
        assert(s.take(i) == s);
    }
}

fn digit_to_char(d: u8) -> (c: char)
    requires
        d < 10,
    ensures
        c == digit_char(d as nat),
{
    if d == 0 {
        '0'
    } else if d == 1 {
        '1'
    } else if d == 2 {
        '2'
    } else if d == 3 {
        '3'
    } else if d == 4 {
        '4'
    } else if d == 5 {
        '5'
    } else if d == 6 {
        '6'
    } else if d == 7 {
        '7'
    } else if d == 8 {
        '8'
    } else {
        '9'
    }
}

/// Appends the decimal text of `n` to `out`.
pub fn push_decimal(out: &mut String, n: u64)
    ensures
        final(out)@ == old(out)@ + decimal(n as nat),
    decreases n,
{
    if n >= 10 {
        push_decimal(out, n / 10);
    }
    push_char(out, digit_to_char((n % 10) as u8));
    assert(final(out)@ == old(out)@ + decimal(n as nat)) by {
        if n >= 10 {
            assert(old(out)@ + decimal(n as nat) == (old(out)@ + decimal((n / 10) as nat)).push(
                digit_char((n % 10) as nat),
            ));
        } else {
            assert(old(out)@ + seq![digit_char(n as nat)] == old(out)@.push(digit_char(n as nat)));
        }
    }
}

/// The number of digits of `n`.
pub fn decimal_len(n: u64) -> (r: usize)
    ensures
        r == decimal(n as nat).len(),
        1 <= r <= 20,
{
    let mut count: usize = 1;
    let mut rest: u64 = n;
    proof {
        lemma_decimal_len_bound(n as nat);
    }
    while rest >= 10
        invariant
            1 <= count,
            decimal(n as nat).len() == decimal(rest as nat).len() + count - 1,
            count as int + decimal(rest as nat).len() <= 21,
        decreases rest,
    {
        proof {
            lemma_decimal_len_bound(rest as nat);
        }
        rest = rest / 10;
        count += 1;
    }
    proof {
        lemma_decimal_len_bound(n as nat);
    }
    count
}

/// A number below `10^20` has at most twenty digits; this covers `u64`.
pub proof fn lemma_decimal_len_bound(n: nat)
    ensures
        decimal(n).len() >= 1,
        n < 10 ==> decimal(n).len() == 1,
        n >= 10 ==> decimal(n).len() == decimal(n / 10).len() + 1,
        n <= u64::MAX ==> decimal(n).len() <= 20,
{
    reveal_with_fuel(decimal, 21);
}

/// Appends the decimal text of `n` to `out`, with zeros in front up to `width`
/// characters.
pub fn push_zero_padded(out: &mut String, n: u64, width: usize)
    ensures
        final(out)@ == old(out)@ + zero_padded(n as nat, width as nat),
{
    let len = decimal_len(n);
    let mut i: usize = len;
    while i < width
        invariant
            len <= i,
            len == decimal(n as nat).len(),
            len < width ==> i <= width,
            len >= width ==> i == len,
            out@ == old(out)@ + zeros((i - len) as nat),
        decreases width - i,
    {
        push_char(out, '0');
        assert(zeros((i + 1 - len) as nat) == zeros((i - len) as nat).push('0'));
        i += 1;
    }
    let ghost mid = out@;
    push_decimal(out, n);
    proof {
        if len >= width {
            assert(i == len);
            assert(zeros(0).len() == 0);
            assert(old(out)@ + zeros(0) == old(out)@);
            assert(mid == old(out)@);
            assert(zero_padded(n as nat, width as nat) == decimal(n as nat));
        } else {
            assert(i == width);
            assert(out@ == old(out)@ + (zeros((width - len) as nat) + decimal(n as nat)));
            assert(zero_padded(n as nat, width as nat) == zeros((width - len) as nat) + decimal(
                n as nat,
            ));
        }
    }
}

/// The decimal text of `n`.
pub fn to_decimal(n: u64) -> (r: String)
    ensures
        r@ == decimal(n as nat),
{
    let mut out = String::new();
    push_decimal(&mut out, n);
    out
}

/// Appends to `out` the decimal text of `n` with `separator` between groups of
/// three digits.
pub fn push_grouped(out: &mut String, n: u64, separator: &str)
    ensures
        final(out)@ == old(out)@ + grouped(n as nat, separator@),
    decreases n,
{
    if n < 1000 {
        push_decimal(out, n);
    } else {
        push_grouped(out, n / 1000, separator);
        out.append(separator);
        push_zero_padded(out, n % 1000, 3);
        assert(final(out)@ == old(out)@ + grouped(n as nat, separator@)) by {
            assert(old(out)@ + (grouped((n / 1000) as nat, separator@) + separator@ + zero_padded(
                (n % 1000) as nat,
                3,
            )) == old(out)@ + grouped((n / 1000) as nat, separator@) + separator@ + zero_padded(
                (n % 1000) as nat,
                3,
            ));
        }
    }
}

fn char_digit(c: char) -> (r: Option<u8>)
    ensures
        match r {
            Some(d) => is_digit(c) && d == digit_value(c),
            None => !is_digit(c),
        },
{
    if '0' <= c && c <= '9' {
        Some(((c as u32) - ('0' as u32)) as u8)
    } else {
        None
    }
}

/// Reads `s` from character `from` on as a run of digits whose value is at most
/// `limit`.
fn parse_digits(s: &str, from: usize, limit: u64) -> (r: Option<u64>)
    requires
        from <= s@.len(),
        limit <= u32::MAX + 1,
    ensures
        match r {
            Some(v) => all_digits(s@.skip(from as int)) && s@.len() > from && v == digits_value(
                s@.skip(from as int),
            ) && v <= limit,
            None => !(all_digits(s@.skip(from as int)) && s@.len() > from && digits_value(
                s@.skip(from as int),
            ) <= limit),
        },
{
    let len = s.unicode_len();
    if len == from {
        return None;
    }
    let ghost body = s@.skip(from as int);
    let mut acc: u64 = 0;
    let mut i: usize = from;
    assert(body.take(0).len() == 0);
    while i < len
        invariant
            from <= i <= len,
            len == s@.len(),
            body == s@.skip(from as int),
            all_digits(body.take(i - from)),
            acc == digits_value(body.take(i - from)),
            acc <= limit,
            limit <= u32::MAX + 1,
        decreases len - i,
    {
        let c = s.get_char(i);
        let ghost prefix = body.take(i - from);
        let ghost next = body.take(i + 1 - from);
        assert(next.drop_last() == prefix);
        assert(next.last() == c);
        match char_digit(c) {
            None => {
                assert(!is_digit(body[i - from]));
                return None;
            },
            Some(d) => {
                acc = acc * 10 + d as u64;
                assert(all_digits(next)) by {
                    assert forall|j: int| 0 <= j < next.len() implies is_digit(
                        #[trigger] next[j],
                    ) by {
                        if j < prefix.len() {
                            assert(next[j] == prefix[j]);
                        }
                    }
                }
                if acc > limit {
                    proof {
                        lemma_digits_value_grows(body, i + 1 - from);
                    }
                    return None;
                }
            },
        }
        i += 1;
    }
    assert(body.take(len - from) == body);
    Some(acc)
}

/// Reads `s` as a `u32`: an optional `+`, then decimal digits and nothing else.
pub fn parse_u32(s: &str) -> (r: Option<u32>)
    ensures
        r == parsed_u32(s@),
{
    let len = s.unicode_len();
    let from: usize = if len > 0 && s.get_char(0) == '+' {
        1
    } else {
        0
    };
    assert(s@.skip(0) == s@);
    match parse_digits(s, from, 0xffff_ffff) {
        Some(v) => Some(v as u32),
        None => None,
    }
}

/// Reads `s` as an `i32`: an optional `+` or `-`, then decimal digits and
/// nothing else.
pub fn parse_i32(s: &str) -> (r: Option<i32>)
    ensures
        r == parsed_i32(s@),
{
    let len = s.unicode_len();
    assert(s@.skip(0) == s@);
    if len > 0 && s.get_char(0) == '-' {
        match parse_digits(s, 1, 0x8000_0000) {
            Some(v) => Some((-(v as i64)) as i32),
            None => None,
        }
    } else {
        let from: usize = if len > 0 && s.get_char(0) == '+' {
            1
        } else {
            0
        };
        match parse_digits(s, from, 0x7fff_ffff) {
            Some(v) => Some(v as i32),
            None => None,
        }
    }
}

} // verus!
