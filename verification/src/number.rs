//! Decimal numbers in text.

use vstd::arithmetic::power::{lemma_pow0, pow};
use vstd::prelude::*;

verus! {

/// Whether `c` is one of the ten ASCII digits.
pub open spec fn is_digit(c: char) -> bool {
    '0' <= c <= '9'
}

/// Whether `s` holds nothing but digits.
pub open spec fn all_digits(s: Seq<char>) -> bool {
    forall|i: int| 0 <= i < s.len() ==> is_digit(#[trigger] s[i])
}

/// What the digits `s` are worth, read in base ten; nothing is worth zero.
pub open spec fn value(s: Seq<char>) -> nat
    decreases s.len(),
{
    if s.len() == 0 {
        0
    } else {
        value(s.drop_last()) * 10 + (s.last() as u32 - '0' as u32) as nat
    }
}

/// The number that `s` writes: digits, at least one, and no more than `max`.
pub open spec fn magnitude(s: Seq<char>, max: nat) -> Option<nat> {
    if s.len() > 0 && all_digits(s) && value(s) <= max {
        Some(value(s))
    } else {
        None
    }
}

/// The unsigned number up to `max` that `s` writes; a plus sign may lead.
pub open spec fn unsigned(s: Seq<char>, max: nat) -> Option<nat> {
    if s.len() > 0 && s[0] == '+' {
        magnitude(s.skip(1), max)
    } else {
        magnitude(s, max)
    }
}

/// The 32-bit signed number that `s` writes; one sign may lead.
pub open spec fn signed(s: Seq<char>) -> Option<int> {
    if s.len() > 0 && s[0] == '-' {
        match magnitude(s.skip(1), 0x8000_0000) {
            Some(n) => Some(-(n as int)),
            None => None,
        }
    } else {
        match unsigned(s, 0x7fff_ffff) {
            Some(n) => Some(n as int),
            None => None,
        }
    }
}

/// The digits of `n` in base ten, without leading zeros.
pub open spec fn decimal(n: nat) -> Seq<char>
    decreases n,
{
    if n < 10 {
        seq![('0' as u32 + n) as char]
    } else {
        decimal(n / 10).push(('0' as u32 + n % 10) as char)
    }
}

/// The digits of `n`, with zeros in front as far as `width` digits ask for them.
pub open spec fn zero_padded(n: nat, width: nat) -> Seq<char> {
    let d = decimal(n);
    if d.len() < width {
        Seq::new((width - d.len()) as nat, |i: int| '0') + d
    } else {
        d
    }
}

/// Zeros in front change no value.
pub proof fn value_of_zeros_in_front(zeros: nat, s: Seq<char>)
    ensures
        value(Seq::new(zeros, |i: int| '0') + s) == value(s),
        all_digits(s) ==> all_digits(Seq::new(zeros, |i: int| '0') + s),
    decreases zeros + s.len(),
{
    let z = Seq::new(zeros, |i: int| '0');
    let t = z + s;
    if s.len() > 0 {
        assert(t.drop_last() =~= z + s.drop_last());
        value_of_zeros_in_front(zeros, s.drop_last());
    } else if zeros > 0 {
        let y = Seq::new((zeros - 1) as nat, |i: int| '0');
        assert(t.drop_last() =~= y + s);
        value_of_zeros_in_front((zeros - 1) as nat, s);
    }
    if all_digits(s) {
        assert forall|i: int| 0 <= i < t.len() implies is_digit(#[trigger] t[i]) by {
            if i >= zeros {
                assert(t[i] == s[i - zeros]);
            }
        }
    }
}

/// What is written out in base ten reads back as the same number.
pub proof fn decimal_reads_back(n: nat)
    ensures
        decimal(n).len() > 0,
        all_digits(decimal(n)),
        value(decimal(n)) == n,
        forall|max: nat| n <= max ==> #[trigger] unsigned(decimal(n), max) == Some(n),
    decreases n,
{
    reveal_with_fuel(value, 2);
    let d = decimal(n);
    if n >= 10 {
        decimal_reads_back(n / 10);
        assert(d.drop_last() =~= decimal(n / 10));
        assert forall|i: int| 0 <= i < d.len() implies is_digit(#[trigger] d[i]) by {
            if i < d.len() - 1 {
                assert(d[i] == decimal(n / 10)[i]);
            }
        }
    } else {
        assert(d.drop_last() =~= Seq::empty());
    }
    assert(is_digit(d[0]));
}

/// What is written with leading zeros reads back as the same number.
pub proof fn zero_padded_reads_back(n: nat, width: nat)
    ensures
        all_digits(zero_padded(n, width)),
        value(zero_padded(n, width)) == n,
        zero_padded(n, width).len() >= width,
        zero_padded(n, width).len() > 0,
{
    decimal_reads_back(n);
    let d = decimal(n);
    if d.len() < width {
        value_of_zeros_in_front((width - d.len()) as nat, d);
    }
}

/// Fewer digits are worth no more.
proof fn value_grows(s: Seq<char>, n: int)
    requires
        0 <= n <= s.len(),
        all_digits(s),
    ensures
        value(s.take(n)) <= value(s),
    decreases s.len() - n,
{
    if n < s.len() {
        assert(s.take(n + 1).drop_last() =~= s.take(n));
        value_grows(s, n + 1);
    } else {
        assert(s.take(n) =~= s);
    }
}

/// Whether `c` is one of the ten ASCII digits.
pub fn digit(c: char) -> (r: bool)
    ensures
        r == is_digit(c),
{
    '0' <= c && c <= '9'
}

/// Reads digits, at least one, worth no more than `max`.
pub fn read_magnitude(v: &[char], max: u64) -> (r: Option<u64>)
    ensures
        match r {
            Some(n) => magnitude(v@, max as nat) == Some(n as nat),
            None => magnitude(v@, max as nat) is None,
        },
{
    if v.len() == 0 {
        return None;
    }
    let mut n: u64 = 0;
    let mut i: usize = 0;
    while i < v.len()
        invariant
            i <= v@.len(),
            all_digits(v@.take(i as int)),
            n == value(v@.take(i as int)),
            n <= max,
        decreases v@.len() - i,
    {
        let c = v[i];
        let ghost t = v@.take(i + 1);
        assert(t.drop_last() =~= v@.take(i as int));
        if !digit(c) {
            assert(!is_digit(v@[i as int]));
            return None;
        }
        let d: u64 = (c as u32 - '0' as u32) as u64;
        if d > max || n > max / 10 || n * 10 > max - d {
            proof {
                assert(value(t) > max);
                if all_digits(v@) {
                    value_grows(v@, i + 1);
                }
            }
            return None;
        }
        n = n * 10 + d;
        assert forall|j: int| 0 <= j < t.len() implies is_digit(#[trigger] t[j]) by {
            if j < i {
                assert(t[j] == v@.take(i as int)[j]);
            }
        }
        i += 1;
    }
    assert(v@.take(v@.len() as int) =~= v@);
    Some(n)
}

/// Reads an unsigned number up to `max`; a plus sign may lead.
pub fn read_unsigned(v: &[char], max: u64) -> (r: Option<u64>)
    ensures
        match r {
            Some(n) => unsigned(v@, max as nat) == Some(n as nat),
            None => unsigned(v@, max as nat) is None,
        },
{
    if v.len() > 0 && v[0] == '+' {
        assert(v@.subrange(1, v@.len() as int) =~= v@.skip(1));
        read_magnitude(vstd::slice::slice_subrange(v, 1, v.len()), max)
    } else {
        read_magnitude(v, max)
    }
}

/// Whether `v` writes a 32-bit signed number other than zero.
pub fn reads_nonzero(v: &[char]) -> (r: bool)
    ensures
        r == (signed(v@) matches Some(n) && n != 0),
{
    if v.len() > 0 && v[0] == '-' {
        assert(v@.subrange(1, v@.len() as int) =~= v@.skip(1));
        match read_magnitude(vstd::slice::slice_subrange(v, 1, v.len()), 0x8000_0000) {
            Some(n) => n != 0,
            None => false,
        }
    } else {
        match read_unsigned(v, 0x7fff_ffff) {
            Some(n) => n != 0,
            None => false,
        }
    }
}

/// How many digits stand at the start of `s`.
pub open spec fn digit_run(s: Seq<char>) -> nat
    decreases s.len(),
{
    if s.len() > 0 && is_digit(s[0]) {
        1 + digit_run(s.skip(1))
    } else {
        0
    }
}

/// The digits at the start of `s`, up to the first character that is none.
pub open spec fn leading_digits(s: Seq<char>) -> Seq<char> {
    s.take(digit_run(s) as int)
}

/// Digits and then something else: the digits are what leads.
pub proof fn leading_digits_stop(digits: Seq<char>, rest: Seq<char>)
    requires
        all_digits(digits),
        rest.len() == 0 || !is_digit(rest[0]),
    ensures
        leading_digits(digits + rest) == digits,
        digit_run(digits + rest) == digits.len(),
    decreases digits.len(),
{
    let s = digits + rest;
    if digits.len() > 0 {
        let tail = digits.skip(1);
        assert forall|i: int| 0 <= i < tail.len() implies is_digit(#[trigger] tail[i]) by {
            assert(tail[i] == digits[i + 1]);
        }
        assert(s.skip(1) =~= tail + rest);
        assert(s[0] == digits[0]);
        leading_digits_stop(tail, rest);
    } else {
        assert(s =~= rest);
    }
    assert(s.take(digits.len() as int) =~= digits);
}

/// The digits at the start of `v`.
pub fn read_leading_digits(v: &[char]) -> (r: &[char])
    ensures
        r@ == leading_digits(v@),
{
    let mut n: usize = 0;
    assert(v@.skip(0) =~= v@);
    while n < v.len() && digit(v[n])
        invariant
            n <= v@.len(),
            digit_run(v@) == n + digit_run(v@.skip(n as int)),
        decreases v@.len() - n,
    {
        assert(v@.skip(n as int).skip(1) =~= v@.skip(n + 1));
        n += 1;
    }
    assert(v@.subrange(0, n as int) =~= v@.take(n as int));
    vstd::slice::slice_subrange(v, 0, n)
}

/// The character of the digit `d`.
fn digit_char(d: u8) -> (c: char)
    requires
        d < 10,
    ensures
        c == ('0' as u32 + d) as char,
{
    (0x30u8 + d) as char
}

/// Writes `n` in base ten.
pub fn write_decimal(n: u64) -> (s: String)
    ensures
        s@ == decimal(n as nat),
    decreases n,
{
    if n < 10 {
        let mut s = String::new();
        s.push(digit_char(n as u8));
        assert(s@ =~= decimal(n as nat));
        s
    } else {
        let mut s = write_decimal(n / 10);
        s.push(digit_char((n % 10) as u8));
        s
    }
}

/// Writes `n` in base ten with zeros in front as far as `width` digits ask for them.
pub fn write_zero_padded(n: u64, width: usize) -> (s: String)
    ensures
        s@ == zero_padded(n as nat, width as nat),
{
    let d = write_decimal(n);
    let v = crate::text::chars_of(d.as_str());
    let mut s = String::new();
    if v.len() < width {
        let zeros: usize = width - v.len();
        let mut i: usize = 0;
        while i < zeros
            invariant
                i <= zeros,
                s@ == Seq::new(i as nat, |i: int| '0'),
            decreases zeros - i,
        {
            s.push('0');
            i += 1;
            assert(s@ =~= Seq::new(i as nat, |i: int| '0'));
        }
    }
    let ghost front = s@;
    let mut j: usize = 0;
    assert(s@ =~= front + v@.take(0));
    while j < v.len()
        invariant
            j <= v@.len(),
            s@ == front + v@.take(j as int),
        decreases v@.len() - j,
    {
        s.push(v[j]);
        j += 1;
        assert(s@ =~= front + v@.take(j as int));
    }
    assert(v@.take(v@.len() as int) =~= v@);
    assert(s@ =~= zero_padded(n as nat, width as nat));
    s
}

/// A digit is one of ten characters, and digits are nothing else.
pub proof fn digits_are_known(c: char, s: Seq<char>)
    ensures
        is_digit(c) <==> 0x30 <= c as u32 <= 0x39,
        all_digits(s) <==> (forall|i: int| 0 <= i < s.len() ==> '0' <= (#[trigger] s[i]) <= '9'),
{
    if forall|i: int| 0 <= i < s.len() ==> '0' <= (#[trigger] s[i]) <= '9' {
        assert forall|i: int| 0 <= i < s.len() implies is_digit(#[trigger] s[i]) by {}
    }
    if all_digits(s) {
        assert forall|i: int| 0 <= i < s.len() implies '0' <= (#[trigger] s[i]) <= '9' by {
            assert(is_digit(s[i]));
        }
    }
}

/// A digit is worth a power of ten for every digit behind it.
pub proof fn digits_are_worth_powers_of_ten(c: char, rest: Seq<char>)
    requires
        0x30 <= c as u32 <= 0x39,
    ensures
        value(seq![c] + rest) == (c as u32 - 0x30) * pow(10, rest.len()) + value(rest),
        value(Seq::<char>::empty()) == 0,
    decreases rest.len(),
{
    let s = seq![c] + rest;
    let d = c as u32 - 0x30;
    if rest.len() == 0 {
        lemma_pow0(10);
        assert(s.drop_last() =~= Seq::empty());
        assert(s.last() == c);
        reveal_with_fuel(value, 2);
    } else {
        let fewer = rest.drop_last();
        digits_are_worth_powers_of_ten(c, fewer);
        assert(s.drop_last() =~= seq![c] + fewer);
        assert(s.last() == rest.last());
        let p = pow(10, fewer.len());
        assert(pow(10, rest.len()) == 10 * p) by {
            reveal(pow);
        }
        assert((d * p) * 10 == d * (10 * p)) by (nonlinear_arith);
    }
}

/// A number is written without zeros in front, and zero as one digit.
pub proof fn decimal_starts_with_its_greatest_digit(n: nat)
    ensures
        n > 0 ==> '1' <= decimal(n)[0] <= '9',
        decimal(0) == seq!['0'],
    decreases n,
{
    if n >= 10 {
        decimal_starts_with_its_greatest_digit(n / 10);
        decimal_reads_back(n / 10);
        assert(decimal(n)[0] == decimal(n / 10)[0]);
    }
    assert(decimal(0) =~= seq!['0']);
}

/// A number with zeros in front is as long as is asked for, or as long as it is; what is not the
/// number is zeros.
pub proof fn zeros_fill_the_width(n: nat, width: nat)
    ensures
        ({
            let s = zero_padded(n, width);
            let d = decimal(n);
            &&& s.len() == if d.len() < width {
                width
            } else {
                d.len()
            }
            &&& s.skip(s.len() - d.len()) == d
            &&& forall|i: int| 0 <= i < s.len() - d.len() ==> #[trigger] s[i] == '0'
        }),
{
    let s = zero_padded(n, width);
    let d = decimal(n);
    assert(s.skip(s.len() - d.len()) =~= d);
}

/// Digits are read as what they are worth, where that is not too much; a plus sign in front changes
/// nothing, and a minus sign the sign of a signed number.
pub proof fn digits_are_read(digits: Seq<char>, max: nat)
    requires
        digits.len() > 0,
        forall|i: int| 0 <= i < digits.len() ==> '0' <= (#[trigger] digits[i]) <= '9',
    ensures
        ({
            let n = value(digits);
            let read = if n <= max {
                Some(n)
            } else {
                None
            };
            let read_signed = if n <= 2147483647 {
                Some(n as int)
            } else {
                None
            };
            &&& magnitude(digits, max) == read
            &&& unsigned(digits, max) == read
            &&& unsigned(seq!['+'] + digits, max) == read
            &&& signed(digits) == read_signed
            &&& signed(seq!['+'] + digits) == read_signed
            &&& signed(seq!['-'] + digits) == (if n <= 2147483648 {
                Some(-n)
            } else {
                None
            })
        }),
{
    digits_are_known('0', digits);
    assert('0' <= digits[0] <= '9');
    assert((seq!['+'] + digits).skip(1) =~= digits);
    assert((seq!['-'] + digits).skip(1) =~= digits);
}

/// Nothing else is read as a number: no text without a digit, and none with something in it that is
/// no digit, save one sign in front.
pub proof fn other_text_is_no_number(s: Seq<char>, max: nat, i: int)
    ensures
        s.len() == 0 ==> magnitude(s, max) is None && unsigned(s, max) is None && signed(s) is None,
        s.len() == 1 && (s[0] == '+' || s[0] == '-') ==> unsigned(s, max) is None && signed(s)
            is None,
        0 <= i < s.len() && !('0' <= s[i] <= '9') ==> {
            &&& magnitude(s, max) is None
            &&& (i > 0 || s[0] != '+' ==> unsigned(s, max) is None)
            &&& (i > 0 || s[0] != '+' && s[0] != '-' ==> signed(s) is None)
        },
{
    if 0 <= i < s.len() && !('0' <= s[i] <= '9') {
        assert(!is_digit(s[i]));
        if i > 0 {
            assert(s.skip(1)[i - 1] == s[i]);
        }
    }
}

} // verus!
