//! Decimal numerals: writing a number out and reading one back.

use vstd::prelude::*;

use crate::text;

verus! {

/// The character for the digit `d`.
pub open spec fn digit_char(d: int) -> char {
    (48 + d) as char
}

/// The digit that the character `c` stands for.
pub open spec fn digit_value(c: char) -> nat {
    (c as u32 - 48) as nat
}

/// The decimal numeral of `n`, without leading zeros.
pub open spec fn numeral(n: nat) -> Seq<char>
    decreases n,
{
    if n < 10 {
        seq![digit_char(n as int)]
    } else {
        numeral(n / 10).push(digit_char((n % 10) as int))
    }
}

/// Whether `s` is a non-empty run of decimal digits.
pub open spec fn is_numeral(s: Seq<char>) -> bool {
    s.len() > 0 && forall|i: int| 0 <= i < s.len() ==> text::is_digit(#[trigger] s[i])
}

/// The number that the digits of `s` stand for.
pub open spec fn value(s: Seq<char>) -> nat
    decreases s.len(),
{
    if s.len() == 0 {
        0
    } else {
        value(s.drop_last()) * 10 + digit_value(s.last())
    }
}

/// The number that `s` names: digits, after an optional `+`.
pub open spec fn number_of(s: Seq<char>) -> Option<nat> {
    let digits = if s.len() > 0 && s[0] == '+' {
        s.drop_first()
    } else {
        s
    };
    if is_numeral(digits) {
        Some(value(digits))
    } else {
        None
    }
}

/// The `u64` that `s` names, if it names one that fits.
pub open spec fn u64_of(s: Seq<char>) -> Option<u64> {
    match number_of(s) {
        Some(n) => if n <= u64::MAX {
            Some(n as u64)
        } else {
            None
        },
        None => None,
    }
}

/// A longer run of digits never stands for a smaller number.
proof fn value_grows(s: Seq<char>, k: int)
    requires
        0 <= k <= s.len(),
    ensures
        value(s.take(k)) <= value(s),
    decreases s.len() - k,
{
    if k < s.len() {
        value_grows(s, k + 1);
        assert(s.take(k + 1).drop_last() == s.take(k));
    } else {
        assert(s.take(k) == s);
    }
}

/// Reading a numeral back gives the number that was written.
pub proof fn numeral_reads_back(n: nat)
    ensures
        is_numeral(numeral(n)),
        value(numeral(n)) == n,
        number_of(numeral(n)) == Some(n),
    decreases n,
{
    if n < 10 {
        assert(numeral(n).drop_last() == Seq::<char>::empty());
        assert(value(numeral(n).drop_last()) == 0);
    } else {
        numeral_reads_back(n / 10);
        assert(numeral(n).drop_last() == numeral(n / 10));
    }
    assert(text::is_digit(numeral(n)[0]));
}

/// The numeral of a positive number does not start with a zero.
pub proof fn numeral_has_no_leading_zero(n: nat)
    requires
        n > 0,
    ensures
        numeral(n).len() > 0,
        numeral(n)[0] != '0',
    decreases n,
{
    if n >= 10 {
        numeral_has_no_leading_zero(n / 10);
    }
}

/// The character for the digit `d`.
fn digit_to_char(d: u64) -> (r: char)
    requires
        d < 10,
    ensures
        r == digit_char(d as int),
{
    (48 + d as u8) as char
}

/// Append the decimal numeral of `n` to `out`.
pub fn push_numeral(out: &mut String, n: u64)
    ensures
        final(out)@ == old(out)@ + numeral(n as nat),
    decreases n,
{
    if n >= 10 {
        push_numeral(out, n / 10);
    }
    out.push(digit_to_char(n % 10));
    assert(out@ == old(out)@ + numeral(n as nat));
}

/// The decimal numeral of `n`.
pub fn numeral_text(n: u64) -> (r: String)
    ensures
        r@ == numeral(n as nat),
{
    let mut out: String = String::new();
    push_numeral(&mut out, n);
    assert(Seq::<char>::empty() + numeral(n as nat) == numeral(n as nat));
    out
}

/// Read `chars[lo..hi]` as a number that fits in 64 bits.
pub fn parse_u64(chars: &Vec<char>, lo: usize, hi: usize) -> (r: Option<u64>)
    requires
        lo <= hi <= chars@.len(),
    ensures
        r == u64_of(chars@.subrange(lo as int, hi as int)),
{
    let ghost all = chars@.subrange(lo as int, hi as int);
    let mut i: usize = lo;
    if i < hi && chars[i] == '+' {
        i = i + 1;
    }
    let ghost digits = chars@.subrange(i as int, hi as int);
    assert(digits == if all.len() > 0 && all[0] == '+' {
        all.drop_first()
    } else {
        all
    });
    if i == hi {
        return None;
    }
    let start: usize = i;
    let mut n: u64 = 0;
    while i < hi
        invariant
            lo <= start <= i <= hi <= chars@.len(),
            all == chars@.subrange(lo as int, hi as int),
            number_of(all) == if is_numeral(digits) {
                Some(value(digits))
            } else {
                None
            },
            digits == chars@.subrange(start as int, hi as int),
            n == value(digits.take(i - start)),
            forall|j: int| 0 <= j < i - start ==> text::is_digit(#[trigger] digits[j]),
        decreases hi - i,
    {
        let c = chars[i];
        assert(digits[i - start] == c);
        if !text::digit(c) {
            return None;
        }
        proof {
            assert(digits.take(i - start + 1).drop_last() == digits.take(i - start));
            value_grows(digits, i - start + 1);
        }
        let d: u64 = c as u64 - 48;
        if n > (u64::MAX - d) / 10 {
            return None;
        }
        n = n * 10 + d;
        i = i + 1;
    }
    assert(digits.take(i - start) == digits);
    Some(n)
}

// ---------------------------------------------------------------------------
// Laws
// ---------------------------------------------------------------------------

/// The ten digits and what they stand for.
pub proof fn digits_have_their_values()
    ensures
        digit_value('0') == 0 && digit_char(0) == '0',
        digit_value('1') == 1 && digit_char(1) == '1',
        digit_value('2') == 2 && digit_char(2) == '2',
        digit_value('3') == 3 && digit_char(3) == '3',
        digit_value('4') == 4 && digit_char(4) == '4',
        digit_value('5') == 5 && digit_char(5) == '5',
        digit_value('6') == 6 && digit_char(6) == '6',
        digit_value('7') == 7 && digit_char(7) == '7',
        digit_value('8') == 8 && digit_char(8) == '8',
        digit_value('9') == 9 && digit_char(9) == '9',
{
}

/// A digit behind a numeral makes it ten times as large, plus the digit.
pub proof fn numerals_are_decimal(s: Seq<char>, c: char)
    requires
        '0' <= c <= '9',
    ensures
        value(seq![c]) == c as u32 - '0' as u32,
        value(s.push(c)) == 10 * value(s) + (c as u32 - '0' as u32),
{
    assert(seq![c].drop_last() =~= Seq::<char>::empty());
    reveal_with_fuel(value, 2);
    assert(s.push(c).drop_last() =~= s);
}

/// A number has one numeral without leading zeros, and that is the one written.
pub proof fn numerals_are_unique(s: Seq<char>)
    requires
        is_numeral(s),
        s.len() == 1 || s[0] != '0',
    ensures
        s == numeral(value(s)),
    decreases s.len(),
{
    let front = s.drop_last();
    let d = digit_value(s.last());
    assert(text::is_digit(s[s.len() - 1]));
    assert(d < 10);
    if s.len() == 1 {
        assert(value(front) == 0);
        assert(s =~= seq![digit_char(d as int)]);
    } else {
        assert forall|i: int| 0 <= i < front.len() implies text::is_digit(#[trigger] front[i]) by {
            assert(front[i] == s[i]);
        }
        assert(front[0] == s[0]);
        numerals_are_unique(front);
        first_digit_counts(front);
        assert(value(s) / 10 == value(front) && value(s) % 10 == d);
        assert(s =~= front.push(digit_char(d as int)));
    }
}

/// A numeral that does not start with a zero stands for no zero.
proof fn first_digit_counts(s: Seq<char>)
    requires
        is_numeral(s),
        s[0] != '0',
    ensures
        value(s) > 0,
    decreases s.len(),
{
    if s.len() > 1 {
        let front = s.drop_last();
        assert forall|i: int| 0 <= i < front.len() implies text::is_digit(#[trigger] front[i]) by {
            assert(front[i] == s[i]);
        }
        assert(front[0] == s[0]);
        first_digit_counts(front);
    } else {
        assert(text::is_digit(s[0]));
    }
}

/// Which texts are read as a number: digits alone, or behind one plus sign, as
/// long as the number fits; nothing else.
pub proof fn numbers_are_digits(s: Seq<char>)
    ensures
        is_numeral(s) ==> u64_of(s) == (if value(s) <= 0xffff_ffff_ffff_ffff {
            Some(value(s) as u64)
        } else {
            None
        }),
        is_numeral(s) ==> u64_of(seq!['+'] + s) == u64_of(s),
        u64_of(s) is Some ==> is_numeral(s) || (s[0] == '+' && is_numeral(s.skip(1))),
{
    if is_numeral(s) {
        assert(text::is_digit(s[0]));
    }
    assert((seq!['+'] + s).drop_first() =~= s);
    if s.len() > 0 {
        assert(s.drop_first() =~= s.skip(1));
    }
}

/// A numeral is written behind what was there: digits that stand for the number.
pub proof fn numerals_are_appended(out: &mut String, n: u64)
    requires
        call_ensures(push_numeral, (out, n), ()),
    ensures
        old(out)@.is_prefix_of(final(out)@),
        number_of(final(out)@.skip(old(out)@.len() as int)) == Some(n as nat),
        final(out)@.len() > old(out)@.len(),
{
    numeral_reads_back(n as nat);
    assert(final(out)@.subrange(0, old(out)@.len() as int) =~= old(out)@);
    assert(final(out)@.skip(old(out)@.len() as int) =~= numeral(n as nat));
}

/// What was written out is read back.
pub proof fn numbers_survive_writing(n: u64, text: String, chars: Vec<char>, hi: usize, r: Option<u64>)
    requires
        call_ensures(numeral_text, (n,), text),
        chars@ == text@,
        hi == chars@.len(),
        call_ensures(parse_u64, (&chars, 0, hi), r),
    ensures
        r == Some(n),
{
    numeral_reads_back(n as nat);
    assert(chars@.subrange(0, hi as int) =~= chars@);
}

} // verus!
