//! Amounts as they are typed: an optional sign, digits, and optionally a
//! point with digits before it, after it or both, two at most after it.
//! `12.5` is twelve units and fifty hundredths, counted as 1250 minor units;
//! `+5`, `5.` and `.5` are amounts too.
//!
//! What does not name a whole number of minor units in this way is no
//! amount: more than two digits after the point, an exponent as in `1e2`,
//! and the words for infinity and for what is not a number.

use crate::money::fits_amount;
use crate::text::{chars_of, find_from};
use vstd::prelude::*;

verus! {

/// Whether `c` is one of the ten digits.
pub open spec fn is_digit(c: char) -> bool {
    '0' <= c <= '9'
}

/// The digit that `c` writes.
pub open spec fn digit_value(c: char) -> int {
    c as int - '0' as int
}

/// Whether every character of `s` is a digit.
pub open spec fn all_digits(s: Seq<char>) -> bool {
    forall|i: int| 0 <= i < s.len() ==> is_digit(#[trigger] s[i])
}

/// The number that the digits of `s` write in base ten.
pub open spec fn digits_value(s: Seq<char>) -> int
    decreases s.len(),
{
    if s.len() == 0 {
        0
    } else {
        digits_value(s.drop_last()) * 10 + digit_value(s.last())
    }
}

/// The minor units that `whole` units and the decimals `cents` come to.
pub open spec fn units_and_cents(whole: Seq<char>, cents: Seq<char>) -> int {
    digits_value(whole) * 100 + if cents.len() == 1 {
        digits_value(cents) * 10
    } else {
        digits_value(cents)
    }
}

/// The minor units that an unsigned amount writes, if it is one: digits,
/// or digits around a point of which those before it or those after it may
/// be missing, but not both, and of which two at most stand after it.
pub open spec fn unsigned_minor_units(s: Seq<char>) -> Option<int> {
    match s.index_of_first('.') {
        Some(at) => {
            let whole = s.take(at);
            let cents = s.skip(at + 1);
            if (whole.len() > 0 || cents.len() > 0) && all_digits(whole) && cents.len() <= 2
                && all_digits(cents) {
                Some(units_and_cents(whole, cents))
            } else {
                None
            }
        },
        None => if s.len() > 0 && all_digits(s) {
            Some(digits_value(s) * 100)
        } else {
            None
        },
    }
}

/// The minor units that an amount writes, if it is one: an unsigned amount,
/// or one behind a plus sign, or the opposite of one behind a minus sign.
pub open spec fn minor_units(s: Seq<char>) -> Option<int> {
    if s.len() > 0 && s[0] == '-' {
        match unsigned_minor_units(s.skip(1)) {
            Some(v) => Some(-v),
            None => None,
        }
    } else if s.len() > 0 && s[0] == '+' {
        unsigned_minor_units(s.skip(1))
    } else {
        unsigned_minor_units(s)
    }
}

/// The amount that `s` writes, if it writes one that can be held.
pub open spec fn amount_of(s: Seq<char>) -> Option<i64> {
    match minor_units(s) {
        Some(v) => if fits_amount(v) {
            Some(v as i64)
        } else {
            None
        },
        None => None,
    }
}

/// The number written by digits is not negative, and grows with each digit.
pub proof fn lemma_digits_value_bounds(s: Seq<char>)
    requires
        all_digits(s),
    ensures
        0 <= digits_value(s),
        s.len() > 0 ==> digits_value(s.drop_last()) <= digits_value(s),
    decreases s.len(),
{
    if s.len() > 0 {
        assert(all_digits(s.drop_last())) by {
            assert forall|i: int| 0 <= i < s.drop_last().len() implies is_digit(
                #[trigger] s.drop_last()[i],
            ) by {
                assert(s.drop_last()[i] == s[i]);
            }
        }
        assert(is_digit(s.last()));
        lemma_digits_value_bounds(s.drop_last());
    }
}

/// The number that the digits of `chars` from `from` up to `to` write, as
/// long as it stays below a bound that leaves room for two more digits and a
/// sign; `None` where a character is no digit or the number grows past it.
fn read_digits(chars: &Vec<char>, from: usize, to: usize) -> (r: Option<i128>)
    requires
        from <= to <= chars.len(),
    ensures
        r matches Some(v) ==> all_digits(chars@.subrange(from as int, to as int)) && v
            == digits_value(chars@.subrange(from as int, to as int)) && 0 <= v
            <= 0x1_0000_0000_0000_0000,
        r is None ==> !all_digits(chars@.subrange(from as int, to as int)) || digits_value(
            chars@.subrange(from as int, to as int),
        ) > 0x1_0000_0000_0000_0000,
{
    let ghost all = chars@.subrange(from as int, to as int);
    let mut value: i128 = 0;
    let mut i: usize = from;
    proof {
        assert(chars@.subrange(from as int, from as int) =~= Seq::empty());
    }
    while i < to
        invariant
            from <= i <= to <= chars.len(),
            all == chars@.subrange(from as int, to as int),
            all_digits(chars@.subrange(from as int, i as int)),
            value == digits_value(chars@.subrange(from as int, i as int)),
            0 <= value <= 0x1_0000_0000_0000_0000,
        decreases to - i,
    {
        let c = chars[i];
        let ghost seen = chars@.subrange(from as int, i as int);
        let ghost next = chars@.subrange(from as int, i + 1);
        proof {
            assert(next =~= seen.push(c));
            assert(next.drop_last() =~= seen);
            assert(all[i - from] == c);
        }
        if c < '0' || c > '9' {
            assert(!is_digit(all[i - from]));
            return None;
        }
        let digit: i128 = (c as u32 - '0' as u32) as i128;
        value = value * 10 + digit;
        proof {
            assert(all_digits(next)) by {
                assert forall|j: int| 0 <= j < next.len() implies is_digit(#[trigger] next[j]) by {
                    if j < seen.len() {
                        assert(next[j] == seen[j]);
                    }
                }
            }
        }
        if value > 0x1_0000_0000_0000_0000 {
            proof {
                lemma_prefix_value_grows(all, (i + 1 - from) as int);
                assert(all.take((i + 1 - from) as int) =~= next);
            }
            return None;
        }
        i += 1;
    }
    Some(value)
}

/// The number written by the first digits of a run of digits is at most the
/// number written by all of them.
pub proof fn lemma_prefix_value_grows(s: Seq<char>, upto: int)
    requires
        0 <= upto <= s.len(),
        all_digits(s.take(upto)),
    ensures
        all_digits(s) ==> digits_value(s.take(upto)) <= digits_value(s),
    decreases s.len() - upto,
{
    if all_digits(s) {
        if upto == s.len() {
            assert(s.take(upto) =~= s);
        } else {
            assert(s.take(upto + 1).drop_last() =~= s.take(upto));
            assert(all_digits(s.take(upto + 1))) by {
                assert forall|i: int| 0 <= i < s.take(upto + 1).len() implies is_digit(
                    #[trigger] s.take(upto + 1)[i],
                ) by {
                    assert(s.take(upto + 1)[i] == s[i]);
                }
            }
            lemma_digits_value_bounds(s.take(upto + 1));
            lemma_prefix_value_grows(s, upto + 1);
        }
    }
}

/// Two digits at most write a number below one hundred.
pub proof fn lemma_two_digits_are_small(s: Seq<char>)
    requires
        s.len() <= 2,
        all_digits(s),
    ensures
        0 <= digits_value(s) < 100,
{
    reveal_with_fuel(digits_value, 3);
    if s.len() == 2 {
        assert(is_digit(s[0]));
        assert(is_digit(s[1]));
        assert(s.drop_last().drop_last() =~= Seq::<char>::empty());
        assert(s.drop_last().last() == s[0]);
    } else if s.len() == 1 {
        assert(is_digit(s[0]));
        assert(s.drop_last() =~= Seq::<char>::empty());
    }
}

/// The minor units that the unsigned amount from `from` on writes. `None`
/// where it writes none, or one of more than ten to the twentieth.
fn parse_unsigned(chars: &Vec<char>, from: usize) -> (r: Option<i128>)
    requires
        from <= chars.len(),
    ensures
        r matches Some(v) ==> unsigned_minor_units(chars@.skip(from as int)) == Some(v as int)
            && 0 <= v <= 0x1_0000_0000_0000_0000_00,
        r is None ==> (unsigned_minor_units(chars@.skip(from as int)) matches Some(u) ==> u
            > 0x1_0000_0000_0000_0000),
{
    let ghost body = chars@.skip(from as int);
    match find_from(chars, from, '.') {
        Some(at) => {
            let ghost whole = body.take(at - from);
            let ghost cents = body.skip(at - from + 1);
            proof {
                assert(whole =~= chars@.subrange(from as int, at as int));
                assert(cents =~= chars@.subrange(at + 1, chars.len() as int));
            }
            let cents_len = chars.len() - at - 1;
            if (at == from && cents_len == 0) || cents_len > 2 {
                return None;
            }
            let units = read_digits(&chars, from, at);
            let hundredths = read_digits(&chars, at + 1, chars.len());
            proof {
                if all_digits(cents) {
                    lemma_two_digits_are_small(cents);
                }
                if all_digits(whole) {
                    lemma_digits_value_bounds(whole);
                }
            }
            match (units, hundredths) {
                (Some(u), Some(h)) => {
                    if cents_len == 1 {
                        Some(u * 100 + h * 10)
                    } else {
                        Some(u * 100 + h)
                    }
                },
                _ => None,
            }
        },
        None => {
            proof {
                assert(body =~= chars@.subrange(from as int, chars.len() as int));
            }
            if chars.len() == from {
                return None;
            }
            match read_digits(&chars, from, chars.len()) {
                Some(v) => Some(v * 100),
                None => None,
            }
        },
    }
}

/// The amount that `text` writes, if it writes one that can be held. A
/// text with more than two digits after the point, with an exponent, or that
/// spells infinity or what is not a number writes none.
pub fn parse_amount(text: &str) -> (r: Option<i64>)
    ensures
        r == amount_of(text@),
{
    let chars = chars_of(text);
    let negative = chars.len() > 0 && chars[0] == '-';
    let positive = chars.len() > 0 && chars[0] == '+';
    let from: usize = if negative || positive {
        1
    } else {
        0
    };
    proof {
        if from == 0 {
            assert(chars@.skip(0) =~= chars@);
        }
    }
    let magnitude: i128 = match parse_unsigned(&chars, from) {
        Some(v) => v,
        None => {
            return None;
        },
    };
    let signed: i128 = if negative {
        -magnitude
    } else {
        magnitude
    };
    if signed < (i64::MIN as i128) || signed > (i64::MAX as i128) {
        None
    } else {
        Some(signed as i64)
    }
}

/// The character that writes the digit `d`.
pub open spec fn digit_char(d: int) -> char {
    if d == 0 {
        '0'
    } else if d == 1 {
        '1'
    } else if d == 2 {
        '2'
    } else if d == 3 {
        '3'
    } else if d == 4 {
        '4'
    } else if d == 5 {
        '5'
    } else if d == 6 {
        '6'
    } else if d == 7 {
        '7'
    } else if d == 8 {
        '8'
    } else {
        '9'
    }
}

/// The digits that write `n` in base ten, without leading zeros.
pub open spec fn digits_text(n: nat) -> Seq<char>
    decreases n,
{
    if n < 10 {
        seq![digit_char(n as int)]
    } else {
        digits_text(n / 10).push(digit_char((n % 10) as int))
    }
}

/// The text that writes a number of minor units that is not negative: the
/// units, a point and two digits.
pub open spec fn unsigned_text(v: nat) -> Seq<char> {
    digits_text(v / 100).push('.').push(digit_char(((v % 100) / 10) as int)).push(
        digit_char((v % 10) as int),
    )
}

/// The text that writes an amount: a minus sign where it is negative, the
/// units, a point and two digits.
pub open spec fn amount_text(v: int) -> Seq<char> {
    if v < 0 {
        seq!['-'] + unsigned_text((-v) as nat)
    } else {
        unsigned_text(v as nat)
    }
}

/// The text of one digit.
fn digit_str(d: u64) -> (r: &'static str)
    requires
        d < 10,
    ensures
        r@ == seq![digit_char(d as int)],
{
    proof {
        reveal_strlit("0");
        reveal_strlit("1");
        reveal_strlit("2");
        reveal_strlit("3");
        reveal_strlit("4");
        reveal_strlit("5");
        reveal_strlit("6");
        reveal_strlit("7");
        reveal_strlit("8");
        reveal_strlit("9");
    }
    let r = if d == 0 {
        "0"
    } else if d == 1 {
        "1"
    } else if d == 2 {
        "2"
    } else if d == 3 {
        "3"
    } else if d == 4 {
        "4"
    } else if d == 5 {
        "5"
    } else if d == 6 {
        "6"
    } else if d == 7 {
        "7"
    } else if d == 8 {
        "8"
    } else {
        "9"
    };
    assert(r@ =~= seq![digit_char(d as int)]);
    r
}

/// Writes `n` in base ten after what `out` holds.
fn push_digits(out: &mut String, n: u64)
    ensures
        final(out)@ == old(out)@ + digits_text(n as nat),
    decreases n,
{
    if n >= 10 {
        push_digits(out, n / 10);
    }
    let ghost before = out@;
    out.append(digit_str(n % 10));
    proof {
        if n >= 10 {
            assert(out@ =~= old(out)@ + digits_text((n / 10) as nat).push(
                digit_char((n % 10) as int),
            ));
        } else {
            assert(out@ =~= old(out)@ + seq![digit_char(n as int)]);
        }
    }
}

/// The text that writes the amount: a minus sign where it is negative, the
/// units, a point and two digits.
pub fn format_amount(amount: i64) -> (r: String)
    ensures
        r@ == amount_text(amount as int),
{
    proof {
        reveal_strlit("-");
        reveal_strlit(".");
    }
    let mut out = String::new();
    let magnitude: u64 = if amount < 0 {
        out.append("-");
        ((-(amount as i128)) as u64)
    } else {
        amount as u64
    };
    let ghost sign = out@;
    push_digits(&mut out, magnitude / 100);
    out.append(".");
    out.append(digit_str((magnitude % 100) / 10));
    out.append(digit_str(magnitude % 10));
    proof {
        assert(out@ =~= sign + unsigned_text(magnitude as nat));
        if amount < 0 {
            assert(sign =~= seq!['-']);
        } else {
            assert(sign =~= Seq::<char>::empty());
            assert(sign + unsigned_text(magnitude as nat) =~= unsigned_text(magnitude as nat));
        }
    }
    out
}

/// The digits that write a number are digits, at least one, and write it.
pub proof fn lemma_digits_text(n: nat)
    ensures
        digits_text(n).len() > 0,
        all_digits(digits_text(n)),
        digits_value(digits_text(n)) == n,
    decreases n,
{
    if n < 10 {
        let s = digits_text(n);
        assert(s.drop_last() =~= Seq::<char>::empty());
        assert(digits_value(s.drop_last()) == 0);
    } else {
        lemma_digits_text(n / 10);
        let rest = digits_text(n / 10);
        let s = digits_text(n);
        assert(s.drop_last() =~= rest);
        assert forall|i: int| 0 <= i < s.len() implies is_digit(#[trigger] s[i]) by {
            if i < rest.len() {
                assert(s[i] == rest[i]);
            }
        }
    }
}

/// The text that writes a number of minor units reads back as that number.
pub proof fn lemma_unsigned_text_reads_back(v: nat)
    ensures
        unsigned_minor_units(unsigned_text(v)) == Some(v as int),
        unsigned_text(v).len() > 0,
        unsigned_text(v)[0] != '-',
        unsigned_text(v)[0] != '+',
{
    let units = digits_text(v / 100);
    let s = unsigned_text(v);
    let tens = digit_char(((v % 100) / 10) as int);
    let ones = digit_char((v % 10) as int);
    lemma_digits_text(v / 100);
    let at = units.len() as int;
    assert(s[at] == '.');
    assert(s.contains('.'));
    assert forall|j: int| 0 <= j < at implies s[j] != '.' by {
        assert(s[j] == units[j]);
        assert(is_digit(units[j]));
    }
    s.index_of_first_ensures('.');
    let first = s.index_of_first('.')->0;
    if first < at {
        assert(s[first] != '.');
    }
    if first > at {
        assert(s[at] != '.');
    }
    assert(s.take(at) =~= units);
    let cents = s.skip(at + 1);
    assert(cents =~= seq![tens, ones]);
    assert(all_digits(cents)) by {
        assert forall|i: int| 0 <= i < cents.len() implies is_digit(#[trigger] cents[i]) by {
            if i == 0 {
                assert(cents[i] == tens);
            } else {
                assert(cents[i] == ones);
            }
        }
    }
    assert(digits_value(cents) == ((v % 100) / 10) * 10 + v % 10) by {
        reveal_with_fuel(digits_value, 3);
        assert(cents.drop_last() =~= seq![tens]);
        assert(cents.drop_last().drop_last() =~= Seq::<char>::empty());
    }
    assert(s[0] == units[0]);
    assert(is_digit(units[0]));
}

/// An amount written and read again is the same amount.
pub proof fn lemma_amount_text_reads_back(amount: i64)
    ensures
        amount_of(amount_text(amount as int)) == Some(amount),
{
    if amount < 0 {
        let v = (-(amount as int)) as nat;
        lemma_unsigned_text_reads_back(v);
        let s = amount_text(amount as int);
        assert(s[0] == '-');
        assert(s.skip(1) =~= unsigned_text(v));
    } else {
        lemma_unsigned_text_reads_back(amount as nat);
    }
}

} // verus!
