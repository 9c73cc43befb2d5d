//! Numbers as decimal text.
use vstd::prelude::*;

verus! {

/// The digit of a number below ten.
pub open spec fn digit(d: nat) -> char {
    (48 + d) as char
}

/// A number in decimal, without leading zeros.
pub open spec fn decimal(n: nat) -> Seq<char>
    decreases n,
{
    if n < 10 {
        seq![digit(n)]
    } else {
        decimal(n / 10).push(digit(n % 10))
    }
}

pub open spec fn is_digit(c: char) -> bool {
    '0' <= c <= '9'
}

pub open spec fn all_digits(s: Seq<char>) -> bool {
    forall|i: int| 0 <= i < s.len() ==> is_digit(#[trigger] s[i])
}

/// The number that a sequence of digits writes.
pub open spec fn digits_value(s: Seq<char>) -> nat
    decreases s.len(),
{
    if s.len() == 0 {
        0
    } else {
        digits_value(s.drop_last()) * 10 + (s.last() as nat - 48) as nat
    }
}

/// `s` without one leading plus sign.
pub open spec fn without_plus(s: Seq<char>) -> Seq<char> {
    if s.len() > 0 && s[0] == '+' {
        s.drop_first()
    } else {
        s
    }
}

/// The number that `s` writes: an optional plus sign and at least one digit,
/// nothing else, and a value of at most `max`.
pub open spec fn parsed_unsigned(s: Seq<char>, max: nat) -> Option<nat> {
    let digits = without_plus(s);
    if digits.len() > 0 && all_digits(digits) && digits_value(digits) <= max {
        Some(digits_value(digits))
    } else {
        None
    }
}

fn push_decimal(s: &mut String, n: u64)
    ensures
        final(s)@ == old(s)@ + decimal(n as nat),
    decreases n,
{
    if n >= 10 {
        push_decimal(s, n / 10);
    }
    let d: u8 = (n % 10) as u8;
    s.push((48 + d) as char);
}

/// Writes a number in decimal.
pub fn decimal_text(n: u64) -> (r: String)
    ensures
        r@ == decimal(n as nat),
{
    let mut s = String::new();
    push_decimal(&mut s, n);
    s
}

proof fn lemma_prefix_value(s: Seq<char>, k: int)
    requires
        0 <= k <= s.len(),
        all_digits(s),
    ensures
        digits_value(s.take(k)) <= digits_value(s),
    decreases s.len(),
{
    if k == s.len() {
        assert(s.take(k) == s);
    } else {
        lemma_prefix_value(s.drop_last(), k);
        assert(s.drop_last().take(k) == s.take(k));
    }
}

/// Reads an unsigned number of at most `max`.
pub fn parse_unsigned(text: &str, max: u64) -> (r: Option<u64>)
    ensures
        r is Some <==> parsed_unsigned(text@, max as nat) is Some,
        r matches Some(n) ==> n == parsed_unsigned(text@, max as nat)->0,
{
    let n: usize = text.unicode_len();
    let body = if n > 0 && text.get_char(0) == '+' {
        text.substring_char(1, n)
    } else {
        text
    };
    assert(body@ == without_plus(text@));
    if body.is_empty() {
        return None;
    }
    let mut value: u64 = 0;
    for c in it: body.chars()
        invariant
            it.seq() == body@,
            body@ == without_plus(text@),
            value == digits_value(body@.take(it.index())),
            value <= max,
            all_digits(body@.take(it.index())),
    {
        let ghost s = body@;
        let ghost i = it.index();
        assert(c == s[i]);
        assert(s.take(i + 1).drop_last() == s.take(i));
        if c < '0' || '9' < c {
            return None;
        }
        let d: u64 = c as u64 - 48;
        if d > max || value > max / 10 || value * 10 > max - d {
            proof {
                if all_digits(s) {
                    lemma_prefix_value(s, i + 1);
                }
            }
            return None;
        }
        value = value * 10 + d;
        assert forall|j: int| 0 <= j < i + 1 implies is_digit(#[trigger] s.take(i + 1)[j]) by {
            if j < i {
                assert(is_digit(s.take(i)[j]));
            }
        }
    }
    assert(body@.take(body@.len() as int) == body@);
    Some(value)
}

proof fn lemma_decimal(n: nat)
    ensures
        decimal(n).len() > 0,
        all_digits(decimal(n)),
        digits_value(decimal(n)) == n,
        decimal(n)[0] == '0' ==> n == 0,
    decreases n,
{
    if n < 10 {
        assert(decimal(n).drop_last() =~= Seq::empty());
        assert(digits_value(Seq::<char>::empty()) == 0);
    } else {
        let front = decimal(n / 10);
        lemma_decimal(n / 10);
        assert(decimal(n).drop_last() =~= front);
        assert(decimal(n)[0] == front[0]);
        assert forall|i: int| 0 <= i < decimal(n).len() implies is_digit(
            #[trigger] decimal(n)[i],
        ) by {
            if i < front.len() {
                assert(decimal(n)[i] == front[i]);
            }
        }
    }
}

/// A number that is written in decimal reads as that number, with or without a
/// plus sign, unless it is too large. It is written with digits alone, and
/// without a leading zero.
pub proof fn decimals_are_read_back(n: nat, max: nat)
    ensures
        parsed_unsigned(decimal(n), max) == (if n <= max {
            Some(n)
        } else {
            None
        }),
        parsed_unsigned(seq!['+'] + decimal(n), max) == (if n <= max {
            Some(n)
        } else {
            None
        }),
        decimal(n).len() > 0,
        forall|i: int| 0 <= i < decimal(n).len() ==> '0' <= #[trigger] decimal(n)[i] <= '9',
        n > 0 ==> decimal(n)[0] != '0',
        decimal(0) == seq!['0'],
{
    lemma_decimal(n);
    assert(is_digit(decimal(n)[0]));
    assert((seq!['+'] + decimal(n)).drop_first() =~= decimal(n));
    assert forall|i: int| 0 <= i < decimal(n).len() implies '0' <= #[trigger] decimal(n)[i]
        <= '9' by {
        assert(is_digit(decimal(n)[i]));
    }
}

/// One digit more makes ten times the number and the digit. A text that starts
/// otherwise than with a digit or a plus sign, or goes on otherwise than with
/// digits, is no number, and neither is one without a digit.
pub proof fn numbers_are_read_digit_by_digit(s: Seq<char>, c: char, max: nat)
    requires
        '0' <= c <= '9',
    ensures
        parsed_unsigned(seq![c], max) == (if c as nat - 48 <= max {
            Some((c as nat - 48) as nat)
        } else {
            None
        }),
        parsed_unsigned(s, max) matches Some(v) ==> parsed_unsigned(s.push(c), max) == (if v * 10
            + (c as nat - 48) <= max {
            Some((v * 10 + (c as nat - 48)) as nat)
        } else {
            None
        }),
        s.len() == 0 || s == seq!['+'] ==> parsed_unsigned(s, max) is None,
        (exists|i: int|
            0 <= i < s.len() && !('0' <= #[trigger] s[i] <= '9') && !(i == 0 && s[i] == '+'))
            ==> parsed_unsigned(s, max) is None,
{
    let one = seq![c];
    assert(one.drop_last() =~= Seq::empty());
    assert(digits_value(Seq::<char>::empty()) == 0);
    let d = without_plus(s);
    if s.len() > 0 && d.len() > 0 {
        assert(without_plus(s.push(c)) =~= d.push(c));
        assert(d.push(c).drop_last() =~= d);
        if all_digits(d) {
            assert forall|i: int| 0 <= i < d.push(c).len() implies is_digit(
                #[trigger] d.push(c)[i],
            ) by {
                if i < d.len() {
                    assert(d.push(c)[i] == d[i]);
                }
            }
        }
    }
    if exists|i: int|
        0 <= i < s.len() && !('0' <= #[trigger] s[i] <= '9') && !(i == 0 && s[i] == '+') {
        let i = choose|i: int|
            0 <= i < s.len() && !('0' <= #[trigger] s[i] <= '9') && !(i == 0 && s[i] == '+');
        if s[0] == '+' {
            assert(!is_digit(d[i - 1]));
        } else {
            assert(!is_digit(d[i]));
        }
    }
}

} // verus!
