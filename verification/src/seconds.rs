//! Spans of time in seconds, to the millisecond, and the text they are written as.
use crate::text::{chars_of, decimal, digit, push_decimal};
use vstd::prelude::*;
use vstd::string::*;

verus! {

/// A span of time, to the millisecond.
#[derive(Clone, Copy, Debug, PartialEq, Eq, Structural)]
pub struct Seconds {
    pub millis: u128,
}

/// `c` is a decimal digit.
pub open spec fn is_digit(c: char) -> bool {
    '0' <= c <= '9'
}

/// `text` is made of digits, a point and three digits.
pub open spec fn has_three_decimals(text: Seq<char>) -> bool {
    &&& text.len() >= 5
    &&& text[text.len() - 4] == '.'
    &&& forall|i: int|
        0 <= i < text.len() && i != text.len() - 4 ==> is_digit(#[trigger] text[i])
}

/// A number of milliseconds, written as seconds with three decimals.
pub open spec fn seconds_text(millis: nat) -> Seq<char> {
    decimal(millis / 1000) + seq![
        '.',
        digit(millis / 100 % 10),
        digit(millis / 10 % 10),
        digit(millis % 10),
    ]
}

/// The number that a text of digits stands for.
pub open spec fn digits_value(digits: Seq<char>) -> nat
    decreases digits.len(),
{
    if digits.len() == 0 {
        0
    } else {
        digits_value(digits.drop_last()) * 10 + (digits.last() as int - 48) as nat
    }
}

/// A number in decimal notation is made of digits, and they stand for the number.
pub proof fn decimal_reads_back(n: nat)
    ensures
        decimal(n).len() > 0,
        forall|i: int| 0 <= i < decimal(n).len() ==> is_digit(#[trigger] decimal(n)[i]),
        digits_value(decimal(n)) == n,
    decreases n,
{
    let text = decimal(n);
    if n < 10 {
        assert(text.drop_last() =~= Seq::empty());
        assert(digits_value(Seq::<char>::empty()) == 0);
    } else {
        decimal_reads_back(n / 10);
        let high = decimal(n / 10);
        assert(text.drop_last() =~= high);
        assert forall|i: int| 0 <= i < text.len() implies is_digit(#[trigger] text[i]) by {
            if i < high.len() {
                assert(text[i] == high[i]);
            }
        }
    }
}

/// A span of time is written with digits, a point and three digits, and the
/// digits alone stand for its milliseconds.
pub proof fn seconds_read_back(millis: nat)
    ensures
        has_three_decimals(seconds_text(millis)),
        digits_value(seconds_text(millis).remove(seconds_text(millis).len() - 4)) == millis,
{
    let text = seconds_text(millis);
    let high = decimal(millis / 1000);
    decimal_reads_back(millis / 1000);
    assert forall|i: int| 0 <= i < text.len() && i != text.len() - 4 implies is_digit(
        #[trigger] text[i],
    ) by {
        if i < high.len() {
            assert(text[i] == high[i]);
        }
    }
    let one = high.push(digit(millis / 100 % 10));
    let two = one.push(digit(millis / 10 % 10));
    let three = two.push(digit(millis % 10));
    assert(text.remove(text.len() - 4) =~= three);
    assert(one.drop_last() =~= high);
    assert(two.drop_last() =~= one);
    assert(three.drop_last() =~= two);
    assert(digits_value(one) == millis / 1000 * 10 + millis / 100 % 10);
    assert(digits_value(one) == millis / 100);
    assert(digits_value(two) == millis / 100 * 10 + millis / 10 % 10);
    assert(digits_value(two) == millis / 10);
    assert(digits_value(three) == millis / 10 * 10 + millis % 10);
}

/// Before the point stand the whole seconds in decimal notation, and behind it
/// three digits for the milliseconds that are left.
pub proof fn whole_seconds_stand_before_the_point(seconds: nat, millis: nat)
    requires
        millis < 1000,
    ensures
        ({
            let text = seconds_text(seconds * 1000 + millis);
            let point = text.len() - 4;
            &&& text.take(point) == decimal(seconds)
            &&& text[point] == '.'
            &&& digits_value(text.skip(point + 1)) == millis
        }),
{
    let all = seconds * 1000 + millis;
    digits_of_the_rest(seconds, millis);
    let text = seconds_text(all);
    let point = text.len() - 4;
    let one = seq![digit(millis / 100)];
    let two = one.push(digit(millis / 10 % 10));
    let three = two.push(digit(millis % 10));
    assert(text =~= decimal(seconds) + seq!['.'] + three);
    assert(text.take(point) =~= decimal(seconds));
    assert(text.skip(point + 1) =~= three);
    assert(one.drop_last() =~= Seq::empty());
    assert(two.drop_last() =~= one);
    assert(three.drop_last() =~= two);
    assert(digits_value(Seq::<char>::empty()) == 0);
    digit_stands_for_itself(millis / 100);
    digit_stands_for_itself(millis / 10 % 10);
    digit_stands_for_itself(millis % 10);
    assert(digits_value(one) == millis / 100);
    assert(digits_value(two) == millis / 100 * 10 + millis / 10 % 10);
    assert(digits_value(three) == (millis / 100 * 10 + millis / 10 % 10) * 10 + millis % 10);
}

/// Whole seconds have no part in the last three digits.
proof fn digits_of_the_rest(seconds: nat, millis: nat)
    requires
        millis < 1000,
    ensures
        (seconds * 1000 + millis) / 1000 == seconds,
        (seconds * 1000 + millis) / 100 % 10 == millis / 100,
        (seconds * 1000 + millis) / 10 % 10 == millis / 10 % 10,
        (seconds * 1000 + millis) % 10 == millis % 10,
        (millis / 100 * 10 + millis / 10 % 10) * 10 + millis % 10 == millis,
{
    let all = seconds * 1000 + millis;
    assert(all / 100 == seconds * 10 + millis / 100);
    assert(all / 10 == seconds * 100 + millis / 10);
}

proof fn digit_stands_for_itself(d: nat)
    requires
        d < 10,
    ensures
        (digit(d) as int - 48) as nat == d,
{
}

/// What is written of a span of time holds no comma.
pub proof fn seconds_have_no_comma(millis: nat)
    ensures
        !seconds_text(millis).contains(','),
{
    seconds_read_back(millis);
    let text = seconds_text(millis);
    assert forall|i: int| 0 <= i < text.len() implies text[i] != ',' by {
        if i != text.len() - 4 {
            assert(is_digit(text[i]));
        }
    }
}

/// Two spans of time that are written alike are the same.
pub proof fn seconds_are_told_apart(a: nat, b: nat)
    ensures
        seconds_text(a) == seconds_text(b) <==> a == b,
{
    seconds_read_back(a);
    seconds_read_back(b);
}

proof fn prefix_is_no_larger(digits: Seq<char>, len: int)
    requires
        0 <= len <= digits.len(),
    ensures
        digits_value(digits.take(len)) <= digits_value(digits),
    decreases digits.len(),
{
    if len < digits.len() {
        prefix_is_no_larger(digits.drop_last(), len);
        assert(digits.drop_last().take(len) =~= digits.take(len));
    } else {
        assert(digits.take(len) =~= digits);
    }
}

impl Seconds {
    /// The span as it is written.
    pub open spec fn text(self) -> Seq<char> {
        seconds_text(self.millis as nat)
    }

    /// Writes the span as seconds with three decimals.
    pub fn to_string(&self) -> (text: String)
        ensures
            text@ == self.text(),
    {
        let mut text = String::new();
        push_decimal(&mut text, self.millis / 1000);
        text.push('.');
        let hundreds: u8 = (self.millis / 100 % 10) as u8;
        let tens: u8 = (self.millis / 10 % 10) as u8;
        let ones: u8 = (self.millis % 10) as u8;
        text.push((48u8 + hundreds) as char);
        text.push((48u8 + tens) as char);
        text.push((48u8 + ones) as char);
        assert(text@ =~= self.text());
        text
    }

    /// Reads a span that is written as seconds with three decimals.
    pub fn from_text(text: &str) -> (span: Option<Seconds>)
        ensures
            match span {
                Some(seconds) => text@ == seconds.text(),
                None => forall|seconds: Seconds| text@ != #[trigger] seconds.text(),
            },
    {
        let mut digits = chars_of(text);
        let len: usize = digits.len();
        if len < 5 {
            proof {
                assert forall|seconds: Seconds| text@ != #[trigger] seconds.text() by {
                    seconds_read_back(seconds.millis as nat);
                }
            }
            return None;
        }
        digits.remove(len - 4);
        let ghost wanted = text@.remove(len - 4);
        let mut millis: u128 = 0;
        let mut k: usize = 0;
        assert(wanted.take(0) =~= Seq::empty());
        while k < digits.len()
            invariant
                digits@ == wanted,
                wanted == text@.remove(len - 4),
                len == text@.len(),
                len >= 5,
                k <= digits@.len(),
                millis == digits_value(wanted.take(k as int)),
            decreases digits@.len() - k,
        {
            let c: char = digits[k];
            let ghost next = wanted.take(k + 1);
            assert(next.drop_last() =~= wanted.take(k as int));
            assert(next.last() == wanted[k as int]);
            if c < '0' || c > '9' {
                proof {
                    assert forall|seconds: Seconds| text@ != #[trigger] seconds.text() by {
                        seconds_read_back(seconds.millis as nat);
                        if text@ == seconds.text() {
                            let place = if k < len - 4 { k as int } else { k + 1 };
                            assert(wanted[k as int] == text@[place]);
                            assert(is_digit(text@[place]));
                        }
                    }
                }
                return None;
            }
            let d: u128 = (c as u32 - 48) as u128;
            assert(digits_value(next) == millis * 10 + d);
            if millis > (u128::MAX - d) / 10 {
                proof {
                    assert(digits_value(next) > u128::MAX);
                    prefix_is_no_larger(wanted, k + 1);
                    assert forall|seconds: Seconds| text@ != #[trigger] seconds.text() by {
                        seconds_read_back(seconds.millis as nat);
                    }
                }
                return None;
            }
            millis = millis * 10 + d;
            k += 1;
        }
        assert(wanted.take(k as int) =~= wanted);
        let seconds = Seconds { millis };
        if seconds.to_string() == text.to_owned() {
            Some(seconds)
        } else {
            proof {
                assert forall|other: Seconds| text@ != #[trigger] other.text() by {
                    seconds_read_back(other.millis as nat);
                }
            }
            None
        }
    }
}

} // verus!
