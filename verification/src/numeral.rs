//! Decimal numerals.

use vstd::prelude::*;

verus! {

/// The character that stands for the digit `d`, where `d` is below ten.
pub open spec fn digit(d: nat) -> char {
    if d == 0 {
        '0'
    } else if d == 1 {
        '1'
    } else if d == 2 {
        '2'
    } else if d == 3 {
        '3'
    } else if d == 4 {
        '4'
    } else if d == 5 {
        '5'
    } else if d == 6 {
        '6'
    } else if d == 7 {
        '7'
    } else if d == 8 {
        '8'
    } else {
        '9'
    }
}

/// The decimal numeral of `n`, without leading zeros.
pub open spec fn decimal(n: nat) -> Seq<char>
    decreases n,
{
    if n < 10 {
        seq![digit(n)]
    } else {
        decimal(n / 10).push(digit(n % 10))
    }
}

/// The decimal numeral of `n`, filled up with a leading zero to two digits.
pub open spec fn two_digits(n: nat) -> Seq<char> {
    if n < 10 {
        seq!['0', digit(n)]
    } else {
        decimal(n)
    }
}

/// The number that a digit character stands for.
pub open spec fn digit_value(c: char) -> nat {
    (c as int - '0' as int) as nat
}

/// The number that a numeral stands for; leading zeros do not count.
pub open spec fn numeral_value(s: Seq<char>) -> nat
    decreases s.len(),
{
    if s.len() == 0 {
        0
    } else {
        numeral_value(s.drop_last()) * 10 + digit_value(s.last())
    }
}

/// Every number can be read back from its decimal numeral.
pub proof fn law_decimal_reads_back(n: nat)
    ensures
        numeral_value(decimal(n)) == n,
    decreases n,
{
    reveal_with_fuel(numeral_value, 2);
    if n < 10 {
        assert(decimal(n).drop_last() =~= Seq::<char>::empty());
    } else {
        law_decimal_reads_back(n / 10);
        assert(decimal(n).drop_last() =~= decimal(n / 10));
    }
}

/// Every number can be read back from its two-digit numeral, and that numeral
/// has at least two characters, and exactly two below one hundred.
pub proof fn law_two_digits_reads_back(n: nat)
    ensures
        numeral_value(two_digits(n)) == n,
        two_digits(n).len() >= 2,
        n < 100 ==> two_digits(n).len() == 2,
{
    reveal_with_fuel(numeral_value, 3);
    reveal_with_fuel(decimal, 3);
    law_decimal_reads_back(n);
    if n < 10 {
        assert(two_digits(n).drop_last() =~= seq!['0']);
        assert(seq!['0'].drop_last() =~= Seq::<char>::empty());
    }
}

/// The one-character text of the digit `d`.
fn digit_text(d: u64) -> (text: &'static str)
    requires
        d < 10,
    ensures
        text@ == seq![digit(d as nat)],
{
    proof {
        reveal_strlit("0");
        reveal_strlit("1");
        reveal_strlit("2");
        reveal_strlit("3");
        reveal_strlit("4");
        reveal_strlit("5");
        reveal_strlit("6");
        reveal_strlit("7");
        reveal_strlit("8");
        reveal_strlit("9");
    }
    match d {
        0 => "0",
        1 => "1",
        2 => "2",
        3 => "3",
        4 => "4",
        5 => "5",
        6 => "6",
        7 => "7",
        8 => "8",
        _ => "9",
    }
}

/// Appends the decimal numeral of `n` to `out`.
pub fn push_decimal(out: &mut String, n: u64)
    ensures
        final(out)@ == old(out)@ + decimal(n as nat),
    decreases n,
{
    if n >= 10 {
        push_decimal(out, n / 10);
    }
    out.append(digit_text(n % 10));
}

/// Appends the decimal numeral of `n` to `out`, with a leading zero where it
/// has one digit only.
pub fn push_two_digits(out: &mut String, n: u64)
    ensures
        final(out)@ == old(out)@ + two_digits(n as nat),
{
    if n < 10 {
        out.append(digit_text(0));
    }
    push_decimal(out, n);
}

/// The text is made of the digits `0` to `9`, and as a number it is `n`.
pub open spec fn writes(s: Seq<char>, n: nat) -> bool {
    &&& s.len() >= 1
    &&& forall|k: int| 0 <= k < s.len() ==> '0' <= (#[trigger] s[k]) <= '9'
    &&& numeral_value(s) == n
}

proof fn lemma_decimal(n: nat)
    ensures
        writes(decimal(n), n),
        decimal(n).len() > 1 <==> n >= 10,
        decimal(n).len() > 2 <==> n >= 100,
        n > 0 ==> decimal(n)[0] != '0',
    decreases n,
{
    reveal_with_fuel(decimal, 3);
    law_decimal_reads_back(n);
    if n >= 10 {
        let front = decimal(n / 10);
        lemma_decimal(n / 10);
        assert(decimal(n)[0] == front[0]);
        assert forall|k: int| 0 <= k < decimal(n).len() implies '0' <= (#[trigger] decimal(n)[k])
            <= '9' by {
            if k < front.len() {
                assert(decimal(n)[k] == front[k]);
            }
        }
    }
}

/// A numeral is digits that read as the number, without a leading zero.
pub(crate) proof fn lemma_decimal_writes(n: nat)
    ensures
        writes(decimal(n), n),
        decimal(n).len() == 1 <==> n < 10,
        decimal(n).len() > 1 ==> decimal(n)[0] != '0',
{
    lemma_decimal(n);
}

/// A two-digit numeral is digits that read as the number, at least two of them,
/// and more only where they are needed.
pub(crate) proof fn lemma_two_digits_writes(n: nat)
    ensures
        writes(two_digits(n), n),
        two_digits(n).len() >= 2,
        n < 100 <==> two_digits(n).len() == 2,
        two_digits(n).len() > 2 ==> two_digits(n)[0] != '0',
        n < 100 ==> two_digits(n)[0] as int - '0' as int == n / 10,
        n < 100 ==> two_digits(n)[1] as int - '0' as int == n % 10,
{
    reveal_with_fuel(decimal, 3);
    lemma_decimal(n);
    law_two_digits_reads_back(n);
}

/// What `push_decimal` appends is digits that read as the number, without a
/// leading zero, and what stood there before stays.
pub proof fn law_pushed_decimal(out: &mut String, n: u64)
    requires
        call_ensures(push_decimal, (out, n), ()),
    ensures
        ({
            let k = old(out)@.len() as int;
            let added = final(out)@.skip(k);
            &&& final(out)@.len() > k
            &&& final(out)@.take(k) == old(out)@
            &&& writes(added, n as nat)
            &&& added.len() > 1 ==> added[0] != '0'
        }),
{
    lemma_decimal_writes(n as nat);
    let k = old(out)@.len() as int;
    assert(final(out)@.skip(k) =~= decimal(n as nat));
    assert(final(out)@.take(k) =~= old(out)@);
}

/// What `push_two_digits` appends is digits that read as the number, two of them
/// for a number below one hundred and else without a leading zero, and what
/// stood there before stays.
pub proof fn law_pushed_two_digits(out: &mut String, n: u64)
    requires
        call_ensures(push_two_digits, (out, n), ()),
    ensures
        ({
            let k = old(out)@.len() as int;
            let added = final(out)@.skip(k);
            &&& final(out)@.len() >= k + 2
            &&& final(out)@.take(k) == old(out)@
            &&& writes(added, n as nat)
            &&& n < 100 ==> added.len() == 2
            &&& n >= 100 ==> added[0] != '0'
        }),
{
    lemma_two_digits_writes(n as nat);
    let k = old(out)@.len() as int;
    assert(final(out)@.skip(k) =~= two_digits(n as nat));
    assert(final(out)@.take(k) =~= old(out)@);
}

/// The last character that `push_decimal` appends is the last digit of the
/// number. What stands before it is what is appended for the number without that
/// digit, and nothing if there is no other digit.
pub proof fn law_pushed_digit_by_digit(out: &mut String, shorter: &mut String, n: u64)
    requires
        old(out)@ == old(shorter)@,
        call_ensures(push_decimal, (out, n), ()),
        call_ensures(push_decimal, (shorter, n / 10), ()),
    ensures
        final(out)@.len() > 0,
        final(out)@.last() as int - '0' as int == n % 10,
        n < 10 ==> final(out)@.drop_last() == old(out)@,
        n >= 10 ==> final(out)@.drop_last() == final(shorter)@,
{
    if n < 10 {
        assert(final(out)@.drop_last() =~= old(out)@);
    } else {
        assert(final(out)@.drop_last() =~= final(shorter)@);
    }
}

/// What `push_two_digits` appends is what `push_decimal` does, for a number below
/// ten behind a zero.
pub proof fn law_pushed_with_zero(out: &mut String, plain: &mut String, n: u64)
    requires
        old(out)@ == old(plain)@,
        call_ensures(push_two_digits, (out, n), ()),
        call_ensures(push_decimal, (plain, n), ()),
    ensures
        n >= 10 ==> final(out)@ == final(plain)@,
        n < 10 ==> final(out)@ == old(out)@ + seq!['0', final(plain)@.last()],
{
    if n < 10 {
        assert(final(out)@ =~= old(out)@ + seq!['0', final(plain)@.last()]);
    }
}

} // verus!
