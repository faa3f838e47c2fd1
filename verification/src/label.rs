//! Labels of debug groups.

use vstd::prelude::*;

verus! {

/// The character of a decimal digit.
pub open spec fn digit(d: nat) -> char
    recommends
        d < 10,
{
    seq!['0', '1', '2', '3', '4', '5', '6', '7', '8', '9'][d as int]
}

/// `n` in decimal, most significant digit first, without leading zeros.
pub open spec fn decimal(n: nat) -> Seq<char>
    decreases n,
{
    if n < 10 {
        seq![digit(n)]
    } else {
        decimal(n / 10).push(digit(n % 10))
    }
}

/// Whether `c` is a decimal digit.
pub open spec fn is_digit(c: char) -> bool {
    '0' <= c <= '9'
}

/// The number that a sequence of decimal digits writes.
pub open spec fn value(digits: Seq<char>) -> int
    decreases digits.len(),
{
    if digits.len() == 0 {
        0
    } else {
        10 * value(digits.drop_last()) + (digits.last() as int - '0' as int)
    }
}

/// Whether `text` writes `n` in decimal: digits alone, worth `n`, the first of
/// them no zero unless it is the only one.
pub open spec fn writes_number(text: Seq<char>, n: int) -> bool {
    &&& text.len() > 0
    &&& forall|i: int| 0 <= i < text.len() ==> is_digit(#[trigger] text[i])
    &&& value(text) == n
    &&& text.len() > 1 ==> text[0] != '0'
}

proof fn lemma_digit(d: nat)
    requires
        d < 10,
    ensures
        is_digit(digit(d)),
        digit(d) as int == '0' as int + d,
{
    let digits = seq!['0', '1', '2', '3', '4', '5', '6', '7', '8', '9'];
    assert(digit(d) == digits[d as int]);
}

/// `decimal` writes the number that it is given: one digit where one is enough,
/// and else the digits of its tenth with the last digit behind them.
pub proof fn law_decimal_writes_its_number(n: nat)
    ensures
        writes_number(decimal(n), n as int),
        n > 0 ==> decimal(n)[0] != '0',
        n < 10 ==> decimal(n).len() == 1,
        n >= 10 ==> decimal(n).drop_last() == decimal(n / 10),
        decimal(n).last() as int == '0' as int + n % 10,
    decreases n,
{
    let text = decimal(n);
    lemma_digit(n % 10);
    if n < 10 {
        lemma_digit(n);
        assert(text.drop_last() =~= Seq::empty());
        assert(value(text.drop_last()) == 0);
        assert(text.last() == digit(n));
    } else {
        law_decimal_writes_its_number(n / 10);
        let head = decimal(n / 10);
        assert(text.drop_last() =~= head);
        assert(text.last() == digit(n % 10));
        assert forall|i: int| 0 <= i < text.len() implies is_digit(#[trigger] text[i]) by {
            if i < head.len() {
                assert(text[i] == head[i]);
            }
        }
        assert(text[0] == head[0]);
    }
}

/// Appends one decimal digit to `s`.
fn append_digit(s: &mut String, d: usize)
    requires
        d < 10,
    ensures
        final(s)@ == old(s)@.push(digit(d as nat)),
{
    let c: &str = match d {
        0 => "0",
        1 => "1",
        2 => "2",
        3 => "3",
        4 => "4",
        5 => "5",
        6 => "6",
        7 => "7",
        8 => "8",
        _ => "9",
    };
    proof {
        reveal_strlit("0");
        reveal_strlit("1");
        reveal_strlit("2");
        reveal_strlit("3");
        reveal_strlit("4");
        reveal_strlit("5");
        reveal_strlit("6");
        reveal_strlit("7");
        reveal_strlit("8");
        reveal_strlit("9");
        assert(c@ =~= seq![digit(d as nat)]);
    }
    s.append(c);
    assert(s@ =~= old(s)@.push(digit(d as nat)));
}

/// Appends `n` in decimal to `s`.
pub fn append_decimal(s: &mut String, n: usize)
    ensures
        final(s)@ == old(s)@ + decimal(n as nat),
    decreases n,
{
    if n >= 10 {
        append_decimal(s, n / 10);
    }
    append_digit(s, n % 10);
    assert(s@ =~= old(s)@ + decimal(n as nat));
}

} // verus!
