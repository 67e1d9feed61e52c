use vstd::prelude::*;

verus! {

/// The character of the decimal digit `d` (for `d < 10`).
pub open spec fn digit_char(d: nat) -> char {
    if d == 0 {
        '0'
    } else if d == 1 {
        '1'
    } else if d == 2 {
        '2'
    } else if d == 3 {
        '3'
    } else if d == 4 {
        '4'
    } else if d == 5 {
        '5'
    } else if d == 6 {
        '6'
    } else if d == 7 {
        '7'
    } else if d == 8 {
        '8'
    } else {
        '9'
    }
}

/// Decimal text of `n`, most significant digit first, without leading zeros.
pub open spec fn decimal(n: nat) -> Seq<char>
    decreases n,
{
    if n < 10 {
        seq![digit_char(n)]
    } else {
        decimal(n / 10) + seq![digit_char(n % 10)]
    }
}

fn digit_text(d: u32) -> (text: &'static str)
    requires
        d < 10,
    ensures
        text@ == seq![digit_char(d as nat)],
{
    proof {
        reveal_strlit("0");
        reveal_strlit("1");
        reveal_strlit("2");
        reveal_strlit("3");
        reveal_strlit("4");
        reveal_strlit("5");
        reveal_strlit("6");
        reveal_strlit("7");
        reveal_strlit("8");
        reveal_strlit("9");
    }
    match d {
        0 => "0",
        1 => "1",
        2 => "2",
        3 => "3",
        4 => "4",
        5 => "5",
        6 => "6",
        7 => "7",
        8 => "8",
        _ => "9",
    }
}

/// Appends the decimal text of `n` to `s`.
pub fn push_decimal(s: &mut String, n: u32)
    ensures
        final(s)@ == old(s)@ + decimal(n as nat),
    decreases n,
{
    if n >= 10 {
        push_decimal(s, n / 10);
    }
    s.append(digit_text(n % 10));
    proof {
        assert(old(s)@ + decimal(n as nat) =~= if n >= 10 {
            old(s)@ + decimal((n / 10) as nat) + seq![digit_char((n % 10) as nat)]
        } else {
            old(s)@ + seq![digit_char((n % 10) as nat)]
        });
    }
}

/// The number that a text of decimal digits denotes, most significant digit
/// first; each character counts as its distance from `'0'`.
pub open spec fn digits_value(text: Seq<char>) -> int
    decreases text.len(),
{
    if text.len() == 0 {
        0
    } else {
        10 * digits_value(text.drop_last()) + (text.last() as int - '0' as int)
    }
}

/// Every character is one of `'0'` to `'9'`.
pub open spec fn all_digits(text: Seq<char>) -> bool {
    forall|i: int| 0 <= i < text.len() ==> '0' <= #[trigger] text[i] <= '9'
}

/// Law: the decimal text of `n` is made of digits, denotes `n`, and has no
/// leading zero.
pub proof fn law_decimal_denotes(n: nat)
    ensures
        all_digits(decimal(n)),
        digits_value(decimal(n)) == n,
        decimal(n).len() >= 1,
        decimal(n)[0] == '0' ==> n == 0,
    decreases n,
{
    let d = n % 10;
    assert(digit_char(d) as int - '0' as int == d && '0' <= digit_char(d) <= '9');
    if n >= 10 {
        law_decimal_denotes(n / 10);
        let t = decimal(n);
        assert(t.drop_last() =~= decimal(n / 10));
        assert(t[0] == decimal(n / 10)[0]);
        assert(t.last() == digit_char(d));
        assert(digits_value(t) == 10 * digits_value(decimal(n / 10)) + d);
        assert(digits_value(t) == 10 * (n / 10) + d);
        assert(10 * (n / 10) + n % 10 == n);
    } else {
        assert(d == n);
        assert(digits_value(Seq::<char>::empty()) == 0);
        assert(digits_value(decimal(n)) == 10 * digits_value(decimal(n).drop_last()) + d);
        assert(decimal(n).drop_last() =~= Seq::<char>::empty());
        assert(decimal(n).last() == digit_char(d));
    }
}

} // verus!
