//! Building and comparing text.

use vstd::prelude::*;

verus! {

/// Whether two texts are the same.
pub fn same_text(a: &str, b: &str) -> (same: bool)
    ensures
        same == (a@ == b@),
{
    a.to_owned() == b.to_owned()
}

/// The decimal digits of a natural number, most significant first.
pub open spec fn digits(n: nat) -> Seq<char>
    decreases n,
{
    let last = (('0' as nat) + n % 10) as char;
    if n < 10 {
        seq![last]
    } else {
        digits(n / 10).push(last)
    }
}

/// The decimal form of an integer.
pub open spec fn decimal(n: int) -> Seq<char> {
    if n < 0 {
        seq!['-'] + digits((-n) as nat)
    } else {
        digits(n as nat)
    }
}

fn digit(n: u64) -> (text: &'static str)
    requires
        n < 10,
    ensures
        text@ == seq![(('0' as nat) + n as nat) as char],
{
    proof {
        reveal_strlit("0");
        reveal_strlit("1");
        reveal_strlit("2");
        reveal_strlit("3");
        reveal_strlit("4");
        reveal_strlit("5");
        reveal_strlit("6");
        reveal_strlit("7");
        reveal_strlit("8");
        reveal_strlit("9");
    }
    match n {
        0 => "0",
        1 => "1",
        2 => "2",
        3 => "3",
        4 => "4",
        5 => "5",
        6 => "6",
        7 => "7",
        8 => "8",
        _ => "9",
    }
}

/// Appends the decimal form of `n` to `text`.
pub fn push_unsigned(text: &mut String, n: u64)
    ensures
        final(text)@ == old(text)@ + decimal(n as int),
    decreases n,
{
    if n >= 10 {
        push_unsigned(text, n / 10);
    }
    text.append(digit(n % 10));
}

/// Appends the decimal form of `n` to `text`.
pub fn push_signed(text: &mut String, n: i64)
    ensures
        final(text)@ == old(text)@ + decimal(n as int),
{
    if n < 0 {
        proof {
            reveal_strlit("-");
        }
        text.append("-");
        if n == i64::MIN {
            push_unsigned(text, 0x8000_0000_0000_0000);
        } else {
            push_unsigned(text, (-n) as u64);
        }
    } else {
        push_unsigned(text, n as u64);
    }
}

//-----------------------------------------------------
// Laws
//-----------------------------------------------------
/// The number that a row of decimal digits stands for.
pub open spec fn digits_value(text: Seq<char>) -> int
    decreases text.len(),
{
    if text.len() == 0 {
        0
    } else {
        digits_value(text.drop_last()) * 10 + (text.last() as int - '0' as int)
    }
}

/// The number that a text stands for.
pub open spec fn decimal_value(text: Seq<char>) -> int {
    if text.len() > 0 && text[0] == '-' {
        -digits_value(text.drop_first())
    } else {
        digits_value(text)
    }
}

proof fn lemma_digits_are_read(n: nat)
    ensures
        digits_value(digits(n)) == n,
        digits(n).len() > 0,
        forall|i: int| 0 <= i < digits(n).len() ==> '0' <= #[trigger] digits(n)[i] <= '9',
        n > 0 ==> digits(n)[0] != '0',
    decreases n,
{
    let text = digits(n);
    let last = (('0' as nat) + n % 10) as char;
    assert(last as int == '0' as int + n % 10);
    if n < 10 {
        assert(text.drop_last() =~= Seq::empty());
        assert(digits_value(text.drop_last()) == 0);
    } else {
        lemma_digits_are_read(n / 10);
        assert(text.drop_last() =~= digits(n / 10));
        assert(text[0] == digits(n / 10)[0]);
        assert forall|i: int| 0 <= i < text.len() implies '0' <= #[trigger] text[i] <= '9' by {
            if i < text.len() - 1 {
                assert(text[i] == digits(n / 10)[i]);
            }
        }
    }
}

/// The decimal form of a number stands for that number. It is a row of digits
/// without a leading zero, after a minus sign if the number is negative.
pub proof fn law_decimal_form_is_read_back(n: int)
    ensures
        decimal_value(decimal(n)) == n,
        decimal(n).len() > 0,
        n < 0 <==> decimal(n)[0] == '-',
        n != 0 ==> decimal(n)[if n < 0 {
            1int
        } else {
            0
        }] != '0',
        forall|i: int|
            (if n < 0 {
                1int
            } else {
                0
            }) <= i < decimal(n).len() ==> '0' <= #[trigger] decimal(n)[i] <= '9',
{
    if n < 0 {
        lemma_digits_are_read((-n) as nat);
        assert(decimal(n).drop_first() =~= digits((-n) as nat));
        assert forall|i: int| 1 <= i < decimal(n).len() implies '0' <= #[trigger] decimal(
            n,
        )[i] <= '9' by {
            assert(decimal(n)[i] == digits((-n) as nat)[i - 1]);
        }
    } else {
        lemma_digits_are_read(n as nat);
    }
}

/// Different numbers have different decimal forms.
pub proof fn law_decimal_forms_differ(m: int, n: int)
    requires
        decimal(m) == decimal(n),
    ensures
        m == n,
{
    law_decimal_form_is_read_back(m);
    law_decimal_form_is_read_back(n);
}

} // verus!
