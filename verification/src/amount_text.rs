//! Amounts of raw written as decimal text, the form the node's TOML document holds them in.

use vstd::prelude::*;
use vstd::string::{StrSliceExecFns, StringExecFns};

verus! {

pub open spec fn is_digit(c: char) -> bool {
    '0' <= c && c <= '9'
}

pub open spec fn digit_value(c: char) -> int {
    c as int - '0' as int
}

/// The character of a digit below ten.
pub open spec fn digit_char(d: nat) -> char {
    (d + '0' as int) as char
}

/// Non-empty and made of decimal digits only.
pub open spec fn is_decimal(s: Seq<char>) -> bool {
    s.len() > 0 && forall|i: int| 0 <= i < s.len() ==> #[trigger] is_digit(s[i])
}

/// The number the digits denote, most significant first.
pub open spec fn decimal_value(s: Seq<char>) -> int
    decreases s.len(),
{
    if s.len() == 0 {
        0
    } else {
        decimal_value(s.drop_last()) * 10 + digit_value(s.last())
    }
}

/// The digits of `v` without leading zeros; "0" for zero.
pub open spec fn decimal_digits(v: nat) -> Seq<char>
    decreases v,
{
    if v < 10 {
        seq![digit_char(v)]
    } else {
        decimal_digits(v / 10).push(digit_char(v % 10))
    }
}

/// The amount a text denotes: its value when it is decimal digits that fit in 128 bits.
pub open spec fn amount_of_text(s: Seq<char>) -> Option<u128> {
    if is_decimal(s) && decimal_value(s) <= u128::MAX {
        Some(decimal_value(s) as u128)
    } else {
        None
    }
}

proof fn lemma_digit_char(d: nat)
    requires
        d < 10,
    ensures
        is_digit(digit_char(d)),
        digit_value(digit_char(d)) == d,
{
    assert(digit_char(d) as int == d + 48);
}

/// Writing an amount and reading it back gives the amount.
pub proof fn lemma_decimal_round_trip(v: nat)
    ensures
        is_decimal(decimal_digits(v)),
        decimal_value(decimal_digits(v)) == v,
        decimal_digits(v).len() > 0,
    decreases v,
{
    if v < 10 {
        lemma_digit_char(v);
        assert(decimal_digits(v).drop_last() =~= Seq::<char>::empty());
        assert(decimal_value(Seq::<char>::empty()) == 0);
        assert(decimal_value(decimal_digits(v)) == decimal_value(decimal_digits(v).drop_last()) * 10 + digit_value(decimal_digits(v).last()));
    } else {
        lemma_digit_char(v % 10);
        assert(v == (v / 10) * 10 + v % 10) by (nonlinear_arith);
        lemma_decimal_round_trip(v / 10);
        let s = decimal_digits(v);
        assert(s.drop_last() =~= decimal_digits(v / 10));
        assert(s.last() == digit_char(v % 10));
        assert(decimal_value(s) == decimal_value(s.drop_last()) * 10 + digit_value(s.last()));
        assert(decimal_value(s) == (v / 10) * 10 + v % 10);
        assert forall|i: int| 0 <= i < s.len() implies #[trigger] is_digit(s[i]) by {
            if i < s.len() - 1 {
                assert(s[i] == decimal_digits(v / 10)[i]);
            }
        }
    }
}

/// The value of a digit string grows with each digit appended.
proof fn lemma_value_grows(s: Seq<char>, k: int)
    requires
        0 <= k <= s.len(),
        forall|i: int| 0 <= i < s.len() ==> #[trigger] is_digit(s[i]),
    ensures
        decimal_value(s) >= decimal_value(s.take(k)),
        decimal_value(s.take(k)) >= 0,
    decreases s.len() - k,
{
    lemma_value_nonneg(s.take(k));
    if k < s.len() {
        lemma_value_grows(s, k + 1);
        assert(s.take(k + 1).drop_last() =~= s.take(k));
        assert(is_digit(s[k]));
    } else {
        assert(s.take(k) =~= s);
    }
}

proof fn lemma_value_nonneg(s: Seq<char>)
    requires
        forall|i: int| 0 <= i < s.len() ==> #[trigger] is_digit(s[i]),
    ensures
        decimal_value(s) >= 0,
    decreases s.len(),
{
    if s.len() > 0 {
        assert forall|i: int| 0 <= i < s.drop_last().len() implies #[trigger] is_digit(s.drop_last()[i]) by {
            assert(s.drop_last()[i] == s[i]);
        }
        lemma_value_nonneg(s.drop_last());
        assert(is_digit(s[s.len() - 1]));
    }
}

/// Reads an amount written in decimal digits; none when the text is empty, holds anything
/// but digits, or denotes more than fits in 128 bits.
pub fn decode_dec(text: &str) -> (r: Option<u128>)
    ensures
        r == amount_of_text(text@),
{
    let n = text.unicode_len();
    if n == 0 {
        return None;
    }
    let ghost s = text@;
    let mut value: u128 = 0;
    let mut i: usize = 0;
    while i < n
        invariant
            n == s.len(),
            s == text@,
            i <= n,
            forall|j: int| 0 <= j < i ==> #[trigger] is_digit(s[j]),
            value == decimal_value(s.take(i as int)),
        decreases n - i,
    {
        let c = text.get_char(i);
        if c < '0' || c > '9' {
            proof {
                assert(!is_digit(s[i as int]));
            }
            return None;
        }
        let d: u128 = (c as u32 - '0' as u32) as u128;
        proof {
            assert(s.take(i + 1).drop_last() =~= s.take(i as int));
            assert(s.take(i + 1).last() == c);
        }
        let next = match value.checked_mul(10) {
            Some(m) => m.checked_add(d),
            None => None,
        };
        match next {
            Some(v) => {
                value = v;
            },
            None => {
                proof {
                    assert(decimal_value(s.take(i + 1)) > u128::MAX);
                    if is_decimal(s) {
                        lemma_value_grows(s, i + 1);
                    }
                }
                return None;
            },
        }
        i = i + 1;
    }
    proof {
        assert(s.take(n as int) =~= s);
    }
    Some(value)
}

/// The text of one digit.
fn digit_text(d: u8) -> (r: &'static str)
    requires
        d < 10,
    ensures
        r@ == seq![digit_char(d as nat)],
{
    proof {
        reveal_strlit("0");
        reveal_strlit("1");
        reveal_strlit("2");
        reveal_strlit("3");
        reveal_strlit("4");
        reveal_strlit("5");
        reveal_strlit("6");
        reveal_strlit("7");
        reveal_strlit("8");
        reveal_strlit("9");
    }
    match d {
        0 => "0",
        1 => "1",
        2 => "2",
        3 => "3",
        4 => "4",
        5 => "5",
        6 => "6",
        7 => "7",
        8 => "8",
        _ => "9",
    }
}

/// Writes an amount in decimal digits, without leading zeros.
pub fn encode_dec(v: u128) -> (r: String)
    ensures
        r@ == decimal_digits(v as nat),
    decreases v,
{
    if v < 10 {
        String::from_str(digit_text(v as u8))
    } else {
        let mut s = encode_dec(v / 10);
        s.append(digit_text((v % 10) as u8));
        s
    }
}

} // verus!
