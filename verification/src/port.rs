//! Port numbers written in decimal.

use vstd::prelude::*;

verus! {

/// The port a server listens on when its address names none.
pub const DEFAULT_PORT: u16 = 8080;

/// Whether `c` is one of the ten ASCII digits.
pub open spec fn is_digit(c: char) -> bool {
    '0' <= c && c <= '9'
}

/// The number that the digit `c` stands for.
pub open spec fn digit_value(c: char) -> nat {
    (c as int - '0' as int) as nat
}

/// Whether `s` holds ASCII digits only.
pub open spec fn all_digits(s: Seq<char>) -> bool {
    forall|i: int| 0 <= i < s.len() ==> is_digit(#[trigger] s[i])
}

/// The number that a run of digits denotes in base ten, most significant digit first.
pub open spec fn decimal_value(s: Seq<char>) -> nat
    decreases s.len(),
{
    if s.len() == 0 {
        0
    } else {
        10 * decimal_value(s.drop_last()) + digit_value(s.last())
    }
}

/// `s` without the one plus sign that may lead it.
pub open spec fn unsigned_digits(s: Seq<char>) -> Seq<char> {
    if s.len() > 0 && s[0] == '+' {
        s.drop_first()
    } else {
        s
    }
}

/// The port that `s` denotes: an optional `+`, then one or more digits whose
/// value fits in 16 bits. Anything else denotes no port.
pub open spec fn port_spec(s: Seq<char>) -> Option<u16> {
    let digits = unsigned_digits(s);
    if digits.len() > 0 && all_digits(digits) && decimal_value(digits) <= u16::MAX {
        Some(decimal_value(digits) as u16)
    } else {
        None
    }
}

/// The digit that stands for `d`, for `d` below ten.
pub open spec fn digit_char(d: nat) -> char {
    ('0' as nat + d) as char
}

/// `n` written in base ten without leading zeros.
pub open spec fn decimal_text(n: nat) -> Seq<char>
    decreases n,
{
    if n < 10 {
        seq![digit_char(n)]
    } else {
        decimal_text(n / 10).push(digit_char(n % 10))
    }
}

/// The decimal text of a number is a non-empty run of digits that denotes
/// that number.
pub proof fn lemma_decimal_text_denotes(n: nat)
    ensures
        decimal_text(n).len() > 0,
        all_digits(decimal_text(n)),
        decimal_value(decimal_text(n)) == n,
    decreases n,
{
    let text = decimal_text(n);
    if n < 10 {
        assert(text.drop_last() =~= Seq::<char>::empty());
        assert(decimal_value(text.drop_last()) == 0);
        assert(text.last() == digit_char(n));
    } else {
        lemma_decimal_text_denotes(n / 10);
        let front = decimal_text(n / 10);
        assert(text.drop_last() =~= front);
        assert(text.last() == digit_char(n % 10));
        assert forall|i: int| 0 <= i < text.len() implies is_digit(#[trigger] text[i]) by {
            if i < front.len() {
                assert(text[i] == front[i]);
            }
        }
    }
}

/// Every port, written in decimal, reads back as itself.
pub proof fn lemma_port_text_round_trip(p: u16)
    ensures
        port_spec(decimal_text(p as nat)) == Some(p),
{
    lemma_decimal_text_denotes(p as nat);
    let text = decimal_text(p as nat);
    assert(is_digit(text[0]));
}

/// Appending characters to a run never lowers its decimal value.
pub proof fn lemma_decimal_value_grows(s: Seq<char>, k: int)
    requires
        0 <= k <= s.len(),
    ensures
        decimal_value(s.take(k)) <= decimal_value(s),
    decreases s.len(),
{
    if k == s.len() {
        assert(s.take(k) == s);
    } else {
        assert(s.drop_last().take(k) == s.take(k));
        lemma_decimal_value_grows(s.drop_last(), k);
    }
}

/// Reads a port number from its text: an optional `+`, then decimal digits.
/// Leading zeros are allowed; the value must fit in 16 bits. These are the
/// strings that `str::parse::<u16>` accepts.
pub fn parse_port(text: &str) -> (r: Option<u16>)
    ensures
        r == port_spec(text@),
{
    let mut value: u32 = 0;
    let mut first: bool = true;
    let mut signed: bool = false;
    let mut any_digit: bool = false;
    for ch in it: text.chars()
        invariant
            it.seq() == text@,
            first == (it.index() == 0),
            signed == (it.index() > 0 && text@[0] == '+'),
            any_digit == (it.index() > if signed { 1int } else { 0int }),
            all_digits(unsigned_digits(text@.take(it.index() as int))),
            value == decimal_value(unsigned_digits(text@.take(it.index() as int))),
            value <= u16::MAX,
    {
        let ghost before = text@.take(it.index() as int);
        let ghost after = text@.take(it.index() + 1);
        proof {
            assert(after.drop_last() == before);
            assert(after.last() == ch);
        }
        if first && ch == '+' {
            signed = true;
            proof {
                assert(unsigned_digits(after) =~= Seq::<char>::empty());
            }
        } else if ch >= '0' && ch <= '9' {
            let d: u32 = ch as u32 - '0' as u32;
            value = value * 10 + d;
            any_digit = true;
            proof {
                assert(unsigned_digits(after).drop_last() =~= unsigned_digits(before));
                assert(unsigned_digits(after).last() == ch);
                assert forall|i: int| 0 <= i < unsigned_digits(after).len() implies is_digit(
                    #[trigger] unsigned_digits(after)[i],
                ) by {
                    if i < unsigned_digits(before).len() {
                        assert(unsigned_digits(after)[i] == unsigned_digits(before)[i]);
                    }
                }
            }
            if value > 65535 {
                proof {
                    let whole = unsigned_digits(text@);
                    let m = unsigned_digits(after).len() as int;
                    assert(whole.take(m) =~= unsigned_digits(after));
                    lemma_decimal_value_grows(whole, m);
                }
                return None;
            }
        } else {
            proof {
                let whole = unsigned_digits(text@);
                let j = it.index() - if signed { 1int } else { 0int };
                assert(whole[j] == ch);
                assert(!is_digit(whole[j]));
            }
            return None;
        }
        first = false;
    }
    proof {
        assert(text@.take(text@.len() as int) == text@);
    }
    if any_digit {
        Some(value as u16)
    } else {
        None
    }
}

} // verus!
