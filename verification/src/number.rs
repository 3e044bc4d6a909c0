//! Reading an unsigned number from text, in base ten or sixteen.
//!
//! A number is an optional plus sign followed by at least one digit, with
//! nothing before, between or after. It is accepted only where its value
//! fits the machine word.

use vstd::prelude::*;
use vstd::slice::slice_index_get;
use vstd::string::is_ascii_spec_bytes;

verus! {

/// The value of the digit `c` in base `radix`, if `c` is a digit there.
/// Letters count from ten on, in either case.
pub open spec fn digit_of(c: char, radix: nat) -> Option<nat> {
    let v: int = if '0' <= c <= '9' {
        c as int - '0' as int
    } else if 'a' <= c <= 'z' {
        c as int - 'a' as int + 10
    } else if 'A' <= c <= 'Z' {
        c as int - 'A' as int + 10
    } else {
        -1
    };
    if 0 <= v < radix {
        Some(v as nat)
    } else {
        None
    }
}

/// Every character of `digits` is a digit in base `radix`.
pub open spec fn all_digits(digits: Seq<char>, radix: nat) -> bool {
    forall|i: int| 0 <= i < digits.len() ==> (#[trigger] digit_of(digits[i], radix)) is Some
}

/// The number that `digits` write in base `radix`, most significant digit
/// first.
pub open spec fn value_of(digits: Seq<char>, radix: nat) -> nat
    decreases digits.len(),
{
    if digits.len() == 0 {
        0
    } else {
        value_of(digits.drop_last(), radix) * radix + match digit_of(digits.last(), radix) {
            Some(d) => d,
            None => 0,
        }
    }
}

/// `text` without its leading plus sign, if it has one.
pub open spec fn unsigned_digits(text: Seq<char>) -> Seq<char> {
    if text.len() > 0 && text[0] == '+' {
        text.drop_first()
    } else {
        text
    }
}

/// The number that `text` writes in base `radix`, where `text` is a number
/// that fits the machine word.
pub open spec fn unsigned_of(text: Seq<char>, radix: nat) -> Option<nat> {
    let digits = unsigned_digits(text);
    if digits.len() > 0 && all_digits(digits, radix) && value_of(digits, radix) <= usize::MAX {
        Some(value_of(digits, radix))
    } else {
        None
    }
}

/// A number does not get smaller when digits are written behind it.
proof fn lemma_value_grows(digits: Seq<char>, radix: nat, k: int)
    requires
        radix >= 1,
        0 <= k <= digits.len(),
    ensures
        value_of(digits.subrange(0, k), radix) <= value_of(digits, radix),
    decreases digits.len() - k,
{
    if k == digits.len() {
        assert(digits.subrange(0, k) =~= digits);
    } else {
        lemma_value_grows(digits.drop_last(), radix, k);
        assert(digits.drop_last().subrange(0, k) =~= digits.subrange(0, k));
        let shorter = value_of(digits.drop_last(), radix);
        assert(shorter <= shorter * radix) by (nonlinear_arith)
            requires
                radix >= 1,
                shorter >= 0,
        ;
    }
}

/// The value of the digit that the byte `b` writes in base `radix`, if it
/// writes one.
fn digit_of_byte(b: u8, radix: usize) -> (r: Option<usize>)
    requires
        radix == 10 || radix == 16,
        b < 128,
    ensures
        match r {
            Some(d) => digit_of(b as char, radix as nat) == Some(d as nat),
            None => digit_of(b as char, radix as nat) is None,
        },
{
    let v: usize = if 48 <= b && b <= 57 {
        (b - 48) as usize
    } else if 97 <= b && b <= 122 {
        (b - 97) as usize + 10
    } else if 65 <= b && b <= 90 {
        (b - 65) as usize + 10
    } else {
        return None;
    };
    if v < radix {
        Some(v)
    } else {
        None
    }
}

/// Reads `text` as an unsigned decimal number.
///
/// Gives the number where `text` is an optional plus sign followed by one or
/// more decimal digits and the value fits the machine word; gives `None` for
/// every other text.
pub fn parse_decimal(text: &str) -> (r: Option<usize>)
    ensures
        match r {
            Some(n) => unsigned_of(text@, 10) == Some(n as nat),
            None => unsigned_of(text@, 10) is None,
        },
{
    parse_unsigned(text, 10)
}

/// Reads `text` as an unsigned hexadecimal number.
///
/// Gives the number where `text` is an optional plus sign followed by one or
/// more hexadecimal digits, in either case, and the value fits the machine
/// word; gives `None` for every other text.
pub fn parse_hex(text: &str) -> (r: Option<usize>)
    ensures
        match r {
            Some(n) => unsigned_of(text@, 16) == Some(n as nat),
            None => unsigned_of(text@, 16) is None,
        },
{
    parse_unsigned(text, 16)
}

/// Reads `text` as an unsigned number in base `radix`.
fn parse_unsigned(text: &str, radix: usize) -> (r: Option<usize>)
    requires
        radix == 10 || radix == 16,
    ensures
        match r {
            Some(n) => unsigned_of(text@, radix as nat) == Some(n as nat),
            None => unsigned_of(text@, radix as nat) is None,
        },
{
    let ghost digits = unsigned_digits(text@);
    if !text.is_ascii() {
        proof {
            let i = choose|i: int|
                0 <= i < text@.len() && !('\0' <= (#[trigger] text@[i]) && text@[i] <= '\u{7f}');
            if text@.len() > 0 && text@[0] == '+' {
                assert(i > 0);
                assert(digits[i - 1] == text@[i]);
                assert(digit_of(digits[i - 1], radix as nat) is None);
            } else {
                assert(digit_of(digits[i], radix as nat) is None);
            }
        }
        return None;
    }
    proof {
        is_ascii_spec_bytes(text);
    }
    let bytes = text.as_bytes();
    let n = bytes.len();
    assert(n == text@.len());
    assert(forall|j: int| 0 <= j < n ==> bytes@[j] == text@[j] as u8);
    let mut start: usize = 0;
    if n > 0 && *slice_index_get(bytes, 0) == 43 {
        start = 1;
    }
    assert(digits =~= text@.subrange(start as int, n as int));
    if start == n {
        return None;
    }
    let mut i: usize = start;
    let mut acc: usize = 0;
    assert(digits.subrange(0, 0) =~= Seq::<char>::empty());
    while i < n
        invariant
            radix == 10 || radix == 16,
            start <= i <= n,
            n == text@.len(),
            digits == unsigned_digits(text@),
            digits == text@.subrange(start as int, n as int),
            vstd::string::is_ascii(text),
            bytes@.len() == n,
            forall|j: int| 0 <= j < n ==> bytes@[j] == text@[j] as u8,
            all_digits(digits.subrange(0, i - start), radix as nat),
            acc == value_of(digits.subrange(0, i - start), radix as nat),
        decreases n - i,
    {
        let b: u8 = *slice_index_get(bytes, i);
        let ghost c = text@[i as int];
        let ghost upto = digits.subrange(0, i - start + 1);
        proof {
            assert('\0' <= c <= '\u{7f}');
            assert(b == c as u8);
            assert(b as char == c);
            assert(digits[i - start] == c);
            assert(upto.drop_last() =~= digits.subrange(0, i - start));
            assert(upto.last() == c);
        }
        match digit_of_byte(b, radix) {
            None => {
                proof {
                    assert(digit_of(digits[i - start], radix as nat) is None);
                }
                return None;
            },
            Some(d) => {
                let grown = match acc.checked_mul(radix) {
                    Some(m) => m.checked_add(d),
                    None => None,
                };
                proof {
                    assert forall|j: int| 0 <= j < upto.len() implies (#[trigger] digit_of(
                        upto[j],
                        radix as nat,
                    )) is Some by {
                        if j < upto.len() - 1 {
                            assert(digits.subrange(0, i - start)[j] == upto[j]);
                        }
                    }
                    assert(value_of(upto, radix as nat) == acc * radix + d);
                    if all_digits(digits, radix as nat) {
                        lemma_value_grows(digits, radix as nat, i - start + 1);
                    }
                }
                match grown {
                    Some(next) => {
                        acc = next;
                    },
                    None => {
                        proof {
                            assert(acc * radix + d > usize::MAX);
                            assert(value_of(upto, radix as nat) > usize::MAX);
                        }
                        return None;
                    },
                }
            },
        }
        i += 1;
    }
    assert(digits.subrange(0, n - start) =~= digits);
    Some(acc)
}

} // verus!
