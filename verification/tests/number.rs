use balancebeam::number::{parse_decimal, parse_hex};

#[test]
fn decimal_numbers_are_read() {
    assert_eq!(parse_decimal("0"), Some(0));
    assert_eq!(parse_decimal("7"), Some(7));
    assert_eq!(parse_decimal("10"), Some(10));
    assert_eq!(parse_decimal("007"), Some(7));
    assert_eq!(parse_decimal("+42"), Some(42));
    assert_eq!(parse_decimal("1234567890"), Some(1234567890));
}

#[test]
fn what_is_no_decimal_number_is_refused() {
    for bad in ["", "+", "-", "-5", "++5", "5+", "1 2", " 1", "1 ", "a", "1a", "0x1", "1.0", "٣", "1٣"] {
        assert_eq!(parse_decimal(bad), None, "{:?}", bad);
    }
}

#[test]
fn limits_of_the_machine_word() {
    let max = usize::MAX.to_string();
    assert_eq!(parse_decimal(&max), Some(usize::MAX));
    assert_eq!(parse_decimal(&format!("+{}", max)), Some(usize::MAX));
    let mut over = max.clone();
    over.push('0');
    assert_eq!(parse_decimal(&over), None);
    // one more than the largest value
    let digits: Vec<u8> = max.bytes().collect();
    let mut plus_one = digits.clone();
    let mut i = plus_one.len();
    loop {
        i -= 1;
        if plus_one[i] == b'9' {
            plus_one[i] = b'0';
        } else {
            plus_one[i] += 1;
            break;
        }
    }
    assert_eq!(parse_decimal(&String::from_utf8(plus_one).unwrap()), None);
    assert_eq!(parse_hex(&format!("{:x}", usize::MAX)), Some(usize::MAX));
    assert_eq!(parse_hex(&format!("{:X}0", usize::MAX)), None);
}

#[test]
fn hexadecimal_numbers_are_read_in_either_case() {
    assert_eq!(parse_hex("0"), Some(0));
    assert_eq!(parse_hex("ff"), Some(255));
    assert_eq!(parse_hex("FF"), Some(255));
    assert_eq!(parse_hex("fF"), Some(255));
    assert_eq!(parse_hex("10"), Some(16));
    assert_eq!(parse_hex("+1a"), Some(26));
    assert_eq!(parse_hex("deadBEEF"), Some(0xdead_beef));
    assert_eq!(parse_hex("401136"), Some(0x401136));
}

#[test]
fn what_is_no_hexadecimal_number_is_refused() {
    for bad in ["", "+", "g", "fg", "0x10", "-1", "1 ", "ｆ"] {
        assert_eq!(parse_hex(bad), None, "{:?}", bad);
    }
}

#[test]
fn agrees_with_the_standard_parser() {
    for text in ["0", "1", "+1", "-1", "", "+", "18446744073709551615", "18446744073709551616", "4294967295", "4294967296", "12ab", "ab12", "٣", "00000000000000000000000000000012"] {
        assert_eq!(parse_decimal(text), text.parse::<usize>().ok(), "{:?}", text);
        assert_eq!(parse_hex(text), usize::from_str_radix(text, 16).ok(), "{:?}", text);
    }
}
