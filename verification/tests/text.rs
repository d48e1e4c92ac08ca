use coinswap::text::{chars_of, find_from, parse_decimal, split_once, str_equal};

#[test]
fn decimal_numbers_are_read_as_the_standard_library_reads_them() {
    let texts = [
        "0", "7", "42", "+42", "007", "+0", "", "+", "-1", "1.5", " 1", "1 ", "1_000", "0x10",
        "18446744073709551615", "18446744073709551616", "99999999999999999999999", "++1", "1+",
        "٣", "１",
    ];
    for text in texts {
        assert_eq!(parse_decimal(text, u64::MAX), text.parse::<u64>().ok(), "for {:?}", text);
    }
    let small = ["0", "255", "256", "+255", "300", "4294967295", "4294967296"];
    for text in small {
        assert_eq!(
            parse_decimal(text, u8::MAX as u64),
            text.parse::<u8>().ok().map(|n| n as u64),
            "for {:?}",
            text
        );
        assert_eq!(
            parse_decimal(text, u32::MAX as u64),
            text.parse::<u32>().ok().map(|n| n as u64),
            "for {:?}",
            text
        );
    }
}

#[test]
fn decimal_value_is_exact() {
    assert_eq!(parse_decimal("500000", u64::MAX), Some(500_000));
    assert_eq!(parse_decimal("10", 10), Some(10));
    assert_eq!(parse_decimal("11", 10), None);
    assert_eq!(parse_decimal("0", 0), Some(0));
    assert_eq!(parse_decimal("1", 0), None);
}

#[test]
fn text_is_split_at_a_sole_character() {
    assert_eq!(split_once("left=right", '='), Some(("left".to_string(), "right".to_string())));
    assert_eq!(split_once("=", '='), Some(("".to_string(), "".to_string())));
    assert_eq!(split_once("a=b=c", '='), None);
    assert_eq!(split_once("abc", '='), None);
    assert_eq!(split_once("", '='), None);
    assert_eq!(split_once("ä=ö", '='), Some(("ä".to_string(), "ö".to_string())));
}

#[test]
fn characters_are_found_from_a_place_on() {
    let chars = chars_of("a:b:c");
    assert_eq!(chars, vec!['a', ':', 'b', ':', 'c']);
    assert_eq!(find_from(&chars, ':', 0), 1);
    assert_eq!(find_from(&chars, ':', 1), 1);
    assert_eq!(find_from(&chars, ':', 2), 3);
    assert_eq!(find_from(&chars, ':', 4), 5);
    assert_eq!(find_from(&chars, 'x', 0), 5);
    assert!(str_equal("tor", "tor"));
    assert!(!str_equal("tor", "Tor"));
}
