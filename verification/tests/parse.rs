use modexp::{parsenum, ModexpError};

#[test]
fn plain_decimals_are_read() {
    assert_eq!(Ok(0), parsenum("0"));
    assert_eq!(Ok(7), parsenum("7"));
    assert_eq!(Ok(42), parsenum("42"));
    assert_eq!(Ok(1234567890), parsenum("1234567890"));
    assert_eq!(Ok(827419628471527655), parsenum("827419628471527655"));
}

#[test]
fn the_largest_value_is_read_and_the_next_is_not() {
    assert_eq!(Ok(u64::MAX), parsenum("18446744073709551615"));
    assert_eq!(Err(ModexpError::Parse), parsenum("18446744073709551616"));
    assert_eq!(Err(ModexpError::Parse), parsenum("18446744073709551620"));
    assert_eq!(Err(ModexpError::Parse), parsenum("99999999999999999999"));
    assert_eq!(Err(ModexpError::Parse), parsenum("100000000000000000000000000000"));
}

#[test]
fn leading_zeros_and_one_plus_are_allowed() {
    assert_eq!(Ok(7), parsenum("007"));
    assert_eq!(Ok(7), parsenum("+7"));
    assert_eq!(Ok(0), parsenum("+0"));
    assert_eq!(Ok(u64::MAX), parsenum("+00018446744073709551615"));
}

#[test]
fn texts_that_are_no_number_are_refused() {
    let bad = [
        "", "+", "-", "-1", "-0", "++1", "+-1", " 1", "1 ", "1_000", "12a", "a12", "1.0", "0x10",
        "1e3", "one", "\u{0661}\u{0662}", "1\u{00e9}", "\u{ff11}",
    ];
    for text in bad.iter() {
        assert_eq!(Err(ModexpError::Parse), parsenum(text));
    }
}

#[test]
fn agrees_with_the_standard_reading() {
    let texts = [
        "", "0", "+", "+1", "-1", "00", "10", "18446744073709551615", "18446744073709551616",
        "1844674407370955161", "184467440737095516150", " 5", "5\n", "+ 5", "5+", "\u{0665}",
    ];
    for text in texts.iter() {
        assert_eq!(text.parse::<u64>().ok(), parsenum(text).ok());
    }
}
