use axelar_arbs::decimal::{decimal_u128, parse_unsigned_bounded};
use axelar_arbs::text::{replace_str, str_eq};

#[test]
fn parse_unsigned_like_std() {
    let m = u64::MAX as u128;
    assert_eq!(parse_unsigned_bounded("300000", m), Some(300000));
    assert_eq!(parse_unsigned_bounded("+5", m), Some(5));
    assert_eq!(parse_unsigned_bounded("007", m), Some(7));
    assert_eq!(parse_unsigned_bounded("18446744073709551615", m), Some(u64::MAX as u128));
    assert_eq!(parse_unsigned_bounded("18446744073709551616", m), None);
    assert_eq!(parse_unsigned_bounded("340282366920938463463374607431768211455", u128::MAX), Some(u128::MAX));
    assert_eq!(parse_unsigned_bounded("340282366920938463463374607431768211456", u128::MAX), None);
    assert_eq!(parse_unsigned_bounded("", m), None);
    assert_eq!(parse_unsigned_bounded("+", m), None);
    assert_eq!(parse_unsigned_bounded("-1", m), None);
    assert_eq!(parse_unsigned_bounded("1 ", m), None);
    assert_eq!(parse_unsigned_bounded("99999999999999999999999x", m), None);
    for s in ["300000", "+5", "007", "", "-1", "1e3"] {
        assert_eq!(parse_unsigned_bounded(s, m).map(|v| v as u64), s.parse::<u64>().ok());
    }
}

#[test]
fn decimal_round_trip() {
    for n in [0u128, 9, 10, 12345, u64::MAX as u128, u128::MAX] {
        let text: String = decimal_u128(n).into_iter().collect();
        assert_eq!(text, n.to_string());
        assert_eq!(parse_unsigned_bounded(&text, u128::MAX), Some(n));
    }
}

#[test]
fn replace_like_std() {
    for s in ["wss://a.b/c", "wss://wss://", "ws://x", "", "awss://b"] {
        assert_eq!(replace_str(s, "wss://", "https://"), s.replace("wss://", "https://"));
    }
    assert_eq!(replace_str("aaa", "aa", "b"), "aaa".replace("aa", "b"));
    for s in ["abc", "", "é"] {
        assert_eq!(replace_str(s, "", "-"), s.replace("", "-"));
    }
    assert_eq!(replace_str("ab", "", "xy"), "xyaxybxy");
}

#[test]
fn string_equality() {
    assert!(str_eq("SELL", "SELL"));
    assert!(!str_eq("SELL", "BUY"));
    assert!(!str_eq("SELL", "SELLS"));
    assert!(str_eq("", ""));
}
