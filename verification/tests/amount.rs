use axelar_arbs::make_same_digits;
use axelar_arbs::Amount;

fn amt(s: &str) -> Amount {
    Amount::parse(s).unwrap()
}

fn text(a: &Amount) -> String {
    a.to_text()
}

#[test]
fn parse_plain_and_signed_numbers() {
    assert_eq!(text(&amt("123")), "123");
    assert_eq!(text(&amt("-42")), "-42");
    assert_eq!(text(&amt("+5")), "5");
    assert_eq!(text(&amt("-0")), "0");
    assert_eq!(text(&amt("007")), "7");
    assert_eq!(text(&amt("1_000_000")), "1000000");
    assert_eq!(text(&amt("123456789012345678901234567890123456789012")), "123456789012345678901234567890123456789012");
}

#[test]
fn parse_errors_give_num_bigint_messages() {
    let empty = "cannot parse integer from empty string";
    let invalid = "invalid digit found in string";
    assert_eq!(Amount::parse("").err().unwrap(), empty);
    assert_eq!(Amount::parse("-").err().unwrap(), empty);
    assert_eq!(Amount::parse("+").err().unwrap(), empty);
    assert_eq!(Amount::parse("12a").err().unwrap(), invalid);
    assert_eq!(Amount::parse("_1").err().unwrap(), invalid);
    assert_eq!(Amount::parse("-+1").err().unwrap(), invalid);
    assert_eq!(Amount::parse("--1").err().unwrap(), invalid);
    assert_eq!(Amount::parse("++1").err().unwrap(), invalid);
    assert_eq!(Amount::parse("\"5\"").err().unwrap(), invalid);
    assert_eq!(Amount::parse("1.5").err().unwrap(), invalid);
}

#[test]
fn from_u128_writes_decimal() {
    assert_eq!(text(&Amount::from_u128(0)), "0");
    assert_eq!(text(&Amount::from_u128(1000)), "1000");
    assert_eq!(text(&Amount::from_u128(u128::MAX)), "340282366920938463463374607431768211455");
    assert_eq!(text(&Amount::zero()), "0");
}

#[test]
fn comparisons_follow_integer_order() {
    assert!(amt("10").gt(&amt("9")));
    assert!(!amt("9").gt(&amt("10")));
    assert!(!amt("10").gt(&amt("10")));
    assert!(amt("123").gt(&amt("122")));
    assert!(amt("-9").gt(&amt("-10")));
    assert!(!amt("-10").gt(&amt("-9")));
    assert!(amt("0").gt(&amt("-1")));
    assert!(!amt("-1").gt(&amt("0")));
    assert!(amt("1").is_positive());
    assert!(!amt("0").is_positive());
    assert!(!amt("-3").is_positive());
}

#[test]
fn div_ten_rounds_toward_zero() {
    assert_eq!(text(&amt("15").div_ten()), "1");
    assert_eq!(text(&amt("-15").div_ten()), "-1");
    assert_eq!(text(&amt("-5").div_ten()), "0");
    assert_eq!(text(&amt("9").div_ten()), "0");
    assert_eq!(text(&amt("100").div_ten()), "10");
}

#[test]
fn text_longer_counts_the_sign() {
    assert!(amt("-12").text_longer(&amt("12")));
    assert!(!amt("-1").text_longer(&amt("12")));
    assert!(amt("123").text_longer(&amt("-1")));
    assert!(!amt("12").text_longer(&amt("-1")));
}

#[test]
fn make_same_digits_cuts_the_longer_amount() {
    let (a, b) = make_same_digits(amt("12345"), amt("678"));
    assert_eq!((text(&a), text(&b)), ("123".to_string(), "678".to_string()));
    let (a, b) = make_same_digits(amt("678"), amt("12345"));
    assert_eq!((text(&a), text(&b)), ("678".to_string(), "123".to_string()));
    let (a, b) = make_same_digits(amt("1999"), amt("2000"));
    assert_eq!((text(&a), text(&b)), ("1999".to_string(), "2000".to_string()));
}

#[test]
fn make_same_digits_with_signs() {
    let (a, b) = make_same_digits(amt("-5"), amt("10"));
    assert_eq!((text(&a), text(&b)), ("-5".to_string(), "10".to_string()));
    let (a, b) = make_same_digits(amt("5"), amt("-15"));
    assert_eq!((text(&a), text(&b)), ("5".to_string(), "0".to_string()));
    let (a, b) = make_same_digits(amt("-1234"), amt("77"));
    assert_eq!((text(&a), text(&b)), ("-1".to_string(), "77".to_string()));
}

#[test]
fn make_same_digits_on_token_amounts() {
    let weth = amt("1000000000000000000");
    let usdc = amt("1843250000");
    let (a, b) = make_same_digits(weth, usdc);
    assert_eq!((text(&a), text(&b)), ("1000000000".to_string(), "1843250000".to_string()));
}

#[test]
fn make_same_digits_is_idempotent() {
    let (a, b) = make_same_digits(amt("987654321"), amt("-4321"));
    let (a2, b2) = make_same_digits(a.copy(), b.copy());
    assert_eq!(text(&a2), text(&a));
    assert_eq!(text(&b2), text(&b));
    assert_eq!(text(&a).len(), text(&b).len());
}

#[test]
fn amount_text_round_trip() {
    for s in ["0", "-7", "18446744073709551616", "-340282366920938463463374607431768211456"] {
        let a = amt(s);
        assert_eq!(text(&amt(&a.to_text())), s);
    }
}
