use axelar_arbs::Address;

const HEX: &str = "216b4b4ba9f3e719726886d34a177484278bfcae";

#[test]
fn parse_with_and_without_prefix() {
    let a = Address::parse(&format!("0x{}", HEX)).unwrap();
    assert_eq!(a.to_hex(), HEX);
    assert_eq!(a.bytes[0], 0x21);
    assert_eq!(a.bytes[19], 0xae);
    let b = Address::parse(HEX).unwrap();
    assert_eq!(b.bytes, a.bytes);
}

#[test]
fn parse_accepts_upper_case_and_skips_white_space() {
    let a = Address::parse(&format!("0x{}", HEX.to_uppercase())).unwrap();
    assert_eq!(a.to_hex(), HEX);
    let spaced = format!("0x {} \n", HEX);
    let b = Address::parse(&spaced).unwrap();
    assert_eq!(b.to_hex(), HEX);
}

#[test]
fn parse_refuses_wrong_lengths_and_characters() {
    assert!(Address::parse(&HEX[1..]).is_err());
    assert!(Address::parse(&format!("{}0", HEX)).is_err());
    assert!(Address::parse(&format!("{}00", HEX)).is_err());
    assert!(Address::parse(&format!("0x{}g", &HEX[1..])).is_err());
    assert!(Address::parse("").is_err());
    assert!(Address::parse("0X216b4b4ba9f3e719726886d34a177484278bfcae").is_err());
}

#[test]
fn zero_address_hex() {
    assert_eq!(Address::zero().to_hex(), "0000000000000000000000000000000000000000");
}

#[test]
fn address_hex_round_trip() {
    let mut bytes = [0u8; 20];
    for (i, b) in bytes.iter_mut().enumerate() {
        *b = (i as u8) * 13 + 7;
    }
    let a = Address { bytes };
    assert_eq!(Address::parse(&a.to_hex()).unwrap().bytes, bytes);
    assert_eq!(Address::parse(&format!("0x{}", a.to_hex())).unwrap().bytes, bytes);
}
