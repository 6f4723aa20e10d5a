use tbx::byte::Bytes;
use tbx::hex::ParseError::{InvalidChar, LackOfPair};
use tbx::hex::{parse, parse_hex, parse_hex_pair, Hex};

#[test]
fn test_as_bytes() {
    assert_eq!(vec!(0x12), (0x12 as u8).as_bytes());
    assert_eq!(vec!(0x12, 0x34), (0x1234 as u16).as_bytes());
    assert_eq!(vec!(0x12, 0x34, 0x56, 0x78), (0x1234_5678 as u32).as_bytes());
    assert_eq!(vec!(0x12, 0x34, 0x56, 0x78, 0xab, 0xcd, 0xef, 0xfe),
               (0x1234_5678_abcd_effe as u64).as_bytes());
    assert_eq!(vec!(0x12, 0x34, 0x56, 0x78,
                    0xab, 0xcd, 0xef, 0xfe,
                    0xdc, 0xba, 0x98, 0x76,
                    0x54, 0x32, 0x10, 0xfe),
               (0x1234_5678_abcd_effe__dcba_9876_5432_10fe as u128).as_bytes());

    assert_eq!(vec!(0x12, 0x34), (vec!(0x12 as u8, 0x34 as u8).as_bytes()));
    assert_eq!(vec!(0x12, 0x34, 0x56, 0x78),
               (vec!(0x1234 as u16, 0x5678 as u16).as_bytes()));
    assert_eq!(vec!(0x12, 0x34, 0x56, 0x78, 0xab, 0xcd, 0xef, 0xfe),
               (vec!(0x1234_5678 as u32, 0xabcdeffe as u32).as_bytes()));
    assert_eq!(vec!(0x12, 0x34, 0x56, 0x78,
                    0xab, 0xcd, 0xef, 0xfe,
                    0xdc, 0xba, 0x98, 0x76,
                    0x54, 0x32, 0x10, 0xfe),
               vec!(0x1234_5678_abcd_effe as u64, 0xdcba_9876_5432_10fe as u64).as_bytes());
    assert_eq!(vec!(0x12, 0x34, 0x56, 0x78,
                    0xab, 0xcd, 0xef, 0xfe,
                    0xdc, 0xba, 0x98, 0x76,
                    0x54, 0x32, 0x10, 0xfe,
                    0x43, 0x21, 0x56, 0x78,
                    0xab, 0xcd, 0xef, 0xfe,
                    0xdc, 0xba, 0x98, 0x76,
                    0x54, 0x32, 0x10, 0xfe),
               vec!(0x1234_5678_abcd_effe__dcba_9876_5432_10fe as u128,
                    0x4321_5678_abcd_effe__dcba_9876_5432_10fe as u128).as_bytes());
}

#[test]
fn test_parse_hex() {
    assert_eq!(Ok(0), parse_hex('0'));
    assert_eq!(Ok(1), parse_hex('1'));
    assert_eq!(Ok(2), parse_hex('2'));
    assert_eq!(Ok(3), parse_hex('3'));
    assert_eq!(Ok(4), parse_hex('4'));
    assert_eq!(Ok(5), parse_hex('5'));
    assert_eq!(Ok(6), parse_hex('6'));
    assert_eq!(Ok(7), parse_hex('7'));
    assert_eq!(Ok(8), parse_hex('8'));
    assert_eq!(Ok(9), parse_hex('9'));

    assert_eq!(Ok(10), parse_hex('a'));
    assert_eq!(Ok(11), parse_hex('b'));
    assert_eq!(Ok(12), parse_hex('c'));
    assert_eq!(Ok(13), parse_hex('d'));
    assert_eq!(Ok(14), parse_hex('e'));
    assert_eq!(Ok(15), parse_hex('f'));

    assert_eq!(Ok(10), parse_hex('A'));
    assert_eq!(Ok(11), parse_hex('B'));
    assert_eq!(Ok(12), parse_hex('C'));
    assert_eq!(Ok(13), parse_hex('D'));
    assert_eq!(Ok(14), parse_hex('E'));
    assert_eq!(Ok(15), parse_hex('F'));

    assert_eq!(Err(InvalidChar), parse_hex('g'));
    assert_eq!(Err(InvalidChar), parse_hex('h'));
}

#[test]
fn hex_test_parse() {
    assert_eq!(Ok(vec![0x12, 0x34, 0xab, 0xef]), parse("1234abef"));
    assert_eq!(Err(InvalidChar), parse("1234____"));
    assert_eq!(Err(LackOfPair), parse("123"));
}

#[test]
fn hex_pairs_and_empty_text() {
    assert_eq!(Ok(0xa5), parse_hex_pair('A', '5'));
    assert_eq!(Err(InvalidChar), parse_hex_pair('5', 'x'));
    assert_eq!(Ok(vec![]), parse(""));
    assert_eq!(Err(LackOfPair), parse("12_"));
}

#[test]
fn hex_test_to_hex() {
    assert_eq!("01", (0x01 as u8).to_hex_lower());
    assert_eq!("32", (0x32 as u8).to_hex_lower());
    assert_eq!("45", (0x45 as u8).to_hex_lower());
    assert_eq!("67", (0x67 as u8).to_hex_lower());
    assert_eq!("98", (0x98 as u8).to_hex_lower());
    assert_eq!("ab", (0xab as u8).to_hex_lower());
    assert_eq!("cd", (0xcd as u8).to_hex_lower());
    assert_eq!("fe", (0xfe as u8).to_hex_lower());

    assert_eq!("01", (0x01 as u8).to_hex_upper());
    assert_eq!("32", (0x32 as u8).to_hex_upper());
    assert_eq!("45", (0x45 as u8).to_hex_upper());
    assert_eq!("67", (0x67 as u8).to_hex_upper());
    assert_eq!("98", (0x98 as u8).to_hex_upper());
    assert_eq!("AB", (0xab as u8).to_hex_upper());
    assert_eq!("CD", (0xcd as u8).to_hex_upper());
    assert_eq!("FE", (0xfe as u8).to_hex_upper());

    assert_eq!("0123456789abcdef", vec!(0x01, 0x23, 0x45, 0x67, 0x89, 0xab, 0xcd, 0xef).to_hex_lower());
    assert_eq!("0123456789ABCDEF", vec!(0x01, 0x23, 0x45, 0x67, 0x89, 0xab, 0xcd, 0xef).to_hex_upper());

    assert_eq!("0123456789abcdef", [0x01u8, 0x23, 0x45, 0x67, 0x89, 0xab, 0xcd, 0xef][..].to_hex_lower());
    assert_eq!("0123456789ABCDEF", [0x01u8, 0x23, 0x45, 0x67, 0x89, 0xab, 0xcd, 0xef][..].to_hex_upper());

    let q = [0x01u8, 0x23, 0x45, 0x67, 0x89, 0xab, 0xcd, 0xef];
    assert_eq!("01234567", q[0..=3].to_hex_lower());
    assert_eq!("89ABCDEF", q[4..=7].to_hex_upper());

    assert_eq!("0123", (0x0123 as u16).to_hex_lower());
    assert_eq!("0123", (0x0123 as u16).to_hex_upper());
    assert_eq!("abcd", (0xabcd as u16).to_hex_lower());
    assert_eq!("ABCD", (0xABCD as u16).to_hex_upper());

    assert_eq!("01234567", (0x01234567 as u32).to_hex_lower());
    assert_eq!("01234567", (0x01234567 as u32).to_hex_upper());
    assert_eq!("ab98cd01", (0xab98cd01 as u32).to_hex_lower());
    assert_eq!("AB98CD01", (0xAB98CD01 as u32).to_hex_upper());

    assert_eq!("01234567ab98cd01", (0x01234567_ab98cd01 as u64).to_hex_lower());
    assert_eq!("01234567AB98CD01", (0x01234567_ab98cd01 as u64).to_hex_upper());

    assert_eq!("01234567ab98cd0123456789ab01cd23", (0x01234567_ab98cd01_23456789_ab01cd23 as u128).to_hex_lower());
    assert_eq!("01234567AB98CD0123456789AB01CD23", (0x01234567_ab98cd01_23456789_ab01cd23 as u128).to_hex_upper());
}
