use eccfs_epm::key::{parse_ke, splits_cleanly, KeError};

#[test]
fn key_entry_of_either_case() {
    assert_eq!(parse_ke::<4>("00ff7fA0"), Ok([0x00, 0xff, 0x7f, 0xa0]));
    assert_eq!(parse_ke::<2>("DeaD"), Ok([0xde, 0xad]));
    assert_eq!(parse_ke::<0>(""), Ok([]));
}

#[test]
fn key_entry_of_the_wrong_length() {
    assert_eq!(parse_ke::<2>(""), Err(KeError::Length));
    assert_eq!(parse_ke::<2>("00f"), Err(KeError::Length));
    assert_eq!(parse_ke::<2>("00ff0"), Err(KeError::Length));
    assert_eq!(parse_ke::<2>("zz"), Err(KeError::Length));
    assert_eq!(parse_ke::<0>("00"), Err(KeError::Length));
}

#[test]
fn key_entry_with_other_characters() {
    assert_eq!(parse_ke::<2>("00fg"), Err(KeError::InvalidDigit));
    assert_eq!(parse_ke::<2>("0x0f"), Err(KeError::InvalidDigit));
    assert_eq!(parse_ke::<2>("-f00"), Err(KeError::InvalidDigit));
    assert_eq!(parse_ke::<2>(" f00"), Err(KeError::InvalidDigit));
}

#[test]
fn key_entry_with_plus_signs() {
    assert_eq!(parse_ke::<2>("+f+0"), Ok([0x0f, 0x00]));
    assert_eq!(parse_ke::<1>("++"), Err(KeError::InvalidDigit));
    assert_eq!(parse_ke::<1>("f+"), Err(KeError::InvalidDigit));
}

#[test]
fn every_pair_reads_as_a_number_in_base_sixteen() {
    for a in 0..128u8 {
        for b in 0..128u8 {
            let text: String = [a as char, b as char].iter().collect();
            assert!(splits_cleanly(&text, 1));
            let got = parse_ke::<1>(&text);
            match u8::from_str_radix(&text, 16) {
                Ok(value) => assert_eq!(got, Ok([value])),
                Err(_) => assert_eq!(got, Err(KeError::InvalidDigit)),
            }
        }
    }
}

#[test]
fn hexadecimal_text_is_read_back() {
    let mut ke = [0u8; 32];
    for (i, byte) in ke.iter_mut().enumerate() {
        *byte = (i as u8).wrapping_mul(73) ^ 0xc5;
    }
    let text: String = ke.iter().map(|b| format!("{:02x}", b)).collect();
    assert_eq!(parse_ke::<32>(&text), Ok(ke));
    assert_eq!(parse_ke::<32>(&text.to_uppercase()), Ok(ke));
    let mixed: String = text
        .chars()
        .enumerate()
        .map(|(i, c)| if i % 3 == 0 { c.to_ascii_uppercase() } else { c })
        .collect();
    assert_eq!(parse_ke::<32>(&mixed), Ok(ke));
}

#[test]
fn whole_characters_are_no_numbers() {
    assert!(splits_cleanly("\u{e9}", 1));
    assert_eq!(parse_ke::<1>("\u{e9}"), Err(KeError::InvalidDigit));
    assert!(splits_cleanly("zz\u{20ac}0", 3));
    assert_eq!(parse_ke::<3>("zz\u{20ac}0"), Err(KeError::InvalidDigit));
}

#[test]
fn cut_characters_are_told() {
    assert!(!splits_cleanly("0\u{e9}0", 2));
    assert!(!splits_cleanly("z\u{e9}0", 2));
    assert!(!splits_cleanly("00\u{20ac}0", 3));
    assert!(splits_cleanly("0\u{e9}0", 3));
    assert!(splits_cleanly("\u{e9}\u{e9}", 2));
}
