use chrono::NaiveDate;
use s7::error::Error;
use s7::field::{
    dint_at, low_address, low_word, put_address, put_low_word, put_word, siemens_timestamp,
    to_chars, word_at,
};

#[test]
fn word_at_reads_big_endian() {
    assert_eq!(word_at(&[0x12, 0x34, 0x56], 0), 0x1234);
    assert_eq!(word_at(&[0x12, 0x34, 0x56], 1), 0x3456);
    assert_eq!(word_at(&[0x01, 0xE0], 0), 480);
    assert_eq!(word_at(&[0xFF, 0xFF], 0), 65535);
}

#[test]
fn dint_at_reads_twos_complement() {
    assert_eq!(dint_at(&[0x00, 0x00, 0x01, 0x00], 0), 256);
    assert_eq!(dint_at(&[0xFF, 0xFF, 0xFF, 0xFE], 0), -2);
    assert_eq!(dint_at(&[0x09, 0x80, 0x00, 0x00, 0x00], 1), i32::MIN);
    assert_eq!(dint_at(&[0x7F, 0xFF, 0xFF, 0xFF], 0), i32::MAX);
}

#[test]
fn put_word_stores_big_endian() {
    let mut bytes = vec![0u8; 4];
    put_word(&mut bytes, 1, 0xABCD);
    assert_eq!(bytes, vec![0x00, 0xAB, 0xCD, 0x00]);
}

#[test]
fn put_low_word_keeps_sixteen_bits() {
    let mut bytes = vec![0u8; 2];
    put_low_word(&mut bytes, 0, 70000);
    assert_eq!(bytes, vec![0x11, 0x70]);
    put_low_word(&mut bytes, 0, -1);
    assert_eq!(bytes, vec![0xFF, 0xFF]);
    put_low_word(&mut bytes, 0, 888);
    assert_eq!(bytes, vec![0x03, 0x78]);
}

#[test]
fn low_word_is_the_value_modulo_65536() {
    assert_eq!(low_word(0), 0);
    assert_eq!(low_word(65535), 65535);
    assert_eq!(low_word(65536), 0);
    assert_eq!(low_word(-1), 0xFFFF);
    assert_eq!(low_word(-65536), 0);
    assert_eq!(low_word(-65537), 0xFFFF);
    assert_eq!(low_word(i64::MIN), 0);
    assert_eq!(low_word(i64::MAX), 0xFFFF);
}

#[test]
fn low_address_is_the_value_modulo_two_to_the_24() {
    assert_eq!(low_address(0x12_3456), 0x12_3456);
    assert_eq!(low_address(0x100_0000), 0);
    assert_eq!(low_address(0x123_4567), 0x23_4567);
    assert_eq!(low_address(-8), 0xFF_FFF8);
    assert_eq!(low_address(i64::MIN), 0);
}

#[test]
fn put_address_stores_three_bytes() {
    let mut bytes = vec![9u8; 5];
    put_address(&mut bytes, 1, 0x12_3456);
    assert_eq!(bytes, vec![9, 0x12, 0x34, 0x56, 9]);
    put_address(&mut bytes, 1, 0x7FF_0102);
    assert_eq!(bytes, vec![9, 0xFF, 0x01, 0x02, 9]);
}

#[test]
fn to_chars_gives_the_text_of_ascii_bytes() {
    assert_eq!(to_chars(b"OB1     ".to_vec()), Ok("OB1     ".to_string()));
    assert_eq!(to_chars(Vec::new()), Ok(String::new()));
    assert_eq!(to_chars(vec![0x41, 0x00, 0x42]), Ok("A\0B".to_string()));
}

#[test]
fn to_chars_decodes_utf8() {
    assert_eq!(to_chars(vec![0xC3, 0xA4]), Ok("\u{e4}".to_string()));
}

#[test]
fn to_chars_refuses_bytes_that_are_no_text() {
    assert_eq!(
        to_chars(vec![0xFF, 0x41]),
        Err(Error::InvalidResponse {
            reason: "invalid utf-8".to_string(),
            bytes: vec![0xFF, 0x41],
        })
    );
}

#[test]
fn siemens_timestamp_counts_days_from_1984() {
    let day = |y: i32, m: u32, d: u32| {
        NaiveDate::from_ymd_opt(y, m, d).unwrap().and_hms_opt(0, 0, 0).unwrap()
    };
    assert_eq!(siemens_timestamp(0), Some(day(1984, 1, 1)));
    assert_eq!(siemens_timestamp(1), Some(day(1984, 1, 2)));
    assert_eq!(siemens_timestamp(366), Some(day(1985, 1, 1)));
    assert_eq!(siemens_timestamp(-1), Some(day(1983, 12, 31)));
    assert_eq!(siemens_timestamp(65535), Some(day(2163, 6, 6)));
}

#[test]
fn siemens_timestamp_gives_nothing_out_of_range() {
    assert_eq!(siemens_timestamp(i64::MAX), None);
    assert_eq!(siemens_timestamp(i64::MIN), None);
    assert_eq!(siemens_timestamp(i64::MAX / 86_400), None);
}
