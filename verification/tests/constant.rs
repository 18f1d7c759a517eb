use s7::constant::{
    data_size_byte, Area, BlockLang, CpuStatus, SubBlockType, SIZE_HEADER_READ,
    SIZE_HEADER_WRITE, TS_RES_BIT, TS_RES_BYTE, TS_RES_INT, TS_RES_OCTET, TS_RES_REAL, WL_BIT,
    WL_BYTE, WL_CHAR, WL_COUNTER, WL_DINT, WL_DWORD, WL_INT, WL_REAL, WL_TIMER, WL_WORD,
};
use s7::error::Error;

#[test]
fn area_codes_are_the_wire_codes() {
    assert_eq!(Area::ProcessInput.code(), 0x81);
    assert_eq!(Area::ProcessOutput.code(), 0x82);
    assert_eq!(Area::Merker.code(), 0x83);
    assert_eq!(Area::DataBausteine.code(), 0x84);
    assert_eq!(Area::Counter.code(), 0x1C);
    assert_eq!(Area::Timer.code(), 0x1D);
}

#[test]
fn word_length_codes_are_the_wire_codes() {
    assert_eq!(
        [
            WL_BIT, WL_BYTE, WL_CHAR, WL_WORD, WL_INT, WL_DWORD, WL_DINT, WL_REAL, WL_COUNTER,
            WL_TIMER,
        ],
        [0x01, 0x02, 0x03, 0x04, 0x05, 0x06, 0x07, 0x08, 0x1C, 0x1D]
    );
}

#[test]
fn transport_size_codes_are_the_wire_codes() {
    assert_eq!([TS_RES_BIT, TS_RES_BYTE, TS_RES_INT, TS_RES_REAL, TS_RES_OCTET], [3, 4, 5, 7, 9]);
    assert_eq!(SIZE_HEADER_READ, 31);
    assert_eq!(SIZE_HEADER_WRITE, 35);
}

#[test]
fn data_size_byte_by_word_length() {
    assert_eq!(data_size_byte(WL_BIT), 1);
    assert_eq!(data_size_byte(WL_BYTE), 1);
    assert_eq!(data_size_byte(WL_CHAR), 1);
    assert_eq!(data_size_byte(WL_WORD), 2);
    assert_eq!(data_size_byte(WL_INT), 2);
    assert_eq!(data_size_byte(WL_COUNTER), 2);
    assert_eq!(data_size_byte(WL_TIMER), 2);
    assert_eq!(data_size_byte(WL_DWORD), 4);
    assert_eq!(data_size_byte(WL_DINT), 4);
    assert_eq!(data_size_byte(WL_REAL), 4);
}

#[test]
fn data_size_byte_of_an_unknown_word_length_is_zero() {
    assert_eq!(data_size_byte(0), 0);
    assert_eq!(data_size_byte(9), 0);
    assert_eq!(data_size_byte(-1), 0);
    assert_eq!(data_size_byte(0x1E), 0);
}

#[test]
fn cpu_status_from_u8_is_total_on_the_four_codes() {
    assert_eq!(CpuStatus::from_u8(0), Ok(CpuStatus::Unknown));
    assert_eq!(CpuStatus::from_u8(3), Ok(CpuStatus::StopByUser));
    assert_eq!(CpuStatus::from_u8(4), Ok(CpuStatus::Stop));
    assert_eq!(CpuStatus::from_u8(8), Ok(CpuStatus::Run));
}

#[test]
fn cpu_status_from_u8_fails_on_every_other_byte() {
    for value in 0..=255u8 {
        if value != 0 && value != 3 && value != 4 && value != 8 {
            assert_eq!(CpuStatus::from_u8(value), Err(Error::InvalidCpuStatus(value)));
        }
    }
}

#[test]
fn sub_block_type_from_u8() {
    assert_eq!(SubBlockType::from_u8(0x08), Ok(SubBlockType::Ob));
    assert_eq!(SubBlockType::from_u8(0x0A), Ok(SubBlockType::Db));
    assert_eq!(SubBlockType::from_u8(0x0B), Ok(SubBlockType::Sdb));
    assert_eq!(SubBlockType::from_u8(0x0C), Ok(SubBlockType::Fc));
    assert_eq!(SubBlockType::from_u8(0x0D), Ok(SubBlockType::Sfc));
    assert_eq!(SubBlockType::from_u8(0x0E), Ok(SubBlockType::Fb));
    assert_eq!(SubBlockType::from_u8(0x0F), Ok(SubBlockType::Sfb));
    assert_eq!(SubBlockType::from_u8(0x09), Err(Error::InvalidBlockType(0x09)));
    assert_eq!(SubBlockType::from_u8(0x41), Err(Error::InvalidBlockType(0x41)));
}

#[test]
fn block_lang_from_u8() {
    assert_eq!(BlockLang::from_u8(1), Ok(BlockLang::Awl));
    assert_eq!(BlockLang::from_u8(2), Ok(BlockLang::Kop));
    assert_eq!(BlockLang::from_u8(3), Ok(BlockLang::Fup));
    assert_eq!(BlockLang::from_u8(4), Ok(BlockLang::Scl));
    assert_eq!(BlockLang::from_u8(5), Ok(BlockLang::Db));
    assert_eq!(BlockLang::from_u8(6), Ok(BlockLang::Graph));
    assert_eq!(BlockLang::from_u8(0), Err(Error::InvalidCpuStatus(0)));
    assert_eq!(BlockLang::from_u8(7), Err(Error::InvalidCpuStatus(7)));
}
