use chrono::NaiveDate;
use s7::block::{info_from, info_request, parse_info, parse_list};
use s7::client::{BlockList, BlockType};
use s7::constant::{BlockLang, SubBlockType};
use s7::error::Error;
use s7::field::siemens_timestamp;

#[test]
fn block_number_is_written_in_ascii_digits() {
    let request = info_request(BlockType::DB, 12345);
    assert_eq!(&request[31..36], &[0x31, 0x32, 0x33, 0x34, 0x35]);
    let request = info_request(BlockType::DB, 7);
    assert_eq!(&request[31..36], &[0x30, 0x30, 0x30, 0x30, 0x37]);
    let request = info_request(BlockType::DB, 888);
    assert_eq!(&request[31..36], &[0x30, 0x30, 0x38, 0x38, 0x38]);
    let request = info_request(BlockType::DB, 0);
    assert_eq!(&request[31..36], b"00000");
    let request = info_request(BlockType::DB, 99999);
    assert_eq!(&request[31..36], b"99999");
}

#[test]
fn block_number_above_five_digits_spills_into_the_first_byte() {
    let request = info_request(BlockType::DB, 123_456);
    assert_eq!(&request[31..36], &[0x30 + 12, 0x33, 0x34, 0x35, 0x36]);
    let request = info_request(BlockType::DB, u32::MAX);
    assert_eq!(&request[31..36], &[((429_496 + 0x30) % 256) as u8, 0x37, 0x32, 0x39, 0x35]);
}

#[test]
fn block_info_request_names_the_block_type() {
    assert_eq!(
        info_request(BlockType::DB, 888),
        vec![
            0x03, 0x00, 0x00, 0x25, 0x02, 0xf0, 0x80, 0x32, 0x07, 0x00, 0x00, 0x05, 0x00, 0x00,
            0x08, 0x00, 0x0c, 0x00, 0x01, 0x12, 0x04, 0x11, 0x43, 0x03, 0x00, 0xff, 0x09, 0x00,
            0x08, 0x30, 0x41, 0x30, 0x30, 0x38, 0x38, 0x38, 0x41,
        ]
    );
    for (block_type, code) in [
        (BlockType::OB, 0x38u8),
        (BlockType::DB, 0x41),
        (BlockType::SDB, 0x42),
        (BlockType::FC, 0x43),
        (BlockType::SFC, 0x44),
        (BlockType::FB, 0x45),
        (BlockType::SFB, 0x46),
    ] {
        assert_eq!(block_type.code(), code);
        assert_eq!(info_request(block_type, 1)[30], code);
    }
}

fn block() -> Vec<u8> {
    let mut response = vec![0u8; 100];
    response[42] = 0x01;
    response[43] = 0x05;
    response[44] = 0x0A;
    response[45] = 0x03;
    response[46] = 0x78;
    response[47..51].copy_from_slice(&[0x00, 0x00, 0x01, 0x2C]);
    response[59] = 0x00;
    response[60] = 0x01;
    response[65] = 0x01;
    response[66] = 0x6E;
    response[67] = 0x00;
    response[68] = 0x14;
    response[71] = 0x00;
    response[72] = 0x02;
    response[73] = 0x00;
    response[74] = 0x64;
    response[75..83].copy_from_slice(b"AUTHOR  ");
    response[83..91].copy_from_slice(b"FAMILY  ");
    response[91..99].copy_from_slice(b"HEADER  ");
    response[99] = 0x21;
    response
}

#[test]
fn block_info_is_read_from_fixed_places() {
    let info = parse_info(&block()).unwrap();
    assert_eq!(info.block_type, SubBlockType::Db);
    assert_eq!(info.block_number, 888);
    assert_eq!(info.block_lang, BlockLang::Db);
    assert_eq!(info.block_flags, 0x01);
    assert_eq!(info.mc7_size, 100);
    assert_eq!(info.load_size, 300);
    assert_eq!(info.local_data, 2);
    assert_eq!(info.sbb_length, 20);
    assert_eq!(info.version, 0x21);
    assert_eq!(
        info.code_date,
        NaiveDate::from_ymd_opt(1984, 1, 2).unwrap().and_hms_opt(0, 0, 0).unwrap()
    );
    assert_eq!(
        info.interface_date,
        NaiveDate::from_ymd_opt(1985, 1, 1).unwrap().and_hms_opt(0, 0, 0).unwrap()
    );
    assert_eq!(info.author, "AUTHOR  ");
    assert_eq!(info.family, "FAMILY  ");
    assert_eq!(info.header, "HEADER  ");
}

#[test]
fn block_info_with_a_negative_load_size() {
    let mut response = block();
    response[47..51].copy_from_slice(&[0xFF, 0xFF, 0xFF, 0xFF]);
    assert_eq!(parse_info(&response).unwrap().load_size, -1);
}

#[test]
fn block_info_of_a_short_answer() {
    assert_eq!(parse_info(&[0u8; 32]).err(), Some(Error::InvalidPdu));
    let mut response = block();
    response.truncate(99);
    assert_eq!(parse_info(&response).err(), Some(Error::InvalidPdu));
    assert_eq!(parse_info(&[0u8; 33]).err(), Some(Error::InvalidPdu));
}

#[test]
fn block_info_with_an_error_code() {
    let mut response = block();
    response[27] = 0xD2;
    response[28] = 0x09;
    assert_eq!(parse_info(&response).err(), Some(Error::Cpu { code: 0xD209 }));
    let mut short = vec![0u8; 33];
    short[28] = 0x01;
    assert_eq!(parse_info(&short).err(), Some(Error::Cpu { code: 1 }));
}

#[test]
fn block_info_with_an_unknown_block_type() {
    let mut response = block();
    response[44] = 0x41;
    response[43] = 0x09;
    assert_eq!(parse_info(&response).err(), Some(Error::InvalidBlockType(0x41)));
}

#[test]
fn block_info_with_an_unknown_language() {
    let mut response = block();
    response[43] = 0x09;
    assert_eq!(parse_info(&response).err(), Some(Error::InvalidCpuStatus(0x09)));
}

#[test]
fn block_info_with_a_name_that_is_no_text() {
    let mut response = block();
    response[84] = 0x80;
    assert_eq!(
        parse_info(&response).err(),
        Some(Error::InvalidResponse {
            reason: "invalid utf-8".to_string(),
            bytes: response[83..91].to_vec(),
        })
    );
    response[75] = 0xFF;
    assert_eq!(
        parse_info(&response).err(),
        Some(Error::InvalidResponse {
            reason: "invalid utf-8".to_string(),
            bytes: response[75..83].to_vec(),
        })
    );
}

#[test]
fn block_info_without_a_date() {
    let moment = siemens_timestamp(1);
    assert_eq!(info_from(&block(), None, moment).err(), Some(Error::InvalidPlcAnswer));
    assert_eq!(info_from(&block(), moment, None).err(), Some(Error::InvalidPlcAnswer));
    let info = info_from(&block(), moment, siemens_timestamp(0)).unwrap();
    assert_eq!(Some(info.code_date), moment);
    assert_eq!(Some(info.interface_date), siemens_timestamp(0));
    let mut response = block();
    response[44] = 0x00;
    assert_eq!(info_from(&response, None, None).err(), Some(Error::InvalidBlockType(0)));
}

fn counts() -> Vec<u8> {
    let mut response = vec![0u8; 61];
    response[29] = 0xFF;
    for (i, at) in [35usize, 39, 43, 47, 51, 55, 59].iter().enumerate() {
        response[*at] = i as u8 + 1;
        response[*at + 1] = 0x10 + i as u8;
    }
    response
}

#[test]
fn block_list_is_seven_counts() {
    assert_eq!(
        parse_list(&counts()),
        Ok(BlockList {
            ob_block_count: 0x0110,
            fb_block_count: 0x0211,
            fc_block_count: 0x0312,
            db_block_count: 0x0413,
            sdb_block_count: 0x0514,
            sfc_block_count: 0x0615,
            sfb_block_count: 0x0716,
        })
    );
}

#[test]
fn block_list_of_a_short_answer() {
    let mut response = counts();
    response.truncate(60);
    assert_eq!(parse_list(&response), Err(Error::InvalidPdu));
}

#[test]
fn block_list_that_the_plc_marks_as_failed() {
    let mut response = counts();
    response[29] = 0x0A;
    assert_eq!(parse_list(&response), Err(Error::Cpu { code: 10 }));
    response[27] = 0x01;
    assert_eq!(parse_list(&response), Err(Error::Cpu { code: 10 }));
    response[29] = 0xFF;
    assert_eq!(parse_list(&response), Err(Error::Cpu { code: 0x0100 }));
}
