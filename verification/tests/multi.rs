use s7::client::S7DataItem;
use s7::error::Error;
use s7::multi::{accept_read, accept_write, check_reply, read_request, write_request};

fn item(area: u8, word_len: u8, db_num: u16, start: u16, size: u16, buffer: Vec<u8>) -> S7DataItem {
    S7DataItem { area, word_len, db_num, start, size, buffer, err: None }
}

fn head(count: u8) -> Vec<u8> {
    let mut response = vec![0u8; 21];
    response[20] = count;
    response
}

#[test]
fn read_request_of_two_variables() {
    let items = vec![
        item(0x84, 0x02, 88, 3, 8, vec![]),
        item(0x1C, 0x1C, 0, 5, 1, vec![]),
    ];
    assert_eq!(
        read_request(&items),
        Ok(vec![
            0x03, 0x00, 0x00, 43, 0x02, 0xF0, 0x80, 0x32, 0x01, 0x00, 0x00, 0x00, 0x01, 0x00, 26,
            0x00, 0x00, 0x04, 0x02, //
            0x12, 0x0A, 0x10, 0x02, 0x00, 0x08, 0x00, 88, 0x84, 0x00, 0x00, 24, //
            0x12, 0x0A, 0x10, 0x1C, 0x00, 0x01, 0x00, 0x00, 0x1C, 0x00, 0x00, 0x05,
        ])
    );
}

#[test]
fn read_request_addresses_bytes_by_bit() {
    let items = vec![
        item(0x83, 0x04, 0, 0xFFFF, 1, vec![]),
        item(0x83, 0x01, 0, 0xFFFF, 1, vec![]),
        item(0x1D, 0x1D, 0, 0x0102, 1, vec![]),
    ];
    let request = read_request(&items).unwrap();
    assert_eq!(request.len(), 19 + 36);
    assert_eq!(&request[28..31], &[0x07, 0xFF, 0xF8]);
    assert_eq!(&request[40..43], &[0x00, 0xFF, 0xFF]);
    assert_eq!(&request[52..55], &[0x00, 0x01, 0x02]);
}

#[test]
fn read_request_of_no_variable() {
    assert_eq!(
        read_request(&Vec::new()),
        Ok(vec![
            0x03, 0x00, 0x00, 19, 0x02, 0xF0, 0x80, 0x32, 0x01, 0x00, 0x00, 0x00, 0x01, 0x00, 2,
            0x00, 0x00, 0x04, 0x00,
        ])
    );
}

#[test]
fn read_request_of_twenty_variables() {
    let items: Vec<S7DataItem> = (0..20).map(|i| item(0x84, 2, 1, i, 1, vec![])).collect();
    let request = read_request(&items).unwrap();
    assert_eq!(request.len(), 19 + 240);
    assert_eq!(&request[2..4], &[0x01, 0x03]);
    assert_eq!(&request[13..15], &[0x00, 242]);
    assert_eq!(request[18], 20);
}

#[test]
fn read_request_of_too_many_variables() {
    let items: Vec<S7DataItem> = (0..21).map(|i| item(0x84, 2, 1, i, 1, vec![])).collect();
    assert_eq!(
        read_request(&items),
        Err(Error::InvalidInput { input: "Too many items".to_string() })
    );
}

#[test]
fn read_reply_with_one_success_and_one_failure() {
    let mut items = vec![item(0x84, 2, 1, 0, 8, vec![0xEE]), item(0x84, 2, 2, 0, 1, vec![0xEE])];
    let mut response = head(2);
    response.extend_from_slice(&[0xFF, 0x04, 0x00, 0x40, 1, 2, 3, 4, 5, 6, 7, 8]);
    response.extend_from_slice(&[0x05, 0x00, 0x00, 0x00]);
    assert_eq!(response.len(), 37);
    assert_eq!(accept_read(&mut items, &response), Ok(()));
    assert_eq!(items[0].buffer, vec![1, 2, 3, 4, 5, 6, 7, 8]);
    assert_eq!(items[0].err, None);
    assert_eq!(items[1].err, Some(Error::Cpu { code: 5 }));
    assert_eq!(items[1].buffer, vec![0xEE]);
}

#[test]
fn read_reply_counts_octets_reals_and_bits_in_bytes() {
    let mut items = vec![
        item(0x1C, 0x1C, 0, 0, 1, vec![]),
        item(0x84, 8, 1, 0, 1, vec![]),
        item(0x83, 1, 0, 0, 1, vec![]),
        item(0x84, 2, 1, 0, 1, vec![]),
    ];
    let mut response = head(4);
    response.extend_from_slice(&[0xFF, 0x09, 0x00, 0x02, 0xA1, 0xA2]);
    response.extend_from_slice(&[0xFF, 0x07, 0x00, 0x04, 0xB1, 0xB2, 0xB3, 0xB4]);
    response.extend_from_slice(&[0xFF, 0x03, 0x00, 0x01, 0x01, 0x00]);
    response.extend_from_slice(&[0xFF, 0x05, 0x00, 0x10, 0xC1, 0xC2]);
    assert_eq!(accept_read(&mut items, &response), Ok(()));
    assert_eq!(items[0].buffer, vec![0xA1, 0xA2]);
    assert_eq!(items[1].buffer, vec![0xB1, 0xB2, 0xB3, 0xB4]);
    assert_eq!(items[2].buffer, vec![0x01]);
    assert_eq!(items[3].buffer, vec![0xC1, 0xC2]);
}

#[test]
fn read_reply_skips_the_padding_of_odd_data() {
    let mut items = vec![item(0x84, 2, 1, 0, 3, vec![]), item(0x84, 2, 1, 9, 1, vec![])];
    let mut response = head(2);
    response.extend_from_slice(&[0xFF, 0x04, 0x00, 0x18, 1, 2, 3, 0]);
    response.extend_from_slice(&[0xFF, 0x04, 0x00, 0x08, 9]);
    assert_eq!(accept_read(&mut items, &response), Ok(()));
    assert_eq!(items[0].buffer, vec![1, 2, 3]);
    assert_eq!(items[1].buffer, vec![9]);
}

#[test]
fn read_reply_with_a_byte_count_of_eight_bits() {
    let mut items = vec![item(0x84, 2, 1, 0, 1, vec![])];
    let mut response = head(1);
    response.extend_from_slice(&[0xFF, 0x04, 0x00, 0x08, 0x5A, 0x00]);
    assert_eq!(accept_read(&mut items, &response), Ok(()));
    assert_eq!(items[0].buffer, vec![0x5A]);
}

#[test]
fn read_reply_too_small() {
    let mut items = vec![item(0x84, 2, 1, 0, 1, vec![7])];
    let response = head(1);
    assert_eq!(
        accept_read(&mut items, &response),
        Err(Error::InvalidResponse { reason: "PDU too small".to_string(), bytes: response })
    );
    assert_eq!(items[0].buffer, vec![7]);
    assert_eq!(items[0].err, None);
}

#[test]
fn read_reply_with_an_error_of_its_own() {
    let mut items = vec![item(0x84, 2, 1, 0, 1, vec![7])];
    let mut response = head(1);
    response.extend_from_slice(&[0xFF, 0x04, 0x00, 0x08, 0x5A, 0x00]);
    response[17] = 0x85;
    response[18] = 0x00;
    assert_eq!(accept_read(&mut items, &response), Err(Error::Cpu { code: 0x8500 }));
    assert_eq!(items[0].buffer, vec![7]);
}

#[test]
fn read_reply_that_counts_other_variables() {
    let mut items = vec![item(0x84, 2, 1, 0, 1, vec![7])];
    let mut response = head(2);
    response.extend_from_slice(&[0xFF, 0x04, 0x00, 0x08, 0x5A, 0x00]);
    assert_eq!(
        accept_read(&mut items, &response),
        Err(Error::InvalidResponse {
            reason: "Item count does not match".to_string(),
            bytes: response,
        })
    );
    assert_eq!(items[0].buffer, vec![7]);
}

#[test]
fn read_reply_that_ends_inside_a_variable() {
    let mut items = vec![item(0x84, 2, 1, 0, 2, vec![7]), item(0x84, 2, 1, 4, 2, vec![8])];
    let mut response = head(2);
    response.extend_from_slice(&[0xFF, 0x04, 0x00, 0x10, 1, 2]);
    response.extend_from_slice(&[0xFF, 0x04, 0x00, 0x10, 3]);
    let cut = Err(Error::InvalidResponse {
        reason: "Item out of bounds".to_string(),
        bytes: response.clone(),
    });
    assert_eq!(accept_read(&mut items, &response), cut);
    assert_eq!(items[0].buffer, vec![1, 2]);
    assert_eq!(items[1].buffer, vec![8]);
    let mut items = vec![item(0x84, 2, 1, 0, 2, vec![7]), item(0x84, 2, 1, 4, 2, vec![8])];
    let mut response = head(2);
    response.extend_from_slice(&[0xFF, 0x04, 0x00, 0x10, 1, 2]);
    assert_eq!(
        accept_read(&mut items, &response),
        Err(Error::InvalidResponse { reason: "Item out of bounds".to_string(), bytes: response })
    );
    let mut items = vec![item(0x84, 2, 1, 0, 2, vec![7])];
    let mut response = head(1);
    response.extend_from_slice(&[0xFF, 0x04]);
    assert_eq!(
        accept_read(&mut items, &response),
        Err(Error::InvalidResponse { reason: "Item out of bounds".to_string(), bytes: response })
    );
}

#[test]
fn read_reply_with_a_failure_at_its_end() {
    let mut items = vec![item(0x84, 2, 1, 0, 2, vec![7])];
    let mut response = head(1);
    response.push(0x0A);
    assert_eq!(accept_read(&mut items, &response), Ok(()));
    assert_eq!(items[0].err, Some(Error::Cpu { code: 10 }));
    assert_eq!(items[0].buffer, vec![7]);
}

#[test]
fn read_reply_for_no_variable() {
    let mut items: Vec<S7DataItem> = Vec::new();
    let mut response = head(0);
    response.push(0);
    assert_eq!(accept_read(&mut items, &response), Ok(()));
}

#[test]
fn write_request_of_bytes_and_counters() {
    let items = vec![
        item(0x84, 0x02, 1, 3, 3, vec![0xA1, 0xA2, 0xA3]),
        item(0x1C, 0x1C, 0, 5, 1, vec![0xB1, 0xB2]),
    ];
    assert_eq!(
        write_request(&items, 480),
        Ok(vec![
            0x03, 0x00, 0x00, 57, 0x02, 0xF0, 0x80, 0x32, 0x01, 0x00, 0x00, 0x05, 0x00, 0x00, 26,
            0x00, 14, 0x05, 0x02, //
            0x12, 0x0A, 0x10, 0x02, 0x00, 0x03, 0x00, 0x01, 0x84, 0x00, 0x00, 0x03, //
            0x12, 0x0A, 0x10, 0x1C, 0x00, 0x01, 0x00, 0x00, 0x1C, 0x00, 0x00, 0x05, //
            0x00, 0x04, 0x00, 24, 0xA1, 0xA2, 0xA3, 0x00, //
            0x00, 0x09, 0x00, 0x02, 0xB1, 0xB2,
        ])
    );
}

#[test]
fn write_request_of_a_bit_and_a_timer() {
    let items = vec![
        item(0x83, 0x01, 0, 0x0102, 1, vec![1, 99]),
        item(0x1D, 0x1D, 0, 2, 2, vec![1, 2, 3, 4, 5]),
    ];
    let request = write_request(&items, 480).unwrap();
    assert_eq!(request.len(), 19 + 24 + 6 + 8);
    assert_eq!(&request[28..31], &[0x00, 0x01, 0x02]);
    assert_eq!(&request[43..49], &[0x00, 0x03, 0x00, 0x01, 1, 0]);
    assert_eq!(&request[49..57], &[0x00, 0x09, 0x00, 0x04, 1, 2, 3, 4]);
    assert_eq!(&request[15..17], &[0, 14]);
}

#[test]
fn write_request_of_too_many_variables() {
    let items: Vec<S7DataItem> = (0..21).map(|i| item(0x84, 2, 1, i, 1, vec![0])).collect();
    assert_eq!(
        write_request(&items, 480),
        Err(Error::InvalidInput { input: "Too many items".to_string() })
    );
}

#[test]
fn write_request_with_a_buffer_too_short() {
    let items = vec![item(0x84, 2, 1, 0, 1, vec![1]), item(0x84, 2, 1, 0, 3, vec![1, 2])];
    assert_eq!(write_request(&items, 480), Err(Error::BufferTooSmall));
    let items = vec![item(0x1C, 0x1C, 0, 0, 2, vec![1, 2, 3])];
    assert_eq!(write_request(&items, 480), Err(Error::BufferTooSmall));
}

#[test]
fn write_request_longer_than_the_pdu() {
    let items = vec![item(0x84, 2, 1, 0, 4, vec![1, 2, 3, 4])];
    assert_eq!(write_request(&items, 38), Err(Error::PduLength(38)));
    assert_eq!(write_request(&items, 0), Err(Error::PduLength(0)));
    assert_eq!(write_request(&items, -1), Err(Error::PduLength(-1)));
    assert_eq!(write_request(&items, 39).unwrap().len(), 39);
}

#[test]
fn write_reply() {
    let mut response = head(2);
    response.push(0xFF);
    assert_eq!(accept_write(2, &response), Ok(()));
    assert_eq!(check_reply(2, &response), Ok(()));
    assert_eq!(
        accept_write(3, &response),
        Err(Error::InvalidResponse {
            reason: "Item count does not match".to_string(),
            bytes: response.clone(),
        })
    );
    response[18] = 0x07;
    assert_eq!(accept_write(2, &response), Err(Error::Cpu { code: 7 }));
    let short = head(2);
    assert_eq!(
        accept_write(2, &short),
        Err(Error::InvalidResponse { reason: "PDU too small".to_string(), bytes: short })
    );
}
