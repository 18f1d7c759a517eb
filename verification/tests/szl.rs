use s7::error::Error;
use s7::szl::{
    first_request, join, next_request, parse_cp_info, parse_cpu_info, parse_first, parse_next,
};
use s7::transport::{SZLHeader, S7SZL};

fn part(length: u16, last: bool, sequence: u8, data: &[u8]) -> Vec<u8> {
    let mut response = vec![0u8; 41];
    response[24] = sequence;
    response[26] = if last { 0 } else { 1 };
    response[29] = 0xFF;
    response[31] = (length >> 8) as u8;
    response[32] = length as u8;
    response[37] = 0x00;
    response[38] = 0x1C;
    response[39] = 0x00;
    response[40] = 0x0A;
    response.extend_from_slice(data);
    response
}

#[test]
fn first_request_names_the_list() {
    assert_eq!(
        first_request(0x001C, 0),
        vec![
            3, 0, 0, 33, 2, 240, 128, 50, 7, 0, 0, 0, 1, 0, 8, 0, 8, 0, 1, 18, 4, 17, 68, 1, 0,
            255, 9, 0, 4, 0x00, 0x1C, 0, 0
        ]
    );
    let request = first_request(0x0131, 0x0203);
    assert_eq!(&request[29..33], &[0x01, 0x31, 0x02, 0x03]);
}

#[test]
fn next_request_echoes_the_sequence_number() {
    assert_eq!(
        next_request(7),
        vec![
            3, 0, 0, 33, 2, 240, 128, 50, 7, 0, 0, 6, 0, 0, 12, 0, 4, 0, 1, 18, 8, 18, 68, 1, 7,
            0, 0, 0, 0, 10, 0, 0, 0
        ]
    );
}

#[test]
fn first_part_skips_eight_bytes_of_its_length() {
    let response = part(12, true, 3, &[1, 2, 3, 4, 0]);
    let part = parse_first(&response).unwrap();
    assert_eq!(part.list.data, vec![1, 2, 3, 4]);
    assert_eq!(part.list.header, SZLHeader { length_header: 56, number_of_data_record: 10 });
    assert!(part.done);
    assert_eq!(part.sequence, 3);
}

#[test]
fn next_part_takes_all_of_its_length() {
    let response = part(4, false, 9, &[1, 2, 3, 4, 0]);
    let part = parse_next(&response).unwrap();
    assert_eq!(part.list.data, vec![1, 2, 3, 4]);
    assert!(!part.done);
    assert_eq!(part.sequence, 9);
}

#[test]
fn part_with_no_data() {
    let response = part(8, true, 0, &[0]);
    assert_eq!(parse_first(&response).unwrap().list.data, Vec::<u8>::new());
    let response = part(0, true, 0, &[0]);
    assert_eq!(parse_next(&response).unwrap().list.data, Vec::<u8>::new());
}

#[test]
fn part_too_short() {
    assert_eq!(parse_first(&[0u8; 41]).err(), Some(Error::InvalidPdu));
    assert_eq!(parse_next(&[]).err(), Some(Error::InvalidPdu));
    let response = part(12, true, 3, &[1, 2, 3, 4]);
    assert_eq!(parse_first(&response).err(), Some(Error::InvalidPdu));
    let response = part(5, true, 3, &[1, 2, 3, 4, 5]);
    assert_eq!(parse_next(&response).err(), Some(Error::InvalidPdu));
}

#[test]
fn part_that_the_plc_marks_as_failed() {
    let mut response = part(12, true, 3, &[1, 2, 3, 4, 0]);
    response[29] = 0x0A;
    assert_eq!(parse_first(&response).err(), Some(Error::InvalidPlcAnswer));
    let mut response = part(12, true, 3, &[1, 2, 3, 4, 0]);
    response[28] = 0x01;
    assert_eq!(parse_first(&response).err(), Some(Error::InvalidPlcAnswer));
    let mut response = part(12, true, 3, &[1, 2, 3, 4, 0]);
    response[27] = 0xD4;
    assert_eq!(parse_next(&response).err(), Some(Error::InvalidPlcAnswer));
}

#[test]
fn first_part_with_a_length_below_eight() {
    let response = part(7, true, 3, &[1, 2, 3, 4, 0]);
    assert_eq!(parse_first(&response).err(), Some(Error::InvalidPlcAnswer));
}

#[test]
fn header_length_is_doubled_modulo_65536() {
    let mut response = part(8, true, 0, &[0]);
    response[37] = 0x80;
    response[38] = 0x01;
    assert_eq!(parse_first(&response).unwrap().list.header.length_header, 2);
    response[37] = 0x7F;
    response[38] = 0xFF;
    assert_eq!(parse_first(&response).unwrap().list.header.length_header, 0xFFFE);
}

#[test]
fn join_puts_the_data_behind_and_adds_the_header_lengths() {
    let mut list = S7SZL {
        header: SZLHeader { length_header: 56, number_of_data_record: 10 },
        data: vec![1, 2],
    };
    join(
        &mut list,
        S7SZL { header: SZLHeader { length_header: 8, number_of_data_record: 3 }, data: vec![3] },
    );
    assert_eq!(list.data, vec![1, 2, 3]);
    assert_eq!(list.header, SZLHeader { length_header: 64, number_of_data_record: 10 });
    join(
        &mut list,
        S7SZL {
            header: SZLHeader { length_header: 0xFFFF, number_of_data_record: 0 },
            data: vec![],
        },
    );
    assert_eq!(list.data, vec![1, 2, 3]);
    assert_eq!(list.header, SZLHeader { length_header: 63, number_of_data_record: 10 });
}

fn names() -> Vec<u8> {
    let mut data = vec![0x20u8; 205];
    data[2..26].copy_from_slice(b"S7300/ET200M station_1  ");
    data[36..60].copy_from_slice(b"PLC_1                   ");
    data[104..130].copy_from_slice(b"Original Siemens Equipment");
    data[138..162].copy_from_slice(b"S C-C2UR28922012        ");
    data[172..204].copy_from_slice(b"CPU 315-2 PN/DP                 ");
    data
}

#[test]
fn cpu_info_is_cut_out_of_the_list() {
    let info = parse_cpu_info(&names()).unwrap();
    assert_eq!(info.module_type_name, "CPU 315-2 PN/DP                 ");
    assert_eq!(info.serial_number, "S C-C2UR28922012        ");
    assert_eq!(info.as_name, "S7300/ET200M station_1  ");
    assert_eq!(info.copyright, "Original Siemens Equipment");
    assert_eq!(info.module_name, "PLC_1                   ");
}

#[test]
fn cpu_info_of_a_short_list() {
    let mut data = names();
    data.truncate(204);
    assert_eq!(parse_cpu_info(&data).err(), Some(Error::InvalidPdu));
    assert_eq!(parse_cpu_info(&[]).err(), Some(Error::InvalidPdu));
}

#[test]
fn cpu_info_with_a_name_that_is_no_text() {
    let mut data = names();
    data[140] = 0xFF;
    assert_eq!(
        parse_cpu_info(&data).err(),
        Some(Error::InvalidResponse {
            reason: "invalid utf-8".to_string(),
            bytes: data[138..162].to_vec(),
        })
    );
    data[172] = 0xC0;
    assert_eq!(
        parse_cpu_info(&data).err(),
        Some(Error::InvalidResponse {
            reason: "invalid utf-8".to_string(),
            bytes: data[172..204].to_vec(),
        })
    );
}

#[test]
fn cp_info_is_four_words_of_the_list() {
    let data = [0, 0, 0x00, 0xF0, 0x00, 0x10, 0x00, 0x0B, 0xFF, 0xFF, 0x02, 0x00];
    let info = parse_cp_info(&data).unwrap();
    assert_eq!(info.max_pdu_length, 240);
    assert_eq!(info.max_connections, 16);
    assert_eq!(info.max_mpi_rate, 11);
    assert_eq!(info.max_bus_rate, 512);
}

#[test]
fn cp_info_of_a_short_list() {
    assert_eq!(parse_cp_info(&[0u8; 11]), Err(Error::InvalidPdu));
}
