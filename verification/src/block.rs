//! Asking the PLC which blocks it holds, and what it knows of one of them.

use crate::client::{BlockList, BlockType, S7BlockInfo, S7BlockInfoView};
use crate::constant::{BlockLang, SubBlockType};
use crate::error::{Error, Failure};
use crate::field;
use crate::transport;
use chrono::NaiveDateTime;
use vstd::prelude::*;
use vstd::slice::{slice_subrange, slice_to_vec};

verus! {

/// The length that an answer must have for every field of a block to lie
/// in it
pub const BLOCK_INFO_FIELDS_END: usize = 100;

/// The five bytes that stand for a block number in a request: its decimal
/// digits from the ten thousands down, each as its ASCII character. A
/// number above 99999 spills into the first byte, which is kept modulo 256.
pub open spec fn number_digits(number: u32) -> Seq<u8> {
    seq![
        ((number / 10000 + 0x30) % 0x100) as u8,
        ((number / 1000) % 10 + 0x30) as u8,
        ((number / 100) % 10 + 0x30) as u8,
        ((number / 10) % 10 + 0x30) as u8,
        (number % 10 + 0x30) as u8,
    ]
}

/// The digits of a block number of up to five places are decimal digits in
/// ASCII, and read as a decimal number they give the block number back.
pub proof fn lemma_number_digits(number: u32)
    requires
        number <= 99999,
    ensures
        number_digits(number).len() == 5,
        forall|i: int| 0 <= i < 5 ==> 0x30 <= #[trigger] number_digits(number)[i] <= 0x39,
        (number_digits(number)[0] - 0x30) * 10000 + (number_digits(number)[1] - 0x30) * 1000 + (
        number_digits(number)[2] - 0x30) * 100 + (number_digits(number)[3] - 0x30) * 10 + (
        number_digits(number)[4] - 0x30) == number,
{
    let n = number as int;
    let tens = n / 10;
    let hundreds = tens / 10;
    let thousands = hundreds / 10;
    let ten_thousands = thousands / 10;
    assert(hundreds == n / 100);
    assert(thousands == n / 1000);
    assert(ten_thousands == n / 10000);
    assert(n == 10 * tens + n % 10);
    assert(tens == 10 * hundreds + tens % 10);
    assert(hundreds == 10 * thousands + hundreds % 10);
    assert(thousands == 10 * ten_thousands + thousands % 10);
    assert(0 <= ten_thousands <= 9);
}

/// The request for what the PLC knows of a block: the template with the
/// block type at 30 and the digits of the number at 31 to 35.
pub open spec fn info_request_bytes(block_type: BlockType, number: u32) -> Seq<u8> {
    let digits = number_digits(number);
    transport::BLOCK_INFO_TELEGRAM@.update(30, block_type.wire()).update(31, digits[0]).update(
        32,
        digits[1],
    ).update(33, digits[2]).update(34, digits[3]).update(35, digits[4])
}

/// The request for a block is framed as every request is.
pub proof fn lemma_info_request_framed(block_type: BlockType, number: u32)
    ensures
        transport::framed(info_request_bytes(block_type, number)),
{
}

/// Builds the request for what the PLC knows of a block.
pub fn info_request(block_type: BlockType, block_number: u32) -> (request: Vec<u8>)
    ensures
        request@ == info_request_bytes(block_type, block_number),
        request@.len() == 37,
        request@.subrange(31, 36) == number_digits(block_number),
        block_number <= 99999 ==> forall|i: int|
            31 <= i < 36 ==> 0x30 <= #[trigger] request@[i] <= 0x39,
{
    let mut request = slice_to_vec(transport::BLOCK_INFO_TELEGRAM.as_slice());
    request[30] = block_type.code();
    request[31] = ((block_number / 10000 + 0x30) % 0x100) as u8;
    request[32] = ((block_number / 1000) % 10 + 0x30) as u8;
    request[33] = ((block_number / 100) % 10 + 0x30) as u8;
    request[34] = ((block_number / 10) % 10 + 0x30) as u8;
    request[35] = (block_number % 10 + 0x30) as u8;
    assert(request@.subrange(31, 36) =~= number_digits(block_number));
    request
}

/// What stands in the way of reading a block out of an answer: the answer
/// must hold 33 bytes, no error at 27 and 28, and then all of its 100 bytes.
pub open spec fn info_head(response: Seq<u8>) -> Option<Failure> {
    if response.len() < transport::BLOCK_INFO_TELEGRAM_MIN_RESPONSE {
        Some(Failure::InvalidPdu)
    } else if field::word_value(response, 27) != 0 {
        Some(Failure::Cpu { code: field::word_value(response, 27) as i32 })
    } else if response.len() < BLOCK_INFO_FIELDS_END {
        Some(Failure::InvalidPdu)
    } else {
        None
    }
}

/// The block that an answer tells of, given the moments that its two day
/// counts stand for. The fields lie at fixed places: flags at 42, language
/// at 43, type at 44, number at 45, load size at 47, the day counts at 59
/// and 65, SBB length at 67, local data at 71, size at 73, author at 75,
/// family at 83, header at 91, version at 99.
pub open spec fn info_with(
    response: Seq<u8>,
    code_date: Option<NaiveDateTime>,
    interface_date: Option<NaiveDateTime>,
) -> Result<S7BlockInfoView, Failure> {
    if info_head(response) is Some {
        Err(info_head(response)->0)
    } else if SubBlockType::of(response[44]) is None {
        Err(Failure::InvalidBlockType(response[44]))
    } else if BlockLang::of(response[43]) is None {
        Err(Failure::InvalidCpuStatus(response[43]))
    } else if code_date is None || interface_date is None {
        Err(Failure::InvalidPlcAnswer)
    } else if field::text_of(response.subrange(75, 83)) is Err {
        Err(field::text_of(response.subrange(75, 83))->Err_0)
    } else if field::text_of(response.subrange(83, 91)) is Err {
        Err(field::text_of(response.subrange(83, 91))->Err_0)
    } else if field::text_of(response.subrange(91, 99)) is Err {
        Err(field::text_of(response.subrange(91, 99))->Err_0)
    } else {
        Ok(
            S7BlockInfoView {
                block_type: SubBlockType::of(response[44])->0,
                block_number: field::word_value(response, 45) as u16,
                block_lang: BlockLang::of(response[43])->0,
                block_flags: response[42],
                mc7_size: field::word_value(response, 73) as u16,
                load_size: field::dint_value(response, 47) as i32,
                local_data: field::word_value(response, 71) as u16,
                sbb_length: field::word_value(response, 67) as u16,
                version: response[99],
                code_date: code_date->0,
                interface_date: interface_date->0,
                author: field::text_of(response.subrange(75, 83))->Ok_0,
                family: field::text_of(response.subrange(83, 91))->Ok_0,
                header: field::text_of(response.subrange(91, 99))->Ok_0,
            },
        )
    }
}

/// The block that an answer tells of.
pub open spec fn info_reply(response: Seq<u8>) -> Result<S7BlockInfoView, Failure> {
    if response.len() < BLOCK_INFO_FIELDS_END {
        info_with(response, None, None)
    } else {
        info_with(
            response,
            field::siemens_moment(field::word_value(response, 59)),
            field::siemens_moment(field::word_value(response, 65)),
        )
    }
}

/// What a request for a block comes to, given what the transport gave back.
pub open spec fn info_outcome(reply: Result<Seq<u8>, Failure>) -> Result<
    S7BlockInfoView,
    Failure,
> {
    match reply {
        Err(failure) => Err(failure),
        Ok(response) => info_reply(response),
    }
}

/// What `parse_info` returned, as contracts speak of it.
pub open spec fn info_result(r: Result<S7BlockInfo, Error>) -> Result<S7BlockInfoView, Failure> {
    match r {
        Ok(info) => Ok(info@),
        Err(e) => Err(e@),
    }
}

/// Reads a block out of an answer, with the moments that its day counts
/// were found to stand for.
pub fn info_from(
    response: &[u8],
    code_date: Option<NaiveDateTime>,
    interface_date: Option<NaiveDateTime>,
) -> (r: Result<S7BlockInfo, Error>)
    ensures
        info_result(r) == info_with(response@, code_date, interface_date),
{
    if response.len() < transport::BLOCK_INFO_TELEGRAM_MIN_RESPONSE {
        return Err(Error::InvalidPdu);
    }
    let code: u16 = field::word_at(response, 27);
    if code != 0 {
        return Err(Error::Cpu { code: code as i32 });
    }
    if response.len() < BLOCK_INFO_FIELDS_END {
        return Err(Error::InvalidPdu);
    }
    let block_type = match SubBlockType::from_u8(response[44]) {
        Ok(block_type) => block_type,
        Err(e) => {
            return Err(e);
        },
    };
    let block_lang = match BlockLang::from_u8(response[43]) {
        Ok(block_lang) => block_lang,
        Err(e) => {
            return Err(e);
        },
    };
    let code_date = match code_date {
        Some(moment) => moment,
        None => {
            return Err(Error::InvalidPlcAnswer);
        },
    };
    let interface_date = match interface_date {
        Some(moment) => moment,
        None => {
            return Err(Error::InvalidPlcAnswer);
        },
    };
    let author = match field::to_chars(slice_to_vec(slice_subrange(response, 75, 83))) {
        Ok(text) => text,
        Err(e) => {
            return Err(e);
        },
    };
    let family = match field::to_chars(slice_to_vec(slice_subrange(response, 83, 91))) {
        Ok(text) => text,
        Err(e) => {
            return Err(e);
        },
    };
    let header = match field::to_chars(slice_to_vec(slice_subrange(response, 91, 99))) {
        Ok(text) => text,
        Err(e) => {
            return Err(e);
        },
    };
    Ok(
        S7BlockInfo {
            block_type,
            block_number: field::word_at(response, 45),
            block_lang,
            block_flags: response[42],
            mc7_size: field::word_at(response, 73),
            load_size: field::dint_at(response, 47),
            local_data: field::word_at(response, 71),
            sbb_length: field::word_at(response, 67),
            version: response[99],
            code_date,
            interface_date,
            author,
            family,
            header,
        },
    )
}

/// Reads a block out of an answer.
pub fn parse_info(response: &[u8]) -> (r: Result<S7BlockInfo, Error>)
    ensures
        info_result(r) == info_reply(response@),
{
    if response.len() < BLOCK_INFO_FIELDS_END {
        info_from(response, None, None)
    } else {
        let code_date = field::siemens_timestamp(field::word_at(response, 59) as i64);
        let interface_date = field::siemens_timestamp(field::word_at(response, 65) as i64);
        info_from(response, code_date, interface_date)
    }
}

/// The block counts that an answer tells: it must hold 61 bytes, 0xFF at
/// 29 and no error at 27 and 28; the counts lie four bytes apart from 35 on,
/// in the order OB, FB, FC, DB, SDB, SFC, SFB.
pub open spec fn list_reply(response: Seq<u8>) -> Result<BlockList, Failure> {
    if response.len() < transport::BLOCK_LIST_TELEGRAM_MIN_RESPONSE {
        Err(Failure::InvalidPdu)
    } else if response[29] != 0xFF {
        Err(Failure::Cpu { code: response[29] as i32 })
    } else if field::word_value(response, 27) != 0 {
        Err(Failure::Cpu { code: field::word_value(response, 27) as i32 })
    } else {
        Ok(
            BlockList {
                ob_block_count: field::word_value(response, 35) as u16,
                fb_block_count: field::word_value(response, 39) as u16,
                fc_block_count: field::word_value(response, 43) as u16,
                db_block_count: field::word_value(response, 47) as u16,
                sdb_block_count: field::word_value(response, 51) as u16,
                sfc_block_count: field::word_value(response, 55) as u16,
                sfb_block_count: field::word_value(response, 59) as u16,
            },
        )
    }
}

/// What a request for the block counts comes to, given what the transport
/// gave back.
pub open spec fn list_outcome(reply: Result<Seq<u8>, Failure>) -> Result<BlockList, Failure> {
    match reply {
        Err(failure) => Err(failure),
        Ok(response) => list_reply(response),
    }
}

/// Reads the block counts out of an answer.
pub fn parse_list(response: &[u8]) -> (r: Result<BlockList, Error>)
    ensures
        crate::error::outcome(r) == list_reply(response@),
{
    if response.len() < transport::BLOCK_LIST_TELEGRAM_MIN_RESPONSE {
        return Err(Error::InvalidPdu);
    }
    if response[29] != 0xFF {
        return Err(Error::Cpu { code: response[29] as i32 });
    }
    let code: u16 = field::word_at(response, 27);
    if code != 0 {
        return Err(Error::Cpu { code: code as i32 });
    }
    Ok(
        BlockList {
            ob_block_count: field::word_at(response, 35),
            fb_block_count: field::word_at(response, 39),
            fc_block_count: field::word_at(response, 43),
            db_block_count: field::word_at(response, 47),
            sdb_block_count: field::word_at(response, 51),
            sfc_block_count: field::word_at(response, 55),
            sfb_block_count: field::word_at(response, 59),
        },
    )
}

} // verus!
