//! Reading a system status list, which the PLC may hand out in parts, and
//! the two lists that the client reads: the names of the CPU and the limits
//! of the communication processor.

use crate::client::{CPInfo, CpuInfo, CpuInfoView};
use crate::error::{Error, Failure};
use crate::field;
use crate::transport;
use crate::transport::{Exchange, SZLHeader, S7SZL};
use vstd::prelude::*;
use vstd::slice::{slice_subrange, slice_to_vec};

verus! {

/// Where the data of a part begins
pub const PART_DATA: usize = 41;

/// Bytes of the first part's length that stand for the list ID, the index
/// and the header, not for data
pub const FIRST_PART_EXTRA: usize = 8;

/// The most parts that a list is read in. A PLC that has more to give is
/// taken to answer wrongly.
pub const MAX_PARTS: usize = 256;

/// The list of the CPU's names
pub const CPU_INFO_LIST: u16 = 0x001C;

/// The list of the communication processor's limits
pub const CP_INFO_LIST: u16 = 0x0131;

/// The bytes that the limits of the communication processor take
pub const CP_INFO_LENGTH: usize = 12;

/// An [`S7SZL`] as contracts speak of it.
pub struct S7SZLView {
    pub header: SZLHeader,
    pub data: Seq<u8>,
}

impl View for S7SZL {
    type V = S7SZLView;

    open spec fn view(&self) -> S7SZLView {
        S7SZLView { header: self.header, data: self.data@ }
    }
}

/// One part of a list as an answer hands it out.
pub struct Part {
    pub list: S7SZL,
    /// Whether this was the last part.
    pub done: bool,
    /// The number by which to ask for the next part.
    pub sequence: u8,
}

/// A [`Part`] as contracts speak of it.
pub struct PartView {
    pub list: S7SZLView,
    pub done: bool,
    pub sequence: u8,
}

impl View for Part {
    type V = PartView;

    open spec fn view(&self) -> PartView {
        PartView { list: self.list@, done: self.done, sequence: self.sequence }
    }
}

/// The first request for a list: the template with the sequence number 1
/// at 11, the list ID at 29 and the index at 31.
pub open spec fn first_request_bytes(id: u16, index: u16) -> Seq<u8> {
    field::with_word(
        field::with_word(field::with_word(transport::SZL_FIRST_TELEGRAM@, 11, 1), 29, id as int),
        31,
        index as int,
    )
}

/// The request for the part after the one that gave `sequence`: the
/// template with `sequence` at 24.
pub open spec fn next_request_bytes(sequence: u8) -> Seq<u8> {
    transport::SZL_NEXT_TELEGRAM@.update(24, sequence)
}

/// The requests for a list are framed as every request is.
pub proof fn lemma_requests_framed(id: u16, index: u16, sequence: u8)
    ensures
        transport::framed(first_request_bytes(id, index)),
        transport::framed(next_request_bytes(sequence)),
{
    let numbered = field::with_word(transport::SZL_FIRST_TELEGRAM@, 11, 1);
    let named = field::with_word(numbered, 29, id as int);
    field::lemma_word_stored(transport::SZL_FIRST_TELEGRAM@, 11, 1);
    field::lemma_word_stored(numbered, 29, id as int);
    field::lemma_word_stored(named, 31, index as int);
}

/// Builds the first request for a list.
pub fn first_request(id: u16, index: u16) -> (request: Vec<u8>)
    ensures
        request@ == first_request_bytes(id, index),
{
    let mut request = slice_to_vec(transport::SZL_FIRST_TELEGRAM.as_slice());
    field::put_word(&mut request, 11, 1);
    field::put_word(&mut request, 29, id);
    field::put_word(&mut request, 31, index);
    request
}

/// Builds the request for the next part of a list.
pub fn next_request(sequence: u8) -> (request: Vec<u8>)
    ensures
        request@ == next_request_bytes(sequence),
{
    let mut request = slice_to_vec(transport::SZL_NEXT_TELEGRAM.as_slice());
    request[24] = sequence;
    request
}

/// The part that an answer hands out. The answer must hold 42 bytes, no
/// error at 27 and 28, and 0xFF at 29; the length at 31 must not be below
/// `extra`, and what it exceeds `extra` by is the data, which must lie in
/// the answer from 41 on with a byte to spare. The header length is twice
/// the word at 37, kept modulo 65536; the record count is the word at 39;
/// byte 26 is 0 for the last part; byte 24 is the sequence number.
pub open spec fn part_of(response: Seq<u8>, extra: int) -> Result<PartView, Failure> {
    let length = field::word_value(response, 31) - extra;
    if response.len() < transport::MIN_SZL_FIRST_TELEGRAM {
        Err(Failure::InvalidPdu)
    } else if field::word_value(response, 27) != 0 || response[29] != 0xFF {
        Err(Failure::InvalidPlcAnswer)
    } else if length < 0 {
        Err(Failure::InvalidPlcAnswer)
    } else if response.len() < transport::MIN_SZL_FIRST_TELEGRAM + length {
        Err(Failure::InvalidPdu)
    } else {
        Ok(
            PartView {
                list: S7SZLView {
                    header: SZLHeader {
                        length_header: ((field::word_value(response, 37) * 2) % 0x1_0000) as u16,
                        number_of_data_record: field::word_value(response, 39) as u16,
                    },
                    data: response.subrange(PART_DATA as int, PART_DATA + length),
                },
                done: response[26] == 0x00,
                sequence: response[24],
            },
        )
    }
}

/// What `parse_part` returned, as contracts speak of it.
pub open spec fn part_result(r: Result<Part, Error>) -> Result<PartView, Failure> {
    match r {
        Ok(part) => Ok(part@),
        Err(e) => Err(e@),
    }
}

/// Reads the first part of a list out of an answer.
pub fn parse_first(response: &[u8]) -> (r: Result<Part, Error>)
    ensures
        part_result(r) == part_of(response@, FIRST_PART_EXTRA as int),
{
    parse_part(response, FIRST_PART_EXTRA)
}

/// Reads a part after the first out of an answer.
pub fn parse_next(response: &[u8]) -> (r: Result<Part, Error>)
    ensures
        part_result(r) == part_of(response@, 0),
{
    parse_part(response, 0)
}

/// Reads one part out of an answer. `extra` is 8 for the first part and 0
/// for every other.
fn parse_part(response: &[u8], extra: usize) -> (r: Result<Part, Error>)
    requires
        extra <= FIRST_PART_EXTRA,
    ensures
        part_result(r) == part_of(response@, extra as int),
{
    if response.len() < transport::MIN_SZL_FIRST_TELEGRAM {
        return Err(Error::InvalidPdu);
    }
    if field::word_at(response, 27) != 0 || response[29] != 0xFF {
        return Err(Error::InvalidPlcAnswer);
    }
    let stated: usize = field::word_at(response, 31) as usize;
    if stated < extra {
        return Err(Error::InvalidPlcAnswer);
    }
    let length: usize = stated - extra;
    if response.len() - transport::MIN_SZL_FIRST_TELEGRAM < length {
        return Err(Error::InvalidPdu);
    }
    let doubled: u32 = field::word_at(response, 37) as u32 * 2;
    Ok(
        Part {
            list: S7SZL {
                header: SZLHeader {
                    length_header: (doubled % 0x1_0000) as u16,
                    number_of_data_record: field::word_at(response, 39),
                },
                data: slice_to_vec(slice_subrange(response, PART_DATA, PART_DATA + length)),
            },
            done: response[26] == 0x00,
            sequence: response[24],
        },
    )
}

/// A list with one more part behind it: the data of the part follows the
/// data so far, the header length of the part is added to the one so far,
/// modulo 65536, and the record count stays.
pub open spec fn joined(list: S7SZLView, part: S7SZLView) -> S7SZLView {
    S7SZLView {
        header: SZLHeader {
            length_header: ((list.header.length_header + part.header.length_header)
                % 0x1_0000) as u16,
            number_of_data_record: list.header.number_of_data_record,
        },
        data: list.data + part.data,
    }
}

/// Puts one more part behind a list.
pub fn join(list: &mut S7SZL, part: S7SZL)
    ensures
        final(list)@ == joined(old(list)@, part@),
{
    let sum: u32 = list.header.length_header as u32 + part.header.length_header as u32;
    list.header.length_header = (sum % 0x1_0000) as u16;
    let mut data = part.data;
    list.data.append(&mut data);
}

/// How far the reading of a list has come after some exchanges.
pub enum SzlRun {
    /// Nothing was asked yet.
    Fresh,
    /// `parts` parts were read into `list`; `done` tells whether the last
    /// of them was the last of the list, `sequence` how to ask for the next.
    Going { list: S7SZLView, done: bool, sequence: u8, parts: nat },
    /// The last exchange failed.
    Failed { failure: Failure },
    /// The exchanges are not those of reading this list.
    Off,
}

/// Where the reading stands after the first exchange.
pub open spec fn first_exchange(id: u16, index: u16, exchange: Exchange) -> SzlRun {
    if exchange.request != first_request_bytes(id, index) {
        SzlRun::Off
    } else {
        match exchange.reply {
            Err(failure) => SzlRun::Failed { failure },
            Ok(response) => match part_of(response, FIRST_PART_EXTRA as int) {
                Err(failure) => SzlRun::Failed { failure },
                Ok(part) => SzlRun::Going {
                    list: part.list,
                    done: part.done,
                    sequence: part.sequence,
                    parts: 1,
                },
            },
        }
    }
}

/// Where the reading stands after one more exchange.
pub open spec fn next_exchange(
    list: S7SZLView,
    sequence: u8,
    parts: nat,
    exchange: Exchange,
) -> SzlRun {
    if exchange.request != next_request_bytes(sequence) {
        SzlRun::Off
    } else {
        match exchange.reply {
            Err(failure) => SzlRun::Failed { failure },
            Ok(response) => match part_of(response, 0) {
                Err(failure) => SzlRun::Failed { failure },
                Ok(part) => SzlRun::Going {
                    list: joined(list, part.list),
                    done: part.done,
                    sequence: part.sequence,
                    parts: parts + 1,
                },
            },
        }
    }
}

/// Where the reading of list `id` at `index` stands after `exchanges`. The
/// first exchange must carry the first request, every other the request for
/// the part after the one before; none may follow the last part, a failure,
/// or the most parts that a list is read in.
pub open spec fn szl_run(id: u16, index: u16, exchanges: Seq<Exchange>) -> SzlRun
    decreases exchanges.len(),
{
    if exchanges.len() == 0 {
        SzlRun::Fresh
    } else {
        match szl_run(id, index, exchanges.drop_last()) {
            SzlRun::Fresh => first_exchange(id, index, exchanges.last()),
            SzlRun::Going { list, done, sequence, parts } => if done || parts >= MAX_PARTS {
                SzlRun::Off
            } else {
                next_exchange(list, sequence, parts, exchanges.last())
            },
            _ => SzlRun::Off,
        }
    }
}

/// Whether an operation that made `exchanges` and then returned `result`
/// has read list `id` at `index` and made its result `of` the list: it
/// stopped at the first failure and returned it, or went on to the last
/// part and returned what `of` makes of the list, or gave up on the PLC
/// after the most parts that a list is read in.
pub open spec fn szl_then<T>(
    id: u16,
    index: u16,
    exchanges: Seq<Exchange>,
    result: Result<T, Failure>,
    of: spec_fn(S7SZLView) -> Result<T, Failure>,
) -> bool {
    match szl_run(id, index, exchanges) {
        SzlRun::Going { list, done, sequence, parts } => if done {
            result == of(list)
        } else {
            parts >= MAX_PARTS && result == Err::<T, Failure>(Failure::InvalidPlcAnswer)
        },
        SzlRun::Failed { failure } => result == Err::<T, Failure>(failure),
        _ => false,
    }
}

/// Whether a reading that made `exchanges` and then returned `result` is
/// the reading of list `id` at `index`.
pub open spec fn szl_done(
    id: u16,
    index: u16,
    exchanges: Seq<Exchange>,
    result: Result<S7SZLView, Failure>,
) -> bool {
    szl_then(id, index, exchanges, result, |list: S7SZLView| Ok::<S7SZLView, Failure>(list))
}

/// What reading a list returned, as contracts speak of it.
pub open spec fn list_result(r: Result<S7SZL, Error>) -> Result<S7SZLView, Failure> {
    match r {
        Ok(list) => Ok(list@),
        Err(e) => Err(e@),
    }
}

/// The names of the CPU that the data of its list holds. The data must
/// hold 205 bytes; the names lie at fixed places and must be text: the
/// module type at 172, the serial number at 138, the name of the station at
/// 2, the copyright at 104, the name of the module at 36.
pub open spec fn cpu_info_of(data: Seq<u8>) -> Result<CpuInfoView, Failure> {
    if data.len() < transport::SZL_MIN_RESPONSE {
        Err(Failure::InvalidPdu)
    } else if field::text_of(data.subrange(172, 204)) is Err {
        Err(field::text_of(data.subrange(172, 204))->Err_0)
    } else if field::text_of(data.subrange(138, 162)) is Err {
        Err(field::text_of(data.subrange(138, 162))->Err_0)
    } else if field::text_of(data.subrange(2, 26)) is Err {
        Err(field::text_of(data.subrange(2, 26))->Err_0)
    } else if field::text_of(data.subrange(104, 130)) is Err {
        Err(field::text_of(data.subrange(104, 130))->Err_0)
    } else if field::text_of(data.subrange(36, 60)) is Err {
        Err(field::text_of(data.subrange(36, 60))->Err_0)
    } else {
        Ok(
            CpuInfoView {
                module_type_name: field::text_of(data.subrange(172, 204))->Ok_0,
                serial_number: field::text_of(data.subrange(138, 162))->Ok_0,
                as_name: field::text_of(data.subrange(2, 26))->Ok_0,
                copyright: field::text_of(data.subrange(104, 130))->Ok_0,
                module_name: field::text_of(data.subrange(36, 60))->Ok_0,
            },
        )
    }
}

/// What `parse_cpu_info` returned, as contracts speak of it.
pub open spec fn cpu_info_result(r: Result<CpuInfo, Error>) -> Result<CpuInfoView, Failure> {
    match r {
        Ok(info) => Ok(info@),
        Err(e) => Err(e@),
    }
}

/// The text of the field that lies in `data` from `from` up to `to`.
fn text_at(data: &[u8], from: usize, to: usize) -> (r: Result<String, Error>)
    requires
        from <= to <= data.len(),
    ensures
        field::text_result(r) == field::text_of(data@.subrange(from as int, to as int)),
{
    field::to_chars(slice_to_vec(slice_subrange(data, from, to)))
}

/// Reads the names of the CPU out of the data of its list.
pub fn parse_cpu_info(data: &[u8]) -> (r: Result<CpuInfo, Error>)
    ensures
        cpu_info_result(r) == cpu_info_of(data@),
{
    if data.len() < transport::SZL_MIN_RESPONSE {
        return Err(Error::InvalidPdu);
    }
    let module_type_name = match text_at(data, 172, 204) {
        Ok(text) => text,
        Err(e) => {
            return Err(e);
        },
    };
    let serial_number = match text_at(data, 138, 162) {
        Ok(text) => text,
        Err(e) => {
            return Err(e);
        },
    };
    let as_name = match text_at(data, 2, 26) {
        Ok(text) => text,
        Err(e) => {
            return Err(e);
        },
    };
    let copyright = match text_at(data, 104, 130) {
        Ok(text) => text,
        Err(e) => {
            return Err(e);
        },
    };
    let module_name = match text_at(data, 36, 60) {
        Ok(text) => text,
        Err(e) => {
            return Err(e);
        },
    };
    Ok(CpuInfo { module_type_name, serial_number, as_name, copyright, module_name })
}

/// The limits of the communication processor that the data of its list
/// holds: the words at 2, 4, 6 and 10 of at least 12 bytes.
pub open spec fn cp_info_of(data: Seq<u8>) -> Result<CPInfo, Failure> {
    if data.len() < CP_INFO_LENGTH {
        Err(Failure::InvalidPdu)
    } else {
        Ok(
            CPInfo {
                max_pdu_length: field::word_value(data, 2) as u16,
                max_connections: field::word_value(data, 4) as u16,
                max_mpi_rate: field::word_value(data, 6) as u16,
                max_bus_rate: field::word_value(data, 10) as u16,
            },
        )
    }
}

/// Reads the limits of the communication processor out of the data of its
/// list.
pub fn parse_cp_info(data: &[u8]) -> (r: Result<CPInfo, Error>)
    ensures
        crate::error::outcome(r) == cp_info_of(data@),
{
    if data.len() < CP_INFO_LENGTH {
        return Err(Error::InvalidPdu);
    }
    Ok(
        CPInfo {
            max_pdu_length: field::word_at(data, 2),
            max_connections: field::word_at(data, 4),
            max_mpi_rate: field::word_at(data, 6),
            max_bus_rate: field::word_at(data, 10),
        },
    )
}

} // verus!
