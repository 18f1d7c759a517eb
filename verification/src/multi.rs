//! Reading and writing several variables with one telegram: what the request
//! holds for each of them, and what the answer says of each.

use crate::client::{S7DataItem, S7DataItemView};
use crate::constant;
use crate::error::{Error, Failure};
use crate::field;
use crate::transport;
use vstd::prelude::*;
use vstd::slice::{slice_subrange, slice_to_vec};

verus! {

/// Where the first variable of an answer begins
pub const FIRST_ITEM: usize = 21;

/// The shortest answer that can be read
pub const MIN_REPLY: usize = 22;

/// The items as contracts speak of them.
pub open spec fn views(items: Seq<S7DataItem>) -> Seq<S7DataItemView> {
    items.map_values(|item: S7DataItem| item@)
}

/// The failure for more variables than one telegram may hold.
pub open spec fn too_many() -> Failure {
    Failure::InvalidInput { input: "Too many items"@ }
}

/// The failure for an answer shorter than its header.
pub open spec fn too_small(response: Seq<u8>) -> Failure {
    Failure::InvalidResponse { reason: "PDU too small"@, bytes: response }
}

/// The failure for an answer that counts other variables than were asked.
pub open spec fn miscounted(response: Seq<u8>) -> Failure {
    Failure::InvalidResponse { reason: "Item count does not match"@, bytes: response }
}

/// The failure for an answer that ends inside a variable.
pub open spec fn cut_short(response: Seq<u8>) -> Failure {
    Failure::InvalidResponse { reason: "Item out of bounds"@, bytes: response }
}

impl S7DataItemView {
    /// Whether the variable is addressed as it stands: bits, counters and
    /// timers are; all else is addressed by bit, eight to the byte.
    pub open spec fn plain_address(self) -> bool {
        self.word_len == constant::WL_BIT || self.word_len == constant::WL_COUNTER
            || self.word_len == constant::WL_TIMER
    }

    /// The address that a read request names.
    pub open spec fn read_address(self) -> int {
        if self.plain_address() {
            self.start as int
        } else {
            self.start * 8
        }
    }

    /// The 12 bytes that stand for the variable in a read request: word
    /// length at 3, element count at 4, DB number at 6, area at 8, address
    /// at 9.
    pub open spec fn read_record(self) -> Seq<u8> {
        let sized = field::with_word(
            transport::MRD_ITEM@.update(3, self.word_len),
            4,
            self.size as int,
        );
        let placed = field::with_word(sized, 6, self.db_num as int).update(8, self.area);
        field::with_address(placed, 9, self.read_address())
    }

    /// The 12 bytes that stand for the variable among the parameters of a
    /// write request. The address is `start` as it stands.
    pub open spec fn write_record(self) -> Seq<u8> {
        let sized = field::with_word(
            transport::MWR_PARAM@.update(3, self.word_len),
            4,
            self.size as int,
        );
        let placed = field::with_word(sized, 6, self.db_num as int).update(8, self.area);
        field::with_address(placed, 9, self.start as int)
    }

    /// The transport size that a write request names for the variable.
    pub open spec fn transport_size(self) -> u8 {
        if self.word_len == constant::WL_BIT {
            constant::TS_RES_BIT
        } else if self.word_len == constant::WL_COUNTER || self.word_len == constant::WL_TIMER {
            constant::TS_RES_OCTET
        } else {
            constant::TS_RES_BYTE
        }
    }

    /// Bytes of the variable that a write request carries.
    pub open spec fn data_size(self) -> int {
        if self.word_len == constant::WL_COUNTER || self.word_len == constant::WL_TIMER {
            self.size * 2
        } else {
            self.size as int
        }
    }

    /// The length that a write request gives for the variable's data: in
    /// bits where the transport size is that of bytes, else in bytes.
    pub open spec fn data_length(self) -> int {
        if self.transport_size() == constant::TS_RES_BYTE {
            self.data_size() * 8
        } else {
            self.data_size()
        }
    }

    /// The data of the variable in a write request: a reserved byte, the
    /// transport size, the length, the bytes to write, and one byte of
    /// padding where those are odd in number.
    pub open spec fn data_record(self) -> Seq<u8> {
        let head = field::with_word(
            seq![0x00u8, self.transport_size(), 0, 0],
            2,
            self.data_length(),
        );
        let body = head + self.buffer.subrange(0, self.data_size());
        if self.data_size() % 2 != 0 {
            body.push(0x00u8)
        } else {
            body
        }
    }

    /// Whether the buffer holds the bytes that a write request carries.
    pub open spec fn supplied(self) -> bool {
        self.buffer.len() >= self.data_size()
    }
}

/// Address encoding. The three bytes from 9 on of a variable's record hold
/// its address: in a read request the bit address, eight times `start`,
/// unless the variable is a bit, a counter or a timer; in a write request
/// `start` itself.
pub proof fn lemma_record_address(item: S7DataItemView)
    ensures
        item.read_record().len() == 12,
        item.write_record().len() == 12,
        field::address_value(item.read_record(), 9) == item.read_address(),
        !item.plain_address() ==> field::address_value(item.read_record(), 9) == item.start * 8,
        field::address_value(item.write_record(), 9) == item.start,
        field::word_value(item.read_record(), 4) == item.size,
        field::word_value(item.read_record(), 6) == item.db_num,
        item.read_record()[3] == item.word_len,
        item.read_record()[8] == item.area,
{
    let typed = transport::MRD_ITEM@.update(3, item.word_len);
    let sized = field::with_word(typed, 4, item.size as int);
    let placed = field::with_word(sized, 6, item.db_num as int).update(8, item.area);
    field::lemma_word_stored(typed, 4, item.size as int);
    field::lemma_word_stored(sized, 6, item.db_num as int);
    field::lemma_address_stored(placed, 9, item.read_address());
    let typed_w = transport::MWR_PARAM@.update(3, item.word_len);
    let sized_w = field::with_word(typed_w, 4, item.size as int);
    let placed_w = field::with_word(sized_w, 6, item.db_num as int).update(8, item.area);
    field::lemma_word_stored(typed_w, 4, item.size as int);
    field::lemma_word_stored(sized_w, 6, item.db_num as int);
    field::lemma_address_stored(placed_w, 9, item.start as int);
}

/// The variables of a read request, one record after the other.
pub open spec fn read_records(items: Seq<S7DataItemView>) -> Seq<u8>
    decreases items.len(),
{
    if items.len() == 0 {
        Seq::empty()
    } else {
        read_records(items.drop_last()) + items.last().read_record()
    }
}

/// The parameters of a write request, one record after the other.
pub open spec fn write_records(items: Seq<S7DataItemView>) -> Seq<u8>
    decreases items.len(),
{
    if items.len() == 0 {
        Seq::empty()
    } else {
        write_records(items.drop_last()) + items.last().write_record()
    }
}

/// The data of a write request, one record after the other.
pub open spec fn data_records(items: Seq<S7DataItemView>) -> Seq<u8>
    decreases items.len(),
{
    if items.len() == 0 {
        Seq::empty()
    } else {
        data_records(items.drop_last()) + items.last().data_record()
    }
}

/// Whether every buffer holds the bytes that a write request carries.
pub open spec fn all_supplied(items: Seq<S7DataItemView>) -> bool {
    forall|i: int| 0 <= i < items.len() ==> (#[trigger] items[i]).supplied()
}

/// The telegram that reads the given variables: the header with the
/// telegram length at 2, the parameter length at 13 and the count at 18,
/// then the records.
pub open spec fn read_request_bytes(items: Seq<S7DataItemView>) -> Seq<u8> {
    let n = items.len() as int;
    field::with_word(
        field::with_word(transport::MRD_HEADER@, 2, 19 + 12 * n),
        13,
        12 * n + 2,
    ).update(18, n as u8) + read_records(items)
}

/// The telegram that writes the given variables: the header with the
/// telegram length at 2, the parameter length at 13, the data length at 15
/// and the count at 18, then the parameters, then the data.
pub open spec fn write_request_bytes(items: Seq<S7DataItemView>) -> Seq<u8> {
    let n = items.len() as int;
    let data = data_records(items);
    field::with_word(
        field::with_word(
            field::with_word(transport::MWR_HEADER@, 2, 19 + 12 * n + data.len()),
            13,
            12 * n + 2,
        ),
        15,
        data.len() as int,
    ).update(18, n as u8) + write_records(items) + data
}

/// The records of a request take 12 bytes for each variable.
pub proof fn lemma_records_length(items: Seq<S7DataItemView>)
    ensures
        read_records(items).len() == 12 * items.len(),
        write_records(items).len() == 12 * items.len(),
    decreases items.len(),
{
    if items.len() > 0 {
        lemma_records_length(items.drop_last());
        lemma_record_address(items.last());
    }
}

/// The requests for several variables are framed as every request is.
pub proof fn lemma_requests_framed(items: Seq<S7DataItemView>)
    requires
        items.len() <= transport::MAX_VARS_MULTI_READ_WRITE,
    ensures
        transport::framed(read_request_bytes(items)),
        read_request_bytes(items).len() == 19 + 12 * items.len(),
        read_request_bytes(items)[18] == items.len(),
        field::word_value(read_request_bytes(items), 13) == 12 * items.len() + 2,
        transport::framed(write_request_bytes(items)),
        write_request_bytes(items).len() == 19 + 12 * items.len() + data_records(items).len(),
        write_request_bytes(items)[18] == items.len(),
        field::word_value(write_request_bytes(items), 13) == 12 * items.len() + 2,
        field::word_value(write_request_bytes(items), 15) == data_records(items).len()
            % 0x1_0000,
{
    let n = items.len() as int;
    lemma_records_length(items);
    let sized = field::with_word(transport::MRD_HEADER@, 2, 19 + 12 * n);
    let counted = field::with_word(sized, 13, 12 * n + 2);
    field::lemma_word_stored(transport::MRD_HEADER@, 2, 19 + 12 * n);
    field::lemma_word_stored(sized, 13, 12 * n + 2);
    let data = data_records(items);
    let sized_w = field::with_word(transport::MWR_HEADER@, 2, 19 + 12 * n + data.len());
    let counted_w = field::with_word(sized_w, 13, 12 * n + 2);
    let measured = field::with_word(counted_w, 15, data.len() as int);
    field::lemma_word_stored(transport::MWR_HEADER@, 2, 19 + 12 * n + data.len());
    field::lemma_word_stored(sized_w, 13, 12 * n + 2);
    field::lemma_word_stored(counted_w, 15, data.len() as int);
}

/// The write request for the given variables, or why there is none: more
/// than 20 variables, a buffer shorter than the bytes to write, or a
/// telegram longer than the PDU.
pub open spec fn write_plan(items: Seq<S7DataItemView>, pdu_length: i32) -> Result<
    Seq<u8>,
    Failure,
> {
    if items.len() > transport::MAX_VARS_MULTI_READ_WRITE {
        Err(too_many())
    } else if !all_supplied(items) {
        Err(Failure::BufferTooSmall)
    } else if write_request_bytes(items).len() > pdu_length {
        Err(Failure::PduLength(pdu_length))
    } else {
        Ok(write_request_bytes(items))
    }
}

/// What the head of an answer says for a request of `count` variables: the
/// answer must hold 22 bytes, no error at 17 and 18, and `count` at 20.
pub open spec fn reply_head(count: int, response: Seq<u8>) -> Option<Failure> {
    if response.len() < MIN_REPLY {
        Some(too_small(response))
    } else if field::word_value(response, 17) != 0 {
        Some(Failure::Cpu { code: field::word_value(response, 17) as i32 })
    } else if response[20] != count {
        Some(miscounted(response))
    } else {
        None
    }
}

/// Bytes of data that the variable at `offset` of an answer holds: the
/// length at `offset + 2`, which counts bits unless the transport size is
/// that of octets, reals or bits.
pub open spec fn answered_length(response: Seq<u8>, offset: int) -> int {
    let raw = field::word_value(response, offset + 2);
    let size = response[offset + 1];
    if size != constant::TS_RES_OCTET && size != constant::TS_RES_REAL && size
        != constant::TS_RES_BIT {
        raw / 8
    } else {
        raw
    }
}

/// The variables from `index` on, filled out of an answer from `offset` on,
/// and the failure that stopped the filling, if any. A variable that the
/// answer marks with 0xFF gets the answer's data as its buffer; any other
/// gets the mark as its error and keeps its buffer.
pub open spec fn filled(
    items: Seq<S7DataItemView>,
    response: Seq<u8>,
    index: int,
    offset: int,
) -> (Seq<S7DataItemView>, Option<Failure>)
    decreases items.len() - index,
{
    if index < 0 || index >= items.len() {
        (items, None)
    } else if offset >= response.len() {
        (items, Some(cut_short(response)))
    } else if response[offset] != 0xFF {
        filled(
            items.update(
                index,
                (S7DataItemView {
                    err: Some(Failure::Cpu { code: response[offset] as i32 }),
                    ..items[index]
                }),
            ),
            response,
            index + 1,
            offset + 4,
        )
    } else if offset + 4 > response.len() || offset + 4 + answered_length(response, offset)
        > response.len() {
        (items, Some(cut_short(response)))
    } else {
        let length = answered_length(response, offset);
        filled(
            items.update(
                index,
                (S7DataItemView {
                    buffer: response.subrange(offset + 4, offset + 4 + length),
                    ..items[index]
                }),
            ),
            response,
            index + 1,
            offset + 4 + length + length % 2,
        )
    }
}

/// What the answer to a read request makes of the variables, and the
/// failure of the whole request, if any.
pub open spec fn read_reply(items: Seq<S7DataItemView>, response: Seq<u8>) -> (
    Seq<S7DataItemView>,
    Option<Failure>,
) {
    match reply_head(items.len() as int, response) {
        Some(failure) => (items, Some(failure)),
        None => filled(items, response, 0, FIRST_ITEM as int),
    }
}

/// What a read request makes of the variables, given what the transport
/// gave back, and the failure of the whole request, if any.
pub open spec fn read_outcome(items: Seq<S7DataItemView>, reply: Result<Seq<u8>, Failure>) -> (
    Seq<S7DataItemView>,
    Option<Failure>,
) {
    match reply {
        Err(failure) => (items, Some(failure)),
        Ok(response) => read_reply(items, response),
    }
}

/// The failure of a write request of `count` variables, if any, given what
/// the transport gave back.
pub open spec fn write_outcome(count: int, reply: Result<Seq<u8>, Failure>) -> Option<Failure> {
    match reply {
        Err(failure) => Some(failure),
        Ok(response) => reply_head(count, response),
    }
}

/// Builds the 12 bytes of one variable, with `address` as its address.
fn record(template: &[u8; 12], item: &S7DataItem, address: i64) -> (bytes: Vec<u8>)
    ensures
        bytes@.len() == 12,
        bytes@ == field::with_address(
            field::with_word(
                field::with_word(template@.update(3, item.word_len), 4, item.size as int),
                6,
                item.db_num as int,
            ).update(8, item.area),
            9,
            address as int,
        ),
{
    let mut bytes = slice_to_vec(template.as_slice());
    bytes[3] = item.word_len;
    field::put_word(&mut bytes, 4, item.size);
    field::put_word(&mut bytes, 6, item.db_num);
    bytes[8] = item.area;
    field::put_address(&mut bytes, 9, address);
    bytes
}

/// The read request for the given variables, or why there is none: more
/// than 20 variables.
pub open spec fn read_plan(items: Seq<S7DataItemView>) -> Result<Seq<u8>, Failure> {
    if items.len() > transport::MAX_VARS_MULTI_READ_WRITE {
        Err(too_many())
    } else {
        Ok(read_request_bytes(items))
    }
}

/// Builds the telegram that reads the given variables, if there is one.
pub fn read_request(items: &Vec<S7DataItem>) -> (r: Result<Vec<u8>, Error>)
    ensures
        match read_plan(views(items@)) {
            Ok(bytes) => r matches Ok(request) && request@ == bytes && request@.len() == 19 + 12
                * items.len(),
            Err(failure) => crate::error::failure_of(r) == Some(failure),
        },
{
    let count: usize = items.len();
    if count > transport::MAX_VARS_MULTI_READ_WRITE {
        return Err(Error::InvalidInput { input: "Too many items".to_string() });
    }
    let mut request = slice_to_vec(transport::MRD_HEADER.as_slice());
    field::put_low_word(&mut request, 2, 19 + 12 * count as i64);
    field::put_low_word(&mut request, 13, 12 * count as i64 + 2);
    request[18] = count as u8;
    let ghost head = request@;
    let mut i: usize = 0;
    while i < count
        invariant
            i <= count,
            count == items.len(),
            head.len() == 19,
            request@ == head + read_records(views(items@).take(i as int)),
            request@.len() == 19 + 12 * i,
        decreases count - i,
    {
        let item = &items[i];
        let address: i64 = if item.word_len == constant::WL_BIT as u8 || item.word_len
            == constant::WL_COUNTER as u8 || item.word_len == constant::WL_TIMER as u8 {
            item.start as i64
        } else {
            item.start as i64 * 8
        };
        let mut bytes = record(&transport::MRD_ITEM, item, address);
        proof {
            let next = views(items@).take(i + 1);
            assert(next.drop_last() =~= views(items@).take(i as int));
            assert(next.last() == items@[i as int]@);
            assert(head + read_records(views(items@).take(i as int)) + bytes@ =~= head
                + read_records(next));
        }
        request.append(&mut bytes);
        i = i + 1;
    }
    assert(views(items@).take(count as int) =~= views(items@));
    Ok(request)
}

/// Judges the head of the answer to a request of `count` variables.
pub fn check_reply(count: usize, response: &[u8]) -> (r: Result<(), Error>)
    ensures
        crate::error::failure_of(r) == reply_head(count as int, response@),
{
    if response.len() < MIN_REPLY {
        return Err(
            Error::InvalidResponse {
                reason: "PDU too small".to_string(),
                bytes: slice_to_vec(response),
            },
        );
    }
    let code: u16 = field::word_at(response, 17);
    if code != 0 {
        return Err(Error::Cpu { code: code as i32 });
    }
    if response[20] as usize != count {
        return Err(
            Error::InvalidResponse {
                reason: "Item count does not match".to_string(),
                bytes: slice_to_vec(response),
            },
        );
    }
    Ok(())
}

/// Past the end of an answer every offset says the same.
proof fn lemma_filled_past_end(
    items: Seq<S7DataItemView>,
    response: Seq<u8>,
    index: int,
    a: int,
    b: int,
)
    requires
        a >= response.len(),
        b >= response.len(),
    ensures
        filled(items, response, index, a) == filled(items, response, index, b),
{
}

/// Takes the answer to a read request: gives every variable that the answer
/// marks as read its data, and every other the PLC's code as its error.
/// Fails as a whole on an answer that is too short, reports an error of
/// its own, counts other variables than were asked for, or ends inside a
/// variable; the variables before that one keep what they were given.
pub fn accept_read(items: &mut Vec<S7DataItem>, response: &[u8]) -> (r: Result<(), Error>)
    ensures
        final(items).len() == old(items).len(),
        (views(final(items)@), crate::error::failure_of(r)) == read_reply(
            views(old(items)@),
            response@,
        ),
{
    let count: usize = items.len();
    match check_reply(count, response) {
        Ok(()) => {},
        Err(e) => {
            return Err(e);
        },
    }
    let ghost whole = filled(views(items@), response@, 0, FIRST_ITEM as int);
    let mut offset: usize = FIRST_ITEM;
    let mut i: usize = 0;
    while i < count
        invariant
            i <= count,
            count == items.len(),
            count == old(items).len(),
            reply_head(count as int, response@) is None,
            whole == filled(views(old(items)@), response@, 0, FIRST_ITEM as int),
            filled(views(items@), response@, i as int, offset as int) == whole,
        decreases count - i,
    {
        if offset >= response.len() {
            return Err(
                Error::InvalidResponse {
                    reason: "Item out of bounds".to_string(),
                    bytes: slice_to_vec(response),
                },
            );
        }
        let ghost held = views(items@);
        if response[offset] != 0xFF {
            items[i].err = Some(Error::Cpu { code: response[offset] as i32 });
            proof {
                assert(views(items@) =~= held.update(
                    i as int,
                    (S7DataItemView {
                        err: Some(Failure::Cpu { code: response@[offset as int] as i32 }),
                        ..held[i as int]
                    }),
                ));
            }
            if response.len() - offset >= 4 {
                offset = offset + 4;
            } else {
                proof {
                    lemma_filled_past_end(
                        views(items@),
                        response@,
                        i + 1,
                        offset + 4,
                        response@.len() as int,
                    );
                }
                offset = response.len();
            }
        } else {
            if response.len() - offset < 4 {
                return Err(
                    Error::InvalidResponse {
                        reason: "Item out of bounds".to_string(),
                        bytes: slice_to_vec(response),
                    },
                );
            }
            let raw: u16 = field::word_at(response, offset + 2);
            let size: u8 = response[offset + 1];
            let length: usize = if size != constant::TS_RES_OCTET && size != constant::TS_RES_REAL
                && size != constant::TS_RES_BIT {
                (raw / 8) as usize
            } else {
                raw as usize
            };
            if response.len() - offset - 4 < length {
                return Err(
                    Error::InvalidResponse {
                        reason: "Item out of bounds".to_string(),
                        bytes: slice_to_vec(response),
                    },
                );
            }
            let end: usize = offset + 4 + length;
            items[i].buffer = slice_to_vec(slice_subrange(response, offset + 4, end));
            proof {
                assert(views(items@) =~= held.update(
                    i as int,
                    (S7DataItemView {
                        buffer: response@.subrange(offset + 4, end as int),
                        ..held[i as int]
                    }),
                ));
            }
            if length % 2 != 0 {
                if end < response.len() {
                    offset = end + 1;
                } else {
                    proof {
                        lemma_filled_past_end(
                            views(items@),
                            response@,
                            i + 1,
                            end + 1,
                            response@.len() as int,
                        );
                    }
                    offset = end;
                }
            } else {
                offset = end;
            }
        }
        i = i + 1;
    }
    Ok(())
}

/// Builds the data of one variable of a write request, if its buffer holds
/// the bytes.
fn data_record(item: &S7DataItem) -> (r: Option<Vec<u8>>)
    ensures
        r is Some <==> item@.supplied(),
        r matches Some(bytes) ==> bytes@ == item@.data_record() && bytes@.len() <= 131075,
{
    let timed: bool = item.word_len == constant::WL_COUNTER as u8 || item.word_len
        == constant::WL_TIMER as u8;
    let transport_size: u8 = if item.word_len == constant::WL_BIT as u8 {
        constant::TS_RES_BIT
    } else if timed {
        constant::TS_RES_OCTET
    } else {
        constant::TS_RES_BYTE
    };
    let size: usize = if timed {
        item.size as usize * 2
    } else {
        item.size as usize
    };
    if item.buffer.len() < size {
        return None;
    }
    let length: i64 = if transport_size == constant::TS_RES_BYTE {
        size as i64 * 8
    } else {
        size as i64
    };
    let mut bytes: Vec<u8> = Vec::new();
    bytes.push(0x00);
    bytes.push(transport_size);
    bytes.push(0);
    bytes.push(0);
    assert(bytes@ =~= seq![0x00u8, transport_size, 0, 0]);
    field::put_low_word(&mut bytes, 2, length);
    bytes.extend_from_slice(slice_subrange(item.buffer.as_slice(), 0, size));
    if size % 2 != 0 {
        bytes.push(0x00);
    }
    Some(bytes)
}

/// Builds the parameters and the data of a write request, if every buffer
/// holds the bytes to write.
fn write_parts(items: &Vec<S7DataItem>) -> (r: Option<(Vec<u8>, Vec<u8>)>)
    requires
        items.len() <= transport::MAX_VARS_MULTI_READ_WRITE,
    ensures
        r is Some <==> all_supplied(views(items@)),
        r matches Some((params, data)) ==> {
            &&& params@ == write_records(views(items@))
            &&& params@.len() == 12 * items.len()
            &&& data@ == data_records(views(items@))
            &&& data@.len() <= 131075 * items.len()
        },
{
    let count: usize = items.len();
    let mut params: Vec<u8> = Vec::new();
    let mut data: Vec<u8> = Vec::new();
    let mut i: usize = 0;
    while i < count
        invariant
            i <= count,
            count == items.len(),
            count <= transport::MAX_VARS_MULTI_READ_WRITE,
            params@ == write_records(views(items@).take(i as int)),
            params@.len() == 12 * i,
            data@ == data_records(views(items@).take(i as int)),
            data@.len() <= 131075 * i,
            forall|j: int| 0 <= j < i ==> (#[trigger] views(items@)[j]).supplied(),
        decreases count - i,
    {
        let item = &items[i];
        let mut bytes = record(&transport::MWR_PARAM, item, item.start as i64);
        let mut more = match data_record(item) {
            Some(more) => more,
            None => {
                assert(!views(items@)[i as int].supplied());
                return None;
            },
        };
        proof {
            let next = views(items@).take(i + 1);
            assert(next.drop_last() =~= views(items@).take(i as int));
            assert(next.last() == items@[i as int]@);
        }
        params.append(&mut bytes);
        data.append(&mut more);
        i = i + 1;
    }
    assert(views(items@).take(count as int) =~= views(items@));
    Some((params, data))
}

/// Builds the telegram that writes the given variables, if there is one.
pub fn write_request(items: &Vec<S7DataItem>, pdu_length: i32) -> (r: Result<Vec<u8>, Error>)
    ensures
        match write_plan(views(items@), pdu_length) {
            Ok(bytes) => r matches Ok(request) && request@ == bytes,
            Err(failure) => crate::error::failure_of(r) == Some(failure),
        },
{
    let count: usize = items.len();
    if count > transport::MAX_VARS_MULTI_READ_WRITE {
        return Err(Error::InvalidInput { input: "Too many items".to_string() });
    }
    let (mut params, mut data) = match write_parts(items) {
        Some(parts) => parts,
        None => {
            return Err(Error::BufferTooSmall);
        },
    };
    let total: i64 = 19 + 12 * count as i64 + data.len() as i64;
    if total > pdu_length as i64 {
        return Err(Error::PduLength(pdu_length));
    }
    let mut request = slice_to_vec(transport::MWR_HEADER.as_slice());
    field::put_low_word(&mut request, 2, total);
    field::put_low_word(&mut request, 13, 12 * count as i64 + 2);
    field::put_low_word(&mut request, 15, data.len() as i64);
    request[18] = count as u8;
    request.append(&mut params);
    request.append(&mut data);
    Ok(request)
}

/// Takes the answer to a write request.
pub fn accept_write(count: usize, response: &[u8]) -> (r: Result<(), Error>)
    ensures
        crate::error::failure_of(r) == reply_head(count as int, response@),
{
    check_reply(count, response)
}

} // verus!
