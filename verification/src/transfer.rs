//! Reading and writing one run of elements of one area: how a request is cut
//! into telegrams that fit the negotiated PDU, what each telegram holds, and
//! what each answer does to the caller's buffer.

use crate::constant;
use crate::constant::Area;
use crate::error::{Error, Failure};
use crate::field;
use crate::transport;
use crate::transport::Exchange;
use vstd::prelude::*;
use vstd::slice::{slice_subrange, slice_to_vec};

verus! {

/// Bytes of an answer to a read request that come before the data
pub const READ_REPLY_HEADER: i32 = 18;

/// Bytes of an answer to a read request that come before the first element
pub const READ_REPLY_DATA: usize = 25;

/// The length of an answer to a write request
pub const WRITE_REPLY_LENGTH: usize = 22;

/// What is left to do of one read or write: the elements still to move, where
/// the next of them lies in the PLC and in the caller's buffer, and how many
/// of them one telegram may carry.
#[derive(Clone, Copy, Debug, PartialEq, Eq)]
pub struct Transfer {
    pub area: Area,
    pub db_number: i32,
    /// `WL_BIT`, `WL_COUNTER`, `WL_TIMER`, or `WL_BYTE` for every other word
    /// length: those are moved byte by byte.
    pub word_len: i32,
    /// Bytes in one element: 2 for counters and timers, else 1.
    pub word_size: usize,
    /// Address in the PLC of the next element.
    pub start: i64,
    /// Elements still to move.
    pub remaining: usize,
    /// The most elements that one telegram may carry.
    pub max_elements: usize,
    /// Bytes of the caller's buffer that were moved already.
    pub offset: usize,
}

/// The word length that an area asks for: counters and timers have their own.
pub open spec fn area_word_len(area: Area, word_len: i32) -> i32 {
    match area {
        Area::Counter => constant::WL_COUNTER,
        Area::Timer => constant::WL_TIMER,
        _ => word_len,
    }
}

/// Bytes that `count` elements of `size` bytes take.
pub open spec fn span(count: int, size: int) -> int {
    if size == 2 {
        2 * count
    } else if size == 4 {
        4 * count
    } else {
        count
    }
}

/// The elements that a request moves: one for a bit, `amount` for counters
/// and timers, else `amount` times the element size, the elements then being
/// bytes. None for an `amount` below 1.
pub open spec fn element_count(word_len: i32, amount: i32) -> int {
    if word_len == constant::WL_BIT {
        1
    } else if amount <= 0 {
        0
    } else if word_len == constant::WL_COUNTER || word_len == constant::WL_TIMER {
        amount as int
    } else {
        span(amount as int, constant::word_size(word_len as int))
    }
}

/// The word length that telegrams carry for a request of the given one.
pub open spec fn telegram_word_len(word_len: i32) -> i32 {
    if word_len == constant::WL_BIT || word_len == constant::WL_COUNTER || word_len
        == constant::WL_TIMER {
        word_len
    } else {
        constant::WL_BYTE
    }
}

/// The most elements of the given size that fit into a PDU beside `overhead`
/// bytes of header.
pub open spec fn capacity(pdu_length: i32, overhead: i32, word_size: int) -> int {
    if pdu_length < overhead {
        0
    } else if word_size == 2 {
        (pdu_length - overhead) / 2
    } else {
        pdu_length - overhead
    }
}

/// How far a read has come after some exchanges.
pub enum ReadRun {
    /// Every exchange so far went well; `job` is what is left, `buffer` what
    /// the caller's buffer holds.
    Going { job: Transfer, buffer: Seq<u8> },
    /// The last exchange failed; `buffer` holds what the ones before left.
    Failed { failure: Failure, buffer: Seq<u8> },
    /// The exchanges are not those of this read.
    Off,
}

/// How far a write has come after some exchanges.
pub enum WriteRun {
    /// Every exchange so far went well; `job` is what is left.
    Going { job: Transfer },
    /// The last exchange failed.
    Failed { failure: Failure },
    /// The exchanges are not those of this write.
    Off,
}

/// Where a read that starts as `job`, into a buffer that holds `buffer`,
/// stands after `exchanges`. Each exchange must carry the telegram of the
/// transfer then left, and none may follow the last element or a failure.
pub open spec fn read_run(job: Transfer, buffer: Seq<u8>, exchanges: Seq<Exchange>) -> ReadRun
    decreases exchanges.len(),
{
    if exchanges.len() == 0 {
        ReadRun::Going { job, buffer }
    } else {
        match read_run(job, buffer, exchanges.drop_last()) {
            ReadRun::Going { job: left, buffer: held } => left.read_exchange(
                held,
                exchanges.last(),
            ),
            _ => ReadRun::Off,
        }
    }
}

/// Where a write that starts as `job`, out of a buffer that holds `buffer`,
/// stands after `exchanges`.
pub open spec fn write_run(job: Transfer, buffer: Seq<u8>, exchanges: Seq<Exchange>) -> WriteRun
    decreases exchanges.len(),
{
    if exchanges.len() == 0 {
        WriteRun::Going { job }
    } else {
        match write_run(job, buffer, exchanges.drop_last()) {
            WriteRun::Going { job: left } => left.write_exchange(buffer, exchanges.last()),
            _ => WriteRun::Off,
        }
    }
}

/// Whether a read that made `exchanges` and then returned is the read of
/// `job`: it stopped at the first failure and returned it, or went on to the
/// last element and returned none, and left `after` in the buffer.
pub open spec fn read_done(
    job: Transfer,
    before: Seq<u8>,
    exchanges: Seq<Exchange>,
    failure: Option<Failure>,
    after: Seq<u8>,
) -> bool {
    match read_run(job, before, exchanges) {
        ReadRun::Going { job: left, buffer } => left.remaining == 0 && failure is None && after
            == buffer,
        ReadRun::Failed { failure: first, buffer } => failure == Some(first) && after == buffer,
        ReadRun::Off => false,
    }
}

/// Whether a write that made `exchanges` and then returned is the write of
/// `job`: it stopped at the first failure and returned it, or went on to the
/// last element and returned none.
pub open spec fn write_done(
    job: Transfer,
    buffer: Seq<u8>,
    exchanges: Seq<Exchange>,
    failure: Option<Failure>,
) -> bool {
    match write_run(job, buffer, exchanges) {
        WriteRun::Going { job: left } => left.remaining == 0 && failure is None,
        WriteRun::Failed { failure: first } => failure == Some(first),
        WriteRun::Off => false,
    }
}

impl Transfer {
    /// What every transfer in progress satisfies.
    pub open spec fn wf(self) -> bool {
        &&& self.word_len == constant::WL_BIT || self.word_len == constant::WL_BYTE
            || self.word_len == constant::WL_COUNTER || self.word_len == constant::WL_TIMER
        &&& self.word_size == constant::word_size(self.word_len as int)
        &&& self.remaining > 0 ==> self.max_elements >= 1
        &&& self.max_elements <= i32::MAX
        &&& i32::MIN <= self.start
        &&& self.start + self.bytes(self.remaining as int) <= 0x10_0000_0000
        &&& self.end() <= usize::MAX
    }

    /// The transfer that a request starts with, before the PDU length and the
    /// buffer are held against it.
    pub open spec fn first(
        area: Area,
        db_number: i32,
        start: i32,
        amount: i32,
        word_len: i32,
        pdu_length: i32,
        overhead: i32,
    ) -> Transfer {
        let asked = area_word_len(area, word_len);
        let carried = telegram_word_len(asked);
        Transfer {
            area,
            db_number,
            word_len: carried,
            word_size: constant::word_size(carried as int) as usize,
            start: start as i64,
            remaining: element_count(asked, amount) as usize,
            max_elements: capacity(
                pdu_length,
                overhead,
                constant::word_size(carried as int),
            ) as usize,
            offset: 0,
        }
    }

    /// The plan of a request, or why there is none: an unknown word length,
    /// a PDU length of zero where that is refused, a PDU too short for a
    /// single element, or a buffer shorter than the bytes to move.
    pub open spec fn plan(
        area: Area,
        db_number: i32,
        start: i32,
        amount: i32,
        word_len: i32,
        pdu_length: i32,
        overhead: i32,
        refuse_zero: bool,
        room: usize,
    ) -> Result<Transfer, Failure> {
        let asked = area_word_len(area, word_len);
        let size = constant::word_size(telegram_word_len(asked) as int);
        if constant::word_size(asked as int) == 0 {
            Err(Failure::InvalidDataSize)
        } else if refuse_zero && pdu_length == 0 {
            Err(Failure::PduLength(pdu_length))
        } else if element_count(asked, amount) > 0 && capacity(pdu_length, overhead, size) < 1 {
            Err(Failure::PduLength(pdu_length))
        } else if span(element_count(asked, amount), size) > room {
            Err(Failure::BufferTooSmall)
        } else {
            Ok(Transfer::first(area, db_number, start, amount, word_len, pdu_length, overhead))
        }
    }

    /// The plan of a read. A PDU length of zero is refused whatever is asked.
    pub open spec fn read_plan(
        area: Area,
        db_number: i32,
        start: i32,
        amount: i32,
        word_len: i32,
        pdu_length: i32,
        room: usize,
    ) -> Result<Transfer, Failure> {
        Transfer::plan(
            area,
            db_number,
            start,
            amount,
            word_len,
            pdu_length,
            READ_REPLY_HEADER,
            true,
            room,
        )
    }

    /// The plan of a write.
    pub open spec fn write_plan(
        area: Area,
        db_number: i32,
        start: i32,
        amount: i32,
        word_len: i32,
        pdu_length: i32,
        room: usize,
    ) -> Result<Transfer, Failure> {
        Transfer::plan(
            area,
            db_number,
            start,
            amount,
            word_len,
            pdu_length,
            constant::SIZE_HEADER_WRITE,
            false,
            room,
        )
    }

    /// Works out the plan of a request. `overhead` is what a telegram needs
    /// beside the elements.
    fn begin(
        area: Area,
        db_number: i32,
        start: i32,
        amount: i32,
        word_len: i32,
        pdu_length: i32,
        overhead: i32,
        refuse_zero: bool,
        room: usize,
    ) -> (r: Result<Transfer, Error>)
        requires
            0 < overhead <= 35,
        ensures
            crate::error::outcome(r) == Transfer::plan(
                area,
                db_number,
                start,
                amount,
                word_len,
                pdu_length,
                overhead,
                refuse_zero,
                room,
            ),
            r matches Ok(job) ==> job.wf() && job.within(room),
    {
        let asked: i32 = match area {
            Area::Counter => constant::WL_COUNTER,
            Area::Timer => constant::WL_TIMER,
            _ => word_len,
        };
        let size: i32 = constant::data_size_byte(asked);
        if size == 0 {
            return Err(Error::InvalidDataSize);
        }
        if refuse_zero && pdu_length == 0 {
            return Err(Error::PduLength(pdu_length));
        }
        let wide: u64 = if asked == constant::WL_BIT {
            1
        } else if amount <= 0 {
            0
        } else if asked == constant::WL_COUNTER || asked == constant::WL_TIMER {
            amount as u64
        } else if size == 1 {
            amount as u64
        } else if size == 2 {
            amount as u64 * 2
        } else {
            amount as u64 * 4
        };
        let (carried, word_size): (i32, usize) = if asked == constant::WL_BIT {
            (asked, 1)
        } else if asked == constant::WL_COUNTER || asked == constant::WL_TIMER {
            (asked, 2)
        } else {
            (constant::WL_BYTE, 1)
        };
        let max_elements: usize = if pdu_length >= overhead {
            if word_size == 2 {
                (pdu_length - overhead) as usize / 2
            } else {
                (pdu_length - overhead) as usize
            }
        } else {
            0
        };
        if wide > 0 && max_elements < 1 {
            return Err(Error::PduLength(pdu_length));
        }
        let total: u64 = if word_size == 2 {
            2 * wide
        } else {
            wide
        };
        if total > room as u64 {
            return Err(Error::BufferTooSmall);
        }
        Ok(
            Transfer {
                area,
                db_number,
                word_len: carried,
                word_size,
                start: start as i64,
                remaining: wide as usize,
                max_elements,
                offset: 0,
            },
        )
    }

    /// Bytes that `count` elements of the transfer take.
    pub open spec fn bytes(self, count: int) -> int {
        span(count, self.word_size as int)
    }

    /// Where in the caller's buffer the last byte to move ends.
    pub open spec fn end(self) -> int {
        self.offset + self.bytes(self.remaining as int)
    }

    /// Whether a buffer of `room` bytes holds all that is left to move.
    pub open spec fn within(self, room: usize) -> bool {
        self.end() <= room
    }

    /// Elements that the next telegram carries.
    pub open spec fn chunk(self) -> int {
        if self.remaining < self.max_elements {
            self.remaining as int
        } else {
            self.max_elements as int
        }
    }

    /// Bytes that the next telegram moves.
    pub open spec fn chunk_bytes(self) -> int {
        self.bytes(self.chunk())
    }

    /// The address that the next telegram names: for elements moved as
    /// bytes the bit address, eight times `start`, else `start` itself.
    pub open spec fn address(self) -> int {
        if self.word_len == constant::WL_BYTE {
            self.start * 8
        } else {
            self.start as int
        }
    }

    /// The transport size that a write telegram names.
    pub open spec fn transport_size(self) -> u8 {
        if self.word_len == constant::WL_BIT {
            constant::TS_RES_BIT
        } else if self.word_len == constant::WL_COUNTER || self.word_len == constant::WL_TIMER {
            constant::TS_RES_OCTET
        } else {
            constant::TS_RES_BYTE
        }
    }

    /// The length that a write telegram gives for its data: in bits for
    /// elements moved as bytes, else in bytes.
    pub open spec fn data_length(self) -> int {
        if self.word_len == constant::WL_BYTE {
            self.chunk_bytes() * 8
        } else {
            self.chunk_bytes()
        }
    }

    /// What is left once the next telegram was answered well.
    pub open spec fn advanced(self) -> Transfer {
        Transfer {
            start: (self.start + self.chunk_bytes()) as i64,
            remaining: (self.remaining - self.chunk()) as usize,
            offset: (self.offset + self.chunk_bytes()) as usize,
            ..self
        }
    }

    /// The next read telegram: the first 31 bytes of the template with the
    /// word length at 22, the element count at 23, the DB number at 25, the
    /// area at 27 and the address at 28.
    pub open spec fn read_request_bytes(self) -> Seq<u8> {
        let head = transport::READ_WRITE_TELEGRAM@.subrange(0, 31);
        let counted = field::with_word(head.update(22, self.word_len as u8), 23, self.chunk());
        let placed = field::with_word(counted, 25, self.db_number as int).update(
            27,
            self.area.wire(),
        );
        field::with_address(placed, 28, self.address())
    }

    /// The next write telegram: the template with the telegram length at 2,
    /// the data length at 15, the function at 17, the word length at 22, the
    /// element count at 23, the DB number of a data block at 25, the area at
    /// 27, the address at 28, the transport size at 32 and the length of the
    /// data at 33, followed by the bytes to write.
    pub open spec fn write_request_bytes(self, buffer: Seq<u8>) -> Seq<u8> {
        self.write_header_bytes() + buffer.subrange(
            self.offset as int,
            self.offset + self.chunk_bytes(),
        )
    }

    /// The 35 bytes of the next write telegram that come before the data.
    pub open spec fn write_header_bytes(self) -> Seq<u8> {
        let size = self.chunk_bytes();
        let head = transport::READ_WRITE_TELEGRAM@;
        let framed = field::with_word(field::with_word(head, 2, 35 + size), 15, size + 4).update(
            17,
            0x05,
        );
        let counted = field::with_word(framed.update(22, self.word_len as u8), 23, self.chunk());
        let placed = (if self.area == Area::DataBausteine {
            field::with_word(counted, 25, self.db_number as int)
        } else {
            counted
        }).update(27, self.area.wire());
        let addressed = field::with_address(placed, 28, self.address());
        field::with_word(addressed.update(32, self.transport_size()), 33, self.data_length())
    }

    /// What the answer to the next read telegram leads to: the transfer that
    /// is left and the buffer with the elements in it, or the failure. The
    /// answer must hold 25 bytes, 0xFF at 21, and the elements from 25 on.
    pub open spec fn read_step(self, buffer: Seq<u8>, response: Seq<u8>) -> Result<
        (Transfer, Seq<u8>),
        Failure,
    > {
        let size = self.chunk_bytes();
        if response.len() < READ_REPLY_DATA {
            Err(Failure::InvalidDataSize)
        } else if response[21] != 0xFF {
            Err(Failure::Cpu { code: response[21] as i32 })
        } else if response.len() < READ_REPLY_DATA + size {
            Err(Failure::InvalidDataSize)
        } else {
            Ok(
                (
                    self.advanced(),
                    buffer.subrange(0, self.offset as int) + response.subrange(
                        READ_REPLY_DATA as int,
                        READ_REPLY_DATA + size,
                    ) + buffer.subrange(self.offset + size, buffer.len() as int),
                ),
            )
        }
    }

    /// What the answer to the next write telegram leads to: the transfer
    /// that is left, or the failure. The answer must hold 22 bytes and 0xFF
    /// at 21.
    pub open spec fn write_step(self, response: Seq<u8>) -> Result<Transfer, Failure> {
        if response.len() != WRITE_REPLY_LENGTH {
            Err(Failure::InvalidPdu)
        } else if response[21] != 0xFF {
            Err(Failure::Cpu { code: response[21] as i32 })
        } else {
            Ok(self.advanced())
        }
    }

    /// Where a read stands after one more exchange.
    pub open spec fn read_exchange(self, buffer: Seq<u8>, exchange: Exchange) -> ReadRun {
        if self.remaining == 0 || exchange.request != self.read_request_bytes() {
            ReadRun::Off
        } else {
            match exchange.reply {
                Err(failure) => ReadRun::Failed { failure, buffer },
                Ok(response) => match self.read_step(buffer, response) {
                    Err(failure) => ReadRun::Failed { failure, buffer },
                    Ok((left, filled)) => ReadRun::Going { job: left, buffer: filled },
                },
            }
        }
    }

    /// Where a write stands after one more exchange.
    pub open spec fn write_exchange(self, buffer: Seq<u8>, exchange: Exchange) -> WriteRun {
        if self.remaining == 0 || exchange.request != self.write_request_bytes(buffer) {
            WriteRun::Off
        } else {
            match exchange.reply {
                Err(failure) => WriteRun::Failed { failure },
                Ok(response) => match self.write_step(response) {
                    Err(failure) => WriteRun::Failed { failure },
                    Ok(left) => WriteRun::Going { job: left },
                },
            }
        }
    }

    /// A transfer in progress stays one when it steps over a telegram, and
    /// ends where it was to end.
    pub proof fn lemma_sizes(self)
        requires
            self.wf(),
        ensures
            self.word_size == 1 || self.word_size == 2,
            0 <= self.chunk() <= self.remaining,
            self.remaining > 0 ==> self.chunk() >= 1,
            self.advanced().wf(),
            self.advanced().end() == self.end(),
    {
    }

    /// Elements that the next telegram carries.
    pub fn next_chunk(&self) -> (n: usize)
        ensures
            n == self.chunk(),
    {
        if self.remaining < self.max_elements {
            self.remaining
        } else {
            self.max_elements
        }
    }

    /// Bytes that the next telegram moves.
    pub fn chunk_size(&self) -> (size: usize)
        requires
            self.wf(),
        ensures
            size == self.chunk_bytes(),
    {
        let n: usize = self.next_chunk();
        if self.word_size == 2 {
            2 * n
        } else {
            n
        }
    }

    /// The address that the next telegram names.
    fn next_address(&self) -> (a: i64)
        requires
            self.wf(),
        ensures
            a == self.address(),
    {
        if self.word_len == constant::WL_BYTE {
            self.start * 8
        } else {
            self.start
        }
    }

    /// Steps over the elements of the telegram that was just answered.
    fn advance(&mut self)
        requires
            old(self).wf(),
        ensures
            *final(self) == old(self).advanced(),
            final(self).wf(),
    {
        let n: usize = self.next_chunk();
        let size: usize = self.chunk_size();
        self.start = self.start + size as i64;
        self.remaining = self.remaining - n;
        self.offset = self.offset + size;
    }

    /// Builds the next read telegram.
    pub fn read_request(&self) -> (request: Vec<u8>)
        requires
            self.wf(),
        ensures
            request@ == self.read_request_bytes(),
            request@.len() == 31,
    {
        let n: usize = self.next_chunk();
        let mut request = slice_to_vec(
            slice_subrange(transport::READ_WRITE_TELEGRAM.as_slice(), 0, 31),
        );
        request[22] = self.word_len as u8;
        field::put_low_word(&mut request, 23, n as i64);
        field::put_low_word(&mut request, 25, self.db_number as i64);
        request[27] = self.area.code();
        field::put_address(&mut request, 28, self.next_address());
        request
    }

    /// Takes the answer to the telegram that `read_request` built: checks it
    /// and copies its elements into `buffer`, behind those of the answers
    /// before. On a failure nothing changes.
    pub fn accept_read(&mut self, response: &[u8], buffer: &mut Vec<u8>) -> (r: Result<(), Error>)
        requires
            old(self).wf(),
            old(self).within(old(buffer).len()),
        ensures
            match old(self).read_step(old(buffer)@, response@) {
                Ok((left, filled)) => r is Ok && *final(self) == left && final(buffer)@ == filled,
                Err(failure) => crate::error::failure_of(r) == Some(failure) && *final(self)
                    == *old(self) && final(buffer)@ == old(buffer)@,
            },
            final(self).wf(),
            final(buffer).len() == old(buffer).len(),
            final(self).within(final(buffer).len()),
    {
        let size: usize = self.chunk_size();
        if response.len() < READ_REPLY_DATA {
            return Err(Error::InvalidDataSize);
        }
        if response[21] != 0xFF {
            return Err(Error::Cpu { code: response[21] as i32 });
        }
        if response.len() - READ_REPLY_DATA < size {
            return Err(Error::InvalidDataSize);
        }
        let offset: usize = self.offset;
        let mut i: usize = 0;
        while i < size
            invariant
                i <= size,
                offset + size <= buffer.len(),
                READ_REPLY_DATA + size <= response.len(),
                buffer.len() == old(buffer).len(),
                buffer@ == old(buffer)@.subrange(0, offset as int) + response@.subrange(
                    READ_REPLY_DATA as int,
                    READ_REPLY_DATA + i,
                ) + old(buffer)@.subrange(offset + i, old(buffer)@.len() as int),
            decreases size - i,
        {
            buffer[offset + i] = response[READ_REPLY_DATA + i];
            i = i + 1;
        }
        self.advance();
        Ok(())
    }

    /// Builds the next write telegram up to its data.
    fn write_header(&self) -> (request: Vec<u8>)
        requires
            self.wf(),
        ensures
            request@ == self.write_header_bytes(),
            request@.len() == 35,
    {
        let n: usize = self.next_chunk();
        let size: usize = self.chunk_size();
        let length: i64 = if self.word_len == constant::WL_BYTE {
            size as i64 * 8
        } else {
            size as i64
        };
        let transport_size: u8 = if self.word_len == constant::WL_BIT {
            constant::TS_RES_BIT
        } else if self.word_len == constant::WL_COUNTER || self.word_len == constant::WL_TIMER {
            constant::TS_RES_OCTET
        } else {
            constant::TS_RES_BYTE
        };
        let mut request = slice_to_vec(transport::READ_WRITE_TELEGRAM.as_slice());
        field::put_low_word(&mut request, 2, 35 + size as i64);
        field::put_low_word(&mut request, 15, size as i64 + 4);
        request[17] = 0x05;
        request[22] = self.word_len as u8;
        field::put_low_word(&mut request, 23, n as i64);
        match self.area {
            Area::DataBausteine => {
                field::put_low_word(&mut request, 25, self.db_number as i64);
            },
            _ => {},
        }
        request[27] = self.area.code();
        field::put_address(&mut request, 28, self.next_address());
        request[32] = transport_size;
        field::put_low_word(&mut request, 33, length);
        request
    }

    /// Builds the next write telegram out of `buffer`.
    pub fn write_request(&self, buffer: &[u8]) -> (request: Vec<u8>)
        requires
            self.wf(),
            self.within(buffer.len()),
        ensures
            request@ == self.write_request_bytes(buffer@),
            request@.len() == 35 + self.chunk_bytes(),
    {
        let size: usize = self.chunk_size();
        let mut request = self.write_header();
        request.extend_from_slice(slice_subrange(buffer, self.offset, self.offset + size));
        request
    }

    /// Takes the answer to the telegram that `write_request` built. On a
    /// failure nothing changes.
    pub fn accept_write(&mut self, response: &[u8]) -> (r: Result<(), Error>)
        requires
            old(self).wf(),
        ensures
            match old(self).write_step(response@) {
                Ok(left) => r is Ok && *final(self) == left,
                Err(failure) => crate::error::failure_of(r) == Some(failure) && *final(self)
                    == *old(self),
            },
            final(self).wf(),
            final(self).end() == old(self).end(),
    {
        if response.len() != WRITE_REPLY_LENGTH {
            return Err(Error::InvalidPdu);
        }
        if response[21] != 0xFF {
            return Err(Error::Cpu { code: response[21] as i32 });
        }
        self.advance();
        Ok(())
    }

    /// Plans a read of `amount` elements into a buffer of `room` bytes.
    pub fn for_read(
        area: Area,
        db_number: i32,
        start: i32,
        amount: i32,
        word_len: i32,
        pdu_length: i32,
        room: usize,
    ) -> (r: Result<Transfer, Error>)
        ensures
            crate::error::outcome(r) == Transfer::read_plan(
                area,
                db_number,
                start,
                amount,
                word_len,
                pdu_length,
                room,
            ),
            r matches Ok(job) ==> job.wf() && job.within(room),
    {
        Transfer::begin(
            area,
            db_number,
            start,
            amount,
            word_len,
            pdu_length,
            READ_REPLY_HEADER,
            true,
            room,
        )
    }

    /// Plans a write of `amount` elements out of a buffer of `room` bytes.
    pub fn for_write(
        area: Area,
        db_number: i32,
        start: i32,
        amount: i32,
        word_len: i32,
        pdu_length: i32,
        room: usize,
    ) -> (r: Result<Transfer, Error>)
        ensures
            crate::error::outcome(r) == Transfer::write_plan(
                area,
                db_number,
                start,
                amount,
                word_len,
                pdu_length,
                room,
            ),
            r matches Ok(job) ==> job.wf() && job.within(room),
    {
        Transfer::begin(
            area,
            db_number,
            start,
            amount,
            word_len,
            pdu_length,
            constant::SIZE_HEADER_WRITE,
            false,
            room,
        )
    }
}

/// The element count that a read or write telegram names.
pub open spec fn named_count(request: Seq<u8>) -> int {
    field::word_value(request, 23)
}

/// The address that a read or write telegram names.
pub open spec fn named_address(request: Seq<u8>) -> int {
    field::address_value(request, 28)
}

/// The elements that the telegrams of some exchanges name, taken together.
pub open spec fn counts_sum(exchanges: Seq<Exchange>) -> int
    decreases exchanges.len(),
{
    if exchanges.len() == 0 {
        0
    } else {
        counts_sum(exchanges.drop_last()) + named_count(exchanges.last().request)
    }
}

impl Transfer {
    /// Address encoding. The three bytes from 28 on of a read telegram hold
    /// the low 24 bits of the address of the next element: for elements
    /// moved as bytes that address is the bit address, eight times the byte
    /// address `start`; for bits, counters and timers it is `start` itself.
    /// The element count at 23 is the low 16 bits of the chunk.
    pub proof fn lemma_read_request_fields(self)
        requires
            self.wf(),
        ensures
            self.read_request_bytes().len() == 31,
            transport::framed(self.read_request_bytes()),
            named_address(self.read_request_bytes()) == self.address() % 0x100_0000,
            self.word_len == constant::WL_BYTE ==> named_address(self.read_request_bytes()) == (
            self.start * 8) % 0x100_0000,
            self.word_len != constant::WL_BYTE ==> named_address(self.read_request_bytes())
                == self.start % 0x100_0000,
            named_count(self.read_request_bytes()) == self.chunk() % 0x1_0000,
            field::word_value(self.read_request_bytes(), 25) == self.db_number % 0x1_0000,
            self.read_request_bytes()[27] == self.area.wire(),
            self.read_request_bytes()[22] == self.word_len,
    {
        let head = transport::READ_WRITE_TELEGRAM@.subrange(0, 31).update(22, self.word_len as u8);
        let counted = field::with_word(head, 23, self.chunk());
        let numbered = field::with_word(counted, 25, self.db_number as int);
        let placed = numbered.update(27, self.area.wire());
        field::lemma_word_stored(head, 23, self.chunk());
        field::lemma_word_stored(counted, 25, self.db_number as int);
        field::lemma_address_stored(placed, 28, self.address());
    }

    /// The same for a write telegram, whose data follow its 35 bytes of
    /// header.
    pub proof fn lemma_write_request_fields(self, buffer: Seq<u8>)
        requires
            self.wf(),
            self.within(buffer.len() as usize),
            buffer.len() <= usize::MAX,
        ensures
            self.write_request_bytes(buffer).len() == 35 + self.chunk_bytes(),
            transport::framed(self.write_request_bytes(buffer)),
            self.write_request_bytes(buffer).subrange(35, 35 + self.chunk_bytes())
                == buffer.subrange(self.offset as int, self.offset + self.chunk_bytes()),
            named_address(self.write_request_bytes(buffer)) == self.address() % 0x100_0000,
            named_count(self.write_request_bytes(buffer)) == self.chunk() % 0x1_0000,
            self.write_request_bytes(buffer)[27] == self.area.wire(),
            self.write_request_bytes(buffer)[17] == 0x05,
    {
        self.lemma_sizes();
        let size = self.chunk_bytes();
        let head = transport::READ_WRITE_TELEGRAM@;
        let sized = field::with_word(head, 2, 35 + size);
        let framed = field::with_word(sized, 15, size + 4).update(17, 0x05);
        let typed = framed.update(22, self.word_len as u8);
        let counted = field::with_word(typed, 23, self.chunk());
        let numbered = if self.area == Area::DataBausteine {
            field::with_word(counted, 25, self.db_number as int)
        } else {
            counted
        };
        let placed = numbered.update(27, self.area.wire());
        let addressed = field::with_address(placed, 28, self.address());
        let sized_data = addressed.update(32, self.transport_size());
        let header = field::with_word(sized_data, 33, self.data_length());
        field::lemma_word_stored(head, 2, 35 + size);
        field::lemma_word_stored(sized, 15, size + 4);
        field::lemma_word_stored(typed, 23, self.chunk());
        field::lemma_word_stored(counted, 25, self.db_number as int);
        field::lemma_address_stored(placed, 28, self.address());
        field::lemma_word_stored(sized_data, 33, self.data_length());
        assert(header == self.write_header_bytes());
        assert(header.len() == 35);
        let data = buffer.subrange(self.offset as int, self.offset + size);
        assert((header + data).subrange(35, 35 + size) =~= data);
    }
}

/// The data that the write telegrams of some exchanges carry, one after
/// the other.
pub open spec fn written(exchanges: Seq<Exchange>) -> Seq<u8>
    decreases exchanges.len(),
{
    if exchanges.len() == 0 {
        Seq::empty()
    } else {
        written(exchanges.drop_last()) + exchanges.last().request.skip(35)
    }
}

/// The elements that the answers of a read carry, one after the other: of
/// each answer that was taken, as many bytes from 25 on as were asked for.
pub open spec fn received(job: Transfer, buffer: Seq<u8>, exchanges: Seq<Exchange>) -> Seq<u8>
    decreases exchanges.len(),
{
    if exchanges.len() == 0 {
        Seq::empty()
    } else {
        let earlier = received(job, buffer, exchanges.drop_last());
        match (read_run(job, buffer, exchanges.drop_last()), read_run(job, buffer, exchanges)) {
            (ReadRun::Going { job: left, buffer: held }, ReadRun::Going { .. }) => earlier
                + exchanges.last().reply->Ok_0.subrange(
                READ_REPLY_DATA as int,
                READ_REPLY_DATA + left.chunk_bytes(),
            ),
            _ => earlier,
        }
    }
}

/// Chunking of a read. As long as a read goes well, the elements that its
/// telegrams name and the elements that are left add up to the elements
/// asked for, and no telegram names more than fit into the PDU, nor none.
/// Telegrams name their elements in 16 bits, so this holds where the PDU
/// has room for no more than 65535 elements.
pub proof fn lemma_read_chunks(job: Transfer, buffer: Seq<u8>, exchanges: Seq<Exchange>)
    requires
        job.wf(),
        job.max_elements <= 0xFFFF,
        read_run(job, buffer, exchanges) is Going,
    ensures
        read_run(job, buffer, exchanges)->Going_job.wf(),
        read_run(job, buffer, exchanges)->Going_job.max_elements == job.max_elements,
        read_run(job, buffer, exchanges)->Going_job.word_size == job.word_size,
        read_run(job, buffer, exchanges)->Going_job.end() == job.end(),
        read_run(job, buffer, exchanges)->Going_buffer.len() == buffer.len()
            || job.end() > buffer.len(),
        counts_sum(exchanges) + read_run(job, buffer, exchanges)->Going_job.remaining
            == job.remaining,
        forall|i: int|
            0 <= i < exchanges.len() ==> 1 <= named_count(#[trigger] exchanges[i].request)
                <= job.max_elements,
    decreases exchanges.len(),
{
    if exchanges.len() > 0 {
        let earlier = exchanges.drop_last();
        lemma_read_chunks(job, buffer, earlier);
        let left = read_run(job, buffer, earlier)->Going_job;
        left.lemma_sizes();
        left.lemma_read_request_fields();
        assert forall|i: int| 0 <= i < exchanges.len() implies 1 <= named_count(
            #[trigger] exchanges[i].request,
        ) <= job.max_elements by {
            if i < earlier.len() {
                assert(exchanges[i] == earlier[i]);
            }
        }
    }
}

/// What one more exchange of a write that goes on well names and leaves.
proof fn lemma_write_exchange(left: Transfer, buffer: Seq<u8>, exchange: Exchange)
    requires
        left.wf(),
        left.within(buffer.len() as usize),
        buffer.len() <= usize::MAX,
        left.max_elements <= 0xFFFF,
        left.write_exchange(buffer, exchange) is Going,
    ensures
        left.write_exchange(buffer, exchange)->Going_job == left.advanced(),
        left.advanced().wf(),
        left.advanced().end() == left.end(),
        named_count(exchange.request) == left.chunk(),
        1 <= left.chunk() <= left.max_elements,
{
    left.lemma_sizes();
    left.lemma_write_request_fields(buffer);
}

/// Chunking of a write, as of a read.
pub proof fn lemma_write_chunks(job: Transfer, buffer: Seq<u8>, exchanges: Seq<Exchange>)
    requires
        job.wf(),
        job.within(buffer.len() as usize),
        buffer.len() <= usize::MAX,
        job.max_elements <= 0xFFFF,
        write_run(job, buffer, exchanges) is Going,
    ensures
        write_run(job, buffer, exchanges)->Going_job.wf(),
        write_run(job, buffer, exchanges)->Going_job.max_elements == job.max_elements,
        write_run(job, buffer, exchanges)->Going_job.word_size == job.word_size,
        write_run(job, buffer, exchanges)->Going_job.end() == job.end(),
        counts_sum(exchanges) + write_run(job, buffer, exchanges)->Going_job.remaining
            == job.remaining,
        forall|i: int|
            0 <= i < exchanges.len() ==> 1 <= named_count(#[trigger] exchanges[i].request)
                <= job.max_elements,
    decreases exchanges.len(),
{
    if exchanges.len() > 0 {
        let earlier = exchanges.drop_last();
        lemma_write_chunks(job, buffer, earlier);
        let left = write_run(job, buffer, earlier)->Going_job;
        lemma_write_exchange(left, buffer, exchanges.last());
        assert forall|i: int| 0 <= i < exchanges.len() implies 1 <= named_count(
            #[trigger] exchanges[i].request,
        ) <= job.max_elements by {
            if i < earlier.len() {
                assert(exchanges[i] == earlier[i]);
            }
        }
    }
}

/// A write sends the caller's bytes as they lie: what its telegrams carry,
/// one after the other, is the buffer from where the write began to where
/// it stands.
pub proof fn lemma_written(job: Transfer, buffer: Seq<u8>, exchanges: Seq<Exchange>)
    requires
        job.wf(),
        job.within(buffer.len() as usize),
        buffer.len() <= usize::MAX,
        write_run(job, buffer, exchanges) is Going,
    ensures
        write_run(job, buffer, exchanges)->Going_job.wf(),
        write_run(job, buffer, exchanges)->Going_job.end() == job.end(),
        job.offset <= write_run(job, buffer, exchanges)->Going_job.offset,
        written(exchanges) == buffer.subrange(
            job.offset as int,
            write_run(job, buffer, exchanges)->Going_job.offset as int,
        ),
    decreases exchanges.len(),
{
    if exchanges.len() == 0 {
        assert(written(exchanges) =~= buffer.subrange(job.offset as int, job.offset as int));
    } else {
        let earlier = exchanges.drop_last();
        lemma_written(job, buffer, earlier);
        let left = write_run(job, buffer, earlier)->Going_job;
        left.lemma_sizes();
        left.lemma_write_request_fields(buffer);
        let request = exchanges.last().request;
        assert(request.skip(35) =~= request.subrange(35, 35 + left.chunk_bytes()));
        assert(written(exchanges) =~= buffer.subrange(
            job.offset as int,
            left.offset + left.chunk_bytes(),
        ));
    }
}

/// A read stores the PLC's bytes as they come: the buffer is as before but
/// for the bytes from where the read began to where it stands, which are
/// what its answers carried, one after the other.
pub proof fn lemma_received(job: Transfer, buffer: Seq<u8>, exchanges: Seq<Exchange>)
    requires
        job.wf(),
        job.within(buffer.len() as usize),
        buffer.len() <= usize::MAX,
        read_run(job, buffer, exchanges) is Going,
    ensures
        read_run(job, buffer, exchanges)->Going_job.wf(),
        read_run(job, buffer, exchanges)->Going_job.end() == job.end(),
        job.offset <= read_run(job, buffer, exchanges)->Going_job.offset,
        read_run(job, buffer, exchanges)->Going_buffer.len() == buffer.len(),
        received(job, buffer, exchanges).len() == read_run(
            job,
            buffer,
            exchanges,
        )->Going_job.offset - job.offset,
        read_run(job, buffer, exchanges)->Going_buffer == buffer.subrange(0, job.offset as int)
            + received(job, buffer, exchanges) + buffer.subrange(
            read_run(job, buffer, exchanges)->Going_job.offset as int,
            buffer.len() as int,
        ),
    decreases exchanges.len(),
{
    if exchanges.len() == 0 {
        assert(buffer =~= buffer.subrange(0, job.offset as int) + received(job, buffer, exchanges)
            + buffer.subrange(job.offset as int, buffer.len() as int));
    } else {
        let earlier = exchanges.drop_last();
        lemma_received(job, buffer, earlier);
        let left = read_run(job, buffer, earlier)->Going_job;
        let held = read_run(job, buffer, earlier)->Going_buffer;
        left.lemma_sizes();
        let response = exchanges.last().reply->Ok_0;
        let size = left.chunk_bytes();
        let fresh = response.subrange(READ_REPLY_DATA as int, READ_REPLY_DATA + size);
        let now = read_run(job, buffer, exchanges)->Going_buffer;
        let next = read_run(job, buffer, exchanges)->Going_job;
        assert(left.read_step(held, response) is Ok);
        assert(next == left.advanced());
        assert(now == held.subrange(0, left.offset as int) + fresh + held.subrange(
            left.offset + size,
            held.len() as int,
        ));
        assert(received(job, buffer, exchanges) == received(job, buffer, earlier) + fresh);
        assert(now =~= buffer.subrange(0, job.offset as int) + received(job, buffer, exchanges)
            + buffer.subrange(next.offset as int, buffer.len() as int));
    }
}

/// Where a write went through, a read of as many bytes went through, and
/// the PLC answered the read with the bytes that the write had handed it,
/// the read leaves in its buffer what the write took from its own.
pub proof fn lemma_write_then_read(
    write: Transfer,
    data: Seq<u8>,
    sent: Seq<Exchange>,
    read: Transfer,
    before: Seq<u8>,
    asked: Seq<Exchange>,
)
    requires
        write.wf(),
        write.offset == 0,
        write.within(data.len() as usize),
        data.len() <= usize::MAX,
        read.wf(),
        read.offset == 0,
        read.within(before.len() as usize),
        before.len() <= usize::MAX,
        read.end() == write.end(),
        write_run(write, data, sent) matches WriteRun::Going { job } && job.remaining == 0,
        read_run(read, before, asked) matches ReadRun::Going { job, .. } && job.remaining == 0,
        received(read, before, asked) == written(sent),
    ensures
        read_run(read, before, asked)->Going_buffer.subrange(0, read.end()) == data.subrange(
            0,
            write.end(),
        ),
        read_run(read, before, asked)->Going_buffer.skip(read.end()) == before.skip(read.end()),
{
    lemma_written(write, data, sent);
    lemma_received(read, before, asked);
    let wrote = write_run(write, data, sent)->Going_job;
    let got = read_run(read, before, asked)->Going_job;
    wrote.lemma_sizes();
    got.lemma_sizes();
    let after = read_run(read, before, asked)->Going_buffer;
    assert(after.subrange(0, read.end()) =~= data.subrange(0, write.end()));
    assert(after.skip(read.end()) =~= before.skip(read.end()));
}

/// What a plan holds: the elements asked for, the room that the PDU
/// leaves, the place to begin at, and nothing moved yet.
pub proof fn lemma_planned(
    area: Area,
    db_number: i32,
    start: i32,
    amount: i32,
    word_len: i32,
    pdu_length: i32,
    overhead: i32,
    refuse_zero: bool,
    room: usize,
)
    requires
        0 < overhead <= constant::SIZE_HEADER_WRITE,
        Transfer::plan(
            area,
            db_number,
            start,
            amount,
            word_len,
            pdu_length,
            overhead,
            refuse_zero,
            room,
        ) is Ok,
    ensures
        ({
            let job = Transfer::plan(
                area,
                db_number,
                start,
                amount,
                word_len,
                pdu_length,
                overhead,
                refuse_zero,
                room,
            )->Ok_0;
            &&& job.wf()
            &&& job.within(room)
            &&& job.offset == 0
            &&& job.start == start
            &&& job.area == area
            &&& job.db_number == db_number
            &&& job.word_len == telegram_word_len(area_word_len(area, word_len))
            &&& job.remaining == element_count(area_word_len(area, word_len), amount)
            &&& job.max_elements == capacity(pdu_length, overhead, job.word_size as int)
        }),
{
}

/// Address encoding. The first telegram of a read of bytes from byte
/// `start` on names, in the three bytes from 28 on, the low 24 bits of
/// eight times `start`; the first telegram of a read of bits, counters or
/// timers names the low 24 bits of `start` itself.
pub proof fn lemma_read_address_encoding(
    area: Area,
    db_number: i32,
    start: i32,
    amount: i32,
    word_len: i32,
    pdu_length: i32,
    room: usize,
)
    requires
        Transfer::read_plan(area, db_number, start, amount, word_len, pdu_length, room) is Ok,
    ensures
        ({
            let job = Transfer::read_plan(
                area,
                db_number,
                start,
                amount,
                word_len,
                pdu_length,
                room,
            )->Ok_0;
            let address = field::address_value(job.read_request_bytes(), 28);
            if job.word_len == constant::WL_BYTE {
                address == (start * 8) % 0x100_0000
            } else {
                address == start % 0x100_0000
            }
        }),
{
    lemma_planned(
        area,
        db_number,
        start,
        amount,
        word_len,
        pdu_length,
        READ_REPLY_HEADER,
        true,
        room,
    );
    Transfer::read_plan(
        area,
        db_number,
        start,
        amount,
        word_len,
        pdu_length,
        room,
    )->Ok_0.lemma_read_request_fields();
}

/// Chunking. Where a read was planned and went through, the elements that
/// its telegrams name add up to the elements asked for, and no telegram
/// names more than the PDU has room for beside the 18 bytes of an answer's
/// header. Telegrams name their elements in 16 bits, so this holds where
/// the PDU has room for no more than 65535 elements.
pub proof fn lemma_read_chunking(
    area: Area,
    db_number: i32,
    start: i32,
    amount: i32,
    word_len: i32,
    pdu_length: i32,
    before: Seq<u8>,
    exchanges: Seq<Exchange>,
    after: Seq<u8>,
)
    requires
        before.len() <= usize::MAX,
        Transfer::read_plan(
            area,
            db_number,
            start,
            amount,
            word_len,
            pdu_length,
            before.len() as usize,
        ) matches Ok(job) && job.max_elements <= 0xFFFF && read_done(
            job,
            before,
            exchanges,
            None,
            after,
        ),
    ensures
        counts_sum(exchanges) == element_count(area_word_len(area, word_len), amount),
        forall|i: int|
            0 <= i < exchanges.len() ==> 1 <= named_count(#[trigger] exchanges[i].request)
                <= capacity(
                pdu_length,
                READ_REPLY_HEADER,
                constant::word_size(telegram_word_len(area_word_len(area, word_len)) as int),
            ),
{
    lemma_planned(
        area,
        db_number,
        start,
        amount,
        word_len,
        pdu_length,
        READ_REPLY_HEADER,
        true,
        before.len() as usize,
    );
    let job = Transfer::read_plan(
        area,
        db_number,
        start,
        amount,
        word_len,
        pdu_length,
        before.len() as usize,
    )->Ok_0;
    lemma_read_chunks(job, before, exchanges);
}

/// Chunking of a write, as of a read, with the 35 bytes of a write
/// telegram's header in place of the 18.
pub proof fn lemma_write_chunking(
    area: Area,
    db_number: i32,
    start: i32,
    amount: i32,
    word_len: i32,
    pdu_length: i32,
    buffer: Seq<u8>,
    exchanges: Seq<Exchange>,
)
    requires
        buffer.len() <= usize::MAX,
        Transfer::write_plan(
            area,
            db_number,
            start,
            amount,
            word_len,
            pdu_length,
            buffer.len() as usize,
        ) matches Ok(job) && job.max_elements <= 0xFFFF && write_done(
            job,
            buffer,
            exchanges,
            None,
        ),
    ensures
        counts_sum(exchanges) == element_count(area_word_len(area, word_len), amount),
        forall|i: int|
            0 <= i < exchanges.len() ==> 1 <= named_count(#[trigger] exchanges[i].request)
                <= capacity(
                pdu_length,
                constant::SIZE_HEADER_WRITE,
                constant::word_size(telegram_word_len(area_word_len(area, word_len)) as int),
            ),
{
    lemma_planned(
        area,
        db_number,
        start,
        amount,
        word_len,
        pdu_length,
        constant::SIZE_HEADER_WRITE,
        false,
        buffer.len() as usize,
    );
    let job = Transfer::write_plan(
        area,
        db_number,
        start,
        amount,
        word_len,
        pdu_length,
        buffer.len() as usize,
    )->Ok_0;
    lemma_write_chunks(job, buffer, exchanges);
}

/// The first telegram of a read is the telegram of its plan.
pub proof fn lemma_read_begins(job: Transfer, buffer: Seq<u8>, exchanges: Seq<Exchange>)
    requires
        exchanges.len() > 0,
        !(read_run(job, buffer, exchanges) is Off),
    ensures
        exchanges[0].request == job.read_request_bytes(),
        job.remaining > 0,
    decreases exchanges.len(),
{
    let earlier = exchanges.drop_last();
    assert(read_run(job, buffer, earlier) is Going);
    if earlier.len() > 0 {
        lemma_read_begins(job, buffer, earlier);
        assert(exchanges[0] == earlier[0]);
    } else {
        assert(read_run(job, buffer, earlier) == (ReadRun::Going { job, buffer }));
        assert(exchanges[0] == exchanges.last());
    }
}

/// The first telegram of a write is the telegram of its plan.
pub proof fn lemma_write_begins(job: Transfer, buffer: Seq<u8>, exchanges: Seq<Exchange>)
    requires
        exchanges.len() > 0,
        !(write_run(job, buffer, exchanges) is Off),
    ensures
        exchanges[0].request == job.write_request_bytes(buffer),
        job.remaining > 0,
    decreases exchanges.len(),
{
    let earlier = exchanges.drop_last();
    assert(write_run(job, buffer, earlier) is Going);
    if earlier.len() > 0 {
        lemma_write_begins(job, buffer, earlier);
        assert(exchanges[0] == earlier[0]);
    } else {
        assert(write_run(job, buffer, earlier) == (WriteRun::Going { job }));
        assert(exchanges[0] == exchanges.last());
    }
}

/// Writing a buffer and then reading the same region gives the buffer
/// back. Where a write and a read of the same elements were planned and
/// went through, the two began at the same address of the same area, and
/// where the PLC answered the read with the bytes that the write had
/// handed it, the read leaves at the front of its buffer what the write
/// took from the front of its own, and the rest of its buffer as it was.
pub proof fn lemma_write_read_round_trip(
    area: Area,
    db_number: i32,
    start: i32,
    amount: i32,
    word_len: i32,
    write_pdu: i32,
    read_pdu: i32,
    data: Seq<u8>,
    sent: Seq<Exchange>,
    before: Seq<u8>,
    asked: Seq<Exchange>,
    after: Seq<u8>,
)
    requires
        data.len() <= usize::MAX,
        before.len() <= usize::MAX,
        Transfer::write_plan(
            area,
            db_number,
            start,
            amount,
            word_len,
            write_pdu,
            data.len() as usize,
        ) matches Ok(job) && write_done(job, data, sent, None),
        Transfer::read_plan(
            area,
            db_number,
            start,
            amount,
            word_len,
            read_pdu,
            before.len() as usize,
        ) matches Ok(job) && read_done(job, before, asked, None, after) && received(
            job,
            before,
            asked,
        ) == written(sent),
    ensures
        ({
            let size = span(
                element_count(area_word_len(area, word_len), amount),
                constant::word_size(telegram_word_len(area_word_len(area, word_len)) as int),
            );
            &&& size <= data.len()
            &&& size <= before.len()
            &&& after.len() == before.len()
            &&& after.subrange(0, size) == data.subrange(0, size)
            &&& after.skip(size) == before.skip(size)
            &&& sent.len() > 0 <==> size > 0
            &&& asked.len() > 0 <==> size > 0
            &&& size > 0 ==> named_address(sent[0].request) == named_address(asked[0].request)
                && sent[0].request[27] == area.wire() && asked[0].request[27] == area.wire()
        }),
{
    let write = Transfer::write_plan(
        area,
        db_number,
        start,
        amount,
        word_len,
        write_pdu,
        data.len() as usize,
    )->Ok_0;
    let read = Transfer::read_plan(
        area,
        db_number,
        start,
        amount,
        word_len,
        read_pdu,
        before.len() as usize,
    )->Ok_0;
    lemma_planned(
        area,
        db_number,
        start,
        amount,
        word_len,
        write_pdu,
        constant::SIZE_HEADER_WRITE,
        false,
        data.len() as usize,
    );
    lemma_planned(
        area,
        db_number,
        start,
        amount,
        word_len,
        read_pdu,
        READ_REPLY_HEADER,
        true,
        before.len() as usize,
    );
    lemma_write_then_read(write, data, sent, read, before, asked);
    lemma_received(read, before, asked);
    if sent.len() > 0 {
        lemma_write_begins(write, data, sent);
        write.lemma_write_request_fields(data);
    }
    if asked.len() > 0 {
        lemma_read_begins(read, before, asked);
        read.lemma_read_request_fields();
    }
}

} // verus!
