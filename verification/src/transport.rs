//! The channel the client talks through, the fixed request telegrams, and the
//! rules of the handshake that a channel performs when it connects.

use crate::error::{Error, Failure};
use crate::field;
use vstd::prelude::*;
use vstd::slice::slice_to_vec;

verus! {

/// The kind of connection, from the highest priority to the lowest. The PLC
/// closes basic connections first when it runs out of resources.
#[derive(Debug, Copy, Clone, PartialEq, Eq)]
pub enum Connection {
    /// To the programming console.
    PG,
    /// To an operator panel.
    OP,
    /// For generic data transfer.
    Basic,
}

impl Connection {
    /// The number that names the kind in the remote TSAP.
    pub open spec fn wire(self) -> u8 {
        match self {
            Connection::PG => 1,
            Connection::OP => 2,
            Connection::Basic => 3,
        }
    }

    pub fn code(self) -> (c: u8)
        ensures
            c == self.wire(),
    {
        match self {
            Connection::PG => 1,
            Connection::OP => 2,
            Connection::Basic => 3,
        }
    }
}

/// One round trip as contracts speak of it: the request that a client handed
/// to its transport, and what the transport gave back.
pub struct Exchange {
    pub request: Seq<u8>,
    pub reply: Result<Seq<u8>, Failure>,
}

/// What `send` returned, as an [`Exchange`] records it.
pub open spec fn reply_of(reply: Result<Vec<u8>, Error>) -> Result<Seq<u8>, Failure> {
    match reply {
        Ok(bytes) => Ok(bytes@),
        Err(e) => Err(e@),
    }
}

/// A synchronous request and response channel to one PLC. The client is
/// proved for every implementation: nothing is assumed of what one returns.
pub trait Transport {
    /// Sends one request and returns the one frame that answers it.
    fn send(&mut self, request: &[u8]) -> Result<Vec<u8>, Error>;

    /// The negotiated PDU length, set by the implementor while connecting.
    fn pdu_length(&self) -> i32;

    /// Performs the handshake. Called once, when a client is made.
    fn negotiate(&mut self) -> Result<(), Error>;

    fn connection_type(&self) -> Connection;
}

/// A transport with the record of what went through it. The record is kept
/// here and nowhere else: it grows by one exchange with every call of
/// `send`, by that request and that reply, and whoever holds a channel can
/// reach the transport through these methods alone.
pub struct Channel<T: Transport> {
    transport: T,
    /// Every call of `send`, oldest first.
    log: Ghost<Seq<Exchange>>,
    /// What `pdu_length` returned when it was last called.
    reported: Ghost<i32>,
}

impl<T: Transport> Channel<T> {
    /// Every request that was sent through the channel, with what came
    /// back, oldest first.
    pub closed spec fn exchanges(&self) -> Seq<Exchange> {
        self.log@
    }

    /// The PDU length that the transport reported when it was last asked;
    /// 0 before that.
    pub closed spec fn pdu(&self) -> i32 {
        self.reported@
    }

    /// The transport as it stands.
    pub closed spec fn transport(&self) -> T {
        self.transport
    }

    /// A channel through which nothing was sent yet.
    pub fn new(transport: T) -> (channel: Channel<T>)
        ensures
            channel.exchanges() == Seq::<Exchange>::empty(),
            channel.pdu() == 0,
            channel.transport() == transport,
    {
        Channel { transport, log: Ghost(Seq::empty()), reported: Ghost(0) }
    }

    /// Sends one request and returns what came back.
    pub fn send(&mut self, request: &[u8]) -> (reply: Result<Vec<u8>, Error>)
        ensures
            final(self).exchanges() == old(self).exchanges().push(
                (Exchange { request: request@, reply: reply_of(reply) }),
            ),
            final(self).pdu() == old(self).pdu(),
    {
        let reply = self.transport.send(request);
        self.log = Ghost(self.log@.push((Exchange { request: request@, reply: reply_of(reply) })));
        reply
    }

    /// Asks the transport for the negotiated PDU length. The transport
    /// stays as it is.
    pub fn pdu_length(&mut self) -> (length: i32)
        ensures
            final(self).pdu() == length,
            final(self).exchanges() == old(self).exchanges(),
            final(self).transport() == old(self).transport(),
    {
        let length: i32 = self.transport.pdu_length();
        self.reported = Ghost(length);
        length
    }
}

/// The PDU type byte by which the PLC confirms a connection.
pub const CONFIRM_CONNECTION: u8 = 0xD0;

/// ISO connection request, with the TPKT and COTP headers.
pub const ISO_CONNECTION_REQUEST_TELEGRAM: [u8; 22] = [
    3,  // RFC 1006 ID
    0,  // reserved
    0,  // packet length, high
    22, // packet length, low
    17,  // length of what follows
    224, // connection request
    0,   // destination reference
    0,
    0,   // source reference
    1,
    0,   // class and options
    192, // PDU max length ID
    1,
    10,
    193, // source TSAP ID
    2,   // source TSAP length
    1,   // source TSAP, high
    0,   // source TSAP, low
    194, // destination TSAP ID
    2,   // destination TSAP length
    1,   // destination TSAP, high
    2,   // destination TSAP, low
];

/// Header of a read or write request: the first 31 bytes for a read, all 35
/// for a write.
pub const READ_WRITE_TELEGRAM: [u8; 35] = [
    3,
    0,
    0,
    31,  // telegram length
    2,
    240,
    128, // COTP
    50,  // S7 protocol ID
    1,   // job
    0,
    0,   // redundancy identification
    5,
    0,   // PDU reference
    0,
    14,  // parameters length
    0,
    0,   // data length
    4,   // function: 4 read, 5 write
    1,   // items count
    18,  // var spec.
    10,  // length of remaining bytes
    16,  // syntax ID
    2,   // word length
    0,
    0,   // number of elements
    0,
    0,   // DB number
    132, // area
    0,
    0,
    0,   // address
    0,   // reserved
    4,   // transport size
    0,
    0,   // data length in bits or bytes
];

/// PDU negotiation request; the length asked for lies in the last two bytes.
pub const PDU_NEGOTIATION_TELEGRAM: [u8; 25] = [
    3, 0, 0, 25, 2, 240, 128, 50, 1, 0, 0, 4, 0, 0, 8, 0, 0, 240, 0, 0, 1, 0, 1, 0, 30,
];

/// Warm start request
pub const WARM_START_TELEGRAM: [u8; 37] = [
    3, 0, 0, 37, 2, 240, 128, 50, 1, 0, 0, 12, 0, 0, 20, 0, 0, 40, 0, 0, 0, 0, 0, 0, 253, 0, 0, 9,
    80, 95, 80, 82, 79, 71, 82, 65, 77,
];

/// Cold start request
pub const COLD_START_TELEGRAM: [u8; 39] = [
    3, 0, 0, 39, 2, 240, 128, 50, 1, 0, 0, 15, 0, 0, 22, 0, 0, 40, 0, 0, 0, 0, 0, 0, 253, 0, 2, 67,
    32, 9, 80, 95, 80, 82, 79, 71, 82, 65, 77,
];

/// Stop request
pub const STOP_TELEGRAM: [u8; 33] = [
    3, 0, 0, 33, 2, 240, 128, 50, 1, 0, 0, 14, 0, 0, 16, 0, 0, 41, 0, 0, 0, 0, 0, 9, 80, 95, 80,
    82, 79, 71, 82, 65, 77,
];

/// Status request
pub const PLC_STATUS_TELEGRAM: [u8; 33] = [
    3, 0, 0, 33, 2, 240, 128, 50, 7, 0, 0, 44, 0, 0, 8, 0, 8, 0, 1, 18, 4, 17, 68, 1, 0, 255, 9, 0,
    4, 4, 36, 0, 0,
];

/// First request for a system status list; the list ID lies at 29, the
/// index at 31, the sequence number at 11.
pub const SZL_FIRST_TELEGRAM: [u8; 33] = [
    3, 0, 0, 33, 2, 240, 128, 50, 7, 0, 0, 5, 0, 0, 8, 0, 8, 0, 1, 18, 4, 17, 68, 1, 0, 255, 9, 0,
    4, 0, 0, 0, 0,
];

/// The shortest answer to a system status list request that can be read.
pub const MIN_SZL_FIRST_TELEGRAM: usize = 42;

/// Request for the next part of a system status list; the sequence number
/// of the part before lies at 24.
pub const SZL_NEXT_TELEGRAM: [u8; 33] = [
    3, 0, 0, 33, 2, 240, 128, 50, 7, 0, 0, 6, 0, 0, 12, 0, 4, 0, 1, 18, 8, 18, 68, 1, 1, 0, 0, 0,
    0, 10, 0, 0, 0,
];

/// Block information request; the block type lies at 30, the block number
/// in ASCII digits at 31 to 35.
pub const BLOCK_INFO_TELEGRAM: [u8; 37] = [
    0x03, 0x00, 0x00, 0x25, 0x02, 0xf0, 0x80, 0x32, 0x07, 0x00, 0x00, 0x05, 0x00, 0x00, 0x08, 0x00,
    0x0c, 0x00, 0x01, 0x12, 0x04, 0x11, 0x43, 0x03, 0x00, 0xff, 0x09, 0x00, 0x08, 0x30, 0x41, 0x30,
    0x30, 0x30, 0x30, 0x30, 0x41,
];

/// Block list request
pub const BLOCK_LIST_TELEGRAM: [u8; 29] = [
    0x03, 0x00, 0x00, 0x1d, 0x02, 0xf0, 0x80, 0x32, 0x07, 0x00, 0x00, 0x18, 0x00, 0x00, 0x08, 0x00,
    0x04, 0x00, 0x01, 0x12, 0x04, 0x11, 0x43, 0x01, 0x00, 0x0a, 0x00, 0x00, 0x00,
];

/// Header of a request that reads several variables
pub const MRD_HEADER: [u8; 19] = [
    0x03, 0x00, 0x00, 0x1f, // telegram length
    0x02, 0xf0, 0x80, // COTP
    0x32, // S7 protocol ID
    0x01, // job
    0x00, 0x00, // redundancy identification
    0x00, 0x01, // PDU reference
    0x00, 0x0e, // parameters length
    0x00, 0x00, // data length
    0x04, // function: read
    0x01, // items count
];

/// One variable of a request that reads several
pub const MRD_ITEM: [u8; 12] = [
    0x12, // var spec.
    0x0a, // length of remaining bytes
    0x10, // syntax ID
    0x02, // word length
    0x00, 0x00, // number of elements
    0x00, 0x00, // DB number
    0x84, // area
    0x00, 0x00, 0x00, // address
];

/// Header of a request that writes several variables
pub const MWR_HEADER: [u8; 19] = [
    0x03, 0x00, 0x00, 0x1f, // telegram length
    0x02, 0xf0, 0x80, // COTP
    0x32, // S7 protocol ID
    0x01, // job
    0x00, 0x00, // redundancy identification
    0x05, 0x00, // PDU reference
    0x00, 0x0e, // parameters length
    0x00, 0x00, // data length
    0x05, // function: write
    0x01, // items count
];

/// One variable of a request that writes several
pub const MWR_PARAM: [u8; 12] = [
    0x12, // var spec.
    0x0a, // length of remaining bytes
    0x10, // syntax ID
    0x02, // word length
    0x00, 0x00, // number of elements
    0x00, 0x00, // DB number
    0x84, // area
    0x00, 0x00, 0x00, // address
];

pub const PLC_STATUS_MIN_RESPONSE: usize = 45;

pub const TELEGRAM_MIN_RESPONSE: usize = 19;

pub const BLOCK_INFO_TELEGRAM_MIN_RESPONSE: usize = 33;

pub const BLOCK_LIST_TELEGRAM_MIN_RESPONSE: usize = 61;

pub const SZL_MIN_RESPONSE: usize = 205;

/// Function code in the answer to a start request
pub const PDU_START: u8 = 0x28;

/// Function code in the answer to a stop request
pub const PDU_STOP: u8 = 0x29;

/// The CPU was already running
pub const PDU_ALREADY_STARTED: u8 = 0x02;

/// The CPU was already stopped
pub const PDU_ALREADY_STOPPED: u8 = 0x07;

/// The most variables that one request may read or write
pub const MAX_VARS_MULTI_READ_WRITE: usize = 20;

/// The PDU length that a transport asks for
pub const PDU_SIZE_REQUESTED: u16 = 480;

/// The length of a negotiation answer
pub const PDU_NEGOTIATION_RESPONSE: usize = 27;

/// Header of a system status list
#[derive(Debug, Clone, Copy, PartialEq, Eq)]
pub struct SZLHeader {
    pub length_header: u16,
    pub number_of_data_record: u16,
}

/// A system status list, put together from one or more answers
#[derive(Debug, Clone)]
pub struct S7SZL {
    pub header: SZLHeader,
    pub data: Vec<u8>,
}

/// The connection request for the given TSAPs.
pub open spec fn connection_request_bytes(local_tsap: u16, remote_tsap: u16) -> Seq<u8> {
    field::with_word(
        field::with_word(ISO_CONNECTION_REQUEST_TELEGRAM@, 16, local_tsap as int),
        20,
        remote_tsap as int,
    )
}

/// Builds the ISO connection request: the template with the local TSAP at
/// bytes 16 and 17 and the remote TSAP at bytes 20 and 21.
pub fn connection_request(local_tsap: u16, remote_tsap: u16) -> (request: Vec<u8>)
    ensures
        request@ == connection_request_bytes(local_tsap, remote_tsap),
        request@.len() == 22,
{
    let mut request = slice_to_vec(ISO_CONNECTION_REQUEST_TELEGRAM.as_slice());
    field::put_word(&mut request, 16, local_tsap);
    field::put_word(&mut request, 20, remote_tsap);
    request
}

/// Whether an answer confirms the connection request: it is as long as the
/// request and its PDU type is the confirmation.
pub open spec fn confirms_connection(response: Seq<u8>) -> bool {
    response.len() == 22 && response[5] == CONFIRM_CONNECTION
}

/// Judges the answer to the connection request.
pub fn connection_confirmed(response: &[u8]) -> (r: Result<(), Error>)
    ensures
        r is Ok <==> confirms_connection(response@),
        r matches Err(e) ==> e@ == Failure::Iso,
{
    if response.len() == 22 && response[5] == CONFIRM_CONNECTION {
        Ok(())
    } else {
        Err(Error::Iso)
    }
}

/// The negotiation request for the given PDU length.
pub open spec fn negotiation_request_bytes(requested: u16) -> Seq<u8> {
    field::with_word(PDU_NEGOTIATION_TELEGRAM@, 23, requested as int)
}

/// Builds the PDU negotiation request: the template with the length asked
/// for at bytes 23 and 24.
pub fn negotiation_request(requested: u16) -> (request: Vec<u8>)
    ensures
        request@ == negotiation_request_bytes(requested),
        request@.len() == 25,
{
    let mut request = slice_to_vec(PDU_NEGOTIATION_TELEGRAM.as_slice());
    field::put_word(&mut request, 23, requested);
    request
}

/// What a negotiation answer settles: the length at bytes 25 and 26 where
/// the answer has 27 bytes, no error at bytes 17 and 18, and the length is
/// not zero.
pub open spec fn negotiated(response: Seq<u8>) -> Result<i32, Failure> {
    if response.len() != 27 || response[17] != 0 || response[18] != 0 {
        Err(Failure::InvalidPdu)
    } else if field::word_value(response, 25) == 0 {
        Err(Failure::PduLength(0))
    } else {
        Ok(field::word_value(response, 25) as i32)
    }
}

/// Reads the PDU length out of the answer to the negotiation request.
pub fn negotiated_pdu_length(response: &[u8]) -> (r: Result<i32, Error>)
    ensures
        crate::error::outcome(r) == negotiated(response@),
{
    if response.len() != PDU_NEGOTIATION_RESPONSE || response[17] != 0 || response[18] != 0 {
        return Err(Error::InvalidPdu);
    }
    let length: u16 = field::word_at(response, 25);
    if length == 0 {
        Err(Error::PduLength(0))
    } else {
        Ok(length as i32)
    }
}

/// The length of a whole frame, as the four bytes of its TPKT header give
/// it: the word at 2.
pub fn frame_length(header: &[u8; 4]) -> (length: usize)
    ensures
        length == field::word_value(header@, 2),
{
    field::word_at(header.as_slice(), 2) as usize
}

/// Whether a telegram is framed as every request to the PLC is: the version
/// 3 and a reserved 0, its own length in 16 bits, the three bytes of the
/// COTP data header, and the ID of the protocol.
pub open spec fn framed(telegram: Seq<u8>) -> bool {
    &&& telegram.len() >= 8
    &&& telegram[0] == 3
    &&& telegram[1] == 0
    &&& field::word_value(telegram, 2) == telegram.len() % 0x1_0000
    &&& telegram[4] == 0x02
    &&& telegram[5] == 0xF0
    &&& telegram[6] == 0x80
    &&& telegram[7] == 0x32
}

/// The requests that are sent as they stand are framed, and so is the
/// negotiation request for every length.
pub proof fn lemma_fixed_telegrams_framed(requested: u16)
    ensures
        framed(negotiation_request_bytes(requested)),
        framed(WARM_START_TELEGRAM@),
        framed(COLD_START_TELEGRAM@),
        framed(STOP_TELEGRAM@),
        framed(PLC_STATUS_TELEGRAM@),
        framed(BLOCK_LIST_TELEGRAM@),
{
}

} // verus!
