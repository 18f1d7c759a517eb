//! The client: every operation on a PLC, over any transport.

use crate::constant;
use crate::constant::{Area, BlockLang, CpuStatus, SubBlockType};
use crate::control;
use crate::error;
use crate::error::{Error, Failure};
use crate::transfer;
use crate::transfer::Transfer;
use crate::block;
use crate::multi;
use crate::szl;
use crate::transport::S7SZL;
use crate::transport;
use crate::transport::{Channel, Exchange, Transport};
use chrono::NaiveDateTime;
use vstd::prelude::*;
use vstd::slice::slice_to_vec;

verus! {

/// One variable of a request that reads or writes several: where it lies,
/// how many elements it has, the bytes read or to write, and what the PLC
/// said of it where that was a failure.
#[derive(Debug, Clone)]
pub struct S7DataItem {
    pub area: u8,
    pub word_len: u8,
    pub db_num: u16,
    pub start: u16,
    pub size: u16,
    pub buffer: Vec<u8>,
    pub err: Option<Error>,
}

/// An [`S7DataItem`] as contracts speak of it.
pub struct S7DataItemView {
    pub area: u8,
    pub word_len: u8,
    pub db_num: u16,
    pub start: u16,
    pub size: u16,
    pub buffer: Seq<u8>,
    pub err: Option<Failure>,
}

impl View for S7DataItem {
    type V = S7DataItemView;

    open spec fn view(&self) -> S7DataItemView {
        S7DataItemView {
            area: self.area,
            word_len: self.word_len,
            db_num: self.db_num,
            start: self.start,
            size: self.size,
            buffer: self.buffer@,
            err: match self.err {
                Some(e) => Some(e@),
                None => None,
            },
        }
    }
}

/// The texts by which a CPU names itself
#[derive(Debug, Clone)]
pub struct CpuInfo {
    pub module_type_name: String,
    pub serial_number: String,
    pub as_name: String,
    pub copyright: String,
    pub module_name: String,
}

/// A [`CpuInfo`] as contracts speak of it.
pub struct CpuInfoView {
    pub module_type_name: Seq<char>,
    pub serial_number: Seq<char>,
    pub as_name: Seq<char>,
    pub copyright: Seq<char>,
    pub module_name: Seq<char>,
}

impl View for CpuInfo {
    type V = CpuInfoView;

    open spec fn view(&self) -> CpuInfoView {
        CpuInfoView {
            module_type_name: self.module_type_name@,
            serial_number: self.serial_number@,
            as_name: self.as_name@,
            copyright: self.copyright@,
            module_name: self.module_name@,
        }
    }
}

/// How many blocks of each kind the PLC holds
#[derive(Debug, Clone, Copy, PartialEq, Eq)]
pub struct BlockList {
    pub ob_block_count: u16,
    pub fb_block_count: u16,
    pub fc_block_count: u16,
    pub db_block_count: u16,
    pub sdb_block_count: u16,
    pub sfc_block_count: u16,
    pub sfb_block_count: u16,
}

/// The kind of a block, as a request names it.
#[derive(Debug, Clone, Copy, PartialEq, Eq)]
pub enum BlockType {
    OB,
    DB,
    SDB,
    FC,
    SFC,
    FB,
    SFB,
}

impl BlockType {
    /// The byte that names the kind in a request.
    pub open spec fn wire(self) -> u8 {
        match self {
            BlockType::OB => 0x38,
            BlockType::DB => 0x41,
            BlockType::SDB => 0x42,
            BlockType::FC => 0x43,
            BlockType::SFC => 0x44,
            BlockType::FB => 0x45,
            BlockType::SFB => 0x46,
        }
    }

    pub fn code(self) -> (c: u8)
        ensures
            c == self.wire(),
    {
        match self {
            BlockType::OB => 0x38,
            BlockType::DB => 0x41,
            BlockType::SDB => 0x42,
            BlockType::FC => 0x43,
            BlockType::SFC => 0x44,
            BlockType::FB => 0x45,
            BlockType::SFB => 0x46,
        }
    }
}

/// What the PLC tells of one block
#[derive(Debug)]
pub struct S7BlockInfo {
    pub block_type: SubBlockType,
    pub block_number: u16,
    pub block_lang: BlockLang,
    /// Flags, one per bit
    pub block_flags: u8,
    /// The size of the block in bytes
    pub mc7_size: u16,
    /// The size of the block in load memory
    pub load_size: i32,
    pub local_data: u16,
    pub sbb_length: u16,
    /// Two BCD digits
    pub version: u8,
    pub code_date: NaiveDateTime,
    pub interface_date: NaiveDateTime,
    pub author: String,
    pub family: String,
    pub header: String,
}

/// An [`S7BlockInfo`] as contracts speak of it.
pub struct S7BlockInfoView {
    pub block_type: SubBlockType,
    pub block_number: u16,
    pub block_lang: BlockLang,
    pub block_flags: u8,
    pub mc7_size: u16,
    pub load_size: i32,
    pub local_data: u16,
    pub sbb_length: u16,
    pub version: u8,
    pub code_date: NaiveDateTime,
    pub interface_date: NaiveDateTime,
    pub author: Seq<char>,
    pub family: Seq<char>,
    pub header: Seq<char>,
}

impl View for S7BlockInfo {
    type V = S7BlockInfoView;

    open spec fn view(&self) -> S7BlockInfoView {
        S7BlockInfoView {
            block_type: self.block_type,
            block_number: self.block_number,
            block_lang: self.block_lang,
            block_flags: self.block_flags,
            mc7_size: self.mc7_size,
            load_size: self.load_size,
            local_data: self.local_data,
            sbb_length: self.sbb_length,
            version: self.version,
            code_date: self.code_date,
            interface_date: self.interface_date,
            author: self.author@,
            family: self.family@,
            header: self.header@,
        }
    }
}

/// What a communication processor can do
#[derive(Debug, Clone, Copy, PartialEq, Eq)]
pub struct CPInfo {
    pub max_pdu_length: u16,
    pub max_connections: u16,
    pub max_mpi_rate: u16,
    pub max_bus_rate: u16,
}

/// A client of one PLC. It owns its transport and talks through it alone,
/// one request at a time.
pub struct Client<T: Transport> {
    channel: Channel<T>,
}

impl<T: Transport> Client<T> {
    /// Every request that the client has handed to its transport so far,
    /// with what came back, oldest first.
    pub closed spec fn exchanges(&self) -> Seq<Exchange> {
        self.channel.exchanges()
    }

    /// The PDU length that the transport reported when the client last
    /// asked for it; 0 before that.
    pub closed spec fn pdu(&self) -> i32 {
        self.channel.pdu()
    }

    /// The transport as it stands.
    pub closed spec fn transport(&self) -> T {
        self.channel.transport()
    }

    /// The exchanges that were made since the client was as `old`.
    pub open spec fn since(&self, old: &Self) -> Seq<Exchange> {
        self.exchanges().skip(old.exchanges().len() as int)
    }

    /// Whether the client came from `old` by exchanges alone.
    pub open spec fn follows(&self, old: &Self) -> bool {
        old.exchanges().is_prefix_of(self.exchanges())
    }

    /// Whether the client has sent nothing since it was as `old`: no
    /// exchange was made, and the transport is as it was.
    pub open spec fn same(&self, old: &Self) -> bool {
        &&& self.exchanges() == old.exchanges()
        &&& self.transport() == old.transport()
    }

    /// Whether the client came from `old` by one exchange, in which it sent
    /// `request`.
    pub open spec fn asked(&self, old: &Self, request: Seq<u8>) -> bool {
        &&& self.follows(old)
        &&& self.since(old).len() == 1
        &&& self.since(old)[0].request == request
    }

    /// What the last exchange gave back.
    pub open spec fn answer(&self) -> Result<Seq<u8>, Failure> {
        self.exchanges().last().reply
    }

    /// Whether the client came from `old` by reading `amount` elements of
    /// `word_len` into a buffer that held `before`, with the given outcome:
    /// nothing was sent where the read cannot be planned, else the exchanges
    /// are those of the plan.
    pub open spec fn read_as(
        &self,
        old: &Self,
        area: Area,
        db_number: i32,
        start: i32,
        amount: i32,
        word_len: i32,
        before: Seq<u8>,
        failure: Option<Failure>,
        after: Seq<u8>,
    ) -> bool {
        &&& self.follows(old)
        &&& after.len() == before.len()
        &&& match Transfer::read_plan(
            area,
            db_number,
            start,
            amount,
            word_len,
            self.pdu(),
            before.len() as usize,
        ) {
            Err(reason) => failure == Some(reason) && self.same(old) && after == before,
            Ok(job) => transfer::read_done(job, before, self.since(old), failure, after),
        }
    }

    /// Whether the client came from `old` by writing `amount` elements of
    /// `word_len` out of a buffer that holds `buffer`, with the given
    /// outcome.
    pub open spec fn written_as(
        &self,
        old: &Self,
        area: Area,
        db_number: i32,
        start: i32,
        amount: i32,
        word_len: i32,
        buffer: Seq<u8>,
        failure: Option<Failure>,
    ) -> bool {
        &&& self.follows(old)
        &&& match Transfer::write_plan(
            area,
            db_number,
            start,
            amount,
            word_len,
            self.pdu(),
            buffer.len() as usize,
        ) {
            Err(reason) => failure == Some(reason) && self.same(old),
            Ok(job) => transfer::write_done(job, buffer, self.since(old), failure),
        }
    }

    /// Lets the transport negotiate, and returns the client around it, or
    /// the error that the negotiation gave. A new client has sent nothing.
    pub fn new(mut transport: T) -> (r: Result<Client<T>, Error>)
        ensures
            r matches Ok(client) ==> client.exchanges() == Seq::<Exchange>::empty()
                && client.pdu() == 0,
    {
        let negotiated = transport.negotiate();
        Client::after_negotiation(transport, negotiated)
    }

    /// The client around a transport whose negotiation gave `negotiated`:
    /// a client that has sent nothing where the negotiation went well, else
    /// the error of the negotiation.
    pub fn after_negotiation(transport: T, negotiated: Result<(), Error>) -> (r: Result<
        Client<T>,
        Error,
    >)
        ensures
            match negotiated {
                Ok(()) => r matches Ok(client) && client.exchanges() == Seq::<Exchange>::empty()
                    && client.pdu() == 0 && client.transport() == transport,
                Err(e) => r matches Err(given) && given == e,
            },
    {
        match negotiated {
            Ok(()) => Ok(Client { channel: Channel::new(transport) }),
            Err(e) => Err(e),
        }
    }

    /// Sends one request and returns what came back.
    fn exchange(&mut self, request: &Vec<u8>) -> (reply: Result<Vec<u8>, Error>)
        ensures
            final(self).exchanges() == old(self).exchanges().push(
                (Exchange { request: request@, reply: transport::reply_of(reply) }),
            ),
            final(self).pdu() == old(self).pdu(),
            final(self).asked(old(self), request@),
            final(self).answer() == transport::reply_of(reply),
    {
        let reply = self.channel.send(request.as_slice());
        proof {
            assert(self.exchanges().skip(old(self).exchanges().len() as int) =~= seq![
                self.exchanges().last(),
            ]);
        }
        reply
    }

    /// Asks the transport for the negotiated PDU length.
    fn negotiated(&mut self) -> (length: i32)
        ensures
            final(self).pdu() == length,
            final(self).same(old(self)),
    {
        self.channel.pdu_length()
    }

    /// Reads `amount` elements of `word_len`, from `start` on, into the front
    /// of `buffer`, in as many telegrams as the PDU length asks for. Stops at
    /// the first failure; what earlier answers put into `buffer` stays.
    pub fn read(
        &mut self,
        area: Area,
        db_number: i32,
        start: i32,
        amount: i32,
        word_len: i32,
        buffer: &mut Vec<u8>,
    ) -> (r: Result<(), Error>)
        ensures
            final(self).read_as(
                old(self),
                area,
                db_number,
                start,
                amount,
                word_len,
                old(buffer)@,
                error::failure_of(r),
                final(buffer)@,
            ),
    {
        let pdu_length: i32 = self.negotiated();
        let mut job = match Transfer::for_read(
            area,
            db_number,
            start,
            amount,
            word_len,
            pdu_length,
            buffer.len(),
        ) {
            Ok(job) => job,
            Err(e) => {
                return Err(e);
            },
        };
        let ghost first = job;
        let ghost before = self.exchanges();
        assert(self.exchanges().skip(before.len() as int) =~= Seq::empty());
        while job.remaining > 0
            invariant
                job.wf(),
                job.within(buffer.len()),
                buffer.len() == old(buffer).len(),
                before == old(self).exchanges(),
                self.pdu() == pdu_length,
                Transfer::read_plan(
                    area,
                    db_number,
                    start,
                    amount,
                    word_len,
                    pdu_length,
                    old(buffer).len(),
                ) == Ok::<Transfer, Failure>(first),
                before.is_prefix_of(self.exchanges()),
                transfer::read_run(
                    first,
                    old(buffer)@,
                    self.exchanges().skip(before.len() as int),
                ) == (transfer::ReadRun::Going { job, buffer: buffer@ }),
            decreases job.remaining,
        {
            let ghost done = self.exchanges().skip(before.len() as int);
            let request = job.read_request();
            let reply = self.exchange(&request);
            proof {
                let now = self.exchanges().skip(before.len() as int);
                assert(now.drop_last() =~= done);
            }
            let response = match reply {
                Ok(response) => response,
                Err(e) => {
                    return Err(e);
                },
            };
            match job.accept_read(response.as_slice(), buffer) {
                Ok(()) => {},
                Err(e) => {
                    return Err(e);
                },
            }
        }
        Ok(())
    }

    /// Writes `amount` elements of `word_len`, from the front of `buffer`, to
    /// `start` on, in as many telegrams as the PDU length asks for. Stops at
    /// the first failure; what earlier telegrams wrote stays written.
    pub fn write(
        &mut self,
        area: Area,
        db_number: i32,
        start: i32,
        amount: i32,
        word_len: i32,
        buffer: &mut Vec<u8>,
    ) -> (r: Result<(), Error>)
        ensures
            final(self).written_as(
                old(self),
                area,
                db_number,
                start,
                amount,
                word_len,
                old(buffer)@,
                error::failure_of(r),
            ),
            final(buffer)@ == old(buffer)@,
    {
        let pdu_length: i32 = self.negotiated();
        let mut job = match Transfer::for_write(
            area,
            db_number,
            start,
            amount,
            word_len,
            pdu_length,
            buffer.len(),
        ) {
            Ok(job) => job,
            Err(e) => {
                return Err(e);
            },
        };
        let ghost first = job;
        let ghost before = self.exchanges();
        assert(self.exchanges().skip(before.len() as int) =~= Seq::empty());
        while job.remaining > 0
            invariant
                job.wf(),
                job.within(buffer.len()),
                buffer@ == old(buffer)@,
                before == old(self).exchanges(),
                self.pdu() == pdu_length,
                Transfer::write_plan(
                    area,
                    db_number,
                    start,
                    amount,
                    word_len,
                    pdu_length,
                    old(buffer).len(),
                ) == Ok::<Transfer, Failure>(first),
                before.is_prefix_of(self.exchanges()),
                transfer::write_run(
                    first,
                    old(buffer)@,
                    self.exchanges().skip(before.len() as int),
                ) == (transfer::WriteRun::Going { job }),
            decreases job.remaining,
        {
            let ghost done = self.exchanges().skip(before.len() as int);
            let request = job.write_request(buffer.as_slice());
            let reply = self.exchange(&request);
            proof {
                let now = self.exchanges().skip(before.len() as int);
                assert(now.drop_last() =~= done);
            }
            let response = match reply {
                Ok(response) => response,
                Err(e) => {
                    return Err(e);
                },
            };
            match job.accept_write(response.as_slice()) {
                Ok(()) => {},
                Err(e) => {
                    return Err(e);
                },
            }
        }
        Ok(())
    }

    /// Reads `size` bytes of data block `db_number`, from byte `start` on.
    pub fn ag_read(&mut self, db_number: i32, start: i32, size: i32, buffer: &mut Vec<u8>) -> (r:
        Result<(), Error>)
        ensures
            final(self).read_as(
                old(self),
                Area::DataBausteine,
                db_number,
                start,
                size,
                constant::WL_BYTE,
                old(buffer)@,
                error::failure_of(r),
                final(buffer)@,
            ),
    {
        self.read(Area::DataBausteine, db_number, start, size, constant::WL_BYTE, buffer)
    }

    /// Writes `size` bytes to data block `db_number`, from byte `start` on.
    pub fn ag_write(&mut self, db_number: i32, start: i32, size: i32, buffer: &mut Vec<u8>) -> (r:
        Result<(), Error>)
        ensures
            final(self).written_as(
                old(self),
                Area::DataBausteine,
                db_number,
                start,
                size,
                constant::WL_BYTE,
                old(buffer)@,
                error::failure_of(r),
            ),
            final(buffer)@ == old(buffer)@,
    {
        self.write(Area::DataBausteine, db_number, start, size, constant::WL_BYTE, buffer)
    }

    /// Reads `size` bytes of flag memory, from byte `start` on.
    pub fn mb_read(&mut self, start: i32, size: i32, buffer: &mut Vec<u8>) -> (r: Result<(), Error>)
        ensures
            final(self).read_as(
                old(self),
                Area::Merker,
                0,
                start,
                size,
                constant::WL_BYTE,
                old(buffer)@,
                error::failure_of(r),
                final(buffer)@,
            ),
    {
        self.read(Area::Merker, 0, start, size, constant::WL_BYTE, buffer)
    }

    /// Writes `size` bytes to flag memory, from byte `start` on.
    pub fn mb_write(&mut self, start: i32, size: i32, buffer: &mut Vec<u8>) -> (r: Result<
        (),
        Error,
    >)
        ensures
            final(self).written_as(
                old(self),
                Area::Merker,
                0,
                start,
                size,
                constant::WL_BYTE,
                old(buffer)@,
                error::failure_of(r),
            ),
            final(buffer)@ == old(buffer)@,
    {
        self.write(Area::Merker, 0, start, size, constant::WL_BYTE, buffer)
    }

    /// Reads `size` bytes of the process inputs, from byte `start` on.
    pub fn eb_read(&mut self, start: i32, size: i32, buffer: &mut Vec<u8>) -> (r: Result<(), Error>)
        ensures
            final(self).read_as(
                old(self),
                Area::ProcessInput,
                0,
                start,
                size,
                constant::WL_BYTE,
                old(buffer)@,
                error::failure_of(r),
                final(buffer)@,
            ),
    {
        self.read(Area::ProcessInput, 0, start, size, constant::WL_BYTE, buffer)
    }

    /// Writes `size` bytes to the process inputs, from byte `start` on.
    pub fn eb_write(&mut self, start: i32, size: i32, buffer: &mut Vec<u8>) -> (r: Result<
        (),
        Error,
    >)
        ensures
            final(self).written_as(
                old(self),
                Area::ProcessInput,
                0,
                start,
                size,
                constant::WL_BYTE,
                old(buffer)@,
                error::failure_of(r),
            ),
            final(buffer)@ == old(buffer)@,
    {
        self.write(Area::ProcessInput, 0, start, size, constant::WL_BYTE, buffer)
    }

    /// Reads `size` bytes of the process outputs, from byte `start` on.
    pub fn ab_read(&mut self, start: i32, size: i32, buffer: &mut Vec<u8>) -> (r: Result<(), Error>)
        ensures
            final(self).read_as(
                old(self),
                Area::ProcessOutput,
                0,
                start,
                size,
                constant::WL_BYTE,
                old(buffer)@,
                error::failure_of(r),
                final(buffer)@,
            ),
    {
        self.read(Area::ProcessOutput, 0, start, size, constant::WL_BYTE, buffer)
    }

    /// Writes `size` bytes to the process outputs, from byte `start` on.
    pub fn ab_write(&mut self, start: i32, size: i32, buffer: &mut Vec<u8>) -> (r: Result<
        (),
        Error,
    >)
        ensures
            final(self).written_as(
                old(self),
                Area::ProcessOutput,
                0,
                start,
                size,
                constant::WL_BYTE,
                old(buffer)@,
                error::failure_of(r),
            ),
            final(buffer)@ == old(buffer)@,
    {
        self.write(Area::ProcessOutput, 0, start, size, constant::WL_BYTE, buffer)
    }

    /// Reads up to 20 variables with one telegram. Each variable that the
    /// PLC could read gets its data as its buffer; each that it could not
    /// gets the PLC's code as its error, and the call still succeeds. With
    /// more than 20 variables nothing is sent.
    pub fn read_multi_vars(&mut self, items: &mut Vec<S7DataItem>) -> (r: Result<(), Error>)
        ensures
            final(items).len() == old(items).len(),
            match multi::read_plan(multi::views(old(items)@)) {
                Err(failure) => {
                    &&& error::failure_of(r) == Some(failure)
                    &&& final(self).same(old(self))
                    &&& *final(items) == *old(items)
                },
                Ok(request) => {
                    &&& final(self).asked(old(self), request)
                    &&& (multi::views(final(items)@), error::failure_of(r)) == multi::read_outcome(
                        multi::views(old(items)@),
                        final(self).answer(),
                    )
                },
            },
            old(items).len() > transport::MAX_VARS_MULTI_READ_WRITE ==> error::failure_of(r)
                == Some(multi::too_many()) && final(self).same(old(self)),
    {
        let request = match multi::read_request(items) {
            Ok(request) => request,
            Err(e) => {
                return Err(e);
            },
        };
        let response = match self.exchange(&request) {
            Ok(response) => response,
            Err(e) => {
                return Err(e);
            },
        };
        multi::accept_read(items, response.as_slice())
    }

    /// Writes up to 20 variables with one telegram. Nothing is sent where
    /// there are more, where a buffer is shorter than the bytes to write,
    /// or where the telegram would be longer than the PDU.
    pub fn write_multi_vars(&mut self, items: &mut Vec<S7DataItem>) -> (r: Result<(), Error>)
        ensures
            *final(items) == *old(items),
            match multi::write_plan(multi::views(old(items)@), final(self).pdu()) {
                Err(failure) => error::failure_of(r) == Some(failure) && final(self).same(
                    old(self),
                ),
                Ok(request) => {
                    &&& final(self).asked(old(self), request)
                    &&& error::failure_of(r) == multi::write_outcome(
                        old(items).len() as int,
                        final(self).answer(),
                    )
                },
            },
    {
        let pdu_length: i32 = self.negotiated();
        let request = match multi::write_request(items, pdu_length) {
            Ok(request) => request,
            Err(e) => {
                return Err(e);
            },
        };
        let response = match self.exchange(&request) {
            Ok(response) => response,
            Err(e) => {
                return Err(e);
            },
        };
        multi::accept_write(items.len(), response.as_slice())
    }

    /// Sends a start or stop request and judges the answer.
    fn cold_warm_start_stop(
        &mut self,
        req: &[u8],
        start_cmp: u8,
        start: Error,
        already_cmp: u8,
        already: Error,
    ) -> (r: Result<(), Error>)
        ensures
            final(self).asked(old(self), req@),
            error::failure_of(r) == (match final(self).answer() {
                Err(failure) => Some(failure),
                Ok(response) => control::control_reply(
                    response,
                    start_cmp,
                    start@,
                    already_cmp,
                    already@,
                ),
            }),
    {
        let request = slice_to_vec(req);
        let response = match self.exchange(&request) {
            Ok(response) => response,
            Err(e) => {
                return Err(e);
            },
        };
        control::check_control(response.as_slice(), start_cmp, start, already_cmp, already)
    }

    /// Starts the CPU as from power off: the current configuration is
    /// dropped and the program begins again with its initial values.
    pub fn start(&mut self) -> (r: Result<(), Error>)
        ensures
            final(self).asked(old(self), transport::COLD_START_TELEGRAM@),
            error::failure_of(r) == control::start_outcome(final(self).answer()),
    {
        self.cold_warm_start_stop(
            transport::COLD_START_TELEGRAM.as_slice(),
            transport::PDU_START,
            Error::CannotStart,
            transport::PDU_ALREADY_STARTED,
            Error::AlreadyRun,
        )
    }

    /// Starts the CPU again without power off: the program goes on where
    /// it was, with the retentive data kept.
    pub fn restart(&mut self) -> (r: Result<(), Error>)
        ensures
            final(self).asked(old(self), transport::WARM_START_TELEGRAM@),
            error::failure_of(r) == control::start_outcome(final(self).answer()),
    {
        self.cold_warm_start_stop(
            transport::WARM_START_TELEGRAM.as_slice(),
            transport::PDU_START,
            Error::CannotStart,
            transport::PDU_ALREADY_STARTED,
            Error::AlreadyRun,
        )
    }

    /// Stops the CPU.
    pub fn stop(&mut self) -> (r: Result<(), Error>)
        ensures
            final(self).asked(old(self), transport::STOP_TELEGRAM@),
            error::failure_of(r) == control::stop_outcome(final(self).answer()),
    {
        self.cold_warm_start_stop(
            transport::STOP_TELEGRAM.as_slice(),
            transport::PDU_STOP,
            Error::CannotStop,
            transport::PDU_ALREADY_STOPPED,
            Error::AlreadyStop,
        )
    }

    /// Asks the CPU what it is doing.
    pub fn plc_status(&mut self) -> (r: Result<CpuStatus, Error>)
        ensures
            final(self).asked(old(self), transport::PLC_STATUS_TELEGRAM@),
            error::outcome(r) == control::status_outcome(final(self).answer()),
    {
        let request = slice_to_vec(transport::PLC_STATUS_TELEGRAM.as_slice());
        let response = match self.exchange(&request) {
            Ok(response) => response,
            Err(e) => {
                return Err(e);
            },
        };
        control::parse_status(response.as_slice())
    }

    /// Reads the list of the communication processor's limits.
    pub fn cp_info(&mut self) -> (r: Result<CPInfo, Error>)
        ensures
            final(self).follows(old(self)),
            szl::szl_then(
                szl::CP_INFO_LIST,
                0,
                final(self).since(old(self)),
                error::outcome(r),
                |list: szl::S7SZLView| szl::cp_info_of(list.data),
            ),
    {
        let list = match self.read_szl(szl::CP_INFO_LIST, 0x000) {
            Ok(list) => list,
            Err(e) => {
                return Err(e);
            },
        };
        szl::parse_cp_info(list.data.as_slice())
    }

    /// Reads the list of the CPU's names.
    pub fn cpu_info(&mut self) -> (r: Result<CpuInfo, Error>)
        ensures
            final(self).follows(old(self)),
            szl::szl_then(
                szl::CPU_INFO_LIST,
                0,
                final(self).since(old(self)),
                szl::cpu_info_result(r),
                |list: szl::S7SZLView| szl::cpu_info_of(list.data),
            ),
    {
        let list = match self.read_szl(szl::CPU_INFO_LIST, 0x000) {
            Ok(list) => list,
            Err(e) => {
                return Err(e);
            },
        };
        szl::parse_cpu_info(list.data.as_slice())
    }

    /// Reads system status list `id` at `index`, part by part, until the
    /// PLC says that a part was the last.
    pub fn read_szl(&mut self, id: u16, index: u16) -> (r: Result<S7SZL, Error>)
        ensures
            final(self).follows(old(self)),
            szl::szl_done(id, index, final(self).since(old(self)), szl::list_result(r)),
    {
        let ghost before = self.exchanges();
        assert(self.exchanges().skip(before.len() as int) =~= Seq::empty());
        let request = szl::first_request(id, index);
        let reply = self.exchange(&request);
        proof {
            let now = self.exchanges().skip(before.len() as int);
            assert(now.drop_last() =~= Seq::<Exchange>::empty());
            assert(szl::szl_run(id, index, now.drop_last()) == szl::SzlRun::Fresh);
        }
        let response = match reply {
            Ok(response) => response,
            Err(e) => {
                return Err(e);
            },
        };
        let first = match szl::parse_first(response.as_slice()) {
            Ok(part) => part,
            Err(e) => {
                return Err(e);
            },
        };
        let mut list = first.list;
        let mut done: bool = first.done;
        let mut sequence: u8 = first.sequence;
        let mut parts: usize = 1;
        while !done && parts < szl::MAX_PARTS
            invariant
                before == old(self).exchanges(),
                before.is_prefix_of(self.exchanges()),
                1 <= parts <= szl::MAX_PARTS,
                szl::szl_run(id, index, self.exchanges().skip(before.len() as int)) == (
                szl::SzlRun::Going { list: list@, done, sequence, parts: parts as nat }),
            decreases szl::MAX_PARTS - parts,
        {
            let ghost read = self.exchanges().skip(before.len() as int);
            let request = szl::next_request(sequence);
            let reply = self.exchange(&request);
            proof {
                let now = self.exchanges().skip(before.len() as int);
                assert(now.drop_last() =~= read);
            }
            let response = match reply {
                Ok(response) => response,
                Err(e) => {
                    return Err(e);
                },
            };
            let part = match szl::parse_next(response.as_slice()) {
                Ok(part) => part,
                Err(e) => {
                    return Err(e);
                },
            };
            szl::join(&mut list, part.list);
            done = part.done;
            sequence = part.sequence;
            parts = parts + 1;
        }
        if done {
            Ok(list)
        } else {
            Err(Error::InvalidPlcAnswer)
        }
    }

    /// Asks the PLC what it knows of one block.
    pub fn get_ag_block_info(&mut self, block_type: BlockType, block_number: u32) -> (r: Result<
        S7BlockInfo,
        Error,
    >)
        ensures
            final(self).asked(old(self), block::info_request_bytes(block_type, block_number)),
            block::info_result(r) == block::info_outcome(final(self).answer()),
    {
        let request = block::info_request(block_type, block_number);
        let response = match self.exchange(&request) {
            Ok(response) => response,
            Err(e) => {
                return Err(e);
            },
        };
        block::parse_info(response.as_slice())
    }

    /// Asks the PLC how many blocks of each kind it holds.
    pub fn get_ag_block_list(&mut self) -> (r: Result<BlockList, Error>)
        ensures
            final(self).asked(old(self), transport::BLOCK_LIST_TELEGRAM@),
            error::outcome(r) == block::list_outcome(final(self).answer()),
    {
        let request = slice_to_vec(transport::BLOCK_LIST_TELEGRAM.as_slice());
        let response = match self.exchange(&request) {
            Ok(response) => response,
            Err(e) => {
                return Err(e);
            },
        };
        block::parse_list(response.as_slice())
    }

    /// Whether an operation that made `exchanges` and then returned is the
    /// reading of a whole data block: it asked for the block, and stopped
    /// there where the answer was a failure or the block larger than the
    /// buffer or no read could be planned, else read the block's size in
    /// bytes from its start.
    pub open spec fn full_db_done(
        db_number: u32,
        pdu_length: i32,
        before: Seq<u8>,
        exchanges: Seq<Exchange>,
        failure: Option<Failure>,
        after: Seq<u8>,
    ) -> bool {
        &&& exchanges.len() >= 1
        &&& exchanges[0].request == block::info_request_bytes(BlockType::DB, db_number)
        &&& match block::info_outcome(exchanges[0].reply) {
            Err(reason) => exchanges.len() == 1 && failure == Some(reason) && after == before,
            Ok(info) => if info.mc7_size > before.len() {
                exchanges.len() == 1 && failure == Some(Failure::BufferTooSmall) && after
                    == before
            } else {
                match Transfer::read_plan(
                    Area::DataBausteine,
                    (db_number % 0x1_0000) as i32,
                    0,
                    info.mc7_size as i32,
                    constant::WL_BYTE,
                    pdu_length,
                    before.len() as usize,
                ) {
                    Err(reason) => exchanges.len() == 1 && failure == Some(reason) && after
                        == before,
                    Ok(job) => transfer::read_done(job, before, exchanges.skip(1), failure, after),
                }
            },
        }
    }

    /// Reads the whole of data block `db_number` into the front of
    /// `buffer`: asks the PLC for the size of the block, and reads that
    /// many bytes where the buffer holds them.
    pub fn read_full_db(&mut self, db_number: u32, buffer: &mut Vec<u8>) -> (r: Result<(), Error>)
        ensures
            final(self).follows(old(self)),
            final(buffer).len() == old(buffer).len(),
            Self::full_db_done(
                db_number,
                final(self).pdu(),
                old(buffer)@,
                final(self).since(old(self)),
                error::failure_of(r),
                final(buffer)@,
            ),
    {
        let block_info = match self.get_ag_block_info(BlockType::DB, db_number) {
            Ok(info) => info,
            Err(e) => {
                return Err(e);
            },
        };
        let db_size: u16 = block_info.mc7_size;
        if db_size as usize > buffer.len() {
            return Err(Error::BufferTooSmall);
        }
        let ghost asked = self.exchanges();
        let r = self.ag_read((db_number % 0x1_0000) as i32, 0, db_size as i32, buffer);
        proof {
            let first = old(self).exchanges().len() as int;
            assert(self.exchanges().skip(first).skip(1) =~= self.exchanges().skip(
                asked.len() as int,
            ));
            assert(self.exchanges().skip(first)[0] == asked.skip(first)[0]);
        }
        r
    }
}

} // verus!
