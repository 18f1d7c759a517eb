//! Starting and stopping the CPU, and asking what it is doing.

use crate::constant::CpuStatus;
use crate::error::{Error, Failure};
use crate::field;
use crate::transport;
use vstd::prelude::*;

verus! {

/// What the answer to a start or stop request says: it must hold 19 bytes;
/// byte 19 must be there and be `expected`, or the PLC has `refused`; and
/// byte 18 tells with `already_code` that the CPU was `already` there.
pub open spec fn control_reply(
    response: Seq<u8>,
    expected: u8,
    refused: Failure,
    already_code: u8,
    already: Failure,
) -> Option<Failure> {
    if response.len() < transport::TELEGRAM_MIN_RESPONSE {
        Some(Failure::InvalidPdu)
    } else if response.len() < 20 || response[19] != expected {
        Some(refused)
    } else if response[18] == already_code {
        Some(already)
    } else {
        None
    }
}

/// What starting the CPU, cold or warm, comes to, given what the transport
/// gave back.
pub open spec fn start_outcome(reply: Result<Seq<u8>, Failure>) -> Option<Failure> {
    match reply {
        Err(failure) => Some(failure),
        Ok(response) => control_reply(
            response,
            transport::PDU_START,
            Failure::CannotStart,
            transport::PDU_ALREADY_STARTED,
            Failure::AlreadyRun,
        ),
    }
}

/// What stopping the CPU comes to, given what the transport gave back.
pub open spec fn stop_outcome(reply: Result<Seq<u8>, Failure>) -> Option<Failure> {
    match reply {
        Err(failure) => Some(failure),
        Ok(response) => control_reply(
            response,
            transport::PDU_STOP,
            Failure::CannotStop,
            transport::PDU_ALREADY_STOPPED,
            Failure::AlreadyStop,
        ),
    }
}

/// Judges the answer to a start or stop request.
pub fn check_control(
    response: &[u8],
    expected: u8,
    refused: Error,
    already_code: u8,
    already: Error,
) -> (r: Result<(), Error>)
    ensures
        crate::error::failure_of(r) == control_reply(
            response@,
            expected,
            refused@,
            already_code,
            already@,
        ),
{
    if response.len() < transport::TELEGRAM_MIN_RESPONSE {
        return Err(Error::InvalidPdu);
    }
    if response.len() < 20 || response[19] != expected {
        return Err(refused);
    }
    if response[18] == already_code {
        return Err(already);
    }
    Ok(())
}

/// What the answer to a status request says: it must hold 45 bytes and no
/// error at 27 and 28; byte 44 is the status.
pub open spec fn status_reply(response: Seq<u8>) -> Result<CpuStatus, Failure> {
    if response.len() < transport::PLC_STATUS_MIN_RESPONSE {
        Err(Failure::InvalidPdu)
    } else if field::word_value(response, 27) != 0 {
        Err(Failure::Cpu { code: field::word_value(response, 27) as i32 })
    } else {
        match CpuStatus::of(response[44]) {
            Some(status) => Ok(status),
            None => Err(Failure::InvalidCpuStatus(response[44])),
        }
    }
}

/// What a status request comes to, given what the transport gave back.
pub open spec fn status_outcome(reply: Result<Seq<u8>, Failure>) -> Result<CpuStatus, Failure> {
    match reply {
        Err(failure) => Err(failure),
        Ok(response) => status_reply(response),
    }
}

/// Reads the status out of the answer to a status request.
pub fn parse_status(response: &[u8]) -> (r: Result<CpuStatus, Error>)
    ensures
        crate::error::outcome(r) == status_reply(response@),
{
    if response.len() < transport::PLC_STATUS_MIN_RESPONSE {
        return Err(Error::InvalidPdu);
    }
    let code: u16 = field::word_at(response, 27);
    if code != 0 {
        return Err(Error::Cpu { code: code as i32 });
    }
    CpuStatus::from_u8(response[44])
}

} // verus!
