//! Wire codes of the protocol: memory areas, word lengths, transport sizes,
//! CPU states, block types and block languages.

use crate::error;
use crate::error::{Error, Failure};
use vstd::prelude::*;

verus! {

/// A memory area of the PLC.
#[derive(Clone, Copy, Debug, PartialEq, Eq)]
pub enum Area {
    ProcessInput,
    ProcessOutput,
    /// Flag memory inside the CPU, addressed by byte.
    Merker,
    /// A data block: the PLC's structured storage.
    DataBausteine,
    Counter,
    Timer,
}

impl Area {
    /// The byte that names the area in a telegram.
    pub open spec fn wire(self) -> u8 {
        match self {
            Area::ProcessInput => 0x81,
            Area::ProcessOutput => 0x82,
            Area::Merker => 0x83,
            Area::DataBausteine => 0x84,
            Area::Counter => 0x1C,
            Area::Timer => 0x1D,
        }
    }

    pub fn code(self) -> (c: u8)
        ensures
            c == self.wire(),
    {
        match self {
            Area::ProcessInput => 0x81,
            Area::ProcessOutput => 0x82,
            Area::Merker => 0x83,
            Area::DataBausteine => 0x84,
            Area::Counter => 0x1C,
            Area::Timer => 0x1D,
        }
    }
}

/// Bit (inside a word)
pub const WL_BIT: i32 = 0x01;

/// Byte (8 bit)
pub const WL_BYTE: i32 = 0x02;

pub const WL_CHAR: i32 = 0x03;

/// Word (16 bit)
pub const WL_WORD: i32 = 0x04;

pub const WL_INT: i32 = 0x05;

/// Double word (32 bit)
pub const WL_DWORD: i32 = 0x06;

/// Double int (32 bit)
pub const WL_DINT: i32 = 0x07;

/// Real (32 bit)
pub const WL_REAL: i32 = 0x08;

/// Counter (16 bit)
pub const WL_COUNTER: i32 = 0x1C;

/// Timer (16 bit)
pub const WL_TIMER: i32 = 0x1D;

/// Bytes in one element of the given word length; 0 for an unknown one.
pub open spec fn word_size(word_length: int) -> int {
    if word_length == WL_BIT || word_length == WL_BYTE || word_length == WL_CHAR {
        1
    } else if word_length == WL_WORD || word_length == WL_INT || word_length == WL_COUNTER
        || word_length == WL_TIMER {
        2
    } else if word_length == WL_DWORD || word_length == WL_DINT || word_length == WL_REAL {
        4
    } else {
        0
    }
}

/// Bytes in one element of the given word length; 0 for an unknown one.
pub fn data_size_byte(word_length: i32) -> (size: i32)
    ensures
        size == word_size(word_length as int),
{
    if word_length == WL_BIT || word_length == WL_BYTE || word_length == WL_CHAR {
        1
    } else if word_length == WL_WORD || word_length == WL_INT || word_length == WL_COUNTER
        || word_length == WL_TIMER {
        2
    } else if word_length == WL_DWORD || word_length == WL_DINT || word_length == WL_REAL {
        4
    } else {
        0
    }
}

/// What the CPU is doing.
#[derive(Clone, Copy, Debug, PartialEq, Eq)]
pub enum CpuStatus {
    Unknown,
    StopByUser,
    Stop,
    Run,
}

impl CpuStatus {
    /// The byte that stands for the status in a reply.
    pub open spec fn wire(self) -> u8 {
        match self {
            CpuStatus::Unknown => 0,
            CpuStatus::StopByUser => 3,
            CpuStatus::Stop => 4,
            CpuStatus::Run => 8,
        }
    }

    /// The status that a byte stands for, if any.
    pub open spec fn of(value: u8) -> Option<CpuStatus> {
        if value == 0 {
            Some(CpuStatus::Unknown)
        } else if value == 3 {
            Some(CpuStatus::StopByUser)
        } else if value == 4 {
            Some(CpuStatus::Stop)
        } else if value == 8 {
            Some(CpuStatus::Run)
        } else {
            None
        }
    }

    /// Reads a status byte: succeeds on 0, 3, 4 and 8 and on nothing else.
    pub fn from_u8(value: u8) -> (r: Result<CpuStatus, Error>)
        ensures
            error::outcome(r) == match CpuStatus::of(value) {
                Some(status) => Ok::<CpuStatus, Failure>(status),
                None => Err(Failure::InvalidCpuStatus(value)),
            },
            r is Ok <==> value == 0 || value == 3 || value == 4 || value == 8,
            r matches Ok(status) ==> status.wire() == value,
    {
        match value {
            0 => Ok(CpuStatus::Unknown),
            3 => Ok(CpuStatus::StopByUser),
            4 => Ok(CpuStatus::Stop),
            8 => Ok(CpuStatus::Run),
            _ => Err(Error::InvalidCpuStatus(value)),
        }
    }
}

/// The kind of a block, as a reply names it.
#[derive(Clone, Copy, Debug, PartialEq, Eq)]
pub enum SubBlockType {
    Ob,
    Db,
    Sdb,
    Fc,
    Sfc,
    Fb,
    Sfb,
}

impl SubBlockType {
    /// The byte that stands for the kind in a reply.
    pub open spec fn wire(self) -> u8 {
        match self {
            SubBlockType::Ob => 0x08,
            SubBlockType::Db => 0x0A,
            SubBlockType::Sdb => 0x0B,
            SubBlockType::Fc => 0x0C,
            SubBlockType::Sfc => 0x0D,
            SubBlockType::Fb => 0x0E,
            SubBlockType::Sfb => 0x0F,
        }
    }

    /// The kind that a byte stands for, if any.
    pub open spec fn of(value: u8) -> Option<SubBlockType> {
        if value == 0x08 {
            Some(SubBlockType::Ob)
        } else if value == 0x0A {
            Some(SubBlockType::Db)
        } else if value == 0x0B {
            Some(SubBlockType::Sdb)
        } else if value == 0x0C {
            Some(SubBlockType::Fc)
        } else if value == 0x0D {
            Some(SubBlockType::Sfc)
        } else if value == 0x0E {
            Some(SubBlockType::Fb)
        } else if value == 0x0F {
            Some(SubBlockType::Sfb)
        } else {
            None
        }
    }

    pub fn from_u8(value: u8) -> (r: Result<SubBlockType, Error>)
        ensures
            error::outcome(r) == match SubBlockType::of(value) {
                Some(kind) => Ok::<SubBlockType, Failure>(kind),
                None => Err(Failure::InvalidBlockType(value)),
            },
            r matches Ok(kind) ==> kind.wire() == value,
    {
        match value {
            0x08 => Ok(SubBlockType::Ob),
            0x0A => Ok(SubBlockType::Db),
            0x0B => Ok(SubBlockType::Sdb),
            0x0C => Ok(SubBlockType::Fc),
            0x0D => Ok(SubBlockType::Sfc),
            0x0E => Ok(SubBlockType::Fb),
            0x0F => Ok(SubBlockType::Sfb),
            _ => Err(Error::InvalidBlockType(value)),
        }
    }
}

/// The language a block was written in.
#[derive(Clone, Copy, Debug, PartialEq, Eq)]
pub enum BlockLang {
    Awl,
    Kop,
    Fup,
    Scl,
    Db,
    Graph,
}

impl BlockLang {
    /// The byte that stands for the language in a reply.
    pub open spec fn wire(self) -> u8 {
        match self {
            BlockLang::Awl => 0x01,
            BlockLang::Kop => 0x02,
            BlockLang::Fup => 0x03,
            BlockLang::Scl => 0x04,
            BlockLang::Db => 0x05,
            BlockLang::Graph => 0x06,
        }
    }

    /// The language that a byte stands for, if any.
    pub open spec fn of(value: u8) -> Option<BlockLang> {
        if value == 0x01 {
            Some(BlockLang::Awl)
        } else if value == 0x02 {
            Some(BlockLang::Kop)
        } else if value == 0x03 {
            Some(BlockLang::Fup)
        } else if value == 0x04 {
            Some(BlockLang::Scl)
        } else if value == 0x05 {
            Some(BlockLang::Db)
        } else if value == 0x06 {
            Some(BlockLang::Graph)
        } else {
            None
        }
    }

    /// An unknown language byte is reported as an invalid status byte.
    pub fn from_u8(value: u8) -> (r: Result<BlockLang, Error>)
        ensures
            error::outcome(r) == match BlockLang::of(value) {
                Some(lang) => Ok::<BlockLang, Failure>(lang),
                None => Err(Failure::InvalidCpuStatus(value)),
            },
            r matches Ok(lang) ==> lang.wire() == value,
    {
        match value {
            0x01 => Ok(BlockLang::Awl),
            0x02 => Ok(BlockLang::Kop),
            0x03 => Ok(BlockLang::Fup),
            0x04 => Ok(BlockLang::Scl),
            0x05 => Ok(BlockLang::Db),
            0x06 => Ok(BlockLang::Graph),
            _ => Err(Error::InvalidCpuStatus(value)),
        }
    }
}

/// Header size of a read request
pub const SIZE_HEADER_READ: i32 = 31;

/// Header size of a write request
pub const SIZE_HEADER_WRITE: i32 = 35;

// Transport sizes in the data part of a telegram
pub const TS_RES_BIT: u8 = 3;

pub const TS_RES_BYTE: u8 = 4;

pub const TS_RES_INT: u8 = 5;

pub const TS_RES_REAL: u8 = 7;

pub const TS_RES_OCTET: u8 = 9;

} // verus!
