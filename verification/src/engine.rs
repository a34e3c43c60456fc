//! The outcomes that an emulation engine reports, and how they are sorted.

use vstd::prelude::*;

verus! {

/// The result codes of an emulation engine, in the order of their numbers,
/// which start at zero.
#[derive(Clone, Copy, Debug, PartialEq, Eq, Structural)]
pub enum EngineError {
    /// No error.
    NoError,
    /// Out of memory.
    NoMem,
    /// The architecture is not supported.
    Arch,
    /// The handle is not valid.
    Handle,
    /// The mode is not valid or not supported.
    Mode,
    /// The version is not supported.
    Version,
    /// A read of memory that is not mapped stopped the run.
    ReadUnmapped,
    /// A write to memory that is not mapped stopped the run.
    WriteUnmapped,
    /// A fetch from memory that is not mapped stopped the run.
    FetchUnmapped,
    /// The hook type is not valid.
    Hook,
    /// An instruction that is not valid stopped the run.
    InsnInvalid,
    /// The memory mapping is not valid.
    Mapping,
    /// A write to write-protected memory stopped the run.
    WriteProt,
    /// A read of read-protected memory stopped the run.
    ReadProt,
    /// A fetch from memory that may not be executed stopped the run.
    FetchProt,
    /// An argument is not valid.
    Arg,
    /// A read was not aligned.
    ReadUnaligned,
    /// A write was not aligned.
    WriteUnaligned,
    /// A fetch was not aligned.
    FetchUnaligned,
    /// A hook for this event exists already.
    HookExist,
    /// A resource ran out.
    Resource,
    /// A CPU exception was not handled.
    Exception,
}

/// Why a run stopped abnormally.
#[derive(Clone, Copy, Debug, PartialEq, Eq, Structural)]
pub enum Fault {
    /// An instruction could not be fetched.
    InvalidFetch,
    /// Memory could not be read.
    InvalidRead,
    /// Memory could not be written.
    InvalidWrite,
    /// An instruction could not be decoded.
    InvalidInstruction,
}

/// How a run ended.
#[derive(Clone, Copy, Debug, PartialEq, Eq, Structural)]
pub enum Stop {
    /// The run reached its bound, its time limit or its instruction limit.
    Normal,
    /// A fault stopped the run at `address`.
    Fault { kind: Fault, address: u64 },
    /// The engine refused the run for another reason.
    Refused(EngineError),
}

impl EngineError {
    /// The number of the code.
    pub open spec fn code_spec(self) -> u32 {
        match self {
            EngineError::NoError => 0,
            EngineError::NoMem => 1,
            EngineError::Arch => 2,
            EngineError::Handle => 3,
            EngineError::Mode => 4,
            EngineError::Version => 5,
            EngineError::ReadUnmapped => 6,
            EngineError::WriteUnmapped => 7,
            EngineError::FetchUnmapped => 8,
            EngineError::Hook => 9,
            EngineError::InsnInvalid => 10,
            EngineError::Mapping => 11,
            EngineError::WriteProt => 12,
            EngineError::ReadProt => 13,
            EngineError::FetchProt => 14,
            EngineError::Arg => 15,
            EngineError::ReadUnaligned => 16,
            EngineError::WriteUnaligned => 17,
            EngineError::FetchUnaligned => 18,
            EngineError::HookExist => 19,
            EngineError::Resource => 20,
            EngineError::Exception => 21,
        }
    }

    /// The fault that the code reports: a fetch, read or write that hit
    /// memory that is not mapped, is protected or is not aligned, or an
    /// instruction that is not valid. Every other code reports no fault.
    pub open spec fn fault_spec(self) -> Option<Fault> {
        match self {
            EngineError::FetchUnmapped | EngineError::FetchProt | EngineError::FetchUnaligned => Some(
                Fault::InvalidFetch,
            ),
            EngineError::ReadUnmapped | EngineError::ReadProt | EngineError::ReadUnaligned => Some(
                Fault::InvalidRead,
            ),
            EngineError::WriteUnmapped | EngineError::WriteProt | EngineError::WriteUnaligned => Some(
                Fault::InvalidWrite,
            ),
            EngineError::InsnInvalid => Some(Fault::InvalidInstruction),
            _ => None,
        }
    }

    /// The number of the code.
    #[verifier::when_used_as_spec(code_spec)]
    pub fn code(self) -> (r: u32)
        ensures
            r == self.code_spec(),
            r <= 21,
    {
        match self {
            EngineError::NoError => 0,
            EngineError::NoMem => 1,
            EngineError::Arch => 2,
            EngineError::Handle => 3,
            EngineError::Mode => 4,
            EngineError::Version => 5,
            EngineError::ReadUnmapped => 6,
            EngineError::WriteUnmapped => 7,
            EngineError::FetchUnmapped => 8,
            EngineError::Hook => 9,
            EngineError::InsnInvalid => 10,
            EngineError::Mapping => 11,
            EngineError::WriteProt => 12,
            EngineError::ReadProt => 13,
            EngineError::FetchProt => 14,
            EngineError::Arg => 15,
            EngineError::ReadUnaligned => 16,
            EngineError::WriteUnaligned => 17,
            EngineError::FetchUnaligned => 18,
            EngineError::HookExist => 19,
            EngineError::Resource => 20,
            EngineError::Exception => 21,
        }
    }

    /// The code with the number `code`, if there is one.
    pub fn from_code(code: u32) -> (r: Option<EngineError>)
        ensures
            match r {
                Some(e) => e.code_spec() == code,
                None => code > 21,
            },
    {
        match code {
            0 => Some(EngineError::NoError),
            1 => Some(EngineError::NoMem),
            2 => Some(EngineError::Arch),
            3 => Some(EngineError::Handle),
            4 => Some(EngineError::Mode),
            5 => Some(EngineError::Version),
            6 => Some(EngineError::ReadUnmapped),
            7 => Some(EngineError::WriteUnmapped),
            8 => Some(EngineError::FetchUnmapped),
            9 => Some(EngineError::Hook),
            10 => Some(EngineError::InsnInvalid),
            11 => Some(EngineError::Mapping),
            12 => Some(EngineError::WriteProt),
            13 => Some(EngineError::ReadProt),
            14 => Some(EngineError::FetchProt),
            15 => Some(EngineError::Arg),
            16 => Some(EngineError::ReadUnaligned),
            17 => Some(EngineError::WriteUnaligned),
            18 => Some(EngineError::FetchUnaligned),
            19 => Some(EngineError::HookExist),
            20 => Some(EngineError::Resource),
            21 => Some(EngineError::Exception),
            _ => None,
        }
    }

    /// The fault that the code reports, if it reports one.
    #[verifier::when_used_as_spec(fault_spec)]
    pub fn fault(self) -> (r: Option<Fault>)
        ensures
            r == self.fault_spec(),
    {
        match self {
            EngineError::FetchUnmapped | EngineError::FetchProt | EngineError::FetchUnaligned => Some(
                Fault::InvalidFetch,
            ),
            EngineError::ReadUnmapped | EngineError::ReadProt | EngineError::ReadUnaligned => Some(
                Fault::InvalidRead,
            ),
            EngineError::WriteUnmapped | EngineError::WriteProt | EngineError::WriteUnaligned => Some(
                Fault::InvalidWrite,
            ),
            EngineError::InsnInvalid => Some(Fault::InvalidInstruction),
            _ => None,
        }
    }
}

/// How a run ended, after what the engine returned and where the program
/// counter stood when it returned.
pub open spec fn stop_of(result: Result<(), EngineError>, pc: u64) -> Stop {
    match result {
        Ok(()) => Stop::Normal,
        Err(e) => match e.fault_spec() {
            Some(kind) => Stop::Fault { kind, address: pc },
            None => if e == EngineError::NoError {
                Stop::Normal
            } else {
                Stop::Refused(e)
            },
        },
    }
}

/// Sorts what the engine returned from a run: a normal stop, a fault with
/// its kind and the address at which the program counter stood, or a
/// refusal with the engine's code.
pub fn classify_stop(result: Result<(), EngineError>, pc: u64) -> (r: Stop)
    ensures
        r == stop_of(result, pc),
{
    match result {
        Ok(()) => Stop::Normal,
        Err(e) => match e.fault() {
            Some(kind) => Stop::Fault { kind, address: pc },
            None => match e {
                EngineError::NoError => Stop::Normal,
                _ => Stop::Refused(e),
            },
        },
    }
}

/// Codes and their numbers determine each other.
pub proof fn lemma_codes_distinct(a: EngineError, b: EngineError)
    ensures
        a.code_spec() == b.code_spec() <==> a == b,
{
}

} // verus!
