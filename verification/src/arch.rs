//! Architectures, their modes, and what an emulation engine calls them.

use vstd::prelude::*;

verus! {

/// The instruction set and encoding of a session.
#[derive(Clone, Copy, Debug, PartialEq, Eq, Structural)]
pub enum Mode {
    Arm,
    Thumb,
    Be,
    Le,
}

/// An architecture with its mode.
#[derive(Clone, Copy, Debug, PartialEq, Eq, Structural)]
pub enum Arch {
    Arm(Mode),
    Mips(Mode),
}

/// The CPU backends that a session can run on.
#[derive(Clone, Copy, Debug, PartialEq, Eq, Structural)]
pub enum Backend {
    Arm,
    Mips,
}

/// The hardware modes that an emulation engine knows.
#[derive(Clone, Copy, Debug, PartialEq, Eq, Structural)]
pub enum EngineMode {
    LittleEndian,
    Mode16,
    Mode32,
    Mode64,
    Thumb,
    MClass,
    V8,
    BigEndian,
}

impl EngineMode {
    /// The number the engine uses for the mode.
    pub open spec fn raw_spec(self) -> usize {
        match self {
            EngineMode::LittleEndian => 0,
            EngineMode::Mode16 => 2,
            EngineMode::Mode32 => 4,
            EngineMode::Mode64 => 8,
            EngineMode::Thumb => 16,
            EngineMode::MClass => 32,
            EngineMode::V8 => 64,
            EngineMode::BigEndian => 0x40000000,
        }
    }

    /// The number the engine uses for the mode.
    #[verifier::when_used_as_spec(raw_spec)]
    pub fn raw(self) -> (r: usize)
        ensures
            r == self.raw_spec(),
    {
        match self {
            EngineMode::LittleEndian => 0,
            EngineMode::Mode16 => 2,
            EngineMode::Mode32 => 4,
            EngineMode::Mode64 => 8,
            EngineMode::Thumb => 16,
            EngineMode::MClass => 32,
            EngineMode::V8 => 64,
            EngineMode::BigEndian => 0x40000000,
        }
    }
}

/// The engine mode that a number stands for; a number that stands for none
/// counts as little-endian.
pub open spec fn engine_mode_of(x: usize) -> EngineMode {
    if x == 2 {
        EngineMode::Mode16
    } else if x == 4 {
        EngineMode::Mode32
    } else if x == 8 {
        EngineMode::Mode64
    } else if x == 16 {
        EngineMode::Thumb
    } else if x == 32 {
        EngineMode::MClass
    } else if x == 64 {
        EngineMode::V8
    } else if x == 0x40000000 {
        EngineMode::BigEndian
    } else {
        EngineMode::LittleEndian
    }
}

/// The engine mode that a number stands for; a number that stands for none
/// counts as little-endian.
pub fn umode_from_usize(x: usize) -> (r: EngineMode)
    ensures
        r == engine_mode_of(x),
{
    match x {
        0 => EngineMode::LittleEndian,
        2 => EngineMode::Mode16,
        4 => EngineMode::Mode32,
        8 => EngineMode::Mode64,
        16 => EngineMode::Thumb,
        32 => EngineMode::MClass,
        64 => EngineMode::V8,
        0x40000000 => EngineMode::BigEndian,
        _ => EngineMode::LittleEndian,
    }
}

impl Mode {
    /// The engine mode that runs this mode.
    pub open spec fn as_uc_spec(&self) -> EngineMode {
        match self {
            Mode::Arm => EngineMode::LittleEndian,
            Mode::Thumb => EngineMode::Thumb,
            Mode::Be => EngineMode::BigEndian,
            Mode::Le => EngineMode::LittleEndian,
        }
    }

    /// The width of an instruction slot in bytes: four in ARM mode, two in
    /// Thumb mode, and none for any other mode.
    pub open spec fn risc_width_spec(&self) -> Option<u64> {
        match self {
            Mode::Arm => Some(4),
            Mode::Thumb => Some(2),
            _ => None,
        }
    }

    /// The engine mode that runs this mode.
    #[verifier::when_used_as_spec(as_uc_spec)]
    pub fn as_uc(&self) -> (r: EngineMode)
        ensures
            r == self.as_uc_spec(),
    {
        match self {
            Mode::Arm => EngineMode::LittleEndian,
            Mode::Thumb => EngineMode::Thumb,
            Mode::Be => EngineMode::BigEndian,
            Mode::Le => EngineMode::LittleEndian,
        }
    }

    /// The width of an instruction slot in bytes, for the modes that have
    /// one.
    #[verifier::when_used_as_spec(risc_width_spec)]
    pub fn risc_width(&self) -> (r: Option<u64>)
        ensures
            r == self.risc_width_spec(),
    {
        match self {
            Mode::Arm => Some(4),
            Mode::Thumb => Some(2),
            _ => None,
        }
    }
}

impl Arch {
    /// The mode of the architecture.
    pub open spec fn mode_spec(&self) -> Mode {
        match self {
            Arch::Arm(m) => *m,
            Arch::Mips(m) => *m,
        }
    }

    /// The backend of the architecture.
    pub open spec fn backend_spec(&self) -> Backend {
        match self {
            Arch::Arm(_) => Backend::Arm,
            Arch::Mips(_) => Backend::Mips,
        }
    }

    /// The backend and the engine mode that run this architecture.
    pub fn as_uc(&self) -> (r: (Backend, EngineMode))
        ensures
            r.0 == self.backend_spec(),
            r.1 == self.mode_spec().as_uc_spec(),
    {
        match self {
            Arch::Arm(m) => (Backend::Arm, m.as_uc()),
            Arch::Mips(m) => (Backend::Mips, m.as_uc()),
        }
    }

    /// The mode of the architecture.
    #[verifier::when_used_as_spec(mode_spec)]
    pub fn mode(&self) -> (r: Mode)
        ensures
            r == self.mode_spec(),
    {
        match self {
            Arch::Arm(m) => *m,
            Arch::Mips(m) => *m,
        }
    }
}

/// ARM in ARM mode.
pub fn arm_arm() -> (r: Arch)
    ensures
        r == Arch::Arm(Mode::Arm),
{
    Arch::Arm(Mode::Arm)
}

/// ARM in Thumb mode.
pub fn arm_thumb() -> (r: Arch)
    ensures
        r == Arch::Arm(Mode::Thumb),
{
    Arch::Arm(Mode::Thumb)
}

impl Backend {
    /// The mode of a session on this backend whose engine reports the mode
    /// number `raw`: a little-endian engine mode is ARM mode on the ARM
    /// backend and little-endian on any other, the Thumb engine mode is Thumb
    /// mode, and the other engine modes stand for no mode.
    pub open spec fn mode_of(self, raw: usize) -> Option<Mode> {
        match engine_mode_of(raw) {
            EngineMode::LittleEndian => match self {
                Backend::Arm => Some(Mode::Arm),
                _ => Some(Mode::Le),
            },
            EngineMode::Thumb => Some(Mode::Thumb),
            _ => None,
        }
    }

    /// The mode of a session on this backend whose engine reports the mode
    /// number `raw`, for the engine modes that stand for one.
    pub fn get_mode(self, raw: usize) -> (r: Option<Mode>)
        ensures
            r == self.mode_of(raw),
    {
        match umode_from_usize(raw) {
            EngineMode::LittleEndian => match self {
                Backend::Arm => Some(Mode::Arm),
                _ => Some(Mode::Le),
            },
            EngineMode::Thumb => Some(Mode::Thumb),
            _ => None,
        }
    }

    /// The width of an instruction slot of a session on this backend whose
    /// engine reports the mode number `raw`: four bytes in ARM mode, two in
    /// Thumb mode, none otherwise.
    pub fn risc_width(self, raw: usize) -> (r: Option<u64>)
        ensures
            r == match self.mode_of(raw) {
                Some(mode) => mode.risc_width_spec(),
                None => None,
            },
    {
        match self.get_mode(raw) {
            Some(mode) => mode.risc_width(),
            None => None,
        }
    }
}

/// The mode that the mode number of a bare ARM engine stands for: ARM mode
/// for zero, Thumb mode for sixteen, none for any other number.
pub fn get_uc_mode(raw: usize) -> (r: Option<Mode>)
    ensures
        raw == 0 ==> r == Some(Mode::Arm),
        raw == 16 ==> r == Some(Mode::Thumb),
        raw != 0 && raw != 16 ==> r.is_none(),
{
    match raw {
        0 => Some(Mode::Arm),
        16 => Some(Mode::Thumb),
        _ => None,
    }
}

/// An engine mode and its number determine each other.
pub proof fn lemma_engine_mode_round_trip(mode: EngineMode)
    ensures
        engine_mode_of(mode.raw_spec()) == mode,
{
}

/// A session keeps its mode: what the engine reports for the engine mode
/// that an architecture was started in stands for the architecture's mode
/// again, for ARM in ARM or Thumb mode and for little-endian MIPS.
pub proof fn lemma_mode_round_trip(arch: Arch)
    requires
        arch == Arch::Arm(Mode::Arm) || arch == Arch::Arm(Mode::Thumb) || arch == Arch::Mips(
            Mode::Le,
        ),
    ensures
        arch.backend_spec().mode_of(arch.mode_spec().as_uc_spec().raw_spec()) == Some(
            arch.mode_spec(),
        ),
{
}

} // verus!
