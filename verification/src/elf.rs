//! Program and section headers of an ELF object, as plain values.

use crate::perm::Perm;
use vstd::prelude::*;

verus! {

/// The flag of an executable segment.
pub const PF_X: u32 = 1;

/// The flag of a writable segment.
pub const PF_W: u32 = 2;

/// The flag of a readable segment.
pub const PF_R: u32 = 4;

/// What the image builder reads of one program header.
#[derive(Clone, Copy, Debug, PartialEq, Eq, Structural)]
pub struct ProgramHeader {
    /// The numeric segment type.
    pub p_type: u32,
    /// The permission flags.
    pub p_flags: u32,
    /// The virtual address at which the segment starts.
    pub p_vaddr: u64,
    /// The number of bytes the segment takes in memory.
    pub p_memsz: u64,
}

/// What the image builder reads of one section header.
#[derive(Clone, Copy, Debug, PartialEq, Eq, Structural)]
pub struct SectionHeader {
    /// The virtual address of the section.
    pub sh_addr: u64,
    /// Where the section's bytes start in the file.
    pub sh_offset: u64,
    /// The number of bytes of the section.
    pub sh_size: u64,
}

/// The two header tables of one ELF object.
#[derive(Clone, Debug, PartialEq, Eq)]
pub struct ElfHeaders {
    pub program_headers: Vec<ProgramHeader>,
    pub section_headers: Vec<SectionHeader>,
}

impl ProgramHeader {
    pub open spec fn is_executable_spec(&self) -> bool {
        self.p_flags & PF_X != 0
    }

    pub open spec fn is_write_spec(&self) -> bool {
        self.p_flags & PF_W != 0
    }

    pub open spec fn is_read_spec(&self) -> bool {
        self.p_flags & PF_R != 0
    }

    /// The permission set of the header: each permission is in it exactly
    /// when its flag is set, whatever the other flags are.
    pub open spec fn perm_spec(&self) -> Perm {
        Perm {
            read: self.is_read_spec(),
            write: self.is_write_spec(),
            execute: self.is_executable_spec(),
        }
    }

    /// The first address of the header's virtual memory range.
    pub open spec fn vm_start_spec(&self) -> u64 {
        self.p_vaddr
    }

    /// The address after the header's virtual memory range, held at the top
    /// of the address space where the sum would pass it.
    pub open spec fn vm_end_spec(&self) -> u64 {
        if self.p_vaddr + self.p_memsz > u64::MAX {
            u64::MAX
        } else {
            (self.p_vaddr + self.p_memsz) as u64
        }
    }

    /// The length of the header's virtual memory range.
    pub open spec fn vm_size_spec(&self) -> u64 {
        (self.vm_end_spec() - self.vm_start_spec()) as u64
    }

    /// Whether the executable flag is set.
    #[verifier::when_used_as_spec(is_executable_spec)]
    pub fn is_executable(&self) -> (r: bool)
        ensures
            r == self.is_executable_spec(),
    {
        self.p_flags & PF_X != 0
    }

    /// Whether the writable flag is set.
    #[verifier::when_used_as_spec(is_write_spec)]
    pub fn is_write(&self) -> (r: bool)
        ensures
            r == self.is_write_spec(),
    {
        self.p_flags & PF_W != 0
    }

    /// Whether the readable flag is set.
    #[verifier::when_used_as_spec(is_read_spec)]
    pub fn is_read(&self) -> (r: bool)
        ensures
            r == self.is_read_spec(),
    {
        self.p_flags & PF_R != 0
    }

    /// The permission set that the flags stand for.
    #[verifier::when_used_as_spec(perm_spec)]
    pub fn perm(&self) -> (r: Perm)
        ensures
            r == self.perm_spec(),
    {
        Perm { read: self.is_read(), write: self.is_write(), execute: self.is_executable() }
    }

    /// The virtual memory range of the header, as its first address and the
    /// address after its last.
    pub fn vm_range(&self) -> (r: (u64, u64))
        ensures
            r.0 == self.vm_start_spec(),
            r.1 == self.vm_end_spec(),
            r.0 <= r.1,
    {
        (self.p_vaddr, self.p_vaddr.saturating_add(self.p_memsz))
    }
}

impl SectionHeader {
    /// Where the section's bytes start in a file of `len` bytes: its offset,
    /// or the end of the file where the offset lies beyond it.
    pub open spec fn file_start(&self, len: nat) -> int {
        if self.sh_offset <= len {
            self.sh_offset as int
        } else {
            len as int
        }
    }

    /// Where the section's bytes end in a file of `len` bytes: its offset and
    /// size added, or the end of the file where that lies beyond it.
    pub open spec fn file_end(&self, len: nat) -> int {
        if self.sh_offset + self.sh_size <= len {
            self.sh_offset + self.sh_size
        } else {
            len as int
        }
    }

    /// The bytes of the section that a file holds: the section's range,
    /// clipped at the end of the file.
    pub open spec fn file_bytes(&self, file: Seq<u8>) -> Seq<u8> {
        file.subrange(self.file_start(file.len()), self.file_end(file.len()))
    }
}

/// Whether a buffer starts with the four bytes that mark an ELF object.
pub open spec fn has_elf_magic(bytes: Seq<u8>) -> bool {
    &&& bytes.len() >= 4
    &&& bytes[0] == 0x7f
    &&& bytes[1] == 0x45
    &&& bytes[2] == 0x4c
    &&& bytes[3] == 0x46
}

/// Whether a buffer starts with the four bytes that mark an ELF object.
pub fn starts_with_elf_magic(bytes: &[u8]) -> (r: bool)
    ensures
        r == has_elf_magic(bytes@),
{
    bytes.len() >= 4 && bytes[0] == 0x7f && bytes[1] == 0x45 && bytes[2] == 0x4c && bytes[3]
        == 0x46
}

/// The header tables that `goblin::Object::parse` finds in a buffer, in file
/// order: `None` where the parse fails or where the object is not an ELF
/// object.
pub uninterp spec fn parsed_headers(bytes: Seq<u8>) -> Option<(Seq<ProgramHeader>, Seq<SectionHeader>)>;

/// Parses a buffer with `goblin::Object::parse` and hands out the program and
/// section headers of the ELF object found, each reduced to the fields kept
/// here. The buffer must start with the ELF mark, so that of the parsers
/// behind `goblin::Object::parse` only the one for ELF objects runs. The
/// contract claims only that the outcome is a function of the buffer's
/// bytes; nothing is claimed of what the headers hold.
#[verifier::external_body]
pub(crate) fn parse_headers(bytes: &[u8]) -> (r: Option<ElfHeaders>)
    requires
        has_elf_magic(bytes@),
    ensures
        match r {
            Some(h) => parsed_headers(bytes@) == Some((h.program_headers@, h.section_headers@)),
            None => parsed_headers(bytes@).is_none(),
        },
{
    match goblin::Object::parse(bytes) {
        Ok(goblin::Object::Elf(e)) => Some(ElfHeaders {
            program_headers: e.program_headers.iter().map(|p| ProgramHeader {
                p_type: p.p_type, p_flags: p.p_flags, p_vaddr: p.p_vaddr, p_memsz: p.p_memsz,
            }).collect(),
            section_headers: e.section_headers.iter().map(|s| SectionHeader {
                sh_addr: s.sh_addr, sh_offset: s.sh_offset, sh_size: s.sh_size,
            }).collect(),
        }),
        _ => None,
    }
}

} // verus!
