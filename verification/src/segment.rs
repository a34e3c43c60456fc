//! One loadable memory region: where it lies, what may be done with it,
//! what it holds, and its page-aligned bounds.

use crate::elf::ProgramHeader;
use crate::perm::Perm;
use vstd::prelude::*;

verus! {

/// The size of a page. Every mapping starts and ends on a multiple of it.
pub const PAGE_SIZE: u64 = 0x1000;

/// The address of the start of the page that holds `address`.
pub open spec fn page_floor(address: u64) -> u64 {
    address & !0xFFFu64
}

/// Rounding down to a page gives the nearest multiple of the page size that
/// is not above the address.
pub proof fn lemma_page_floor(address: u64)
    ensures
        page_floor(address) == address - address % 4096,
        page_floor(address) % 4096 == 0,
        page_floor(address) <= address < page_floor(address) + 4096,
{
    assert(address & !0xFFFu64 == address - address % 4096) by (bit_vector);
}

/// The kind of a segment, after the type field of its program header.
#[derive(Clone, Copy, Debug, PartialEq, Eq, Structural)]
pub enum SegType {
    Null,
    Load,
    Dynamic,
    Interp,
    Note,
    ShLib,
    PHdr,
    Tls,
    GnuEhFrame,
    GnuStack,
    GnuRelRo,
    /// Every type that has no variant of its own.
    Other,
}

impl SegType {
    /// The kind that a numeric header type stands for.
    pub open spec fn of_raw(raw: u32) -> SegType {
        if raw == 0 {
            SegType::Null
        } else if raw == 1 {
            SegType::Load
        } else if raw == 2 {
            SegType::Dynamic
        } else if raw == 3 {
            SegType::Interp
        } else if raw == 4 {
            SegType::Note
        } else if raw == 5 {
            SegType::ShLib
        } else if raw == 6 {
            SegType::PHdr
        } else if raw == 7 {
            SegType::Tls
        } else if raw == 0x6474e550 {
            SegType::GnuEhFrame
        } else if raw == 0x6474e551 {
            SegType::GnuStack
        } else if raw == 0x6474e552 {
            SegType::GnuRelRo
        } else {
            SegType::Other
        }
    }

    /// The kind that a numeric header type stands for. A type without a
    /// variant of its own is `Other`, never an error.
    pub fn new(raw: u32) -> (r: SegType)
        ensures
            r == Self::of_raw(raw),
    {
        match raw {
            0 => SegType::Null,
            1 => SegType::Load,
            2 => SegType::Dynamic,
            3 => SegType::Interp,
            4 => SegType::Note,
            5 => SegType::ShLib,
            6 => SegType::PHdr,
            7 => SegType::Tls,
            0x6474e550 => SegType::GnuEhFrame,
            0x6474e551 => SegType::GnuStack,
            0x6474e552 => SegType::GnuRelRo,
            _ => SegType::Other,
        }
    }

    /// Whether segments of this kind are put into an emulator: only `Load`.
    pub fn loadable(&self) -> (r: bool)
        ensures
            r == (*self == SegType::Load),
    {
        match self {
            SegType::Load => true,
            _ => false,
        }
    }
}

/// One memory region of a binary.
#[derive(Clone, Debug, PartialEq, Eq)]
pub struct Seg {
    /// The address of the first byte.
    pub addr: u64,
    /// The number of bytes.
    pub memsz: usize,
    /// What may be done with the bytes.
    pub perm: Perm,
    /// The kind of the segment.
    pub segtype: SegType,
    /// The content, `memsz` bytes.
    pub data: Vec<u8>,
}

/// A segment as a mathematical value.
pub struct SegView {
    pub addr: u64,
    pub memsz: usize,
    pub perm: Perm,
    pub segtype: SegType,
    pub data: Seq<u8>,
}

impl View for Seg {
    type V = SegView;

    open spec fn view(&self) -> SegView {
        SegView {
            addr: self.addr,
            memsz: self.memsz,
            perm: self.perm,
            segtype: self.segtype,
            data: self.data@,
        }
    }
}

impl DeepView for Seg {
    type V = SegView;

    open spec fn deep_view(&self) -> SegView {
        self.view()
    }
}

impl SegView {
    /// The start of the first page of the segment.
    pub open spec fn aligned_start(self) -> u64 {
        page_floor(self.addr)
    }

    /// The end of the segment's pages: the start of the page that holds the
    /// address a page after the end of the segment, so at least one byte of
    /// slack follows the segment.
    pub open spec fn aligned_end(self) -> u64 {
        page_floor((self.addr + self.memsz + PAGE_SIZE) as u64)
    }

    /// The number of bytes between the aligned bounds.
    pub open spec fn aligned_size(self) -> usize {
        (self.aligned_end() - self.aligned_start()) as usize
    }

    /// Whether the aligned range holds `address`.
    pub open spec fn covers(self, address: u64) -> bool {
        self.aligned_start() <= address < self.aligned_end()
    }

    /// Whether the aligned bounds can be computed: the end of the segment
    /// and a page after it lie inside the address space, and the aligned
    /// size is a size that the machine can hold.
    pub open spec fn spans(self) -> bool {
        &&& self.addr + self.memsz + PAGE_SIZE <= u64::MAX
        &&& self.aligned_end() - self.aligned_start() <= usize::MAX
    }

    /// The invariant of a segment: its content has its size, and its aligned
    /// bounds can be computed.
    pub open spec fn wf(self) -> bool {
        &&& self.data.len() == self.memsz
        &&& self.spans()
    }
}

/// The segment that a program header describes: at the header's address,
/// of the size of its virtual memory range, with the permissions of its
/// flags and the kind of its type, and filled with zero bytes.
pub open spec fn segment_of(phdr: ProgramHeader) -> SegView {
    SegView {
        addr: phdr.vm_start_spec(),
        memsz: phdr.vm_size_spec() as usize,
        perm: phdr.perm_spec(),
        segtype: SegType::of_raw(phdr.p_type),
        data: Seq::new(phdr.vm_size_spec() as nat, |i: int| 0u8),
    }
}

/// Whether a segment can be made of a program header: its size is one that
/// the machine can hold, and the segment made is well formed.
pub open spec fn header_fits(phdr: ProgramHeader) -> bool {
    &&& phdr.vm_size_spec() <= usize::MAX
    &&& segment_of(phdr).spans()
}

/// What making a segment of a program header gives: the segment that the
/// header describes where one can be made of it, else nothing.
pub open spec fn segment_for(phdr: ProgramHeader) -> Option<SegView> {
    if header_fits(phdr) {
        Some(segment_of(phdr))
    } else {
        None
    }
}

/// A segment, or the lack of one, as a mathematical value.
pub open spec fn segment_view(r: Option<Seg>) -> Option<SegView> {
    match r {
        Some(seg) => Some(seg@),
        None => None,
    }
}

impl Seg {
    /// The invariant of a segment.
    pub open spec fn wf(&self) -> bool {
        self@.wf()
    }

    /// Whether the invariant holds.
    pub fn is_wf(&self) -> (r: bool)
        ensures
            r == self.wf(),
    {
        if self.data.len() != self.memsz {
            return false;
        }
        let size: u64 = self.memsz as u64;
        if size > u64::MAX - PAGE_SIZE || self.addr > u64::MAX - PAGE_SIZE - size {
            return false;
        }
        let start: u64 = self.addr & !0xFFFu64;
        let end: u64 = (self.addr + size + PAGE_SIZE) & !0xFFFu64;
        proof {
            lemma_page_floor(self.addr);
            lemma_page_floor((self.addr + size + PAGE_SIZE) as u64);
        }
        end - start <= usize::MAX as u64
    }

    /// Whether a segment can be made of the header.
    pub fn fits(phdr: &ProgramHeader) -> (r: bool)
        ensures
            r == header_fits(*phdr),
    {
        let (start, end) = phdr.vm_range();
        let size: u64 = end - start;
        if size > usize::MAX as u64 {
            return false;
        }
        if size > u64::MAX - PAGE_SIZE || start > u64::MAX - PAGE_SIZE - size {
            return false;
        }
        let first: u64 = start & !0xFFFu64;
        let last: u64 = (start + size + PAGE_SIZE) & !0xFFFu64;
        proof {
            lemma_page_floor(start);
            lemma_page_floor((start + size + PAGE_SIZE) as u64);
        }
        last - first <= usize::MAX as u64
    }

    /// The segment that a program header describes, filled with zero bytes,
    /// for every header of which a segment can be made; `None` for any
    /// other. The header is only read.
    pub fn from_phdr(phdr: &ProgramHeader) -> (r: Option<Seg>)
        ensures
            segment_view(r) == segment_for(*phdr),
            r matches Some(seg) ==> seg.wf(),
    {
        if !Self::fits(phdr) {
            return None;
        }
        let (start, end) = phdr.vm_range();
        let size: usize = (end - start) as usize;
        let data: Vec<u8> = vec![0u8; size];
        assert(data@ =~= Seq::new(phdr.vm_size_spec() as nat, |i: int| 0u8));
        Some(
            Seg {
                addr: start,
                memsz: size,
                perm: phdr.perm(),
                segtype: SegType::new(phdr.p_type),
                data,
            },
        )
    }

    /// The start of the first page of the segment: the address with its
    /// twelve low bits cleared.
    pub fn aligned_start(&self) -> (r: u64)
        ensures
            r == self@.aligned_start(),
            r % 4096 == 0,
            r <= self.addr < r + 4096,
    {
        proof {
            lemma_page_floor(self.addr);
        }
        self.addr & !0xFFFu64
    }

    /// The end of the segment's pages: address, size and one page added,
    /// with the twelve low bits cleared.
    pub fn aligned_end(&self) -> (r: u64)
        requires
            self@.spans(),
        ensures
            r == self@.aligned_end(),
            r % 4096 == 0,
            self.addr + self.memsz + 1 <= r <= self.addr + self.memsz + 4096,
    {
        proof {
            lemma_page_floor((self.addr + self.memsz + PAGE_SIZE) as u64);
        }
        (self.addr + self.memsz as u64 + PAGE_SIZE) & !0xFFFu64
    }

    /// The number of bytes between the aligned bounds.
    pub fn aligned_size(&self) -> (r: usize)
        requires
            self@.spans(),
        ensures
            r == self@.aligned_size(),
            r == self@.aligned_end() - self@.aligned_start(),
            r % 4096 == 0,
            r >= 4096,
    {
        let start: u64 = self.aligned_start();
        let end: u64 = self.aligned_end();
        (end - start) as usize
    }

    /// Whether the segment is put into an emulator.
    pub fn loadable(&self) -> (r: bool)
        ensures
            r == (self.segtype == SegType::Load),
    {
        self.segtype.loadable()
    }
}

/// Making a segment is a function of the header: two outcomes of making a
/// segment of the same header are the same in address, size, permissions,
/// kind and every byte of content, or both are nothing.
pub proof fn lemma_from_phdr_identical(phdr: ProgramHeader, first: Option<Seg>, second: Option<Seg>)
    requires
        segment_view(first) == segment_for(phdr),
        segment_view(second) == segment_for(phdr),
    ensures
        segment_view(first) == segment_view(second),
        first.is_some() == second.is_some(),
        first matches Some(a) ==> second matches Some(b) && {
            &&& a.addr == b.addr
            &&& a.memsz == b.memsz
            &&& a.perm == b.perm
            &&& a.segtype == b.segtype
            &&& a.data@ == b.data@
        },
{
}

/// The aligned bounds of a segment are multiples of the page size, the start
/// is not above the segment's address, and the end lies above the segment's
/// last byte.
pub proof fn lemma_alignment(seg: SegView)
    requires
        seg.spans(),
    ensures
        seg.aligned_start() % 4096 == 0,
        seg.aligned_end() % 4096 == 0,
        seg.aligned_start() <= seg.addr,
        seg.aligned_end() >= seg.addr + seg.memsz + 1,
        seg.aligned_start() <= seg.addr < seg.aligned_end(),
        seg.aligned_end() <= seg.addr + seg.memsz + 4096,
        seg.aligned_end() - seg.aligned_start() >= 4096,
{
    lemma_page_floor(seg.addr);
    lemma_page_floor((seg.addr + seg.memsz + PAGE_SIZE) as u64);
}

} // verus!
