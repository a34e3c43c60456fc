//! The baseline memory image of a binary: its loadable segments with the
//! bytes of its sections in place, between a guard page at address zero and
//! a stack page after the last segment.

use crate::elf::{
    has_elf_magic, parse_headers, parsed_headers, starts_with_elf_magic, ElfHeaders,
    ProgramHeader, SectionHeader,
};
use crate::perm::Perm;
use crate::segment::{
    header_fits, lemma_page_floor, segment_of, Seg, SegType, SegView, PAGE_SIZE,
};
use vstd::prelude::*;

verus! {

/// The segments of one binary's address space, in order.
pub type MemImage = Vec<Seg>;

/// The size of the stack segment.
pub const STACK_SIZE: usize = 0x1000;

/// Why no image could be built of a buffer.
#[derive(Clone, Copy, Debug, PartialEq, Eq, Structural)]
pub enum LoadError {
    /// The buffer does not start with the ELF mark, or no ELF object could
    /// be parsed from it.
    Format,
    /// A loadable segment, or the stack after the last one, does not lie
    /// inside the address space with a page to spare, or is larger than the
    /// machine can hold.
    Range,
}

/// `n` zero bytes.
pub open spec fn zeros(n: nat) -> Seq<u8> {
    Seq::new(n, |i: int| 0u8)
}

/// The guard segment: one read-only page of zero bytes at address zero.
pub open spec fn guard_segment() -> SegView {
    SegView {
        addr: 0,
        memsz: 0x1000,
        perm: Perm { read: true, write: false, execute: false },
        segtype: SegType::Load,
        data: zeros(0x1000),
    }
}

/// The stack segment that starts at `bottom`: readable and writable, of the
/// stack size, filled with zero bytes.
pub open spec fn stack_segment(bottom: u64) -> SegView {
    SegView {
        addr: bottom,
        memsz: STACK_SIZE,
        perm: Perm { read: true, write: true, execute: false },
        segtype: SegType::Load,
        data: zeros(STACK_SIZE as nat),
    }
}

/// Whether a program header describes a loadable segment.
pub open spec fn is_load(phdr: ProgramHeader) -> bool {
    SegType::of_raw(phdr.p_type) == SegType::Load
}

/// The segments of the loadable program headers, in header order. Headers
/// of other kinds leave no segment.
pub open spec fn load_segments(phdrs: Seq<ProgramHeader>) -> Seq<SegView>
    decreases phdrs.len(),
{
    if phdrs.len() == 0 {
        Seq::empty()
    } else if is_load(phdrs.last()) {
        load_segments(phdrs.drop_last()).push(segment_of(phdrs.last()))
    } else {
        load_segments(phdrs.drop_last())
    }
}

/// Whether a segment can be made of every loadable header.
pub open spec fn headers_fit(phdrs: Seq<ProgramHeader>) -> bool {
    forall|i: int| 0 <= i < phdrs.len() && is_load(#[trigger] phdrs[i]) ==> header_fits(phdrs[i])
}

/// The index of the first segment at or after `from` whose aligned range
/// holds `address`.
pub open spec fn first_covering_from(segs: Seq<SegView>, address: u64, from: int) -> Option<int>
    decreases segs.len() - from,
{
    if from < 0 || from >= segs.len() {
        None
    } else if segs[from].covers(address) {
        Some(from)
    } else {
        first_covering_from(segs, address, from + 1)
    }
}

/// The index of the first segment whose aligned range holds `address`.
pub open spec fn first_covering(segs: Seq<SegView>, address: u64) -> Option<int> {
    first_covering_from(segs, address, 0)
}

/// `content` with `bytes` written over it from index `offset` on, where
/// `offset` may lie below zero. Bytes that would fall before the start or
/// behind the end of the content are left out; the length stays.
pub open spec fn overlay(content: Seq<u8>, offset: int, bytes: Seq<u8>) -> Seq<u8> {
    Seq::new(
        content.len(),
        |i: int|
            if offset <= i < offset + bytes.len() {
                bytes[i - offset]
            } else {
                content[i]
            },
    )
}

/// A segment with `bytes` written into its content, the first of them for
/// `address`: the byte for an address goes to the index that is the distance
/// of the address from the segment's own address. Bytes for addresses below
/// the segment's address, or behind its content, are left out.
pub open spec fn with_bytes_at(seg: SegView, address: u64, bytes: Seq<u8>) -> SegView {
    SegView { data: overlay(seg.data, address - seg.addr, bytes), ..seg }
}

/// The segments after one section has been put in place: the bytes that the
/// file holds of the section go into the content of the first segment whose
/// aligned range holds the section's address, so that the content keeps
/// holding at index `i` the byte for the segment's address plus `i`. Where
/// no segment holds the section's address, nothing changes.
pub open spec fn place_section(segs: Seq<SegView>, shdr: SectionHeader, file: Seq<u8>) -> Seq<
    SegView,
> {
    match first_covering(segs, shdr.sh_addr) {
        Some(k) => segs.update(k, with_bytes_at(segs[k], shdr.sh_addr, shdr.file_bytes(file))),
        None => segs,
    }
}

/// The segments after all sections have been put in place, in header order,
/// so that of two sections that claim one byte the later one wins.
pub open spec fn place_sections(segs: Seq<SegView>, shdrs: Seq<SectionHeader>, file: Seq<u8>) -> Seq<
    SegView,
>
    decreases shdrs.len(),
{
    if shdrs.len() == 0 {
        segs
    } else {
        place_section(place_sections(segs, shdrs.drop_last(), file), shdrs.last(), file)
    }
}

/// The highest aligned end among the segments, zero where there are none.
pub open spec fn highest_end(segs: Seq<SegView>) -> u64
    decreases segs.len(),
{
    if segs.len() == 0 {
        0
    } else if segs.last().aligned_end() > highest_end(segs.drop_last()) {
        segs.last().aligned_end()
    } else {
        highest_end(segs.drop_last())
    }
}

/// The image before the stack is added: the guard segment, then the
/// loadable segments, with the sections in place.
pub open spec fn unstacked(
    phdrs: Seq<ProgramHeader>,
    shdrs: Seq<SectionHeader>,
    file: Seq<u8>,
) -> Seq<SegView> {
    place_sections(seq![guard_segment()] + load_segments(phdrs), shdrs, file)
}

/// Whether a stack that starts at `bottom` lies inside the address space
/// with a page to spare.
pub open spec fn stack_fits(bottom: u64) -> bool {
    bottom + STACK_SIZE + PAGE_SIZE <= u64::MAX
}

/// The baseline image: the guard segment, the loadable segments in header
/// order with the sections in place, and the stack segment, which starts
/// where the highest of the others ends.
pub open spec fn baseline(
    phdrs: Seq<ProgramHeader>,
    shdrs: Seq<SectionHeader>,
    file: Seq<u8>,
) -> Seq<SegView> {
    let segs = unstacked(phdrs, shdrs, file);
    segs.push(stack_segment(highest_end(segs)))
}

/// What building an image of the header tables gives: the baseline, or the
/// error `Range` where a loadable header or the stack does not fit.
pub open spec fn image_of(
    phdrs: Seq<ProgramHeader>,
    shdrs: Seq<SectionHeader>,
    file: Seq<u8>,
) -> Result<Seq<SegView>, LoadError> {
    if headers_fit(phdrs) && stack_fits(highest_end(unstacked(phdrs, shdrs, file))) {
        Ok(baseline(phdrs, shdrs, file))
    } else {
        Err(LoadError::Range)
    }
}

/// What building an image of a buffer gives: the error `Format` where the
/// buffer does not start with the ELF mark or no ELF object is parsed from
/// it, else what its header tables give.
pub open spec fn image_of_buffer(file: Seq<u8>) -> Result<Seq<SegView>, LoadError> {
    if !has_elf_magic(file) {
        Err(LoadError::Format)
    } else {
        match parsed_headers(file) {
            Some((phdrs, shdrs)) => image_of(phdrs, shdrs, file),
            None => Err(LoadError::Format),
        }
    }
}

/// An outcome of building as a mathematical value.
pub open spec fn outcome_view(r: Result<MemImage, LoadError>) -> Result<Seq<SegView>, LoadError> {
    match r {
        Ok(image) => Ok(image.deep_view()),
        Err(e) => Err(e),
    }
}

/// Whether every segment of an image is well formed.
pub open spec fn all_wf(segs: Seq<SegView>) -> bool {
    forall|i: int| 0 <= i < segs.len() ==> (#[trigger] segs[i]).wf()
}

/// The first segment that holds an address does hold it, and none before
/// it does; where there is none, no segment holds the address.
pub proof fn lemma_first_covering(segs: Seq<SegView>, address: u64, from: int)
    requires
        0 <= from,
    ensures
        match first_covering_from(segs, address, from) {
            Some(k) => {
                &&& from <= k < segs.len()
                &&& segs[k].covers(address)
                &&& forall|j: int| from <= j < k ==> !(#[trigger] segs[j]).covers(address)
            },
            None => forall|j: int| from <= j < segs.len() ==> !(#[trigger] segs[j]).covers(address),
        },
    decreases segs.len() - from,
{
    if from < segs.len() && !segs[from].covers(address) {
        lemma_first_covering(segs, address, from + 1);
    }
}

/// Whether every segment of an image is well formed.
pub fn image_is_wf(image: &MemImage) -> (r: bool)
    ensures
        r == all_wf(image.deep_view()),
{
    let mut i: usize = 0;
    while i < image.len()
        invariant
            i <= image.len(),
            forall|j: int| 0 <= j < i ==> (#[trigger] image.deep_view()[j]).wf(),
        decreases image.len() - i,
    {
        let seg = &image[i];
        assert(seg@ == image.deep_view()[i as int]);
        if !seg.is_wf() {
            return false;
        }
        i += 1;
    }
    true
}

/// One read-only page of zero bytes at address zero.
pub fn guard() -> (seg: Seg)
    ensures
        seg@ == guard_segment(),
        seg.wf(),
{
    let data: Vec<u8> = vec![0u8; 0x1000];
    assert(data@ =~= zeros(0x1000));
    let seg = Seg {
        addr: 0,
        memsz: 0x1000,
        perm: Perm { read: true, write: false, execute: false },
        segtype: SegType::Load,
        data,
    };
    proof {
        lemma_page_floor(0);
        lemma_page_floor(0x2000);
    }
    seg
}

/// One readable and writable stack of zero bytes that starts at `bottom`.
pub fn stack(bottom: u64) -> (seg: Seg)
    requires
        stack_fits(bottom),
    ensures
        seg@ == stack_segment(bottom),
        seg.wf(),
{
    let data: Vec<u8> = vec![0u8; STACK_SIZE];
    assert(data@ =~= zeros(STACK_SIZE as nat));
    let seg = Seg {
        addr: bottom,
        memsz: STACK_SIZE,
        perm: Perm { read: true, write: true, execute: false },
        segtype: SegType::Load,
        data,
    };
    proof {
        lemma_page_floor(bottom);
        lemma_page_floor((bottom + STACK_SIZE + PAGE_SIZE) as u64);
    }
    seg
}

/// The index of the first segment whose aligned range holds `address`.
pub fn find_covering(segs: &Vec<Seg>, address: u64) -> (r: Option<usize>)
    requires
        all_wf(segs.deep_view()),
    ensures
        match r {
            Some(k) => first_covering(segs.deep_view(), address) == Some(k as int) && k < segs.len(),
            None => first_covering(segs.deep_view(), address).is_none(),
        },
{
    let mut i: usize = 0;
    while i < segs.len()
        invariant
            i <= segs.len(),
            all_wf(segs.deep_view()),
            first_covering(segs.deep_view(), address) == first_covering_from(
                segs.deep_view(),
                address,
                i as int,
            ),
        decreases segs.len() - i,
    {
        let seg = &segs[i];
        assert(seg@ == segs.deep_view()[i as int]);
        assert(seg@.wf());
        if seg.aligned_start() <= address && address < seg.aligned_end() {
            return Some(i);
        }
        i += 1;
    }
    None
}

/// Writes the bytes `file[start..end]`, the first of which belongs to
/// `address`, over a content whose first byte belongs to `base`, as far as
/// the content reaches.
fn write_bytes(
    content: &mut Vec<u8>,
    base: u64,
    address: u64,
    file: &[u8],
    start: usize,
    end: usize,
)
    requires
        start <= end <= file@.len(),
    ensures
        final(content)@ == overlay(
            old(content)@,
            address - base,
            file@.subrange(start as int, end as int),
        ),
{
    let len: usize = content.len();
    let ghost bytes = file@.subrange(start as int, end as int);
    let mut first: usize = 0;
    let mut from: usize = start;
    if address >= base {
        let offset: u64 = address - base;
        if offset >= len as u64 {
            assert(content@ =~= overlay(content@, address - base, bytes));
            return;
        }
        first = offset as usize;
    } else {
        let skip: u64 = base - address;
        if skip >= (end - start) as u64 {
            assert(content@ =~= overlay(content@, address - base, bytes));
            return;
        }
        from = start + skip as usize;
    }
    let room: usize = len - first;
    let count: usize = if end - from < room {
        end - from
    } else {
        room
    };
    let mut j: usize = 0;
    while j < count
        invariant
            j <= count,
            count <= end - from,
            count <= len - first,
            start <= from <= end <= file@.len(),
            content@.len() == len,
            old(content)@.len() == len,
            forall|i: int|
                0 <= i < len ==> content@[i] == if first <= i < first + j {
                    file@[from + i - first]
                } else {
                    old(content)@[i]
                },
        decreases count - j,
    {
        content.set(first + j, file[from + j]);
        j += 1;
    }
    assert(first - from == address - base - start);
    assert(content@ =~= overlay(old(content)@, address - base, bytes));
}

/// Puts one section in place: the bytes that the file holds of it go into
/// the first segment whose aligned range holds the section's address, each
/// to the index that is the distance of its address from the segment's.
pub fn place(segs: &mut Vec<Seg>, shdr: &SectionHeader, file: &[u8])
    requires
        all_wf(old(segs).deep_view()),
    ensures
        final(segs).deep_view() == place_section(old(segs).deep_view(), *shdr, file@),
        all_wf(final(segs).deep_view()),
{
    let len: usize = file.len();
    let start: usize = if shdr.sh_offset <= len as u64 {
        shdr.sh_offset as usize
    } else {
        len
    };
    let end: usize = if shdr.sh_size <= (len - start) as u64 {
        start + shdr.sh_size as usize
    } else {
        len
    };
    assert(start == shdr.file_start(file@.len()));
    assert(end == shdr.file_end(file@.len()));
    match find_covering(segs, shdr.sh_addr) {
        Some(k) => {
            let ghost before = segs.deep_view();
            let seg = &mut segs[k];
            assert(seg@ == before[k as int]);
            let base: u64 = seg.addr;
            write_bytes(&mut seg.data, base, shdr.sh_addr, file, start, end);
            assert(segs.deep_view() =~= place_section(before, *shdr, file@));
        },
        None => {},
    }
}

/// The highest aligned end among the segments, zero where there are none.
pub fn bottom_of(segs: &Vec<Seg>) -> (bottom: u64)
    requires
        all_wf(segs.deep_view()),
    ensures
        bottom == highest_end(segs.deep_view()),
{
    let mut bottom: u64 = 0;
    let mut i: usize = 0;
    while i < segs.len()
        invariant
            i <= segs.len(),
            all_wf(segs.deep_view()),
            bottom == highest_end(segs.deep_view().take(i as int)),
        decreases segs.len() - i,
    {
        let seg = &segs[i];
        assert(seg@ == segs.deep_view()[i as int]);
        assert(segs.deep_view().take(i + 1).drop_last() =~= segs.deep_view().take(i as int));
        let b: u64 = seg.aligned_end();
        if b > bottom {
            bottom = b;
        }
        i += 1;
    }
    assert(segs.deep_view().take(segs.len() as int) =~= segs.deep_view());
    bottom
}

/// Builds the baseline image of the header tables of a binary and the file
/// that holds its sections.
pub fn image_from_headers(headers: &ElfHeaders, file: &[u8]) -> (r: Result<MemImage, LoadError>)
    ensures
        outcome_view(r) == image_of(headers.program_headers@, headers.section_headers@, file@),
        r matches Ok(image) ==> all_wf(image.deep_view()),
{
    let phdrs = &headers.program_headers;
    let shdrs = &headers.section_headers;
    let mut segs: Vec<Seg> = Vec::new();
    segs.push(guard());
    assert(segs.deep_view() =~= seq![guard_segment()] + load_segments(phdrs@.take(0)));
    let mut i: usize = 0;
    while i < phdrs.len()
        invariant
            i <= phdrs.len(),
            phdrs == &headers.program_headers,
            all_wf(segs.deep_view()),
            segs.deep_view() == seq![guard_segment()] + load_segments(phdrs@.take(i as int)),
            forall|j: int| 0 <= j < i && is_load(#[trigger] phdrs@[j]) ==> header_fits(phdrs@[j]),
        decreases phdrs.len() - i,
    {
        let phdr = &phdrs[i];
        assert(phdrs@.take(i + 1).drop_last() =~= phdrs@.take(i as int));
        if SegType::new(phdr.p_type).loadable() {
            let ghost before = segs.deep_view();
            match Seg::from_phdr(phdr) {
                Some(seg) => {
                    segs.push(seg);
                },
                None => {
                    assert(is_load(phdrs@[i as int]) && !header_fits(phdrs@[i as int]));
                    return Err(LoadError::Range);
                },
            }
            assert(segs.deep_view() =~= before.push(segment_of(*phdr)));
            assert(segs.deep_view() =~= seq![guard_segment()] + load_segments(
                phdrs@.take(i + 1),
            ));
        }
        i += 1;
    }
    assert(phdrs@.take(phdrs.len() as int) =~= phdrs@);
    let ghost loaded = segs.deep_view();
    let mut k: usize = 0;
    while k < shdrs.len()
        invariant
            k <= shdrs.len(),
            all_wf(segs.deep_view()),
            segs.deep_view() == place_sections(loaded, shdrs@.take(k as int), file@),
        decreases shdrs.len() - k,
    {
        assert(shdrs@.take(k + 1).drop_last() =~= shdrs@.take(k as int));
        place(&mut segs, &shdrs[k], file);
        k += 1;
    }
    assert(shdrs@.take(shdrs.len() as int) =~= shdrs@);
    let bottom: u64 = bottom_of(&segs);
    if bottom > u64::MAX - PAGE_SIZE - STACK_SIZE as u64 {
        return Err(LoadError::Range);
    }
    let ghost placed = segs.deep_view();
    segs.push(stack(bottom));
    assert(segs.deep_view() =~= placed.push(stack_segment(bottom)));
    Ok(segs)
}

/// Builds the baseline image of a binary from the bytes of its file. A
/// buffer that does not start with the ELF mark is refused before any
/// parser sees it.
pub fn mem_image(file: &[u8]) -> (r: Result<MemImage, LoadError>)
    ensures
        outcome_view(r) == image_of_buffer(file@),
        r matches Ok(image) ==> all_wf(image.deep_view()),
{
    if !starts_with_elf_magic(file) {
        return Err(LoadError::Format);
    }
    match parse_headers(file) {
        Some(headers) => image_from_headers(&headers, file),
        None => Err(LoadError::Format),
    }
}

} // verus!
