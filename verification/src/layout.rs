//! What holds of every baseline image: the shape of its segments, the place
//! of the guard page and of the stack, and that building is a function of
//! the buffer.

use crate::elf::{ProgramHeader, SectionHeader};
use crate::image::{
    all_wf, baseline, first_covering, guard_segment, headers_fit, highest_end, image_of,
    image_of_buffer, is_load, lemma_first_covering, load_segments, outcome_view, place_section,
    place_sections, stack_segment, unstacked, LoadError, MemImage,
};
use crate::lookup::{last_covering, lemma_last_covering, static_read};
use crate::mapping::{image_steps, lemma_image_steps, mapping_of, LoadStep};
use crate::segment::{
    header_fits, lemma_alignment, lemma_page_floor, segment_of, SegType, SegView,
};
use vstd::prelude::*;

verus! {

/// Whether two segments differ in their content's bytes at most: address,
/// size, permissions, kind and the content's length are the same.
pub open spec fn same_frame(a: SegView, b: SegView) -> bool {
    &&& a.addr == b.addr
    &&& a.memsz == b.memsz
    &&& a.perm == b.perm
    &&& a.segtype == b.segtype
    &&& a.data.len() == b.data.len()
}

/// Whether two lists of segments differ in their contents' bytes at most.
pub open spec fn same_frames(a: Seq<SegView>, b: Seq<SegView>) -> bool {
    &&& a.len() == b.len()
    &&& forall|i: int| 0 <= i < a.len() ==> same_frame(#[trigger] a[i], b[i])
}

/// Putting a section in place changes bytes of contents only.
pub proof fn lemma_place_section_frames(segs: Seq<SegView>, shdr: SectionHeader, file: Seq<u8>)
    ensures
        same_frames(segs, place_section(segs, shdr, file)),
{
    lemma_first_covering(segs, shdr.sh_addr, 0);
}

/// Putting sections in place changes bytes of contents only.
pub proof fn lemma_place_sections_frames(
    segs: Seq<SegView>,
    shdrs: Seq<SectionHeader>,
    file: Seq<u8>,
)
    ensures
        same_frames(segs, place_sections(segs, shdrs, file)),
    decreases shdrs.len(),
{
    if shdrs.len() > 0 {
        let before = place_sections(segs, shdrs.drop_last(), file);
        lemma_place_sections_frames(segs, shdrs.drop_last(), file);
        lemma_place_section_frames(before, shdrs.last(), file);
        let after = place_section(before, shdrs.last(), file);
        assert forall|i: int| 0 <= i < segs.len() implies same_frame(#[trigger] segs[i], after[i]) by {
            assert(same_frame(segs[i], before[i]));
            assert(same_frame(before[i], after[i]));
        }
    }
}

/// Every segment made of a loadable header that fits is a well-formed
/// `Load` segment.
pub proof fn lemma_load_segments(phdrs: Seq<ProgramHeader>)
    requires
        headers_fit(phdrs),
    ensures
        all_wf(load_segments(phdrs)),
        forall|i: int|
            0 <= i < load_segments(phdrs).len() ==> (#[trigger] load_segments(phdrs)[i]).segtype
                == SegType::Load,
        forall|i: int|
            0 <= i < load_segments(phdrs).len() ==> exists|j: int|
                0 <= j < phdrs.len() && is_load(phdrs[j]) && (#[trigger] load_segments(phdrs)[i])
                    == segment_of(phdrs[j]),
    decreases phdrs.len(),
{
    if phdrs.len() > 0 {
        let rest = phdrs.drop_last();
        assert forall|i: int| 0 <= i < rest.len() && is_load(#[trigger] rest[i]) implies header_fits(
            rest[i],
        ) by {
            assert(rest[i] == phdrs[i]);
        }
        lemma_load_segments(rest);
        let segs = load_segments(phdrs);
        assert forall|i: int| 0 <= i < segs.len() implies exists|j: int|
            0 <= j < phdrs.len() && is_load(phdrs[j]) && (#[trigger] segs[i]) == segment_of(
                phdrs[j],
            ) by {
            if i < load_segments(rest).len() {
                let j = choose|j: int|
                    0 <= j < rest.len() && is_load(rest[j]) && load_segments(rest)[i] == segment_of(
                        rest[j],
                    );
                assert(rest[j] == phdrs[j]);
            } else {
                assert(is_load(phdrs[phdrs.len() - 1]));
            }
        }
        if is_load(phdrs.last()) {
            assert(phdrs[phdrs.len() - 1] == phdrs.last());
            assert(segment_of(phdrs.last()).wf());
        }
    }
}

/// The highest aligned end is not below any segment's aligned end, and it
/// is the aligned end of one of the segments unless there are none.
pub proof fn lemma_highest_end(segs: Seq<SegView>)
    ensures
        forall|i: int| 0 <= i < segs.len() ==> (#[trigger] segs[i]).aligned_end() <= highest_end(segs),
        segs.len() > 0 ==> exists|i: int|
            0 <= i < segs.len() && (#[trigger] segs[i]).aligned_end() == highest_end(segs),
        segs.len() == 0 ==> highest_end(segs) == 0,
    decreases segs.len(),
{
    if segs.len() > 0 {
        let rest = segs.drop_last();
        lemma_highest_end(rest);
        assert forall|i: int| 0 <= i < segs.len() implies (#[trigger] segs[i]).aligned_end()
            <= highest_end(segs) by {
            if i < rest.len() {
                assert(rest[i] == segs[i]);
            }
        }
        if segs.last().aligned_end() > highest_end(rest) || rest.len() == 0 {
            assert(segs[segs.len() - 1].aligned_end() == highest_end(segs));
        } else {
            let i = choose|i: int|
                0 <= i < rest.len() && (#[trigger] rest[i]).aligned_end() == highest_end(rest);
            assert(rest[i] == segs[i]);
            assert(segs[i].aligned_end() == highest_end(segs));
        }
    }
}

/// Every segment of a baseline image is a well-formed `Load` segment, so
/// the alignment facts hold of each: both aligned bounds are multiples of
/// the page size, the start is not above the address, and the end is above
/// the last byte.
pub proof fn lemma_baseline_segments(
    phdrs: Seq<ProgramHeader>,
    shdrs: Seq<SectionHeader>,
    file: Seq<u8>,
)
    requires
        image_of(phdrs, shdrs, file).is_ok(),
    ensures
        all_wf(baseline(phdrs, shdrs, file)),
        forall|i: int|
            0 <= i < baseline(phdrs, shdrs, file).len() ==> {
                let seg = #[trigger] baseline(phdrs, shdrs, file)[i];
                &&& seg.segtype == SegType::Load
                &&& seg.aligned_start() % 4096 == 0
                &&& seg.aligned_end() % 4096 == 0
                &&& seg.aligned_start() <= seg.addr
                &&& seg.aligned_end() >= seg.addr + seg.memsz + 1
            },
{
    let loaded = seq![guard_segment()] + load_segments(phdrs);
    let placed = unstacked(phdrs, shdrs, file);
    let image = baseline(phdrs, shdrs, file);
    lemma_load_segments(phdrs);
    lemma_place_sections_frames(loaded, shdrs, file);
    lemma_page_floor(0);
    lemma_page_floor(0x2000);
    let bottom = highest_end(placed);
    lemma_page_floor(bottom);
    lemma_page_floor((bottom + 0x2000) as u64);
    assert(guard_segment().wf());
    assert forall|i: int| 0 <= i < image.len() implies {
        let seg = #[trigger] image[i];
        &&& seg.wf()
        &&& seg.segtype == SegType::Load
        &&& seg.aligned_start() % 4096 == 0
        &&& seg.aligned_end() % 4096 == 0
        &&& seg.aligned_start() <= seg.addr
        &&& seg.aligned_end() >= seg.addr + seg.memsz + 1
    } by {
        if i < placed.len() {
            assert(same_frame(loaded[i], placed[i]));
            if i > 0 {
                assert(loaded[i] == load_segments(phdrs)[i - 1]);
            }
            assert(loaded[i].wf());
        } else {
            assert(image[i] == stack_segment(bottom));
        }
        lemma_alignment(image[i]);
    }
}

/// The guard page heads every baseline image: a read-only `Load` segment
/// at address zero that covers address zero with at least one page. Where
/// no loadable header starts in the first page of the address space, it is
/// the only segment that covers address zero.
pub proof fn lemma_guard_page(phdrs: Seq<ProgramHeader>, shdrs: Seq<SectionHeader>, file: Seq<u8>)
    requires
        image_of(phdrs, shdrs, file).is_ok(),
    ensures
        baseline(phdrs, shdrs, file).len() >= 2,
        same_frame(baseline(phdrs, shdrs, file)[0], guard_segment()),
        baseline(phdrs, shdrs, file)[0].covers(0),
        baseline(phdrs, shdrs, file)[0].aligned_size() >= 4096,
        (forall|j: int| 0 <= j < phdrs.len() && is_load(#[trigger] phdrs[j]) ==> phdrs[j].p_vaddr >= 4096)
            ==> forall|i: int|
            0 < i < baseline(phdrs, shdrs, file).len() ==> !(#[trigger] baseline(
                phdrs,
                shdrs,
                file,
            )[i]).covers(0),
{
    let loaded = seq![guard_segment()] + load_segments(phdrs);
    let placed = unstacked(phdrs, shdrs, file);
    let image = baseline(phdrs, shdrs, file);
    lemma_load_segments(phdrs);
    lemma_place_sections_frames(loaded, shdrs, file);
    lemma_page_floor(0);
    lemma_page_floor(0x2000);
    assert(same_frame(loaded[0], placed[0]));
    assert(image[0] == placed[0]);
    let bottom = highest_end(placed);
    lemma_highest_end(placed);
    assert(placed[0].aligned_end() <= bottom);
    lemma_page_floor(bottom);
    if forall|j: int| 0 <= j < phdrs.len() && is_load(#[trigger] phdrs[j]) ==> phdrs[j].p_vaddr >= 4096 {
        assert forall|i: int| 0 < i < image.len() implies !(#[trigger] image[i]).covers(0) by {
            if i < placed.len() {
                assert(same_frame(loaded[i], placed[i]));
                let seg = load_segments(phdrs)[i - 1];
                assert(loaded[i] == seg);
                let j = choose|j: int|
                    0 <= j < phdrs.len() && is_load(phdrs[j]) && seg == segment_of(phdrs[j]);
                assert(phdrs[j].p_vaddr >= 4096);
                lemma_page_floor(seg.addr);
            } else {
                assert(image[i] == stack_segment(bottom));
            }
        }
    }
}

/// The stack ends every baseline image and starts, on a page boundary,
/// where the highest of the other segments ends: no other segment reaches
/// beyond its start, and one of them ends exactly there.
pub proof fn lemma_stack_placement(
    phdrs: Seq<ProgramHeader>,
    shdrs: Seq<SectionHeader>,
    file: Seq<u8>,
)
    requires
        image_of(phdrs, shdrs, file).is_ok(),
    ensures
        ({
            let image = baseline(phdrs, shdrs, file);
            let others = image.drop_last();
            let stack = image.last();
            &&& stack == stack_segment(highest_end(others))
            &&& stack.aligned_start() == stack.addr
            &&& stack.aligned_start() == highest_end(others)
            &&& forall|i: int|
                0 <= i < others.len() ==> (#[trigger] others[i]).aligned_end() <= stack.aligned_start()
            &&& exists|i: int|
                0 <= i < others.len() && (#[trigger] others[i]).aligned_end() == stack.aligned_start()
        }),
{
    let placed = unstacked(phdrs, shdrs, file);
    let image = baseline(phdrs, shdrs, file);
    let bottom = highest_end(placed);
    assert(image.drop_last() =~= placed);
    lemma_place_sections_frames(seq![guard_segment()] + load_segments(phdrs), shdrs, file);
    lemma_highest_end(placed);
    let i = choose|i: int| 0 <= i < placed.len() && (#[trigger] placed[i]).aligned_end() == bottom;
    lemma_page_floor((placed[i].addr + placed[i].memsz + 0x1000) as u64);
    lemma_page_floor(bottom);
}

/// Which segment holds an address depends on the frames of the segments
/// only.
pub proof fn lemma_covering_frames(a: Seq<SegView>, b: Seq<SegView>, address: u64)
    requires
        same_frames(a, b),
    ensures
        last_covering(a, address) == last_covering(b, address),
        forall|i: int| 0 <= i < a.len() ==> (#[trigger] a[i]).covers(address) == b[i].covers(address),
    decreases a.len(),
{
    assert forall|i: int| 0 <= i < a.len() implies (#[trigger] a[i]).covers(address) == b[i].covers(
        address,
    ) by {
        assert(same_frame(a[i], b[i]));
    }
    if a.len() > 0 {
        assert(same_frame(a[a.len() - 1], b[b.len() - 1]));
        assert forall|i: int| 0 <= i < a.drop_last().len() implies same_frame(
            #[trigger] a.drop_last()[i],
            b.drop_last()[i],
        ) by {
            assert(same_frame(a[i], b[i]));
        }
        lemma_covering_frames(a.drop_last(), b.drop_last(), address);
    }
}

/// What is put in place is read back: where one segment is both the first
/// and the last whose aligned range holds the address of a section, the
/// section does not start below the segment's address, and the segment's
/// content has room for the bytes that the file holds of the section, a
/// static read at that address, once the section is in place, gives those
/// bytes.
pub proof fn lemma_placed_section_is_read_back(
    segs: Seq<SegView>,
    shdr: SectionHeader,
    file: Seq<u8>,
    k: int,
)
    requires
        first_covering(segs, shdr.sh_addr) == Some(k),
        last_covering(segs, shdr.sh_addr) == Some(k),
        segs[k].addr <= shdr.sh_addr,
        shdr.sh_addr + shdr.file_bytes(file).len() <= segs[k].addr + segs[k].data.len(),
    ensures
        static_read(
            place_section(segs, shdr, file),
            shdr.sh_addr,
            shdr.file_bytes(file).len(),
        ) == Some(shdr.file_bytes(file)),
{
    let placed = place_section(segs, shdr, file);
    let bytes = shdr.file_bytes(file);
    lemma_first_covering(segs, shdr.sh_addr, 0);
    lemma_place_section_frames(segs, shdr, file);
    lemma_covering_frames(segs, placed, shdr.sh_addr);
    assert(same_frame(segs[k], placed[k]));
    let offset = shdr.sh_addr - segs[k].addr;
    assert(placed[k].data.subrange(offset, offset + bytes.len()) =~= bytes);
    assert(bytes.len() == 0 ==> bytes =~= Seq::<u8>::empty());
}

/// What a static read gives is what loading puts into memory: the byte
/// that a read returns for an address is the byte of the selected
/// segment's content that the write step for that segment, which writes
/// the content from the segment's address on, puts at that address.
pub proof fn lemma_static_read_is_what_is_loaded(segs: Seq<SegView>, address: u64, size: nat, k: int)
    requires
        all_wf(segs),
        last_covering(segs, address) == Some(k),
        static_read(segs, address, size).is_some(),
    ensures
        image_steps(segs)[2 * k + 1] == (LoadStep::WriteSegment {
            address: segs[k].addr,
            index: k as usize,
        }),
        forall|i: int|
            0 <= i < size ==> {
                &&& 0 <= address + i - segs[k].addr < segs[k].data.len()
                &&& static_read(segs, address, size).unwrap()[i] == segs[k].data[address + i
                    - segs[k].addr]
            },
{
    lemma_last_covering(segs, address);
    lemma_image_steps(segs);
}

/// The pages of the stack lie behind the pages of every other segment of a
/// baseline image, so mapping the stack never runs into them.
pub proof fn lemma_stack_pages_are_free(
    phdrs: Seq<ProgramHeader>,
    shdrs: Seq<SectionHeader>,
    file: Seq<u8>,
)
    requires
        image_of(phdrs, shdrs, file).is_ok(),
    ensures
        ({
            let image = baseline(phdrs, shdrs, file);
            let stack = mapping_of(image.last());
            forall|i: int|
                0 <= i < image.len() - 1 ==> {
                    let other = mapping_of(#[trigger] image[i]);
                    other.address + other.size <= stack.address
                }
        }),
{
    let image = baseline(phdrs, shdrs, file);
    lemma_stack_placement(phdrs, shdrs, file);
    lemma_baseline_segments(phdrs, shdrs, file);
    assert forall|i: int| 0 <= i < image.len() - 1 implies {
        let other = mapping_of(#[trigger] image[i]);
        other.address + other.size <= mapping_of(image.last()).address
    } by {
        assert(image.drop_last()[i] == image[i]);
        assert(image[i].wf());
        lemma_alignment(image[i]);
    }
}

/// Building is a function of the buffer: two outcomes of building an image
/// of the same bytes are the same, segment for segment and byte for byte,
/// or the same error.
pub proof fn lemma_rebuild_identical(
    file: Seq<u8>,
    first: Result<MemImage, LoadError>,
    second: Result<MemImage, LoadError>,
)
    requires
        outcome_view(first) == image_of_buffer(file),
        outcome_view(second) == image_of_buffer(file),
    ensures
        outcome_view(first) == outcome_view(second),
        first.is_ok() == second.is_ok(),
        first matches Ok(a) ==> second matches Ok(b) && a.deep_view() == b.deep_view(),
{
}

} // verus!
