//! What a fresh engine is asked to map: the pages of each segment of an
//! image, or of each region of a session that is copied.

use crate::arch::{Arch, Backend, EngineMode};
use crate::engine::EngineError;
use crate::image::{all_wf, MemImage};
use crate::perm::Perm;
use crate::region::{regions_wf, MemRegion};
use crate::segment::{lemma_alignment, Seg, SegView};
use vstd::prelude::*;

verus! {

/// One request to map pages: where, how many bytes, and with what
/// permissions.
#[derive(Clone, Copy, Debug, PartialEq, Eq, Structural)]
pub struct Mapping {
    pub address: u64,
    pub size: usize,
    pub perms: Perm,
}

impl Mapping {
    /// Whether an engine takes the request as to its shape: it starts on a
    /// page boundary and is a whole number of pages, at least one.
    pub open spec fn page_aligned(self) -> bool {
        self.address % 4096 == 0 && self.size % 4096 == 0 && self.size >= 4096
    }

    /// Whether the pages hold the `len` addresses from `address` on.
    pub open spec fn holds(self, address: u64, len: nat) -> bool {
        self.address <= address && address + len <= self.address + self.size
    }
}

/// The pages of a segment: its aligned range, with its permissions.
pub open spec fn mapping_of(seg: SegView) -> Mapping {
    Mapping { address: seg.aligned_start(), size: seg.aligned_size(), perms: seg.perm }
}

/// The pages of a live region: the region itself, with its permissions.
pub open spec fn mapping_of_region(region: MemRegion) -> Mapping {
    Mapping { address: region.begin, size: region.size_spec(), perms: region.perms }
}

/// One thing that is asked of a fresh engine to bring an image into its
/// memory.
#[derive(Clone, Copy, Debug, PartialEq, Eq, Structural)]
pub enum LoadStep {
    /// Map pages.
    MapPages(Mapping),
    /// Write the content of the segment at `index` of the image to
    /// `address`.
    WriteSegment { address: u64, index: usize },
}

/// One thing that is asked of a fresh engine to make it a copy of a live
/// session.
#[derive(Clone, Copy, Debug, PartialEq, Eq, Structural)]
pub enum CopyStep {
    /// Map pages.
    MapPages(Mapping),
    /// Read `size` bytes at `address` out of the session that is copied, and
    /// write them to the same address.
    CopyBytes { address: u64, size: usize },
}

/// What the initializer asks of a fresh engine: a backend in a mode, and
/// the steps that bring an image into its memory.
#[derive(Clone, Debug, PartialEq, Eq)]
pub struct InitPlan {
    pub backend: Backend,
    pub mode: EngineMode,
    pub steps: Vec<LoadStep>,
}

/// The steps that bring a list of segments into memory: for each segment in
/// order, first its pages are mapped, then its content is written at its own
/// address.
pub open spec fn image_steps(segs: Seq<SegView>) -> Seq<LoadStep>
    decreases segs.len(),
{
    if segs.len() == 0 {
        Seq::empty()
    } else {
        image_steps(segs.drop_last()).push(LoadStep::MapPages(mapping_of(segs.last()))).push(
            LoadStep::WriteSegment { address: segs.last().addr, index: (segs.len() - 1) as usize },
        )
    }
}

/// The steps that copy the regions of a live session: for each region in
/// order, first it is mapped, then its bytes are copied.
pub open spec fn copy_steps(regions: Seq<MemRegion>) -> Seq<CopyStep>
    decreases regions.len(),
{
    if regions.len() == 0 {
        Seq::empty()
    } else {
        copy_steps(regions.drop_last()).push(
            CopyStep::MapPages(mapping_of_region(regions.last())),
        ).push(
            CopyStep::CopyBytes { address: regions.last().begin, size: regions.last().size_spec() },
        )
    }
}

/// The pages of a segment.
pub fn segment_mapping(seg: &Seg) -> (r: Mapping)
    requires
        seg@.spans(),
    ensures
        r == mapping_of(seg@),
        r.page_aligned(),
        r.holds(seg.addr, seg.memsz as nat),
{
    proof {
        lemma_alignment(seg@);
    }
    Mapping { address: seg.aligned_start(), size: seg.aligned_size(), perms: seg.perm }
}

/// The pages of a live region.
pub fn region_mapping(region: &MemRegion) -> (r: Mapping)
    requires
        region.wf(),
    ensures
        r == mapping_of_region(*region),
        r.holds(region.begin, (region.end - region.begin) as nat),
{
    Mapping { address: region.begin, size: region.size(), perms: region.perms }
}

/// The steps that bring an image into the memory of a fresh engine.
pub fn image_plan(image: &MemImage) -> (r: Vec<LoadStep>)
    requires
        all_wf(image.deep_view()),
    ensures
        r@ == image_steps(image.deep_view()),
{
    let mut out: Vec<LoadStep> = Vec::new();
    let mut i: usize = 0;
    while i < image.len()
        invariant
            i <= image.len(),
            all_wf(image.deep_view()),
            out@ == image_steps(image.deep_view().take(i as int)),
        decreases image.len() - i,
    {
        let seg = &image[i];
        assert(seg@ == image.deep_view()[i as int]);
        assert(image.deep_view().take(i + 1).drop_last() =~= image.deep_view().take(i as int));
        out.push(LoadStep::MapPages(segment_mapping(seg)));
        out.push(LoadStep::WriteSegment { address: seg.addr, index: i });
        i += 1;
    }
    assert(image.deep_view().take(image.len() as int) =~= image.deep_view());
    out
}

/// The steps that copy the regions of a live session into a fresh engine.
pub fn copy_plan(regions: &Vec<MemRegion>) -> (r: Vec<CopyStep>)
    requires
        regions_wf(regions@),
    ensures
        r@ == copy_steps(regions@),
{
    let mut out: Vec<CopyStep> = Vec::new();
    let mut i: usize = 0;
    while i < regions.len()
        invariant
            i <= regions.len(),
            regions_wf(regions@),
            out@ == copy_steps(regions@.take(i as int)),
        decreases regions.len() - i,
    {
        let region = &regions[i];
        assert(regions@.take(i + 1).drop_last() =~= regions@.take(i as int));
        out.push(CopyStep::MapPages(region_mapping(region)));
        out.push(CopyStep::CopyBytes { address: region.begin, size: region.size() });
        i += 1;
    }
    assert(regions@.take(regions.len() as int) =~= regions@);
    out
}

/// What planning a session for an architecture and an image gives: the
/// ARM backend in the engine mode of the architecture's mode with the steps
/// for the image, or the architecture error for any other backend.
pub open spec fn plan_of(archmode: Arch, segs: Seq<SegView>) -> Result<
    (Backend, EngineMode, Seq<LoadStep>),
    EngineError,
> {
    match archmode.backend_spec() {
        Backend::Arm => Ok((Backend::Arm, archmode.mode_spec().as_uc_spec(), image_steps(segs))),
        _ => Err(EngineError::Arch),
    }
}

/// A plan, or the refusal of one, as a mathematical value.
pub open spec fn plan_view(r: Result<InitPlan, EngineError>) -> Result<
    (Backend, EngineMode, Seq<LoadStep>),
    EngineError,
> {
    match r {
        Ok(plan) => Ok((plan.backend, plan.mode, plan.steps@)),
        Err(e) => Err(e),
    }
}

/// What the initializer asks of a fresh engine for an architecture and an
/// image. Only the ARM backend is set up; for any other the plan is refused
/// with the architecture error.
pub fn init_plan(archmode: &Arch, image: &MemImage) -> (r: Result<InitPlan, EngineError>)
    requires
        all_wf(image.deep_view()),
    ensures
        plan_view(r) == plan_of(*archmode, image.deep_view()),
{
    let (backend, mode) = archmode.as_uc();
    match backend {
        Backend::Arm => Ok(InitPlan { backend, mode, steps: image_plan(image) }),
        _ => Err(EngineError::Arch),
    }
}

/// The steps for an image come in pairs, one pair for each segment in
/// order: the pages of the segment are mapped, whole pages that start on a
/// page boundary, and then its content is written at its own address, which
/// lies with all of the content inside the pages just mapped.
pub proof fn lemma_image_steps(segs: Seq<SegView>)
    requires
        all_wf(segs),
    ensures
        image_steps(segs).len() == 2 * segs.len(),
        forall|i: int|
            0 <= i < segs.len() ==> {
                let mapping = mapping_of(#[trigger] segs[i]);
                &&& image_steps(segs)[2 * i] == LoadStep::MapPages(mapping)
                &&& image_steps(segs)[2 * i + 1] == (LoadStep::WriteSegment {
                    address: segs[i].addr,
                    index: i as usize,
                })
                &&& mapping.page_aligned()
                &&& mapping.holds(segs[i].addr, segs[i].data.len())
            },
    decreases segs.len(),
{
    if segs.len() > 0 {
        let rest = segs.drop_last();
        assert forall|i: int| 0 <= i < rest.len() implies (#[trigger] rest[i]).wf() by {
            assert(rest[i] == segs[i]);
        }
        lemma_image_steps(rest);
        assert forall|i: int| 0 <= i < segs.len() implies {
            let mapping = mapping_of(#[trigger] segs[i]);
            &&& image_steps(segs)[2 * i] == LoadStep::MapPages(mapping)
            &&& image_steps(segs)[2 * i + 1] == (LoadStep::WriteSegment {
                address: segs[i].addr,
                index: i as usize,
            })
            &&& mapping.page_aligned()
            &&& mapping.holds(segs[i].addr, segs[i].data.len())
        } by {
            assert(segs[i].wf());
            lemma_alignment(segs[i]);
            if i < rest.len() {
                assert(rest[i] == segs[i]);
            }
        }
    }
}

/// The steps of a copy come in pairs, one pair for each region in order:
/// the region is mapped as it is, and then all of its bytes are copied.
pub proof fn lemma_copy_steps(regions: Seq<MemRegion>)
    ensures
        copy_steps(regions).len() == 2 * regions.len(),
        forall|i: int|
            0 <= i < regions.len() ==> {
                &&& copy_steps(regions)[2 * i] == CopyStep::MapPages(
                    mapping_of_region(#[trigger] regions[i]),
                )
                &&& copy_steps(regions)[2 * i + 1] == (CopyStep::CopyBytes {
                    address: regions[i].begin,
                    size: regions[i].size_spec(),
                })
            },
    decreases regions.len(),
{
    if regions.len() > 0 {
        let rest = regions.drop_last();
        lemma_copy_steps(rest);
        assert forall|i: int| 0 <= i < regions.len() implies {
            &&& copy_steps(regions)[2 * i] == CopyStep::MapPages(
                mapping_of_region(#[trigger] regions[i]),
            )
            &&& copy_steps(regions)[2 * i + 1] == (CopyStep::CopyBytes {
                address: regions[i].begin,
                size: regions[i].size_spec(),
            })
        } by {
            if i < rest.len() {
                assert(rest[i] == regions[i]);
            }
        }
    }
}

} // verus!
