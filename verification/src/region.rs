//! The regions that a live session reports, and what is read off them: the
//! stack, the writeable regions, and snapshots of their contents.

use crate::perm::Perm;
use crate::segment::{Seg, SegType, SegView};
use vstd::prelude::*;

verus! {

/// One mapped range of a live session: the addresses from `begin` up to,
/// not including, `end`, with the permissions they have now.
#[derive(Clone, Copy, Debug, PartialEq, Eq, Structural)]
pub struct MemRegion {
    pub begin: u64,
    pub end: u64,
    pub perms: Perm,
}

impl MemRegion {
    /// The invariant of a region: it does not end before it begins, and its
    /// size is one that the machine can hold.
    pub open spec fn wf(&self) -> bool {
        self.begin <= self.end && self.end - self.begin <= usize::MAX
    }

    /// The number of addresses in the region.
    pub open spec fn size_spec(&self) -> usize {
        (self.end - self.begin) as usize
    }

    /// Whether the region can be both read and written.
    pub open spec fn read_write(&self) -> bool {
        self.perms.read && self.perms.write
    }

    /// The segment that holds `data` as the content of the region.
    pub open spec fn snapshot_spec(&self, data: Seq<u8>) -> SegView {
        SegView {
            addr: self.begin,
            memsz: self.size_spec(),
            perm: self.perms,
            segtype: SegType::Load,
            data,
        }
    }

    /// Whether the invariant holds.
    pub fn is_wf(&self) -> (r: bool)
        ensures
            r == self.wf(),
    {
        self.begin <= self.end && self.end - self.begin <= usize::MAX as u64
    }

    /// The number of addresses in the region.
    #[verifier::when_used_as_spec(size_spec)]
    pub fn size(&self) -> (r: usize)
        requires
            self.wf(),
        ensures
            r == self.size_spec(),
            r == self.end - self.begin,
    {
        (self.end - self.begin) as usize
    }

    /// A `Load` segment at the region's place and with its permissions that
    /// holds the bytes read out of it.
    pub fn snapshot(&self, data: Vec<u8>) -> (seg: Seg)
        requires
            self.wf(),
            data@.len() == self.end - self.begin,
        ensures
            seg@ == self.snapshot_spec(data@),
            seg@.data.len() == seg@.memsz,
    {
        Seg {
            addr: self.begin,
            memsz: self.size(),
            perm: self.perms,
            segtype: SegType::Load,
            data,
        }
    }
}

/// Whether every region of a list is well formed.
pub open spec fn regions_wf(regions: Seq<MemRegion>) -> bool {
    forall|i: int| 0 <= i < regions.len() ==> (#[trigger] regions[i]).wf()
}

/// Whether every region of a list is well formed.
pub fn regions_are_wf(regions: &Vec<MemRegion>) -> (r: bool)
    ensures
        r == regions_wf(regions@),
{
    let mut i: usize = 0;
    while i < regions.len()
        invariant
            i <= regions.len(),
            forall|j: int| 0 <= j < i ==> (#[trigger] regions@[j]).wf(),
        decreases regions.len() - i,
    {
        if !regions[i].is_wf() {
            return false;
        }
        i += 1;
    }
    true
}

/// The region taken for the stack: of the regions that can be read and
/// written the one that begins highest, and of several that begin there the
/// last.
pub open spec fn stack_region(regions: Seq<MemRegion>) -> Option<MemRegion>
    decreases regions.len(),
{
    if regions.len() == 0 {
        None
    } else {
        let earlier = stack_region(regions.drop_last());
        let last = regions.last();
        if last.read_write() && (earlier.is_none() || last.begin >= earlier.unwrap().begin) {
            Some(last)
        } else {
            earlier
        }
    }
}

/// Where the stack is found and how large it is.
pub open spec fn stack_of(regions: Seq<MemRegion>) -> Option<(u64, usize)> {
    match stack_region(regions) {
        Some(region) => Some((region.begin, region.size_spec())),
        None => None,
    }
}

/// The test for write permission.
pub open spec fn may_write() -> spec_fn(MemRegion) -> bool {
    |region: MemRegion| region.perms.write
}

/// The region taken for the stack is one of the regions, can be read and
/// written, and no region that can be read and written begins above it.
/// Where none is taken, no region can be both read and written.
pub proof fn lemma_stack_region(regions: Seq<MemRegion>)
    ensures
        match stack_region(regions) {
            Some(stack) => {
                &&& stack.read_write()
                &&& exists|k: int|
                    {
                        &&& 0 <= k < regions.len()
                        &&& #[trigger] regions[k] == stack
                        &&& forall|j: int|
                            k < j < regions.len() && (#[trigger] regions[j]).read_write()
                                ==> regions[j].begin < stack.begin
                    }
                &&& forall|j: int|
                    0 <= j < regions.len() && (#[trigger] regions[j]).read_write() ==> regions[j].begin
                        <= stack.begin
            },
            None => forall|j: int| 0 <= j < regions.len() ==> !(#[trigger] regions[j]).read_write(),
        },
    decreases regions.len(),
{
    if regions.len() > 0 {
        let rest = regions.drop_last();
        let last = regions.last();
        lemma_stack_region(rest);
        assert forall|j: int| 0 <= j < rest.len() implies rest[j] == regions[j] by {}
        let earlier = stack_region(rest);
        if last.read_write() && (earlier.is_none() || last.begin >= earlier.unwrap().begin) {
            let k = regions.len() - 1;
            assert(regions[k] == last);
            assert forall|j: int|
                0 <= j < regions.len() && (#[trigger] regions[j]).read_write() implies regions[j].begin
                <= last.begin by {
                if j < rest.len() {
                    assert(rest[j] == regions[j]);
                }
            }
        } else {
            match earlier {
                Some(stack) => {
                    let k = choose|k: int|
                        {
                            &&& 0 <= k < rest.len()
                            &&& #[trigger] rest[k] == stack
                            &&& forall|j: int|
                                k < j < rest.len() && (#[trigger] rest[j]).read_write() ==> rest[j].begin
                                    < stack.begin
                        };
                    assert(regions[k] == stack);
                    assert forall|j: int|
                        k < j < regions.len() && (#[trigger] regions[j]).read_write() implies regions[j].begin
                        < stack.begin by {
                        if j < rest.len() {
                            assert(rest[j] == regions[j]);
                        }
                    }
                    assert forall|j: int|
                        0 <= j < regions.len() && (#[trigger] regions[j]).read_write() implies regions[j].begin
                        <= stack.begin by {
                        if j < rest.len() {
                            assert(rest[j] == regions[j]);
                        }
                    }
                },
                None => {
                    assert forall|j: int| 0 <= j < regions.len() implies !(#[trigger] regions[j]).read_write() by {
                        if j < rest.len() {
                            assert(rest[j] == regions[j]);
                        }
                    }
                },
            }
        }
    }
}

/// Finds the stack among the regions of a session: the region that can be
/// read and written and begins highest, as its first address and its size.
/// With more than one such region this is a guess.
pub fn find_stack(regions: &Vec<MemRegion>) -> (r: Option<(u64, usize)>)
    requires
        regions_wf(regions@),
    ensures
        r == stack_of(regions@),
{
    let mut stack: Option<MemRegion> = None;
    let mut i: usize = 0;
    while i < regions.len()
        invariant
            i <= regions.len(),
            regions_wf(regions@),
            stack == stack_region(regions@.take(i as int)),
            stack matches Some(s) ==> s.wf(),
        decreases regions.len() - i,
    {
        let region = regions[i];
        assert(regions@.take(i + 1).drop_last() =~= regions@.take(i as int));
        let higher = match stack {
            Some(s) => region.begin >= s.begin,
            None => true,
        };
        if region.perms.read && region.perms.write && higher {
            stack = Some(region);
        }
        i += 1;
    }
    assert(regions@.take(regions.len() as int) =~= regions@);
    match stack {
        Some(s) => Some((s.begin, s.size())),
        None => None,
    }
}

/// The regions that can be written, in the order in which they were given.
pub fn writeable_regions(regions: &Vec<MemRegion>) -> (r: Vec<MemRegion>)
    ensures
        r@ == regions@.filter(may_write()),
{
    let mut out: Vec<MemRegion> = Vec::new();
    let mut i: usize = 0;
    proof {
        reveal(Seq::filter);
    }
    while i < regions.len()
        invariant
            i <= regions.len(),
            out@ == regions@.take(i as int).filter(may_write()),
        decreases regions.len() - i,
    {
        let region = regions[i];
        assert(regions@.take(i + 1).drop_last() =~= regions@.take(i as int));
        proof {
            reveal(Seq::filter);
        }
        if region.perms.write {
            out.push(region);
        }
        i += 1;
    }
    assert(regions@.take(regions.len() as int) =~= regions@);
    out
}

} // verus!
