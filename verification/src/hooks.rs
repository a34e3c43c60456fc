//! The address ranges over which hooks are installed: one span over all the
//! regions that carry the permission a hook is about.

use crate::engine::EngineError;
use crate::image::{all_wf, MemImage};
use crate::region::MemRegion;
use crate::segment::SegView;
use vstd::prelude::*;

verus! {

/// A span widened to hold the range from `begin` to `end` too: the range
/// itself where there was no span, else the lower of the two starts and the
/// higher of the two ends.
pub open spec fn widen(span: Option<(u64, u64)>, begin: u64, end: u64) -> Option<(u64, u64)> {
    match span {
        None => Some((begin, end)),
        Some((b, e)) => Some((if begin < b { begin } else { b }, if end > e { end } else { e })),
    }
}

/// The span of the regions that can be executed: from the lowest of their
/// starts to the highest of their ends. There is none where no region can be
/// executed.
pub open spec fn exec_span(regions: Seq<MemRegion>) -> Option<(u64, u64)>
    decreases regions.len(),
{
    if regions.len() == 0 {
        None
    } else if regions.last().perms.execute {
        widen(exec_span(regions.drop_last()), regions.last().begin, regions.last().end)
    } else {
        exec_span(regions.drop_last())
    }
}

/// The span of the segments that can be written: from the lowest of their
/// aligned starts to the highest of their aligned ends. There is none where
/// no segment can be written.
pub open spec fn write_span(segs: Seq<SegView>) -> Option<(u64, u64)>
    decreases segs.len(),
{
    if segs.len() == 0 {
        None
    } else if segs.last().perm.write {
        widen(
            write_span(segs.drop_last()),
            segs.last().aligned_start(),
            segs.last().aligned_end(),
        )
    } else {
        write_span(segs.drop_last())
    }
}

/// What installing a hook over a span gives: the span, or the argument
/// error where there is none.
pub open spec fn span_or_error(span: Option<(u64, u64)>) -> Result<(u64, u64), EngineError> {
    match span {
        Some(s) => Ok(s),
        None => Err(EngineError::Arg),
    }
}

/// The span of the executable regions starts where the lowest of them
/// starts and ends where the highest of them ends, so it holds each of
/// them; there is none exactly where no region can be executed.
pub proof fn lemma_exec_span(regions: Seq<MemRegion>)
    ensures
        match exec_span(regions) {
            Some((begin, end)) => {
                &&& exists|i: int|
                    0 <= i < regions.len() && (#[trigger] regions[i]).perms.execute && regions[i].begin
                        == begin
                &&& exists|i: int|
                    0 <= i < regions.len() && (#[trigger] regions[i]).perms.execute && regions[i].end
                        == end
                &&& forall|i: int|
                    0 <= i < regions.len() && (#[trigger] regions[i]).perms.execute ==> begin
                        <= regions[i].begin && regions[i].end <= end
            },
            None => forall|i: int| 0 <= i < regions.len() ==> !(#[trigger] regions[i]).perms.execute,
        },
    decreases regions.len(),
{
    if regions.len() > 0 {
        let rest = regions.drop_last();
        let last = regions.last();
        let n = regions.len() - 1;
        lemma_exec_span(rest);
        assert forall|j: int| 0 <= j < rest.len() implies rest[j] == regions[j] by {}
        assert(regions[n] == last);
        match exec_span(rest) {
            Some((b, e)) => {
                let ib = choose|i: int|
                    0 <= i < rest.len() && (#[trigger] rest[i]).perms.execute && rest[i].begin == b;
                let ie = choose|i: int|
                    0 <= i < rest.len() && (#[trigger] rest[i]).perms.execute && rest[i].end == e;
                assert(regions[ib] == rest[ib]);
                assert(regions[ie] == rest[ie]);
                let (begin, end) = exec_span(regions).unwrap();
                assert(regions[ib].perms.execute && regions[ib].begin == b);
                assert(regions[ie].perms.execute && regions[ie].end == e);
                assert(exists|i: int|
                    0 <= i < regions.len() && (#[trigger] regions[i]).perms.execute && regions[i].begin
                        == begin) by {
                    if begin == b {
                        assert(regions[ib].begin == begin);
                    } else {
                        assert(regions[n].begin == begin);
                    }
                }
                assert(exists|i: int|
                    0 <= i < regions.len() && (#[trigger] regions[i]).perms.execute && regions[i].end
                        == end) by {
                    if end == e {
                        assert(regions[ie].end == end);
                    } else {
                        assert(regions[n].end == end);
                    }
                }
                assert forall|i: int|
                    0 <= i < regions.len() && (#[trigger] regions[i]).perms.execute implies begin
                    <= regions[i].begin && regions[i].end <= end by {
                    if i < rest.len() {
                        assert(rest[i] == regions[i]);
                    }
                }
            },
            None => {
                assert forall|i: int|
                    0 <= i < regions.len() && (#[trigger] regions[i]).perms.execute implies i == n by {
                    if i < rest.len() {
                        assert(rest[i] == regions[i]);
                    }
                }
            },
        }
    }
}

/// The span of the writeable segments starts at the lowest of their
/// aligned starts and ends at the highest of their aligned ends, so it
/// holds the aligned range of each; there is none exactly where no segment
/// can be written.
pub proof fn lemma_write_span(segs: Seq<SegView>)
    ensures
        match write_span(segs) {
            Some((begin, end)) => {
                &&& exists|i: int|
                    0 <= i < segs.len() && (#[trigger] segs[i]).perm.write && segs[i].aligned_start()
                        == begin
                &&& exists|i: int|
                    0 <= i < segs.len() && (#[trigger] segs[i]).perm.write && segs[i].aligned_end()
                        == end
                &&& forall|i: int|
                    0 <= i < segs.len() && (#[trigger] segs[i]).perm.write ==> begin
                        <= segs[i].aligned_start() && segs[i].aligned_end() <= end
            },
            None => forall|i: int| 0 <= i < segs.len() ==> !(#[trigger] segs[i]).perm.write,
        },
    decreases segs.len(),
{
    if segs.len() > 0 {
        let rest = segs.drop_last();
        let last = segs.last();
        let n = segs.len() - 1;
        lemma_write_span(rest);
        assert forall|j: int| 0 <= j < rest.len() implies rest[j] == segs[j] by {}
        assert(segs[n] == last);
        match write_span(rest) {
            Some((b, e)) => {
                let ib = choose|i: int|
                    0 <= i < rest.len() && (#[trigger] rest[i]).perm.write && rest[i].aligned_start()
                        == b;
                let ie = choose|i: int|
                    0 <= i < rest.len() && (#[trigger] rest[i]).perm.write && rest[i].aligned_end()
                        == e;
                assert(segs[ib] == rest[ib]);
                assert(segs[ie] == rest[ie]);
                let (begin, end) = write_span(segs).unwrap();
                assert(exists|i: int|
                    0 <= i < segs.len() && (#[trigger] segs[i]).perm.write && segs[i].aligned_start()
                        == begin) by {
                    if begin == b {
                        assert(segs[ib].aligned_start() == begin);
                    } else {
                        assert(segs[n].aligned_start() == begin);
                    }
                }
                assert(exists|i: int|
                    0 <= i < segs.len() && (#[trigger] segs[i]).perm.write && segs[i].aligned_end()
                        == end) by {
                    if end == e {
                        assert(segs[ie].aligned_end() == end);
                    } else {
                        assert(segs[n].aligned_end() == end);
                    }
                }
                assert forall|i: int|
                    0 <= i < segs.len() && (#[trigger] segs[i]).perm.write implies begin
                    <= segs[i].aligned_start() && segs[i].aligned_end() <= end by {
                    if i < rest.len() {
                        assert(rest[i] == segs[i]);
                    }
                }
            },
            None => {
                assert forall|i: int|
                    0 <= i < segs.len() && (#[trigger] segs[i]).perm.write implies i == n by {
                    if i < rest.len() {
                        assert(rest[i] == segs[i]);
                    }
                }
            },
        }
    }
}

/// The range over which a code hook is installed: one span over all the
/// live regions that can be executed. Without such a region the hook is
/// refused with the argument error.
pub fn exec_hook_span(regions: &Vec<MemRegion>) -> (r: Result<(u64, u64), EngineError>)
    ensures
        r == span_or_error(exec_span(regions@)),
{
    let mut span: Option<(u64, u64)> = None;
    let mut i: usize = 0;
    while i < regions.len()
        invariant
            i <= regions.len(),
            span == exec_span(regions@.take(i as int)),
        decreases regions.len() - i,
    {
        let region = regions[i];
        assert(regions@.take(i + 1).drop_last() =~= regions@.take(i as int));
        if region.perms.execute {
            span = match span {
                None => Some((region.begin, region.end)),
                Some((b, e)) => Some(
                    (
                        if region.begin < b {
                            region.begin
                        } else {
                            b
                        },
                        if region.end > e {
                            region.end
                        } else {
                            e
                        },
                    ),
                ),
            };
        }
        i += 1;
    }
    assert(regions@.take(regions.len() as int) =~= regions@);
    match span {
        Some(s) => Ok(s),
        None => Err(EngineError::Arg),
    }
}

/// The range over which a memory-write hook is installed: one span over
/// the aligned ranges of all the segments of the image that can be written.
/// Without such a segment the hook is refused with the argument error.
pub fn write_hook_span(image: &MemImage) -> (r: Result<(u64, u64), EngineError>)
    requires
        all_wf(image.deep_view()),
    ensures
        r == span_or_error(write_span(image.deep_view())),
{
    let mut span: Option<(u64, u64)> = None;
    let mut i: usize = 0;
    while i < image.len()
        invariant
            i <= image.len(),
            all_wf(image.deep_view()),
            span == write_span(image.deep_view().take(i as int)),
        decreases image.len() - i,
    {
        let seg = &image[i];
        assert(seg@ == image.deep_view()[i as int]);
        assert(image.deep_view().take(i + 1).drop_last() =~= image.deep_view().take(i as int));
        if seg.perm.write {
            let begin: u64 = seg.aligned_start();
            let end: u64 = seg.aligned_end();
            span = match span {
                None => Some((begin, end)),
                Some((b, e)) => Some(
                    (
                        if begin < b {
                            begin
                        } else {
                            b
                        },
                        if end > e {
                            end
                        } else {
                            e
                        },
                    ),
                ),
            };
        }
        i += 1;
    }
    assert(image.deep_view().take(image.len() as int) =~= image.deep_view());
    match span {
        Some(s) => Ok(s),
        None => Err(EngineError::Arg),
    }
}

} // verus!
