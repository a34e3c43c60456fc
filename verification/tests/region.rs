use roper_redux::engine::EngineError;
use roper_redux::hooks::{exec_hook_span, write_hook_span};
use roper_redux::perm::Perm;
use roper_redux::region::{find_stack, regions_are_wf, writeable_regions, MemRegion};
use roper_redux::segment::{Seg, SegType};

fn region(begin: u64, end: u64, bits: u32) -> MemRegion {
    MemRegion { begin, end, perms: Perm::from_bits(bits) }
}

fn segment(addr: u64, memsz: usize, bits: u32) -> Seg {
    Seg {
        addr,
        memsz,
        perm: Perm::from_bits(bits),
        segtype: SegType::Load,
        data: vec![0; memsz],
    }
}

#[test]
fn exec_hook_spans_all_executable_regions() {
    let regions = vec![region(0x1000, 0x2000, 5), region(0x5000, 0x6000, 5)];
    assert_eq!(exec_hook_span(&regions), Ok((0x1000, 0x6000)));
}

#[test]
fn exec_hook_passes_over_regions_that_cannot_be_executed() {
    let regions = vec![
        region(0, 0x1000, 1),
        region(0x5000, 0x6000, 4),
        region(0x3000, 0x4000, 7),
        region(0x8000, 0x9000, 3),
        region(0x1000, 0x2000, 5),
    ];
    assert_eq!(exec_hook_span(&regions), Ok((0x1000, 0x6000)));
    assert_eq!(exec_hook_span(&vec![region(0x7000, 0x8000, 4)]), Ok((0x7000, 0x8000)));
}

#[test]
fn exec_hook_without_an_executable_region_is_an_argument_error() {
    assert_eq!(exec_hook_span(&Vec::new()), Err(EngineError::Arg));
    let regions = vec![region(0, 0x1000, 1), region(0x1000, 0x2000, 3)];
    assert_eq!(exec_hook_span(&regions), Err(EngineError::Arg));
}

#[test]
fn write_hook_spans_the_aligned_ranges_of_writeable_segments() {
    let image = vec![
        segment(0, 0x1000, 1),
        segment(0x10000, 0x20, 5),
        segment(0x20f0c, 0x130, 3),
        segment(0x30000, 0x1000, 3),
    ];
    assert_eq!(write_hook_span(&image), Ok((0x20000, 0x32000)));
    let image = vec![segment(0x30000, 0x1000, 2), segment(0x20f0c, 0x130, 6)];
    assert_eq!(write_hook_span(&image), Ok((0x20000, 0x32000)));
}

#[test]
fn write_hook_without_a_writeable_segment_is_an_argument_error() {
    assert_eq!(write_hook_span(&Vec::new()), Err(EngineError::Arg));
    let image = vec![segment(0, 0x1000, 1), segment(0x10000, 0x20, 5)];
    assert_eq!(write_hook_span(&image), Err(EngineError::Arg));
}

#[test]
fn the_stack_is_the_highest_region_that_can_be_read_and_written() {
    let regions = vec![
        region(0, 0x2000, 1),
        region(0x10000, 0x11000, 5),
        region(0x20000, 0x22000, 3),
        region(0x11000, 0x13000, 3),
    ];
    assert_eq!(find_stack(&regions), Some((0x20000, 0x2000)));
    let regions = vec![region(0x11000, 0x13000, 3), region(0x20000, 0x21000, 7)];
    assert_eq!(find_stack(&regions), Some((0x20000, 0x1000)));
}

#[test]
fn regions_that_cannot_be_read_and_written_are_no_stack() {
    assert_eq!(find_stack(&Vec::new()), None);
    let regions = vec![
        region(0, 0x2000, 1),
        region(0x10000, 0x11000, 5),
        region(0x20000, 0x21000, 2),
        region(0x30000, 0x31000, 6),
    ];
    assert_eq!(find_stack(&regions), None);
    let regions =
        vec![region(0x1000, 0x2000, 3), region(0x30000, 0x31000, 1), region(0x40000, 0x41000, 2)];
    assert_eq!(find_stack(&regions), Some((0x1000, 0x1000)));
}

#[test]
fn of_two_stacks_at_one_address_the_last_is_taken() {
    let regions = vec![region(0x5000, 0x6000, 3), region(0x5000, 0x8000, 3)];
    assert_eq!(find_stack(&regions), Some((0x5000, 0x3000)));
    let regions = vec![region(0x5000, 0x8000, 3), region(0x5000, 0x6000, 3)];
    assert_eq!(find_stack(&regions), Some((0x5000, 0x1000)));
}

#[test]
fn an_empty_stack_region_has_size_zero() {
    assert_eq!(find_stack(&vec![region(0x5000, 0x5000, 3)]), Some((0x5000, 0)));
}

#[test]
fn writeable_regions_keep_their_order() {
    let regions = vec![
        region(0x30000, 0x31000, 3),
        region(0, 0x2000, 1),
        region(0x10000, 0x11000, 5),
        region(0x20000, 0x21000, 2),
        region(0x40000, 0x41000, 7),
    ];
    assert_eq!(
        writeable_regions(&regions),
        vec![region(0x30000, 0x31000, 3), region(0x20000, 0x21000, 2), region(0x40000, 0x41000, 7)]
    );
    assert_eq!(writeable_regions(&Vec::new()), Vec::new());
    assert_eq!(writeable_regions(&vec![region(0, 0x1000, 5)]), Vec::new());
}

#[test]
fn snapshot_of_a_region() {
    let r = region(0x20000, 0x20004, 3);
    assert!(r.is_wf());
    assert_eq!(r.size(), 4);
    let seg = r.snapshot(vec![1, 2, 3, 4]);
    assert_eq!(seg.addr, 0x20000);
    assert_eq!(seg.memsz, 4);
    assert_eq!(seg.perm, Perm::new(true, true, false));
    assert_eq!(seg.segtype, SegType::Load);
    assert_eq!(seg.data, vec![1, 2, 3, 4]);
}

#[test]
fn a_region_that_ends_before_it_begins_is_not_well_formed() {
    assert!(!region(0x2000, 0x1000, 3).is_wf());
    assert!(region(0x2000, 0x2000, 3).is_wf());
    assert!(region(0, 0x1000, 0).is_wf());
    assert!(regions_are_wf(&vec![region(0, 0x1000, 0), region(0x2000, 0x2000, 3)]));
    assert!(!regions_are_wf(&vec![region(0, 0x1000, 0), region(0x2000, 0x1000, 3)]));
    assert!(regions_are_wf(&Vec::new()));
}
