use roper_redux::lookup::{find_static_seg, read_static_mem};
use roper_redux::perm::Perm;
use roper_redux::segment::{Seg, SegType};

fn segment(addr: u64, data: Vec<u8>, perm: Perm) -> Seg {
    Seg { addr, memsz: data.len(), perm, segtype: SegType::Load, data }
}

fn sample() -> Vec<Seg> {
    vec![
        segment(0, vec![0; 0x1000], Perm::new(true, false, false)),
        segment(0x10000, (0u8..0x20).collect(), Perm::new(true, false, true)),
        segment(0x11000, vec![0; 0x1000], Perm::new(true, true, false)),
    ]
}

#[test]
fn a_read_inside_a_segment_gives_its_bytes() {
    let image = sample();
    assert_eq!(read_static_mem(&image, 0x10000, 4), Some(vec![0, 1, 2, 3]));
    assert_eq!(read_static_mem(&image, 0x10004, 3), Some(vec![4, 5, 6]));
    assert_eq!(read_static_mem(&image, 0x10000, 0x20), Some((0u8..0x20).collect()));
    assert_eq!(read_static_mem(&image, 0x1001f, 1), Some(vec![0x1f]));
    assert_eq!(read_static_mem(&image, 0, 2), Some(vec![0, 0]));
}

#[test]
fn a_read_outside_every_segment_finds_nothing() {
    let image = sample();
    assert_eq!(read_static_mem(&image, 0x20000, 4), None);
    assert_eq!(read_static_mem(&image, 0x2000, 1), None);
    assert_eq!(read_static_mem(&image, u64::MAX, 1), None);
    assert_eq!(read_static_mem(&Vec::new(), 0, 0), None);
}

#[test]
fn a_read_is_never_partial() {
    let image = sample();
    // one byte more than the content holds
    assert_eq!(read_static_mem(&image, 0x10000, 0x21), None);
    assert_eq!(read_static_mem(&image, 0x1001f, 2), None);
    // in the aligned range, behind the content
    assert_eq!(read_static_mem(&image, 0x10020, 1), None);
    assert_eq!(read_static_mem(&image, 0x10800, 4), None);
    assert_eq!(read_static_mem(&image, 0x10000, usize::MAX), None);
    for size in 0..0x30usize {
        match read_static_mem(&image, 0x10008, size) {
            Some(bytes) => assert_eq!(bytes.len(), size),
            None => assert!(size > 0x18),
        }
    }
}

#[test]
fn an_empty_read_differs_from_absence() {
    let image = sample();
    assert_eq!(read_static_mem(&image, 0x10000, 0), Some(vec![]));
    assert_eq!(read_static_mem(&image, 0x10020, 0), Some(vec![]));
    // behind the content, but in the aligned range of the segment
    assert_eq!(read_static_mem(&image, 0x10021, 0), Some(vec![]));
    assert_eq!(read_static_mem(&image, 0x10fff, 0), Some(vec![]));
    // in no segment
    assert_eq!(read_static_mem(&image, 0x20000, 0), None);
    assert_eq!(read_static_mem(&image, 0x2000, 0), None);
}

#[test]
fn the_last_of_overlapping_segments_wins() {
    let image = vec![
        segment(0x10000, vec![1; 0x10], Perm::new(true, false, true)),
        segment(0x10000, vec![2; 0x10], Perm::new(true, true, false)),
    ];
    assert_eq!(read_static_mem(&image, 0x10000, 2), Some(vec![2, 2]));
    assert_eq!(find_static_seg(&image, 0x10000).unwrap().perm, Perm::new(true, true, false));
    // the last one decides even where its content is too short
    let image = vec![
        segment(0x10000, vec![1; 0x10], Perm::new(true, false, true)),
        segment(0x10000, vec![2; 0x4], Perm::new(true, true, false)),
    ];
    assert_eq!(read_static_mem(&image, 0x10000, 8), None);
    assert_eq!(read_static_mem(&image, 0x10000, 4), Some(vec![2; 4]));
}

#[test]
fn the_offset_counts_from_the_address_of_the_segment() {
    let image = vec![segment(0x10100, (0u8..0x10).collect(), Perm::new(true, false, false))];
    assert_eq!(read_static_mem(&image, 0x10100, 4), Some(vec![0, 1, 2, 3]));
    assert_eq!(read_static_mem(&image, 0x10100, 1), Some(vec![0]));
    assert_eq!(read_static_mem(&image, 0x1010c, 4), Some(vec![12, 13, 14, 15]));
    // before the segment, in its first page
    assert_eq!(read_static_mem(&image, 0x10000, 4), None);
    assert_eq!(read_static_mem(&image, 0x100ff, 2), None);
    assert_eq!(read_static_mem(&image, 0x10000, 0), Some(vec![]));
    // the last four bytes of a segment of 0x100 bytes
    let image = vec![segment(0x10100, (0..=255u8).collect(), Perm::new(true, false, false))];
    assert_eq!(read_static_mem(&image, 0x101fc, 4), Some(vec![252, 253, 254, 255]));
    assert_eq!(read_static_mem(&image, 0x101fd, 4), None);
}

#[test]
fn finding_the_segment_of_an_address() {
    let image = sample();
    assert_eq!(find_static_seg(&image, 0).unwrap().addr, 0);
    assert_eq!(find_static_seg(&image, 0x1fff).unwrap().addr, 0);
    assert!(find_static_seg(&image, 0x2000).is_none());
    assert!(find_static_seg(&image, 0xffff).is_none());
    assert_eq!(find_static_seg(&image, 0x10fff).unwrap().addr, 0x10000);
    assert_eq!(find_static_seg(&image, 0x11000).unwrap().addr, 0x11000);
    assert_eq!(find_static_seg(&image, 0x12fff).unwrap().addr, 0x11000);
    assert!(find_static_seg(&image, 0x13000).is_none());
}
