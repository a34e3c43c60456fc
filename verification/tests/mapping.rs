use roper_redux::arch::{arm_arm, arm_thumb, Arch, Backend, EngineMode, Mode};
use roper_redux::context::Context;
use roper_redux::elf::{ElfHeaders, ProgramHeader};
use roper_redux::engine::EngineError;
use roper_redux::image::{image_from_headers, LoadError};
use roper_redux::mapping::{
    copy_plan, image_plan, init_plan, region_mapping, segment_mapping, CopyStep, LoadStep,
    Mapping,
};
use roper_redux::perm::Perm;
use roper_redux::region::MemRegion;
use roper_redux::segment::{Seg, SegType};

fn put16(out: &mut Vec<u8>, v: u16) {
    out.extend_from_slice(&v.to_le_bytes());
}

fn put32(out: &mut Vec<u8>, v: u32) {
    out.extend_from_slice(&v.to_le_bytes());
}

/// A little-endian 32-bit ARM executable with one loadable, readable and
/// executable segment of 0x20 bytes at 0x10000 that starts with `code`.
fn arm_elf(code: &[u8]) -> Vec<u8> {
    let mut b: Vec<u8> = vec![0x7f, b'E', b'L', b'F', 1, 1, 1, 0, 0, 0, 0, 0, 0, 0, 0, 0];
    put16(&mut b, 2);
    put16(&mut b, 40);
    for v in [1u32, 0x10000, 52, 84 + code.len() as u32, 0] {
        put32(&mut b, v);
    }
    for v in [52u16, 32, 1, 40, 2, 0] {
        put16(&mut b, v);
    }
    for v in [1u32, 84, 0x10000, 0x10000, code.len() as u32, 0x20, 5, 0x1000] {
        put32(&mut b, v);
    }
    b.extend_from_slice(code);
    for _ in 0..10 {
        put32(&mut b, 0);
    }
    for v in [0u32, 1, 6, 0x10000, 84, code.len() as u32, 0, 0, 4, 0] {
        put32(&mut b, v);
    }
    b
}

fn sample_image() -> Vec<Seg> {
    let headers = ElfHeaders {
        program_headers: vec![
            ProgramHeader { p_type: 1, p_flags: 5, p_vaddr: 0x10000, p_memsz: 0x20 },
            ProgramHeader { p_type: 1, p_flags: 6, p_vaddr: 0x20f0c, p_memsz: 0x130 },
        ],
        section_headers: vec![],
    };
    image_from_headers(&headers, &[]).unwrap()
}

#[test]
fn mapping_of_a_segment() {
    let seg = Seg {
        addr: 0x20f0c,
        memsz: 0x130,
        perm: Perm::new(true, true, false),
        segtype: SegType::Load,
        data: vec![0; 0x130],
    };
    assert_eq!(
        segment_mapping(&seg),
        Mapping { address: 0x20000, size: 0x2000, perms: Perm::new(true, true, false) }
    );
}

#[test]
fn steps_for_an_image() {
    let image = sample_image();
    let r = Perm::new(true, false, false);
    let rx = Perm::new(true, false, true);
    let rw = Perm::new(true, true, false);
    assert_eq!(
        image_plan(&image),
        vec![
            LoadStep::MapPages(Mapping { address: 0, size: 0x2000, perms: r }),
            LoadStep::WriteSegment { address: 0, index: 0 },
            LoadStep::MapPages(Mapping { address: 0x10000, size: 0x1000, perms: rx }),
            LoadStep::WriteSegment { address: 0x10000, index: 1 },
            LoadStep::MapPages(Mapping { address: 0x20000, size: 0x2000, perms: rw }),
            LoadStep::WriteSegment { address: 0x20f0c, index: 2 },
            LoadStep::MapPages(Mapping { address: 0x22000, size: 0x2000, perms: rw }),
            LoadStep::WriteSegment { address: 0x22000, index: 3 },
        ]
    );
    assert_eq!(image_plan(&Vec::new()), Vec::new());
}

#[test]
fn every_write_lands_in_the_pages_mapped_before_it() {
    let image = sample_image();
    let steps = image_plan(&image);
    assert_eq!(steps.len(), 2 * image.len());
    for (i, seg) in image.iter().enumerate() {
        let m = match steps[2 * i] {
            LoadStep::MapPages(m) => m,
            other => panic!("{:?}", other),
        };
        assert_eq!(steps[2 * i + 1], LoadStep::WriteSegment { address: seg.addr, index: i });
        assert_eq!(m.address % 4096, 0);
        assert_eq!(m.size % 4096, 0);
        assert!(m.size >= 4096);
        assert!(m.address <= seg.addr);
        assert!(seg.addr + seg.data.len() as u64 <= m.address + m.size as u64);
    }
}

#[test]
fn steps_of_a_copy() {
    let r = Perm::new(true, false, false);
    let rx = Perm::new(true, false, true);
    let regions = vec![
        MemRegion { begin: 0, end: 0x2000, perms: r },
        MemRegion { begin: 0x10000, end: 0x11000, perms: rx },
    ];
    assert_eq!(
        copy_plan(&regions),
        vec![
            CopyStep::MapPages(Mapping { address: 0, size: 0x2000, perms: r }),
            CopyStep::CopyBytes { address: 0, size: 0x2000 },
            CopyStep::MapPages(Mapping { address: 0x10000, size: 0x1000, perms: rx }),
            CopyStep::CopyBytes { address: 0x10000, size: 0x1000 },
        ]
    );
    assert_eq!(region_mapping(&regions[1]).size, 0x1000);
    assert_eq!(copy_plan(&Vec::new()), Vec::new());
}

#[test]
fn plan_for_the_arm_backend() {
    let image = sample_image();
    let plan = init_plan(&arm_arm(), &image).unwrap();
    assert_eq!(plan.backend, Backend::Arm);
    assert_eq!(plan.mode, EngineMode::LittleEndian);
    assert_eq!(plan.steps, image_plan(&image));
    let plan = init_plan(&arm_thumb(), &image).unwrap();
    assert_eq!(plan.mode, EngineMode::Thumb);
    let plan = init_plan(&Arch::Arm(Mode::Be), &image).unwrap();
    assert_eq!(plan.mode, EngineMode::BigEndian);
}

#[test]
fn no_plan_for_the_mips_backend() {
    let image = sample_image();
    assert_eq!(init_plan(&Arch::Mips(Mode::Le), &image), Err(EngineError::Arch));
    assert_eq!(init_plan(&Arch::Mips(Mode::Be), &image), Err(EngineError::Arch));
}

#[test]
#[allow(non_snake_case)]
fn test_init_emulator_with_MEM_IMAGE() {
    let context = Context::build(arm_elf(&[0x1e, 0xff, 0x2f, 0xe1])).ok().unwrap();
    let plan = context.init_plan(&arm_arm()).unwrap();
    assert_eq!(plan.steps.len(), 2 * context.image().len());
    assert_eq!(plan.steps.len(), 6);
}

#[test]
fn the_plan_writes_what_a_static_read_gives() {
    let headers = ElfHeaders {
        program_headers: vec![ProgramHeader {
            p_type: 1,
            p_flags: 5,
            p_vaddr: 0x10100,
            p_memsz: 0x200,
        }],
        section_headers: vec![roper_redux::elf::SectionHeader {
            sh_addr: 0x10100,
            sh_offset: 0,
            sh_size: 1,
        }],
    };
    let image = image_from_headers(&headers, &[0xaa]).unwrap();
    let steps = image_plan(&image);
    assert_eq!(steps[3], LoadStep::WriteSegment { address: 0x10100, index: 1 });
    // the content is written from 0x10100 on, so its first byte is the byte at 0x10100
    assert_eq!(image[1].data[0], 0xaa);
    assert_eq!(roper_redux::lookup::read_static_mem(&image, 0x10100, 1), Some(vec![0xaa]));
    assert_eq!(
        roper_redux::lookup::read_static_mem(&image, 0x102fc, 4),
        Some(image[1].data[0x1fc..].to_vec())
    );
}

#[test]
fn a_context_holds_the_image_of_its_bytes() {
    let file = arm_elf(&[1, 2, 3, 4]);
    let context = Context::build(file.clone()).ok().unwrap();
    assert_eq!(context.buffer(), &file);
    assert_eq!(context.image().len(), 3);
    assert_eq!(context.image()[1].addr, 0x10000);
    assert!(context.image().iter().all(|s| s.is_wf()));
    assert_eq!(context.read_static_mem(0x10000, 4), Some(vec![1, 2, 3, 4]));
    assert_eq!(context.read_static_mem(0x10000, 0x21), None);
    assert_eq!(context.read_static_mem(0x20000, 4), None);
    assert_eq!(context.write_hook_span(), Ok((0x11000, 0x13000)));
}

#[test]
fn no_context_of_a_buffer_that_is_no_elf_object() {
    assert_eq!(Context::build(vec![0; 100]).err(), Some(LoadError::Format));
    assert_eq!(Context::build(Vec::new()).err(), Some(LoadError::Format));
}
