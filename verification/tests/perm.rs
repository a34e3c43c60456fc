use roper_redux::perm::{Perm, PROT_ALL, PROT_EXEC, PROT_NONE, PROT_READ, PROT_WRITE};

#[test]
fn numbers_of_the_single_permissions() {
    assert_eq!(Perm::none().bits(), PROT_NONE);
    assert_eq!(Perm::new(true, false, false).bits(), PROT_READ);
    assert_eq!(Perm::new(false, true, false).bits(), PROT_WRITE);
    assert_eq!(Perm::new(false, false, true).bits(), PROT_EXEC);
    assert_eq!(Perm::new(true, true, true).bits(), PROT_ALL);
    assert_eq!((PROT_NONE, PROT_READ, PROT_WRITE, PROT_EXEC, PROT_ALL), (0, 1, 2, 4, 7));
}

#[test]
fn permissions_combine_independently() {
    assert_eq!(Perm::new(true, true, false).bits(), 3);
    assert_eq!(Perm::new(true, false, true).bits(), 5);
    assert_eq!(Perm::new(false, true, true).bits(), 6);
}

#[test]
fn bits_and_sets_round_trip() {
    for bits in 0u32..8 {
        assert_eq!(Perm::from_bits(bits).bits(), bits);
    }
    for read in [false, true] {
        for write in [false, true] {
            for execute in [false, true] {
                let p = Perm::new(read, write, execute);
                assert_eq!(Perm::from_bits(p.bits()), p);
            }
        }
    }
}

#[test]
fn higher_bits_are_ignored() {
    assert_eq!(Perm::from_bits(8), Perm::none());
    assert_eq!(Perm::from_bits(0xffff_fff9), Perm::new(true, false, false));
}

#[test]
fn union_intersects_and_contains() {
    let r = Perm::from_bits(PROT_READ);
    let w = Perm::from_bits(PROT_WRITE);
    let x = Perm::from_bits(PROT_EXEC);
    let rw = r.union(w);
    assert_eq!(rw, Perm::new(true, true, false));
    assert!(rw.intersects(w));
    assert!(!rw.intersects(x));
    assert!(rw.contains(r));
    assert!(rw.contains(rw));
    assert!(!r.contains(rw));
    assert!(!Perm::none().intersects(Perm::from_bits(PROT_ALL)));
    assert!(r.contains(Perm::none()));
}
