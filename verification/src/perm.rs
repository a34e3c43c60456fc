//! Permission sets of memory regions.

use vstd::prelude::*;

verus! {

/// The number an emulation engine uses for no access.
pub const PROT_NONE: u32 = 0;

/// The number an emulation engine uses for read access.
pub const PROT_READ: u32 = 1;

/// The number an emulation engine uses for write access.
pub const PROT_WRITE: u32 = 2;

/// The number an emulation engine uses for execute access.
pub const PROT_EXEC: u32 = 4;

/// The number an emulation engine uses for every access.
pub const PROT_ALL: u32 = 7;

/// A set of access permissions: any combination of read, write and execute,
/// the empty set included.
#[derive(Clone, Copy, Debug, PartialEq, Eq, Structural)]
pub struct Perm {
    pub read: bool,
    pub write: bool,
    pub execute: bool,
}

impl Perm {
    /// The number of this set: the numbers of its permissions added up.
    pub open spec fn bits_spec(self) -> u32 {
        ((if self.read { 1int } else { 0 }) + (if self.write { 2int } else { 0 }) + (
        if self.execute { 4int } else { 0 })) as u32
    }

    /// The set that the three low bits of `bits` encode. Higher bits are
    /// ignored.
    pub open spec fn from_bits_spec(bits: u32) -> Perm {
        Perm {
            read: bits % 2 == 1,
            write: (bits / 2) % 2 == 1,
            execute: (bits / 4) % 2 == 1,
        }
    }

    /// The union of two sets.
    pub open spec fn union_spec(self, other: Perm) -> Perm {
        Perm {
            read: self.read || other.read,
            write: self.write || other.write,
            execute: self.execute || other.execute,
        }
    }

    /// Whether the two sets share a permission.
    pub open spec fn intersects_spec(self, other: Perm) -> bool {
        (self.read && other.read) || (self.write && other.write) || (self.execute
            && other.execute)
    }

    /// Whether every permission of `other` is in `self`.
    pub open spec fn contains_spec(self, other: Perm) -> bool {
        (other.read ==> self.read) && (other.write ==> self.write) && (other.execute
            ==> self.execute)
    }

    /// The empty set.
    pub fn none() -> (r: Perm)
        ensures
            r == (Perm { read: false, write: false, execute: false }),
    {
        Perm { read: false, write: false, execute: false }
    }

    /// The set with exactly the permissions named.
    pub fn new(read: bool, write: bool, execute: bool) -> (r: Perm)
        ensures
            r == (Perm { read, write, execute }),
    {
        Perm { read, write, execute }
    }

    /// The engine's number for this set.
    #[verifier::when_used_as_spec(bits_spec)]
    pub fn bits(self) -> (r: u32)
        ensures
            r == self.bits_spec(),
            r <= PROT_ALL,
    {
        let mut r: u32 = PROT_NONE;
        if self.read {
            r = r + PROT_READ;
        }
        if self.write {
            r = r + PROT_WRITE;
        }
        if self.execute {
            r = r + PROT_EXEC;
        }
        r
    }

    /// The set that an engine's number stands for.
    #[verifier::when_used_as_spec(from_bits_spec)]
    pub fn from_bits(bits: u32) -> (r: Perm)
        ensures
            r == Self::from_bits_spec(bits),
    {
        Perm {
            read: bits % 2 == 1,
            write: (bits / 2) % 2 == 1,
            execute: (bits / 4) % 2 == 1,
        }
    }

    #[verifier::when_used_as_spec(union_spec)]
    pub fn union(self, other: Perm) -> (r: Perm)
        ensures
            r == self.union_spec(other),
    {
        Perm {
            read: self.read || other.read,
            write: self.write || other.write,
            execute: self.execute || other.execute,
        }
    }

    #[verifier::when_used_as_spec(intersects_spec)]
    pub fn intersects(self, other: Perm) -> (r: bool)
        ensures
            r == self.intersects_spec(other),
    {
        (self.read && other.read) || (self.write && other.write) || (self.execute
            && other.execute)
    }

    #[verifier::when_used_as_spec(contains_spec)]
    pub fn contains(self, other: Perm) -> (r: bool)
        ensures
            r == self.contains_spec(other),
    {
        (!other.read || self.read) && (!other.write || self.write) && (!other.execute
            || self.execute)
    }
}

/// A set and its number determine each other: decoding the number of a set
/// gives the set back, and no number above seven is ever produced.
pub proof fn lemma_bits_round_trip(p: Perm)
    ensures
        Perm::from_bits_spec(p.bits_spec()) == p,
        p.bits_spec() <= 7,
{
}

} // verus!
