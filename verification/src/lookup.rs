//! Reading the bytes of an address out of a baseline image, without an
//! emulator.

use crate::image::{all_wf, MemImage};
use crate::segment::{Seg, SegView};
use vstd::prelude::*;

verus! {

/// The index of the last segment whose aligned range holds `address`.
pub open spec fn last_covering(segs: Seq<SegView>, address: u64) -> Option<int>
    decreases segs.len(),
{
    if segs.len() == 0 {
        None
    } else if segs.last().covers(address) {
        Some(segs.len() - 1)
    } else {
        last_covering(segs.drop_last(), address)
    }
}

/// The last segment whose aligned range holds `address`.
pub open spec fn static_seg(segs: Seq<SegView>, address: u64) -> Option<SegView> {
    match last_covering(segs, address) {
        Some(k) => Some(segs[k]),
        None => None,
    }
}

/// The bytes that a segment holds for the `size` addresses from `address`
/// on. The content holds at index `i` the byte for the segment's address
/// plus `i`, so there are such bytes exactly where the whole range lies
/// inside the content; an empty range lies inside any content.
pub open spec fn bytes_at(seg: SegView, address: u64, size: nat) -> Option<Seq<u8>> {
    if size == 0 {
        Some(Seq::empty())
    } else if seg.addr <= address && address + size <= seg.addr + seg.data.len() {
        Some(seg.data.subrange(address - seg.addr, address - seg.addr + size))
    } else {
        None
    }
}

/// What a static read gives: nothing where no segment's aligned range
/// holds the address; else what the last such segment holds for the whole
/// range, which is nothing where a part of the range lies outside its
/// content.
pub open spec fn static_read(segs: Seq<SegView>, address: u64, size: nat) -> Option<Seq<u8>> {
    match static_seg(segs, address) {
        Some(seg) => bytes_at(seg, address, size),
        None => None,
    }
}

/// The last segment that holds an address does hold it, and none after it
/// does; where there is none, no segment holds the address.
pub proof fn lemma_last_covering(segs: Seq<SegView>, address: u64)
    ensures
        match last_covering(segs, address) {
            Some(k) => {
                &&& 0 <= k < segs.len()
                &&& segs[k].covers(address)
                &&& forall|j: int| k < j < segs.len() ==> !(#[trigger] segs[j]).covers(address)
            },
            None => forall|j: int| 0 <= j < segs.len() ==> !(#[trigger] segs[j]).covers(address),
        },
    decreases segs.len(),
{
    if segs.len() > 0 && !segs.last().covers(address) {
        lemma_last_covering(segs.drop_last(), address);
        let rest = segs.drop_last();
        assert forall|j: int| 0 <= j < rest.len() implies rest[j] == segs[j] by {}
        match last_covering(rest, address) {
            Some(k) => {
                assert forall|j: int| k < j < segs.len() implies !(#[trigger] segs[j]).covers(
                    address,
                ) by {
                    if j < rest.len() {
                        assert(rest[j] == segs[j]);
                    }
                }
            },
            None => {
                assert forall|j: int| 0 <= j < segs.len() implies !(#[trigger] segs[j]).covers(
                    address,
                ) by {
                    if j < rest.len() {
                        assert(rest[j] == segs[j]);
                    }
                }
            },
        }
    }
}

/// A static read is never partial: it gives nothing, or as many bytes as
/// were asked for. They come out of the content of one segment, the last
/// whose aligned range holds the address, and the byte for an address is
/// the one at the distance of that address from the segment's address: the
/// byte that is written there when the segment is loaded.
pub proof fn lemma_static_read_whole(segs: Seq<SegView>, address: u64, size: nat)
    ensures
        match static_read(segs, address, size) {
            Some(bytes) => {
                &&& bytes.len() == size
                &&& exists|k: int|
                    {
                        &&& 0 <= k < segs.len()
                        &&& (#[trigger] segs[k]).covers(address)
                        &&& forall|j: int| k < j < segs.len() ==> !(#[trigger] segs[j]).covers(address)
                        &&& size > 0 ==> segs[k].addr <= address && address + size <= segs[k].addr
                            + segs[k].data.len()
                        &&& forall|i: int|
                            0 <= i < size ==> bytes[i] == segs[k].data[address - segs[k].addr + i]
                    }
            },
            None => true,
        },
{
    lemma_last_covering(segs, address);
}

/// A static read finds nothing exactly where no segment's aligned range
/// holds the address, or where the range is not empty and does not lie
/// wholly inside the content of the last segment that holds the address.
pub proof fn lemma_static_read_absent(segs: Seq<SegView>, address: u64, size: nat)
    ensures
        static_read(segs, address, size).is_none() <==> {
            ||| forall|j: int| 0 <= j < segs.len() ==> !(#[trigger] segs[j]).covers(address)
            ||| exists|k: int|
                {
                    &&& 0 <= k < segs.len()
                    &&& (#[trigger] segs[k]).covers(address)
                    &&& forall|j: int| k < j < segs.len() ==> !(#[trigger] segs[j]).covers(address)
                    &&& size > 0
                    &&& !(segs[k].addr <= address && address + size <= segs[k].addr
                        + segs[k].data.len())
                }
        },
{
    lemma_last_covering(segs, address);
    match last_covering(segs, address) {
        Some(k) => {
            assert(segs[k].covers(address));
            if static_read(segs, address, size).is_some() {
                assert forall|m: int|
                    {
                        &&& 0 <= m < segs.len()
                        &&& (#[trigger] segs[m]).covers(address)
                        &&& forall|j: int| m < j < segs.len() ==> !(#[trigger] segs[j]).covers(address)
                    } implies m == k by {
                    if m < k {
                        assert(!segs[k].covers(address));
                    } else if m > k {
                        assert(!segs[m].covers(address));
                    }
                }
            }
        },
        None => {},
    }
}

/// The last segment of the image whose aligned range holds `address`.
pub fn find_static_seg(image: &MemImage, address: u64) -> (r: Option<&Seg>)
    requires
        all_wf(image.deep_view()),
    ensures
        match r {
            Some(seg) => static_seg(image.deep_view(), address) == Some(seg@),
            None => static_seg(image.deep_view(), address).is_none(),
        },
{
    let mut found: Option<usize> = None;
    let mut i: usize = 0;
    while i < image.len()
        invariant
            i <= image.len(),
            all_wf(image.deep_view()),
            match found {
                Some(k) => last_covering(image.deep_view().take(i as int), address) == Some(
                    k as int,
                ) && k < i,
                None => last_covering(image.deep_view().take(i as int), address).is_none(),
            },
        decreases image.len() - i,
    {
        let seg = &image[i];
        assert(seg@ == image.deep_view()[i as int]);
        assert(image.deep_view().take(i + 1).drop_last() =~= image.deep_view().take(i as int));
        if seg.aligned_start() <= address && address < seg.aligned_end() {
            found = Some(i);
        }
        i += 1;
    }
    assert(image.deep_view().take(image.len() as int) =~= image.deep_view());
    match found {
        Some(k) => Some(&image[k]),
        None => None,
    }
}

/// A copy of the `size` bytes that the image holds for the addresses from
/// `address` on: taken from the last segment whose aligned range holds
/// `address`, the byte for an address at the distance of that address from
/// the segment's address. The result is `None` where there is no such
/// segment, or where a part of the range lies outside its content; an empty
/// range lies inside any content.
pub fn read_static_mem(image: &MemImage, address: u64, size: usize) -> (r: Option<Vec<u8>>)
    requires
        all_wf(image.deep_view()),
    ensures
        match r {
            Some(bytes) => static_read(image.deep_view(), address, size as nat) == Some(bytes@),
            None => static_read(image.deep_view(), address, size as nat).is_none(),
        },
{
    match find_static_seg(image, address) {
        Some(seg) => {
            if size == 0 {
                return Some(Vec::new());
            }
            if address < seg.addr {
                return None;
            }
            let offset: u64 = address - seg.addr;
            let len: usize = seg.data.len();
            if offset > len as u64 || size > len - offset as usize {
                return None;
            }
            let first: usize = offset as usize;
            let mut bytes: Vec<u8> = Vec::with_capacity(size);
            let mut j: usize = 0;
            while j < size
                invariant
                    j <= size,
                    first + size <= len,
                    len == seg.data@.len(),
                    bytes@ == seg.data@.subrange(first as int, first + j),
                decreases size - j,
            {
                bytes.push(seg.data[first + j]);
                assert(bytes@ =~= seg.data@.subrange(first as int, first + j + 1));
                j += 1;
            }
            Some(bytes)
        },
        None => None,
    }
}

} // verus!
