use vstd::prelude::*;

verus! {

/// Size class of a 4 KiB page.
pub const SMALL_PAGE: usize = 0;
/// Size class of a 2 MiB page.
pub const LARGE_PAGE: usize = 1;
/// Size class of a 1 GiB page.
pub const HUGE_PAGE: usize = 2;

/// Entries in a page-aligned table.
pub const PAGE_ALIGNED_LEN: usize = 512;

pub open spec fn page_bits(sz: int) -> nat {
    if sz == 0 {
        12
    } else if sz == 1 {
        21
    } else {
        30
    }
}

/// Address bits covered by a page of size class `sz`.
pub fn pageBitsForSize(sz: usize) -> (r: usize)
    requires
        sz <= HUGE_PAGE,
    ensures
        r == page_bits(sz as int),
{
    if sz == SMALL_PAGE {
        12
    } else if sz == LARGE_PAGE {
        21
    } else {
        30
    }
}

pub open spec fn page_size(sz: int) -> int {
    if sz == 0 {
        0x1000
    } else if sz == 1 {
        0x20_0000
    } else {
        0x4000_0000
    }
}

/// Whether `w` is aligned to a page of size class `sz`.
pub fn check_vp_alignment(sz: usize, w: u64) -> (r: bool)
    requires
        sz <= HUGE_PAGE,
    ensures
        r == (w as int % page_size(sz as int) == 0),
{
    assert(w & 0xfffu64 == w % 0x1000 && w & 0x1f_ffffu64 == w % 0x20_0000 && w & 0x3fff_ffffu64
        == w % 0x4000_0000) by (bit_vector);
    if sz == SMALL_PAGE {
        w & 0xfff == 0
    } else if sz == LARGE_PAGE {
        w & 0x1f_ffff == 0
    } else {
        w & 0x3fff_ffff == 0
    }
}

/// A page-aligned table of `PAGE_ALIGNED_LEN` values.
pub struct PageAligned<T>(pub Vec<T>);

impl<T: Copy> PageAligned<T> {
    /// A table with every element equal to `v`.
    pub fn new(v: T) -> (r: Self)
        ensures
            r.0@.len() == PAGE_ALIGNED_LEN,
            forall|i: int| 0 <= i < PAGE_ALIGNED_LEN ==> r.0@[i] == v,
    {
        let mut items: Vec<T> = Vec::new();
        let mut i: usize = 0;
        while i < PAGE_ALIGNED_LEN
            invariant
                i <= PAGE_ALIGNED_LEN,
                items@.len() == i,
                forall|j: int| 0 <= j < i ==> items@[j] == v,
            decreases PAGE_ALIGNED_LEN - i,
        {
            items.push(v);
            i = i + 1;
        }
        PageAligned(items)
    }
}

} // verus!
