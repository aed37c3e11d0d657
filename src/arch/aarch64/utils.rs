use vstd::prelude::*;

use super::config::{KERNEL_ELF_BASE_OFFSET, PPTR_BASE_OFFSET};
use crate::memory::{level_bits, level_index};
use crate::structures::vm_rights_t;

verus! {

/// Level numbers of the hardware and of this library coincide.
pub fn ULVL_FRM_ARM_PT_LVL(n: usize) -> (r: usize)
    ensures
        r == n,
{
    n
}

pub fn KLVL_FRM_ARM_PT_LVL(n: usize) -> (r: usize)
    ensures
        r == n,
{
    n
}

/// Index into the last-level table (bits 20..12).
pub fn GET_PT_INDEX(addr: u64) -> (r: usize)
    ensures
        r == level_index(addr, 0),
{
    get_kpt_index(addr, 3)
}

/// Index into a page directory (bits 29..21).
pub fn GET_PD_INDEX(addr: u64) -> (r: usize)
    ensures
        r == level_index(addr, 1),
{
    get_kpt_index(addr, 2)
}

/// Index into a user upper directory (bits 38..30).
pub fn GET_UPUD_INDEX(addr: u64) -> (r: usize)
    ensures
        r == level_index(addr, 2),
{
    get_kpt_index(addr, 1)
}

/// Index into an upper directory (bits 38..30).
pub fn GET_PUD_INDEX(addr: u64) -> (r: usize)
    ensures
        r == level_index(addr, 2),
{
    get_kpt_index(addr, 1)
}

/// Index into the global directory (bits 47..39).
pub fn GET_PGD_INDEX(addr: u64) -> (r: usize)
    ensures
        r == level_index(addr, 3),
{
    get_kpt_index(addr, 0)
}

/// Address bits below the index of kernel level `n` (0 is the root).
pub fn KPT_LEVEL_SHIFT(n: usize) -> (r: usize)
    requires
        n < 4,
    ensures
        r == level_bits((3 - n) as nat),
{
    9 * (3 - n) + 12
}

/// Address bits below the index of user level `n` (0 is the root).
pub fn UPT_LEVEL_SHIFT(n: usize) -> (r: usize)
    requires
        n < 4,
    ensures
        r == level_bits((3 - n) as nat),
{
    9 * (3 - n) + 12
}

pub fn GET_ULVL_PGSIZE_BITS(n: usize) -> (r: usize)
    requires
        n < 4,
    ensures
        r == level_bits((3 - n) as nat),
{
    UPT_LEVEL_SHIFT(n)
}

/// Bytes covered by one entry of user level `n`.
pub fn GET_ULVL_PGSIZE(n: usize) -> (r: u64)
    requires
        n < 4,
    ensures
        r == (if n == 0 {
            0x80_0000_0000u64
        } else if n == 1 {
            0x4000_0000u64
        } else if n == 2 {
            0x20_0000u64
        } else {
            0x1000u64
        }),
{
    if n == 0 {
        0x80_0000_0000
    } else if n == 1 {
        0x4000_0000
    } else if n == 2 {
        0x20_0000
    } else {
        0x1000
    }
}

/// Index into the table of kernel level `n` (0 is the root) for `addr`.
pub fn get_kpt_index(addr: u64, n: usize) -> (r: usize)
    requires
        n < 4,
    ensures
        r == level_index(addr, (3 - n) as nat),
        r < 512,
{
    let bits = (9 * (3 - n) + 12) as u64;
    assert((addr >> bits) & 511 <= 511) by (bit_vector);
    ((addr >> bits) & 511) as usize
}

/// Physical address of a pointer into the kernel image.
pub fn kpptr_to_paddr(x: u64) -> (r: u64)
    requires
        x >= KERNEL_ELF_BASE_OFFSET,
    ensures
        r == x - KERNEL_ELF_BASE_OFFSET,
{
    x - KERNEL_ELF_BASE_OFFSET
}

/// Physical address of a pointer into the linear map.
pub fn pptr_to_paddr(x: u64) -> (r: u64)
    requires
        x >= PPTR_BASE_OFFSET,
    ensures
        r == x - PPTR_BASE_OFFSET,
{
    x - PPTR_BASE_OFFSET
}

/// Alias of a physical address in the linear map.
pub fn paddr_to_pptr(x: u64) -> (r: u64)
    requires
        x + PPTR_BASE_OFFSET <= u64::MAX,
    ensures
        r == x + PPTR_BASE_OFFSET,
{
    x + PPTR_BASE_OFFSET
}

pub open spec fn ap_of(rights: vm_rights_t) -> u64 {
    match rights {
        vm_rights_t::VMKernelOnly => 0,
        vm_rights_t::VMReadWrite => 1,
        vm_rights_t::VMReadOnly => 3,
    }
}

/// The access-permission field for `rights`: kernel only, read-write for
/// all, read-only for all.
pub fn ap_from_vm_rights(rights: vm_rights_t) -> (r: u64)
    ensures
        r == ap_of(rights),
{
    match rights {
        vm_rights_t::VMKernelOnly => 0,
        vm_rights_t::VMReadWrite => 1,
        vm_rights_t::VMReadOnly => 3,
    }
}

} // verus!
