use vstd::prelude::*;

use super::config::{KERNEL_ELF_BASE_OFFSET, PPTR_BASE_OFFSET};
use crate::memory::{level_bits, level_index};

verus! {

/// Index into the table of level `n` (0 is the root) for `addr`.
pub fn riscv_get_pt_index(addr: u64, n: usize) -> (r: usize)
    requires
        n < 3,
    ensures
        r == level_index(addr, (2 - n) as nat),
        r < 512,
{
    let bits = (9 * (2 - n) + 12) as u64;
    let k = bits;
    assert((addr >> k) & 511 <= 511) by (bit_vector);
    ((addr >> bits) & 511) as usize
}

/// Address bits covered by one entry of level `n`.
pub fn riscv_get_lvl_pgsize_bits(n: usize) -> (r: usize)
    requires
        n < 3,
    ensures
        r == level_bits((2 - n) as nat),
{
    9 * (2 - n) + 12
}

/// Bytes covered by one entry of level `n`.
pub fn riscv_get_lvl_pgsize(n: usize) -> (r: u64)
    requires
        n < 3,
    ensures
        r == (if n == 0 {
            0x4000_0000u64
        } else if n == 1 {
            0x20_0000u64
        } else {
            0x1000u64
        }),
{
    if n == 0 {
        0x4000_0000
    } else if n == 1 {
        0x20_0000
    } else {
        0x1000
    }
}

/// Physical address of a pointer into the kernel image.
pub fn kpptr_to_paddr(x: u64) -> (r: u64)
    requires
        x >= KERNEL_ELF_BASE_OFFSET,
    ensures
        r == x - KERNEL_ELF_BASE_OFFSET,
{
    x - KERNEL_ELF_BASE_OFFSET
}

/// Physical address of a pointer into the linear map.
pub fn pptr_to_paddr(x: u64) -> (r: u64)
    requires
        x >= PPTR_BASE_OFFSET,
    ensures
        r == x - PPTR_BASE_OFFSET,
{
    x - PPTR_BASE_OFFSET
}

/// Alias of a physical address in the linear map.
pub fn paddr_to_pptr(x: u64) -> (r: u64)
    requires
        x + PPTR_BASE_OFFSET <= u64::MAX,
    ensures
        r == x + PPTR_BASE_OFFSET,
{
    x + PPTR_BASE_OFFSET
}

} // verus!
