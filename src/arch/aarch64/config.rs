use vstd::prelude::*;

verus! {

pub const PT_INDEX_BITS: usize = 9;
pub const PUD_INDEX_BITS: usize = 9;
pub const SEL4_PAGE_BITS: usize = 12;
pub const SEL4_LARGE_PAGE_BITS: usize = 21;
/// Levels of the kernel's and of a user's tables.
pub const KPT_LEVELS: usize = 4;
pub const UPT_LEVELS: usize = 4;
pub const seL4_VSpaceIndexBits: usize = 9;

/// Start of the kernel's linear map of physical memory.
pub const PPTR_BASE: u64 = 0xFFFF_FF80_0000_0000;
/// End of the linear map.
pub const PPTR_TOP: u64 = 0xFFFF_FFFF_C000_0000;
pub const PADDR_BASE: u64 = 0;
/// End of the physical range that the linear map covers.
pub const PADDR_TOP: u64 = 0x7F_C000_0000;
/// Offset from a physical address to its alias in the linear map.
pub const PPTR_BASE_OFFSET: u64 = 0xFFFF_FF80_0000_0000;
/// Physical address where the kernel image is loaded.
pub const KERNEL_ELF_PADDR_BASE: u64 = 0x4000_0000;
/// Virtual address the kernel image is linked at.
pub const KERNEL_ELF_BASE: u64 = 0xFFFF_FFFF_C000_0000;
/// Offset from a physical address of the kernel image to its linked address.
pub const KERNEL_ELF_BASE_OFFSET: u64 = 0xFFFF_FFFF_8000_0000;

/// Size classes of frames.
pub const ARM_SMALL_PAGE: usize = 0;
pub const ARM_LARGE_PAGE: usize = 1;
pub const ARM_HUGE_PAGE: usize = 2;

/// Bits of an L1 cache line.
pub const CONFIG_L1_CACHE_LINE_SIZE_BITS: u64 = 6;

} // verus!
