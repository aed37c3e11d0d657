use vstd::prelude::*;

verus! {

pub const PT_INDEX_BITS: usize = 9;
pub const SEL4_PAGE_BITS: usize = 12;
pub const CONFIG_PT_LEVELS: usize = 3;

/// Start of the kernel's linear map of physical memory.
pub const PPTR_BASE: u64 = 0xFFFF_FFC0_0000_0000;
/// End of the linear map.
pub const PPTR_TOP: u64 = 0xFFFF_FFFF_8000_0000;
pub const PADDR_BASE: u64 = 0;
/// End of the physical range that the linear map covers.
pub const PADDR_TOP: u64 = 0x3F_8000_0000;
/// Offset from a physical address to its alias in the linear map.
pub const PPTR_BASE_OFFSET: u64 = 0xFFFF_FFC0_0000_0000;
/// Physical address where the kernel image is loaded.
pub const KERNEL_ELF_PADDR_BASE: u64 = 0x8400_0000;
/// Virtual address the kernel image is linked at.
pub const KERNEL_ELF_BASE: u64 = 0xFFFF_FFFF_8400_0000;
/// Offset from a physical address of the kernel image to its linked address.
pub const KERNEL_ELF_BASE_OFFSET: u64 = 0xFFFF_FFFF_0000_0000;
/// Start of the window of kernel device mappings.
pub const KDEV_BASE: u64 = 0xFFFF_FFFF_C000_0000;

/// Size classes of frames.
pub const RISCV_4K_PAGE: usize = 0;
pub const RISCV_MEGA_PAGE: usize = 1;
pub const RISCV_GIGA_PAGE: usize = 2;

/// Mode field of the translation register selecting the three-level layout.
pub const SATP_MODE_SV39: u64 = 8;

} // verus!
