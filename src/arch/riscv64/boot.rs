use vstd::prelude::*;

use super::config::{KDEV_BASE, PPTR_BASE_OFFSET, RISCV_4K_PAGE, RISCV_MEGA_PAGE};
use super::pagetable::KernelPageTables;
use super::pte::{rv_is_leaf, rv_is_table, rv_kernel_flags, rv_word, PTE, PTE_A, PTE_D, PTE_R, PTE_U, PTE_V, PTE_W, PTE_X};
use super::utils::{pptr_to_paddr, riscv_get_pt_index};
use crate::memory::{level_index, walk_from, PageTableArena, PteFormat};
use crate::structures::{cap_frame_cap, cap_page_table_cap, vm_rights_t};

verus! {

/// Where a kernel frame mapped at `vaddr` is entered: in the device
/// window, the entry of the second-level device table (arena table 2) that
/// `vaddr` selects; elsewhere, the root entry that `vaddr` selects.
pub open spec fn kernel_frame_slot(vaddr: u64) -> int {
    if vaddr >= KDEV_BASE {
        1024 + level_index(vaddr, 1)
    } else {
        level_index(vaddr, 2)
    }
}

/// The entry that maps the kernel frame at `paddr` for `vaddr`: a 2 MiB
/// leaf at the 2 MiB boundary below `paddr` in the device window, a 1 GiB
/// leaf at the 1 GiB boundary elsewhere.
pub open spec fn kernel_leaf_word(paddr: u64, vaddr: u64) -> u64 {
    if vaddr >= KDEV_BASE {
        rv_word(((paddr - paddr % 0x20_0000) as u64) >> 12, rv_kernel_flags(true))
    } else {
        rv_word(((paddr - paddr % 0x4000_0000) as u64) >> 12, rv_kernel_flags(true))
    }
}

/// Maps a kernel frame: in the device table for an address of the device
/// window, in the root table otherwise.
pub fn map_kernel_frame(kt: &mut KernelPageTables, paddr: u64, vaddr: u64, _vm_rights: vm_rights_t)
    requires
        old(kt).wf(),
    ensures
        final(kt).wf(),
        final(kt).arena.base == old(kt).arena.base,
        0 <= kernel_frame_slot(vaddr) < 1536,
        final(kt).mem() == old(kt).mem().update(kernel_frame_slot(vaddr), kernel_leaf_word(paddr, vaddr)),
{
    if vaddr >= KDEV_BASE {
        let idx = riscv_get_pt_index(vaddr, 1);
        let p = paddr - paddr % 0x20_0000;
        kt.arena.write(1024 + idx, PTE::pte_next_table(p, true).0);
    } else {
        let idx = riscv_get_pt_index(vaddr, 0);
        let p = paddr - paddr % 0x4000_0000;
        kt.arena.write(idx, PTE::pte_next_table(p, true).0);
    }
}

/// The tables after writing `word` where the walk for `vptr` from the
/// root at kernel pointer `root` ends; unchanged when there is no such walk.
pub open spec fn map_at_walk(base: u64, mem: Seq<u64>, root: u64, vptr: u64, word: u64) -> Seq<u64> {
    if root >= PPTR_BASE_OFFSET {
        match walk_from(PteFormat::Sv39, base, mem, (root - PPTR_BASE_OFFSET) as u64, vptr, 2) {
            Some((s, b)) => mem.update(s, word),
            None => mem,
        }
    } else {
        mem
    }
}

/// After a frame is mapped where the walk for `vptr` ended (at an entry
/// that named no table), the walk for `vptr` ends at the same entry with the
/// same bits left, and that entry holds the leaf written.
pub proof fn lemma_rv_walk_after_map(base: u64, mem: Seq<u64>, root: u64, vptr: u64, frame: u64)
    requires
        mem.len() % 512 == 0,
        root >= PPTR_BASE_OFFSET,
        walk_from(PteFormat::Sv39, base, mem, (root - PPTR_BASE_OFFSET) as u64, vptr, 2) matches Some(
            (s, b),
        ) && !rv_is_table(mem[s]),
        frame >> 12 < 0x1000_0000_0000,
    ensures
        ({
            let (s, b) = walk_from(PteFormat::Sv39, base, mem, (root - PPTR_BASE_OFFSET) as u64, vptr, 2)->0;
            let word = rv_word(frame >> 12, it_frame_flags());
            let m2 = map_at_walk(base, mem, root, vptr, word);
            &&& walk_from(PteFormat::Sv39, base, m2, (root - PPTR_BASE_OFFSET) as u64, vptr, 2) == Some((s, b))
            &&& m2[s] == word
            &&& rv_is_leaf(m2[s])
        }),
{
    let word = rv_word(frame >> 12, it_frame_flags());
    assert(it_frame_flags() == 0xdf) by (bit_vector);
    crate::arch::riscv64::pte::lemma_rv_round_trip(frame >> 12, 0xdf);
    assert(rv_is_leaf(word) && !rv_is_table(word)) by {
        let p = frame >> 12;
        assert({
            let w = 0xdfu64 | ((p << 10) as u64);
            &&& w & 1 != 0
            &&& (w & 2) >> 1 != 0
        }) by (bit_vector);
    }
    crate::memory::lemma_walk_after_map(PteFormat::Sv39, base, mem, (root - PPTR_BASE_OFFSET) as u64, vptr, 2, word);
}

/// Flags of a frame of the initial thread: user, every access right,
/// accessed and dirty.
pub open spec fn it_frame_flags() -> u64 {
    PTE_A | PTE_D | PTE_U | PTE_V | PTE_R | PTE_W | PTE_X
}

/// Writes `word` where the walk for `vptr` from the root at kernel pointer
/// `root` ends. Returns whether there was such a walk.
fn write_at_walk(mem: &mut PageTableArena, root: u64, vptr: u64, word: u64) -> (r: bool)
    requires
        old(mem).wf(),
    ensures
        final(mem).wf(),
        final(mem).base == old(mem).base,
        final(mem).entries@ == map_at_walk(old(mem).base, old(mem).entries@, root, vptr, word),
{
    if root < PPTR_BASE_OFFSET {
        return false;
    }
    match mem.walk(PteFormat::Sv39, pptr_to_paddr(root), vptr, 2) {
        Some(ret) => {
            mem.write(ret.ptSlot, word);
            true
        },
        None => false,
    }
}

/// Links the page table of `pt_cap` into the address space of `vspace_cap`
/// at the entry where the walk for its mapped address ends.
pub fn map_it_pt_cap(mem: &mut PageTableArena, vspace_cap: &cap_page_table_cap, pt_cap: &cap_page_table_cap)
    requires
        old(mem).wf(),
        pt_cap.capPTBasePtr >= PPTR_BASE_OFFSET,
    ensures
        final(mem).wf(),
        final(mem).base == old(mem).base,
        final(mem).entries@ == map_at_walk(
            old(mem).base,
            old(mem).entries@,
            vspace_cap.capPTBasePtr,
            pt_cap.capPTMappedAddress,
            rv_word(((pt_cap.capPTBasePtr - PPTR_BASE_OFFSET) as u64) >> 12, PTE_V),
        ),
{
    let vptr = pt_cap.capPTMappedAddress;
    let lvl1pt = vspace_cap.capPTBasePtr;
    let pt = pptr_to_paddr(pt_cap.capPTBasePtr);
    let _ = write_at_walk(mem, lvl1pt, vptr, PTE::new(pt >> 12u64, PTE_V).0);
}

/// Maps the frame of `frame_cap` for the initial thread, with every access
/// right, where the walk for its mapped address ends.
pub fn map_it_frame_cap(mem: &mut PageTableArena, vspace_cap: &cap_page_table_cap, frame_cap: &cap_frame_cap)
    requires
        old(mem).wf(),
        frame_cap.capFBasePtr >= PPTR_BASE_OFFSET,
    ensures
        final(mem).wf(),
        final(mem).base == old(mem).base,
        final(mem).entries@ == map_at_walk(
            old(mem).base,
            old(mem).entries@,
            vspace_cap.capPTBasePtr,
            frame_cap.capFMappedAddress,
            rv_word(((frame_cap.capFBasePtr - PPTR_BASE_OFFSET) as u64) >> 12, it_frame_flags()),
        ),
{
    let vptr = frame_cap.capFMappedAddress;
    let lvl1pt = vspace_cap.capPTBasePtr;
    let frame = pptr_to_paddr(frame_cap.capFBasePtr);
    let flags = PTE_A | PTE_D | PTE_U | PTE_V | PTE_R | PTE_W | PTE_X;
    let _ = write_at_walk(mem, lvl1pt, vptr, PTE::new(frame >> 12u64, flags).0);
}

/// The frame capability of the initial thread for the frame at `pptr`
/// mapped at `vptr`.
pub open spec fn it_frame_cap(pptr: u64, vptr: u64, asid: u64, use_large: bool) -> cap_frame_cap {
    cap_frame_cap {
        capFMappedASID: asid,
        capFBasePtr: pptr,
        capFSize: if use_large {
            RISCV_MEGA_PAGE as u64
        } else {
            RISCV_4K_PAGE as u64
        },
        capFMappedAddress: vptr,
        capFVMRights: vm_rights_t::VMReadWrite,
        capFIsDevice: 0,
    }
}

/// Creates a read-write frame capability for the initial thread and maps
/// it in the address space of `pd_cap`.
pub fn create_mapped_it_frame_cap(
    mem: &mut PageTableArena,
    pd_cap: &cap_page_table_cap,
    pptr: u64,
    vptr: u64,
    asid: u64,
    use_large: bool,
    _exec: bool,
) -> (r: cap_frame_cap)
    requires
        old(mem).wf(),
        pptr >= PPTR_BASE_OFFSET,
    ensures
        r == it_frame_cap(pptr, vptr, asid, use_large),
        final(mem).wf(),
        final(mem).base == old(mem).base,
        final(mem).entries@ == map_at_walk(
            old(mem).base,
            old(mem).entries@,
            pd_cap.capPTBasePtr,
            vptr,
            rv_word(((pptr - PPTR_BASE_OFFSET) as u64) >> 12, it_frame_flags()),
        ),
{
    let frame_size: usize = if use_large {
        RISCV_MEGA_PAGE
    } else {
        RISCV_4K_PAGE
    };
    let capability = cap_frame_cap {
        capFMappedASID: asid,
        capFBasePtr: pptr,
        capFSize: frame_size as u64,
        capFMappedAddress: vptr,
        capFVMRights: vm_rights_t::VMReadWrite,
        capFIsDevice: 0,
    };
    map_it_frame_cap(mem, pd_cap, &capability);
    capability
}

/// A frame capability for the frame at `pptr` that maps nothing.
pub fn create_unmapped_it_frame_cap(pptr: u64, _use_large: bool) -> (r: cap_frame_cap)
    ensures
        r == (cap_frame_cap {
            capFMappedASID: 0,
            capFBasePtr: pptr,
            capFSize: 0,
            capFMappedAddress: 0,
            capFVMRights: vm_rights_t::VMKernelOnly,
            capFIsDevice: 0,
        }),
{
    cap_frame_cap {
        capFMappedASID: 0,
        capFBasePtr: pptr,
        capFSize: 0,
        capFMappedAddress: 0,
        capFVMRights: vm_rights_t::VMKernelOnly,
        capFIsDevice: 0,
    }
}

/// Creates a mapped page-table capability for the initial thread and links
/// the table into the address space of `vspace_cap`.
pub fn create_it_pt_cap(mem: &mut PageTableArena, vspace_cap: &cap_page_table_cap, pptr: u64, vptr: u64, asid: u64) -> (r: cap_page_table_cap)
    requires
        old(mem).wf(),
        pptr >= PPTR_BASE_OFFSET,
    ensures
        r == (cap_page_table_cap {
            capPTMappedASID: asid,
            capPTBasePtr: pptr,
            capPTIsMapped: 1,
            capPTMappedAddress: vptr,
        }),
        final(mem).wf(),
        final(mem).base == old(mem).base,
        final(mem).entries@ == map_at_walk(
            old(mem).base,
            old(mem).entries@,
            vspace_cap.capPTBasePtr,
            vptr,
            rv_word(((pptr - PPTR_BASE_OFFSET) as u64) >> 12, PTE_V),
        ),
{
    let capability = cap_page_table_cap::new(asid, pptr, 1, vptr);
    map_it_pt_cap(mem, vspace_cap, &capability);
    capability
}

} // verus!
