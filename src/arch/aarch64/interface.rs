//! The kernel's own tables on the four-level layout, and the decisions of
//! address-space switches, unmapping and cache flushes.
use vstd::prelude::*;

use super::config::{ARM_HUGE_PAGE, KERNEL_ELF_BASE_OFFSET, PPTR_BASE_OFFSET};
use super::machine::{
    clean_cache_range_pou, clean_cache_range_ram, clean_invalidate_cache_range_ram,
    clean_invalidate_ram_plan, clean_ram_plan, invalidate_cache_range_i, invalidate_cache_range_ram,
    invalidate_ram_plan, lines, ttbr_new, ttbr_word, CacheOp, LineOp,
};
use super::pte::PTE;
use super::utils::{kpptr_to_paddr, pptr_to_paddr};
use crate::asid::{asid_t, find_vspace_for_asid, AsidTable, ASID_COUNT};
use crate::memory::{unmap_slot, unmap_table_slot, PageTableArena, PteFormat};
use crate::structures::{cap, cap_vspace_cap, exception_t, lookup_fault};
use crate::utils::{page_bits, pageBitsForSize};

verus! {

/// Arena table of the global directory.
pub const KERNEL_PGD_TABLE: usize = 0;
/// Arena table of the upper directory.
pub const KERNEL_PUD_TABLE: usize = 1;
/// Arena table of the first of the 512 page directories.
pub const KERNEL_PD_TABLES: usize = 2;
/// Arena table of the page table of the device window.
pub const KERNEL_PT_TABLE: usize = 514;
/// Arena table of the empty user root.
pub const USER_VSPACE_TABLE: usize = 515;
/// Tables in all.
pub const KERNEL_TABLES: usize = 516;

/// The kernel's tables in one arena laid out as the constants above say,
/// at a physical address inside the kernel image.
pub struct ArmKernelTables {
    pub arena: PageTableArena,
}

impl ArmKernelTables {
    pub open spec fn wf(&self) -> bool {
        &&& self.arena.wf()
        &&& self.arena.entries@.len() == KERNEL_TABLES * 512
        &&& self.arena.base + KERNEL_TABLES * 4096 <= 0x8000_0000
    }

    pub open spec fn mem(&self) -> Seq<u64> {
        self.arena.entries@
    }

    /// Physical address of arena table `k`.
    pub open spec fn table_paddr(&self, k: int) -> u64 {
        (self.arena.base + k * 4096) as u64
    }

    /// Empty kernel tables at physical address `base`.
    pub fn new(base: u64) -> (r: Self)
        requires
            base % 4096 == 0,
            base + KERNEL_TABLES * 4096 <= 0x8000_0000,
        ensures
            r.wf(),
            r.arena.base == base,
            forall|i: int| 0 <= i < KERNEL_TABLES * 512 ==> r.mem()[i] == 0,
    {
        ArmKernelTables { arena: PageTableArena::new(base, KERNEL_TABLES) }
    }
}

/// Kernel pointer to the global directory.
pub fn get_kernel_page_global_directory_base(kt: &ArmKernelTables) -> (r: u64)
    requires
        kt.wf(),
    ensures
        r == kt.table_paddr(KERNEL_PGD_TABLE as int) + KERNEL_ELF_BASE_OFFSET,
{
    kt.arena.base + KERNEL_ELF_BASE_OFFSET
}

/// Kernel pointer to the upper directory.
pub fn get_kernel_page_upper_directory_base(kt: &ArmKernelTables) -> (r: u64)
    requires
        kt.wf(),
    ensures
        r == kt.table_paddr(KERNEL_PUD_TABLE as int) + KERNEL_ELF_BASE_OFFSET,
{
    kt.arena.base + 0x1000 + KERNEL_ELF_BASE_OFFSET
}

/// Kernel pointer to page directory `idx`.
pub fn get_kernel_page_directory_base_by_index(kt: &ArmKernelTables, idx: usize) -> (r: u64)
    requires
        kt.wf(),
        idx < 512,
    ensures
        r == kt.table_paddr(KERNEL_PD_TABLES + idx) + KERNEL_ELF_BASE_OFFSET,
{
    kt.arena.base + (KERNEL_PD_TABLES as u64 + idx as u64) * 0x1000 + KERNEL_ELF_BASE_OFFSET
}

/// Kernel pointer to the empty user root, used while no address space is active.
pub fn get_arm_global_user_vspace_base(kt: &ArmKernelTables) -> (r: u64)
    requires
        kt.wf(),
    ensures
        r == kt.table_paddr(USER_VSPACE_TABLE as int) + KERNEL_ELF_BASE_OFFSET,
{
    kt.arena.base + (USER_VSPACE_TABLE as u64) * 0x1000 + KERNEL_ELF_BASE_OFFSET
}

/// Kernel pointer to the page table of the device window.
pub fn get_kernel_page_table_base(kt: &ArmKernelTables) -> (r: u64)
    requires
        kt.wf(),
    ensures
        r == kt.table_paddr(KERNEL_PT_TABLE as int) + KERNEL_ELF_BASE_OFFSET,
{
    kt.arena.base + (KERNEL_PT_TABLE as u64) * 0x1000 + KERNEL_ELF_BASE_OFFSET
}

pub fn set_kernel_page_global_directory_by_index(kt: &mut ArmKernelTables, idx: usize, pgde: PTE)
    requires
        old(kt).wf(),
        idx < 512,
    ensures
        final(kt).wf(),
        final(kt).arena.base == old(kt).arena.base,
        final(kt).mem() == old(kt).mem().update(idx as int, pgde.0),
{
    kt.arena.write(idx, pgde.0);
}

pub fn set_kernel_page_upper_directory_by_index(kt: &mut ArmKernelTables, idx: usize, pude: PTE)
    requires
        old(kt).wf(),
        idx < 512,
    ensures
        final(kt).wf(),
        final(kt).arena.base == old(kt).arena.base,
        final(kt).mem() == old(kt).mem().update(512 + idx, pude.0),
{
    kt.arena.write(512 + idx, pude.0);
}

pub fn set_kernel_page_directory_by_index(kt: &mut ArmKernelTables, idx1: usize, idx2: usize, pde: PTE)
    requires
        old(kt).wf(),
        idx1 < 512,
        idx2 < 512,
    ensures
        final(kt).wf(),
        final(kt).arena.base == old(kt).arena.base,
        final(kt).mem() == old(kt).mem().update(1024 + idx1 * 512 + idx2, pde.0),
{
    kt.arena.write(1024 + idx1 * 512 + idx2, pde.0);
}

pub fn set_kernel_page_table_by_index(kt: &mut ArmKernelTables, idx: usize, pte: PTE)
    requires
        old(kt).wf(),
        idx < 512,
    ensures
        final(kt).wf(),
        final(kt).arena.base == old(kt).arena.base,
        final(kt).mem() == old(kt).mem().update(KERNEL_PT_TABLE * 512 + idx, pte.0),
{
    kt.arena.write(KERNEL_PT_TABLE * 512 + idx, pte.0);
}

/// The user translation-register value and result of switching to the
/// address space of `c`: its root under its ASID when `c` is a mapped root
/// capability whose ASID is bound to exactly that root (a pointer into the
/// linear map), else the empty user root. Only an ASID with nothing bound
/// reports a fault.
pub open spec fn arm_vm_root_outcome(table: AsidTable, global_user: u64, c: cap) -> (u64, Result<(), lookup_fault>) {
    let fallback = ttbr_word(0, global_user);
    match c {
        cap::cap_vspace_cap(vs) => if vs.capVSIsMapped == 0 {
            (fallback, Ok(()))
        } else if vs.capVSMappedASID >= ASID_COUNT || table.lookup(vs.capVSMappedASID as int) is None {
            (fallback, Err(lookup_fault::InvalidRoot))
        } else if table.lookup(vs.capVSMappedASID as int) != Some(vs.capVSBasePtr) || vs.capVSBasePtr
            < PPTR_BASE_OFFSET {
            (fallback, Ok(()))
        } else {
            (
                ttbr_word(vs.capVSMappedASID, (vs.capVSBasePtr - PPTR_BASE_OFFSET) as u64),
                Ok(()),
            )
        },
        _ => (fallback, Ok(())),
    }
}

/// Chooses the user translation-register value for a thread whose root
/// capability is `thread_root`; a stale or foreign capability falls back to
/// the empty user root.
pub fn set_vm_root(table: &AsidTable, kt: &ArmKernelTables, thread_root: &cap) -> (r: (u64, Result<(), lookup_fault>))
    requires
        table.wf(),
        kt.wf(),
    ensures
        r == arm_vm_root_outcome(*table, kt.table_paddr(USER_VSPACE_TABLE as int), *thread_root),
{
    let fallback = ttbr_new(0, kpptr_to_paddr(get_arm_global_user_vspace_base(kt)));
    let vs = match thread_root {
        cap::cap_vspace_cap(vs) => vs,
        _ => {
            return (fallback, Ok(()));
        },
    };
    if vs.capVSIsMapped == 0 {
        return (fallback, Ok(()));
    }
    let vspace_root = vs.capVSBasePtr;
    let asid = vs.capVSMappedASID;
    if asid >= ASID_COUNT as u64 {
        return (fallback, Err(lookup_fault::InvalidRoot));
    }
    let find_ret = find_vspace_for_asid(table, asid as usize);
    let root = match find_ret.vspace_root {
        Some(root) => root,
        None => {
            return (fallback, Err(lookup_fault::InvalidRoot));
        },
    };
    if find_ret.status != exception_t::EXCEPTION_NONE || root != vspace_root || vspace_root
        < PPTR_BASE_OFFSET {
        return (fallback, Ok(()));
    }
    (ttbr_new(asid, pptr_to_paddr(vspace_root)), Ok(()))
}

/// The register values that activate the kernel's tables: the kernel root
/// and the empty user root, both under ASID 0.
pub fn activate_kernel_vspace(kt: &ArmKernelTables) -> (r: (u64, u64))
    requires
        kt.wf(),
    ensures
        r == (ttbr_word(0, kt.table_paddr(KERNEL_PGD_TABLE as int)), ttbr_word(
            0,
            kt.table_paddr(USER_VSPACE_TABLE as int),
        )),
{
    let kernel = ttbr_new(0, kpptr_to_paddr(get_kernel_page_global_directory_base(kt)));
    let user = ttbr_new(0, kpptr_to_paddr(get_arm_global_user_vspace_base(kt)));
    (kernel, user)
}

/// The user register value needed to flush `vspace` under `asid` while the
/// current thread's root is `thread_root`: none when that root is already
/// `vspace`.
pub fn set_vm_root_for_flush_with_thread_root(vspace: u64, asid: asid_t, thread_root: &cap_vspace_cap) -> (r: Option<u64>)
    ensures
        r == if thread_root.capVSIsMapped != 0 && thread_root.capVSBasePtr == vspace {
            None::<u64>
        } else {
            Some(ttbr_word(asid as u64, vspace))
        },
{
    if thread_root.capVSIsMapped != 0 && thread_root.capVSBasePtr == vspace {
        return None;
    }
    Some(ttbr_new(asid as u64, vspace))
}

/// Operand of a TLB invalidation by ASID and virtual address: the ASID in
/// bits 63..48, the page number of `vaddr` below.
pub fn tlb_va_asid_operand(asid: asid_t, vaddr: u64) -> (r: u64)
    requires
        asid < ASID_COUNT,
    ensures
        r == ((asid as u64) << 48) | (vaddr >> 12),
{
    ((asid as u64) << 48u64) | (vaddr >> 12u64)
}

/// The word that unmapping the frame at kernel pointer `pptr`, of size
/// class `page_size`, clears in the address space of `root` for `vptr`.
pub open spec fn arm_unmap_target(base: u64, mem: Seq<u64>, root: u64, vptr: u64, page_size: int, pptr: u64) -> Option<int> {
    if root >= PPTR_BASE_OFFSET {
        unmap_slot(
            PteFormat::Armv8,
            base,
            mem,
            (root - PPTR_BASE_OFFSET) as u64,
            vptr,
            3,
            page_bits(page_size),
            (pptr - PPTR_BASE_OFFSET) as u64,
        )
    } else {
        None
    }
}

/// Unmapping the same frame twice: once the first unmap cleared its entry,
/// the entry reads zero and the second unmap finds nothing to clear, so it
/// succeeds and changes nothing.
pub proof fn lemma_arm_unmap_twice(base: u64, mem: Seq<u64>, root: u64, vptr: u64, page_size: int, pptr: u64)
    requires
        mem.len() % 512 == 0,
        arm_unmap_target(base, mem, root, vptr, page_size, pptr) is Some,
    ensures
        ({
            let s = arm_unmap_target(base, mem, root, vptr, page_size, pptr)->0;
            &&& mem.update(s, 0)[s] == 0
            &&& arm_unmap_target(base, mem.update(s, 0), root, vptr, page_size, pptr) is None
        }),
{
    crate::memory::lemma_unmap_idempotent(
        PteFormat::Armv8,
        base,
        mem,
        (root - PPTR_BASE_OFFSET) as u64,
        vptr,
        3,
        page_bits(page_size),
        (pptr - PPTR_BASE_OFFSET) as u64,
    );
}

/// Removes the mapping of the frame at kernel pointer `pptr` at `vptr` in
/// the address space of `asid`: the entry is cleared only where the walk
/// ends at a leaf of the given size that names that frame; any other
/// mismatch leaves the tables alone. An ASID with nothing bound is a lookup
/// fault. `Ok(true)` tells that an entry was cleared and the TLB entries of
/// `asid` must be invalidated.
pub fn unmap_page(table: &AsidTable, mem: &mut PageTableArena, page_size: usize, asid: asid_t, vptr: u64, pptr: u64) -> (r: Result<bool, lookup_fault>)
    requires
        table.wf(),
        old(mem).wf(),
        asid < ASID_COUNT,
        page_size <= ARM_HUGE_PAGE,
        pptr >= PPTR_BASE_OFFSET,
    ensures
        final(mem).wf(),
        final(mem).base == old(mem).base,
        match table.lookup(asid as int) {
            None => r == Err::<bool, lookup_fault>(lookup_fault::InvalidRoot) && final(mem).entries@
                == old(mem).entries@,
            Some(root) => match arm_unmap_target(old(mem).base, old(mem).entries@, root, vptr, page_size as int, pptr) {
                Some(s) => r == Ok::<bool, lookup_fault>(true) && final(mem).entries@ == old(
                    mem,
                ).entries@.update(s, 0),
                None => r == Ok::<bool, lookup_fault>(false) && final(mem).entries@ == old(mem).entries@,
            },
        },
{
    let find_ret = find_vspace_for_asid(table, asid);
    if find_ret.status != exception_t::EXCEPTION_NONE {
        return Err(lookup_fault::InvalidRoot);
    }
    let root = match find_ret.vspace_root {
        Some(v) => v,
        None => {
            return Err(lookup_fault::InvalidRoot);
        },
    };
    if root < PPTR_BASE_OFFSET {
        return Ok(false);
    }
    let lu_ret = match mem.walk(PteFormat::Armv8, pptr_to_paddr(root), vptr, 3) {
        Some(ret) => ret,
        None => {
            return Ok(false);
        },
    };
    if lu_ret.ptBitsLeft != pageBitsForSize(page_size) {
        return Ok(false);
    }
    let pte = PTE(mem.read(lu_ret.ptSlot));
    if !pte.is_pte_leaf() {
        return Ok(false);
    }
    if pte.get_page_base_address() != pptr_to_paddr(pptr) {
        return Ok(false);
    }
    mem.write(lu_ret.ptSlot, 0);
    Ok(true)
}

/// The word cleared when the table at kernel pointer `pt` is unmapped from
/// the address space of `root` for `vaddr`.
pub open spec fn arm_unmap_table_target(base: u64, mem: Seq<u64>, root: u64, vaddr: u64, pt: u64) -> Option<int> {
    if root >= PPTR_BASE_OFFSET && pt >= PPTR_BASE_OFFSET {
        unmap_table_slot(
            PteFormat::Armv8,
            base,
            mem,
            (root - PPTR_BASE_OFFSET) as u64,
            vaddr,
            3,
            (pt - PPTR_BASE_OFFSET) as u64,
        )
    } else {
        None
    }
}

/// Clears the entry that links the table at kernel pointer `pt` into the
/// address space of `asid` on the path of `vaddr`. Without a bound root, or
/// when no such entry is on the path, nothing changes. Returns whether an
/// entry was cleared, after which the TLB entries of `asid` must be
/// invalidated.
pub fn unmap_page_table(table: &AsidTable, mem: &mut PageTableArena, asid: asid_t, vaddr: u64, pt: u64) -> (r: bool)
    requires
        table.wf(),
        old(mem).wf(),
        asid < ASID_COUNT,
    ensures
        final(mem).wf(),
        final(mem).base == old(mem).base,
        match table.lookup(asid as int) {
            Some(root) => match arm_unmap_table_target(old(mem).base, old(mem).entries@, root, vaddr, pt) {
                Some(s) => r && final(mem).entries@ == old(mem).entries@.update(s, 0),
                None => !r && final(mem).entries@ == old(mem).entries@,
            },
            None => !r && final(mem).entries@ == old(mem).entries@,
        },
{
    let find_ret = find_vspace_for_asid(table, asid);
    if find_ret.status != exception_t::EXCEPTION_NONE {
        return false;
    }
    let root = match find_ret.vspace_root {
        Some(v) => v,
        None => {
            return false;
        },
    };
    if root < PPTR_BASE_OFFSET || pt < PPTR_BASE_OFFSET {
        return false;
    }
    match mem.find_parent_slot(PteFormat::Armv8, pptr_to_paddr(root), vaddr, 3, pptr_to_paddr(pt)) {
        Some(slot) => {
            mem.write(slot, 0);
            true
        },
        None => false,
    }
}

/// Cache-maintenance requests on a frame or on an address space.
#[derive(Clone, Copy, Debug, PartialEq, Eq, Structural)]
pub enum MessageLabel {
    ARMVSpaceClean_Data,
    ARMVSpaceInvalidate_Data,
    ARMVSpaceCleanInvalidate_Data,
    ARMVSpaceUnify_Instruction,
    ARMPageClean_Data,
    ARMPageInvalidate_Data,
    ARMPageCleanInvalidate_Data,
    ARMPageUnify_Instruction,
}

/// The maintenance that a request asks for over `[start, end]`.
pub open spec fn flush_plan(label: MessageLabel, start: u64, end: u64) -> Seq<CacheOp> {
    match label {
        MessageLabel::ARMPageClean_Data | MessageLabel::ARMVSpaceClean_Data => clean_ram_plan(start, end),
        MessageLabel::ARMPageInvalidate_Data | MessageLabel::ARMVSpaceInvalidate_Data => invalidate_ram_plan(start, end),
        MessageLabel::ARMPageCleanInvalidate_Data | MessageLabel::ARMVSpaceCleanInvalidate_Data => clean_invalidate_ram_plan(start, end),
        MessageLabel::ARMPageUnify_Instruction | MessageLabel::ARMVSpaceUnify_Instruction => (lines(
            LineOp::CleanPoU,
            start,
            end,
        ).push(CacheOp::Dsb) + lines(LineOp::InvalidateI, start, end)).push(CacheOp::Isb),
    }
}

/// The maintenance instructions, in order, that carry out `inv_label` over
/// the virtual range `[start, end]`, whose physical start is `pstart`.
pub fn do_flush(inv_label: MessageLabel, start: u64, end: u64, pstart: u64) -> (r: Vec<CacheOp>)
    requires
        inv_label == MessageLabel::ARMPageInvalidate_Data || inv_label
            == MessageLabel::ARMVSpaceInvalidate_Data ==> end < u64::MAX,
    ensures
        r@ == flush_plan(inv_label, start, end),
{
    match inv_label {
        MessageLabel::ARMPageClean_Data | MessageLabel::ARMVSpaceClean_Data => clean_cache_range_ram(start, end, pstart),
        MessageLabel::ARMPageInvalidate_Data | MessageLabel::ARMVSpaceInvalidate_Data => invalidate_cache_range_ram(start, end, pstart),
        MessageLabel::ARMPageCleanInvalidate_Data | MessageLabel::ARMVSpaceCleanInvalidate_Data => clean_invalidate_cache_range_ram(start, end, pstart),
        MessageLabel::ARMPageUnify_Instruction | MessageLabel::ARMVSpaceUnify_Instruction => {
            let mut ops = clean_cache_range_pou(start, end);
            ops.push(CacheOp::Dsb);
            let mut inv = invalidate_cache_range_i(start, end);
            ops.append(&mut inv);
            ops.push(CacheOp::Isb);
            ops
        },
    }
}

} // verus!
