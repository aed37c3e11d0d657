//! The kernel window builder and the boot-time capability bridge on the
//! four-level layout.
use vstd::prelude::*;

use super::config::{ARM_LARGE_PAGE, ARM_SMALL_PAGE, PADDR_BASE, PADDR_TOP, PPTR_BASE, PPTR_BASE_OFFSET, PPTR_TOP};
use super::device::{apply_devices, map_kernel_devices};
use super::interface::{
    get_kernel_page_directory_base_by_index, get_kernel_page_table_base,
    get_kernel_page_upper_directory_base, set_kernel_page_directory_by_index,
    set_kernel_page_global_directory_by_index, set_kernel_page_table_by_index,
    set_kernel_page_upper_directory_by_index, ArmKernelTables, KERNEL_PT_TABLE,
};
use super::machine::mair_types;
use super::pte::{arm_addr, arm_leaf_word, arm_table_word, lemma_arm_round_trip, PAGE_ADDR_MASK, PTE};
use super::utils::{ap_from_vm_rights, ap_of, get_kpt_index, kpptr_to_paddr, pptr_to_paddr};
use crate::memory::{lemma_table_at_bounds, level_index, table_at, translate, walk, PageTableArena, PteFormat};
use crate::structures::{
    cap, cap_frame_cap, cap_page_table_cap, cap_vspace_cap, kernel_frame_t, p_region_t,
    reserved_regions, vm_attributes_t, vm_rights_t,
};

verus! {

/// The 4 KiB entry of a kernel frame: never executable by user code,
/// global, accessed; normal memory when cacheable, device memory otherwise.
pub open spec fn kernel_frame_word(paddr: u64, rights: vm_rights_t, attrs: vm_attributes_t) -> u64 {
    if attrs.0 & 1 != 0 {
        arm_leaf_word(1, paddr, 0, 1, 0, ap_of(rights), 4, true)
    } else {
        arm_leaf_word(1, paddr, 0, 1, 0, ap_of(rights), 0, true)
    }
}

/// Maps a kernel frame in the page table of the device window at the
/// entry that `vaddr` selects.
pub fn map_kernel_frame(kt: &mut ArmKernelTables, paddr: u64, vaddr: u64, vm_rights: vm_rights_t, attributes: vm_attributes_t)
    requires
        old(kt).wf(),
    ensures
        final(kt).wf(),
        final(kt).arena.base == old(kt).arena.base,
        final(kt).mem() == old(kt).mem().update(
            KERNEL_PT_TABLE * 512 + level_index(vaddr, 0),
            kernel_frame_word(paddr, vm_rights, attributes),
        ),
{
    let uxn: u64 = 1;
    let attr_index: u64;
    let shareable: u64;
    if attributes.get_page_cacheable() != 0 {
        attr_index = mair_types::NORMAL.index();
        shareable = 0;
    } else {
        attr_index = mair_types::DEVICE_nGnRnE.index();
        shareable = 0;
    }
    set_kernel_page_table_by_index(
        kt,
        get_kpt_index(vaddr, 3),
        PTE::pte_new_4k_page(uxn, paddr, 0, 1, shareable, ap_from_vm_rights(vm_rights), attr_index),
    );
}

/// Word of entry `n` of the page directories of the linear map: a 2 MiB
/// block of normal memory, never executable by user code.
pub open spec fn linear_word(n: int) -> u64 {
    arm_leaf_word(1, (n * 0x20_0000) as u64, 0, 1, 0, 0, 4, false)
}

proof fn lemma_linear_step(vaddr: u64, paddr: u64)
    by (bit_vector)
    requires
        paddr < 0x7F_C000_0000,
        paddr & 0x1f_ffff == 0,
        vaddr == paddr + 0xFFFF_FF80_0000_0000u64,
    ensures
        (vaddr >> 30) & 511 == paddr >> 30,
        (vaddr >> 21) & 511 == (paddr >> 21) & 511,
        (paddr >> 30) * 512 + ((paddr >> 21) & 511) == paddr >> 21,
        (paddr >> 30) < 511,
        ((paddr + 0x20_0000) as u64) & 0x1f_ffff == 0,
        ((paddr + 0x20_0000) as u64) >> 21 == (paddr >> 21) + 1,
        paddr + 0x20_0000 <= 0x7F_C000_0000,
        paddr == (paddr >> 21) * 0x20_0000,
{
}

proof fn lemma_linear_point(p: u64)
    by (bit_vector)
    requires
        p < 0x7F_C000_0000,
    ensures
        (((p + 0xFFFF_FF80_0000_0000u64) as u64) >> 39) & 511 == 511,
        (((p + 0xFFFF_FF80_0000_0000u64) as u64) >> 30) & 511 == p >> 30,
        (((p + 0xFFFF_FF80_0000_0000u64) as u64) >> 21) & 511 == (p >> 21) & 511,
        (p >> 30) * 512 + ((p >> 21) & 511) == p >> 21,
        (p >> 30) < 511,
        (p >> 21) < 0x3_fe00,
        (((p >> 21) * 0x20_0000) as u64) & !0x0000_ffff_ffff_f000u64 == 0,
        (p >> 21) * 0x20_0000 + ((p + 0xFFFF_FF80_0000_0000u64) as u64) % 0x20_0000 == p,
{
}

proof fn lemma_low_aligned(x: u64)
    by (bit_vector)
    requires
        x % 4096 == 0,
        x < 0x8000_0000,
    ensures
        x & !0x0000_ffff_ffff_f000u64 == 0,
{
}

proof fn lemma_window_consts()
    by (bit_vector)
    ensures
        (0xFFFF_FF80_0000_0000u64 >> 39) & 511 == 511,
        (0xFFFF_FF80_0000_0000u64 >> 30) & 511 == 0,
        (0xFFFF_FFFF_C000_0000u64 >> 30) & 511 == 511,
        0u64 & 0x1f_ffff == 0,
        0u64 >> 21 == 0,
        0x7F_C000_0000u64 >> 21 == 0x3_fe00,
{
}

/// The kernel tables `m0` once the window is built, before any device is
/// mapped: the global directory entry of the linear map names the upper
/// directory; upper-directory entry `i` names page directory `i`; the page
/// directories hold, in order, the 2 MiB blocks of the linear map (access
/// flag set, normal memory, not executable by user code) up to
/// `PADDR_TOP`; the last entry of page directory 511 names the page table of
/// the device window.
pub open spec fn arm_window(base: u64, m0: Seq<u64>) -> Seq<u64> {
    Seq::new(
        m0.len(),
        |k: int|
            if k == 511 {
                arm_table_word((base + 4096) as u64)
            } else if 512 <= k < 1024 {
                arm_table_word((base + (k - 510) * 4096) as u64)
            } else if 1024 <= k < 1024 + 0x3_fe00 {
                linear_word(k - 1024)
            } else if k == KERNEL_PT_LINK {
                arm_table_word((base + KERNEL_PT_TABLE * 4096) as u64)
            } else {
                m0[k]
            },
    )
}

/// The word of page directory 511 that links the page table of the device window.
pub const KERNEL_PT_LINK: usize = 263167;

/// Builds the kernel window: the global directory entry of the linear map
/// names the upper directory, whose entries 0..510 name page directories
/// 0..510; every physical address below `PADDR_TOP` gets its alias in the
/// linear map through 2 MiB blocks; entry 511 of the upper directory names
/// page directory 511, whose last entry names the page table of the device
/// window, where the device frames are mapped. Returns the regions to
/// reserve for device frames that user code may not reach.
pub fn rust_map_kernel_window(kt: &mut ArmKernelTables, devices: &Vec<kernel_frame_t>) -> (r: Vec<p_region_t>)
    requires
        old(kt).wf(),
        forall|i: int| 0 <= i < devices@.len() ==> #[trigger] devices@[i].paddr + 0x1000 <= u64::MAX,
    ensures
        final(kt).wf(),
        final(kt).arena.base == old(kt).arena.base,
        r@ == reserved_regions(devices@),
        final(kt).mem() == apply_devices(arm_window(old(kt).arena.base, old(kt).mem()), devices@),
        forall|p: u64|
            PADDR_BASE <= p < PADDR_TOP ==> #[trigger] translate(
                PteFormat::Armv8,
                final(kt).arena.base,
                final(kt).mem(),
                final(kt).arena.base,
                (p + PPTR_BASE_OFFSET) as u64,
                3,
            ) == Some(p as int),
{
    proof {
        lemma_window_consts();
    }
    let base = kt.arena.base;
    let ghost start = kt.mem();
    set_kernel_page_global_directory_by_index(
        kt,
        get_kpt_index(PPTR_BASE, 0),
        PTE::pte_new_table(kpptr_to_paddr(get_kernel_page_upper_directory_base(kt))),
    );
    let ghost m0 = kt.mem();
    let mut idx = get_kpt_index(PPTR_BASE, 1);
    let top_idx = get_kpt_index(PPTR_TOP, 1);
    while idx < top_idx
        invariant
            kt.wf(),
            kt.arena.base == base,
            idx <= 511,
            top_idx == 511,
            forall|k: int|
                0 <= k < kt.mem().len() ==> #[trigger] kt.mem()[k] == if 512 <= k < 512 + idx {
                    arm_table_word((base + (k - 510) * 4096) as u64)
                } else {
                    m0[k]
                },
        decreases top_idx - idx,
    {
        let pd = kpptr_to_paddr(get_kernel_page_directory_base_by_index(kt, idx));
        let ghost before = kt.mem();
        set_kernel_page_upper_directory_by_index(kt, idx, PTE::pte_new_table(pd));
        proof {
            assert forall|k: int| 0 <= k < kt.mem().len() implies #[trigger] kt.mem()[k] == if 512
                <= k < 512 + idx + 1 {
                arm_table_word((base + (k - 510) * 4096) as u64)
            } else {
                m0[k]
            } by {
                if k != 512 + idx {
                    assert(kt.mem()[k] == before[k]);
                }
            }
        }
        idx = idx + 1;
    }
    let ghost m1 = kt.mem();
    let mut vaddr: u64 = PPTR_BASE;
    let mut paddr: u64 = PADDR_BASE;
    while paddr < PADDR_TOP
        invariant
            kt.wf(),
            kt.arena.base == base,
            vaddr == paddr + PPTR_BASE_OFFSET,
            paddr <= PADDR_TOP,
            paddr & 0x1f_ffff == 0,
            forall|k: int|
                0 <= k < kt.mem().len() ==> #[trigger] kt.mem()[k] == if 1024 <= k < 1024 + (paddr
                    >> 21) {
                    linear_word(k - 1024)
                } else {
                    m1[k]
                },
        decreases PADDR_TOP - paddr,
    {
        proof {
            lemma_linear_step(vaddr, paddr);
        }
        let i1 = get_kpt_index(vaddr, 1);
        let i2 = get_kpt_index(vaddr, 2);
        let w = PTE::pte_new_page(1, paddr, 0, 1, 0, 0, mair_types::NORMAL.index());
        let ghost before = kt.mem();
        set_kernel_page_directory_by_index(kt, i1, i2, w);
        proof {
            let n = paddr >> 21;
            assert(1024 + i1 * 512 + i2 == 1024 + n);
            assert(w.0 == linear_word(n as int));
            assert forall|k: int| 0 <= k < kt.mem().len() implies #[trigger] kt.mem()[k] == if 1024
                <= k < 1024 + n + 1 {
                linear_word(k - 1024)
            } else {
                m1[k]
            } by {
                if k != 1024 + n {
                    assert(kt.mem()[k] == before[k]);
                }
            }
        }
        vaddr = vaddr + 0x20_0000;
        paddr = paddr + 0x20_0000;
    }
    let ghost m2 = kt.mem();
    let last = get_kpt_index(PPTR_TOP, 1);
    let pd_last = kpptr_to_paddr(get_kernel_page_directory_base_by_index(kt, 511));
    set_kernel_page_upper_directory_by_index(kt, last, PTE::pte_new_table(pd_last));
    let pt = kpptr_to_paddr(get_kernel_page_table_base(kt));
    set_kernel_page_directory_by_index(kt, 511, 511, PTE::pte_new_table(pt));
    proof {
        let w = arm_window(base, start);
        assert forall|k: int| 0 <= k < w.len() implies #[trigger] kt.mem()[k] == w[k] by {
            if k != 1023 && k != 263167 {
                assert(kt.mem()[k] == m2[k]);
                if !(1024 <= k < 1024 + 0x3_fe00) {
                    assert(m2[k] == m1[k]);
                    if !(512 <= k < 1023) {
                        assert(m1[k] == m0[k]);
                    }
                }
            }
        }
        assert(kt.mem() =~= w);
    }
    let regions = map_kernel_devices(kt, devices);
    proof {
        let mem = kt.mem();
        let len = mem.len();
        assert(forall|k: int| 0 <= k < 1024 + 0x3_fe00 && k != 1023 ==> mem[k] == m2[k]);
        let pud = (base + 4096) as u64;
        lemma_low_aligned(pud);
        lemma_arm_round_trip(0, pud, 0, 0, 0, 0, 0, false);
        assert(mem[511] == arm_table_word(pud));
        assert(table_at(base, len, pud) == Some(512int));
        assert forall|p: u64| PADDR_BASE <= p < PADDR_TOP implies #[trigger] translate(
            PteFormat::Armv8,
            base,
            mem,
            base,
            (p + PPTR_BASE_OFFSET) as u64,
            3,
        ) == Some(p as int) by {
            lemma_linear_point(p);
            let v = (p + PPTR_BASE_OFFSET) as u64;
            let q = p >> 30;
            let n = p >> 21;
            let pd = (base + (q + 2) * 4096) as u64;
            lemma_low_aligned(pd);
            lemma_arm_round_trip(0, pd, 0, 0, 0, 0, 0, false);
            assert(mem[512 + q] == arm_table_word(pd));
            assert((q + 2) * 4096 / 8 == 1024 + q * 512);
            assert(table_at(base, len, pd) == Some(1024 + q * 512));
            lemma_arm_round_trip(1, (n * 0x20_0000) as u64, 0, 1, 0, 0, 4, false);
            assert(mem[1024 + n] == linear_word(n as int));
            assert(walk(PteFormat::Armv8, base, mem, 1024 + q * 512, v, 1) == Some((1024 + n, 21nat)));
            assert(walk(PteFormat::Armv8, base, mem, 512, v, 2) == Some((1024 + n, 21nat)));
            assert(walk(PteFormat::Armv8, base, mem, 0, v, 3) == Some((1024 + n, 21nat)));
        }
    }
    regions
}

/// Which entry `find_pt` looks for on the path of an address.
#[derive(Clone, Copy, Debug, PartialEq, Eq, Structural)]
pub enum find_type {
    /// The entry of the upper directory.
    PUDE,
    /// The entry of the page directory.
    PDE,
    /// The entry of the page table.
    PTE,
}

pub open spec fn find_steps(f: find_type) -> nat {
    match f {
        find_type::PUDE => 1,
        find_type::PDE => 2,
        find_type::PTE => 3,
    }
}

/// The word reached from the table at word `table`, at `level`, after
/// following `steps` entries toward `v` by their address fields, whatever
/// their type.
pub open spec fn descend(base: u64, mem: Seq<u64>, table: int, v: u64, level: nat, steps: nat) -> Option<int>
    decreases steps,
{
    let slot = table + level_index(v, level);
    if steps == 0 {
        Some(slot)
    } else {
        match table_at(base, mem.len(), arm_addr(mem[slot])) {
            Some(t) => descend(base, mem, t, v, (level - 1) as nat, (steps - 1) as nat),
            None => None,
        }
    }
}

/// The entry that `find_pt` names, from the root at kernel pointer `root`.
pub open spec fn find_slot(base: u64, mem: Seq<u64>, root: u64, v: u64, f: find_type) -> Option<int> {
    if root >= PPTR_BASE_OFFSET {
        match table_at(base, mem.len(), (root - PPTR_BASE_OFFSET) as u64) {
            Some(t) => descend(base, mem, t, v, 3, find_steps(f)),
            None => None,
        }
    } else {
        None
    }
}

/// The tables after writing `word` at the entry `find_pt` names; unchanged
/// when there is none.
pub open spec fn map_at_find(base: u64, mem: Seq<u64>, root: u64, v: u64, f: find_type, word: u64) -> Seq<u64> {
    match find_slot(base, mem, root, v, f) {
        Some(s) => mem.update(s, word),
        None => mem,
    }
}

/// Finds the entry of kind `ftype` on the path of `vptr` in the address
/// space rooted at kernel pointer `vspace_root`, descending through the
/// address fields of the entries above it.
pub fn find_pt(mem: &PageTableArena, vspace_root: u64, vptr: u64, ftype: find_type) -> (r: Option<usize>)
    requires
        mem.wf(),
    ensures
        r matches Some(s) ==> find_slot(mem.base, mem.entries@, vspace_root, vptr, ftype) == Some(s as int) && s < mem.entries@.len(),
        r is None ==> find_slot(mem.base, mem.entries@, vspace_root, vptr, ftype) is None,
{
    if vspace_root < PPTR_BASE_OFFSET {
        return None;
    }
    let mut table = match mem.table_of(pptr_to_paddr(vspace_root)) {
        Some(t) => t,
        None => {
            return None;
        },
    };
    proof {
        lemma_table_at_bounds(mem.base, mem.entries@.len(), (vspace_root - PPTR_BASE_OFFSET) as u64);
    }
    let steps: usize = match ftype {
        find_type::PUDE => 1,
        find_type::PDE => 2,
        find_type::PTE => 3,
    };
    let mut level: usize = 3;
    let mut done: usize = 0;
    loop
        invariant
            mem.wf(),
            done <= steps <= 3,
            level == 3 - done,
            steps == find_steps(ftype),
            table % 512 == 0,
            table + 512 <= mem.entries@.len(),
            descend(mem.base, mem.entries@, table as int, vptr, level as nat, (steps - done) as nat)
                == find_slot(mem.base, mem.entries@, vspace_root, vptr, ftype),
        decreases steps - done,
    {
        let idx = get_kpt_index(vptr, 3 - level);
        let slot = table + idx;
        if done == steps {
            return Some(slot);
        }
        let next = PTE(mem.read(slot)).next_level_paddr();
        match mem.table_of(next) {
            Some(t) => {
                proof {
                    lemma_table_at_bounds(mem.base, mem.entries@.len(), next);
                }
                table = t;
                level = level - 1;
                done = done + 1;
            },
            None => {
                return None;
            },
        }
    }
}

/// Links the page table of `pt_cap` into the page directory that the path
/// of its mapped address reaches.
pub fn map_it_pt_cap(mem: &mut PageTableArena, vspace_cap: &cap_vspace_cap, pt_cap: &cap_page_table_cap)
    requires
        old(mem).wf(),
        pt_cap.capPTBasePtr >= PPTR_BASE_OFFSET,
    ensures
        final(mem).wf(),
        final(mem).base == old(mem).base,
        final(mem).entries@ == map_at_find(
            old(mem).base,
            old(mem).entries@,
            vspace_cap.capVSBasePtr,
            pt_cap.capPTMappedAddress,
            find_type::PDE,
            arm_table_word((pt_cap.capPTBasePtr - PPTR_BASE_OFFSET) as u64),
        ),
{
    let vspace_root = vspace_cap.capVSBasePtr;
    let vptr = pt_cap.capPTMappedAddress;
    let pt = pptr_to_paddr(pt_cap.capPTBasePtr);
    if let Some(slot) = find_pt(mem, vspace_root, vptr, find_type::PDE) {
        mem.write(slot, PTE::pte_new_table(pt).0);
    }
}

/// The global directory word on the path of `v` from the root at kernel pointer `root`.
pub open spec fn pgd_slot(base: u64, mem: Seq<u64>, root: u64, v: u64) -> Option<int> {
    if root >= PPTR_BASE_OFFSET {
        match table_at(base, mem.len(), (root - PPTR_BASE_OFFSET) as u64) {
            Some(t) => Some(t + level_index(v, 3)),
            None => None,
        }
    } else {
        None
    }
}

/// The global directory entry on the path of `v` from the root at kernel pointer `root`.
pub open spec fn pgd_entry(base: u64, mem: Seq<u64>, root: u64, v: u64) -> Option<u64> {
    match pgd_slot(base, mem, root, v) {
        Some(s) => Some(mem[s]),
        None => None,
    }
}

/// Whether the global directory entry on the path of `v` has the attribute
/// bits of a table entry.
pub open spec fn pgd_links_table(base: u64, mem: Seq<u64>, root: u64, v: u64) -> bool {
    match pgd_entry(base, mem, root, v) {
        Some(e) => e & !PAGE_ADDR_MASK == 3,
        None => false,
    }
}

/// Links the page directory of `pd_cap` into the upper directory that the
/// global directory names for its mapped address. The capability must be
/// mapped and that global directory entry must be a table entry.
pub fn map_it_pd_cap(mem: &mut PageTableArena, vspace_cap: &cap_vspace_cap, pd_cap: &cap_page_table_cap)
    requires
        old(mem).wf(),
        pd_cap.capPTBasePtr >= PPTR_BASE_OFFSET,
        pd_cap.capPTIsMapped == 1,
        pgd_links_table(old(mem).base, old(mem).entries@, vspace_cap.capVSBasePtr, pd_cap.capPTMappedAddress),
    ensures
        final(mem).wf(),
        final(mem).base == old(mem).base,
        final(mem).entries@ == map_at_find(
            old(mem).base,
            old(mem).entries@,
            vspace_cap.capVSBasePtr,
            pd_cap.capPTMappedAddress,
            find_type::PUDE,
            arm_table_word((pd_cap.capPTBasePtr - PPTR_BASE_OFFSET) as u64),
        ),
{
    let vspace_root = vspace_cap.capVSBasePtr;
    let vptr = pd_cap.capPTMappedAddress;
    let pd = pptr_to_paddr(pd_cap.capPTBasePtr);
    if let Some(slot) = find_pt(mem, vspace_root, vptr, find_type::PUDE) {
        mem.write(slot, PTE::pte_new_table(pd).0);
    }
}

/// Installs the upper directory of `pud_cap` in the global directory entry
/// of its mapped address. The capability must be mapped; nothing changes
/// when the root is not a table of `mem`.
pub fn map_it_pud_cap(mem: &mut PageTableArena, vspace_cap: &cap_vspace_cap, pud_cap: &cap_page_table_cap)
    requires
        old(mem).wf(),
        pud_cap.capPTBasePtr >= PPTR_BASE_OFFSET,
        pud_cap.capPTIsMapped == 1,
    ensures
        final(mem).wf(),
        final(mem).base == old(mem).base,
        final(mem).entries@ == match pgd_slot(
            old(mem).base,
            old(mem).entries@,
            vspace_cap.capVSBasePtr,
            pud_cap.capPTMappedAddress,
        ) {
            Some(s) => old(mem).entries@.update(s, arm_table_word((pud_cap.capPTBasePtr - PPTR_BASE_OFFSET) as u64)),
            None => old(mem).entries@,
        },
{
    let vspace_root = vspace_cap.capVSBasePtr;
    let vptr = pud_cap.capPTMappedAddress;
    let pud = pptr_to_paddr(pud_cap.capPTBasePtr);
    if vspace_root < PPTR_BASE_OFFSET {
        return;
    }
    let pgd = match mem.table_of(pptr_to_paddr(vspace_root)) {
        Some(t) => t,
        None => {
            return;
        },
    };
    proof {
        lemma_table_at_bounds(mem.base, mem.entries@.len(), (vspace_root - PPTR_BASE_OFFSET) as u64);
    }
    mem.write(pgd + get_kpt_index(vptr, 0), PTE::pte_new_table(pud).0);
}

/// The 4 KiB entry of a frame of the initial thread: executable by user
/// code only when `exec`, not global, accessed, read-write for all, normal
/// memory of index 0.
pub open spec fn it_frame_word(frame: u64, exec: bool) -> u64 {
    arm_leaf_word(if exec {
        0
    } else {
        1
    }, frame, 1, 1, 0, 1, 0, true)
}

/// Maps the frame of `frame_cap` in the page table that the path of its
/// mapped address reaches.
pub fn map_it_frame_cap(mem: &mut PageTableArena, vspace_cap: &cap_vspace_cap, frame_cap: &cap_frame_cap, exec: bool)
    requires
        old(mem).wf(),
        frame_cap.capFBasePtr >= PPTR_BASE_OFFSET,
    ensures
        final(mem).wf(),
        final(mem).base == old(mem).base,
        final(mem).entries@ == map_at_find(
            old(mem).base,
            old(mem).entries@,
            vspace_cap.capVSBasePtr,
            frame_cap.capFMappedAddress,
            find_type::PTE,
            it_frame_word((frame_cap.capFBasePtr - PPTR_BASE_OFFSET) as u64, exec),
        ),
{
    let frame = pptr_to_paddr(frame_cap.capFBasePtr);
    let uxn: u64 = if exec {
        0
    } else {
        1
    };
    if let Some(slot) = find_pt(mem, vspace_cap.capVSBasePtr, frame_cap.capFMappedAddress, find_type::PTE) {
        mem.write(slot, PTE::pte_new_4k_page(uxn, frame, 1, 1, 0, 1, 0).0);
    }
}

/// Creates a mapped upper-directory capability for the initial thread and
/// installs the directory in the global directory.
pub fn create_it_pud_cap(mem: &mut PageTableArena, vspace_cap: &cap_vspace_cap, pptr: u64, vptr: u64, asid: u64) -> (r: cap_page_table_cap)
    requires
        old(mem).wf(),
        pptr >= PPTR_BASE_OFFSET,
    ensures
        r == (cap_page_table_cap {
            capPTMappedASID: asid,
            capPTBasePtr: pptr,
            capPTIsMapped: 1,
            capPTMappedAddress: vptr,
        }),
        final(mem).wf(),
        final(mem).base == old(mem).base,
        final(mem).entries@ == match pgd_slot(old(mem).base, old(mem).entries@, vspace_cap.capVSBasePtr, vptr) {
            Some(s) => old(mem).entries@.update(s, arm_table_word((pptr - PPTR_BASE_OFFSET) as u64)),
            None => old(mem).entries@,
        },
{
    let capability = cap_page_table_cap::new(asid, pptr, 1, vptr);
    map_it_pud_cap(mem, vspace_cap, &capability);
    capability
}

/// Creates a mapped page-directory capability for the initial thread and
/// links the directory into its upper directory; the global directory
/// entry of `vptr` must be a table entry.
pub fn create_it_pd_cap(mem: &mut PageTableArena, vspace_cap: &cap_vspace_cap, pptr: u64, vptr: u64, asid: u64) -> (r: cap)
    requires
        old(mem).wf(),
        pptr >= PPTR_BASE_OFFSET,
        pgd_links_table(old(mem).base, old(mem).entries@, vspace_cap.capVSBasePtr, vptr),
    ensures
        r == cap::cap_page_table_cap(
            cap_page_table_cap {
                capPTMappedASID: asid,
                capPTBasePtr: pptr,
                capPTIsMapped: 1,
                capPTMappedAddress: vptr,
            },
        ),
        final(mem).wf(),
        final(mem).base == old(mem).base,
        final(mem).entries@ == map_at_find(
            old(mem).base,
            old(mem).entries@,
            vspace_cap.capVSBasePtr,
            vptr,
            find_type::PUDE,
            arm_table_word((pptr - PPTR_BASE_OFFSET) as u64),
        ),
{
    let capability = cap_page_table_cap::new(asid, pptr, 1, vptr);
    map_it_pd_cap(mem, vspace_cap, &capability);
    cap::cap_page_table_cap(capability)
}

/// Creates a mapped page-table capability for the initial thread and links
/// the table into its page directory.
pub fn create_it_pt_cap(mem: &mut PageTableArena, vspace_cap: &cap_vspace_cap, pptr: u64, vptr: u64, asid: u64) -> (r: cap_page_table_cap)
    requires
        old(mem).wf(),
        pptr >= PPTR_BASE_OFFSET,
    ensures
        r == (cap_page_table_cap {
            capPTMappedASID: asid,
            capPTBasePtr: pptr,
            capPTIsMapped: 1,
            capPTMappedAddress: vptr,
        }),
        final(mem).wf(),
        final(mem).base == old(mem).base,
        final(mem).entries@ == map_at_find(
            old(mem).base,
            old(mem).entries@,
            vspace_cap.capVSBasePtr,
            vptr,
            find_type::PDE,
            arm_table_word((pptr - PPTR_BASE_OFFSET) as u64),
        ),
{
    let capability = cap_page_table_cap::new(asid, pptr, 1, vptr);
    map_it_pt_cap(mem, vspace_cap, &capability);
    capability
}

/// The read-write frame capability of the initial thread.
pub open spec fn create_it_frame_cap_spec(pptr: u64, vptr: u64, asid: u64, use_large: bool) -> cap_frame_cap {
    cap_frame_cap {
        capFMappedASID: asid,
        capFBasePtr: pptr,
        capFSize: if use_large {
            ARM_LARGE_PAGE as u64
        } else {
            ARM_SMALL_PAGE as u64
        },
        capFMappedAddress: vptr,
        capFVMRights: vm_rights_t::VMReadWrite,
        capFIsDevice: 0,
    }
}

/// A read-write frame capability: a large page when `use_large`, else a small one.
pub fn create_it_frame_cap(pptr: u64, vptr: u64, asid: u64, use_large: bool) -> (r: cap_frame_cap)
    ensures
        r == create_it_frame_cap_spec(pptr, vptr, asid, use_large),
{
    let frame_size: usize;
    if use_large {
        frame_size = ARM_LARGE_PAGE;
    } else {
        frame_size = ARM_SMALL_PAGE;
    }
    cap_frame_cap {
        capFMappedASID: asid,
        capFBasePtr: pptr,
        capFSize: frame_size as u64,
        capFMappedAddress: vptr,
        capFVMRights: vm_rights_t::VMReadWrite,
        capFIsDevice: 0,
    }
}

/// A frame capability for the frame at `pptr` that maps nothing.
pub fn create_unmapped_it_frame_cap(pptr: u64, use_large: bool) -> (r: cap_frame_cap)
    ensures
        r == create_it_frame_cap_spec(pptr, 0, 0, use_large),
{
    create_it_frame_cap(pptr, 0, 0, use_large)
}

/// Creates a read-write frame capability for the initial thread and maps
/// the frame in the address space of `pd_cap`.
pub fn create_mapped_it_frame_cap(
    mem: &mut PageTableArena,
    pd_cap: &cap_vspace_cap,
    pptr: u64,
    vptr: u64,
    asid: u64,
    use_large: bool,
    exec: bool,
) -> (r: cap_frame_cap)
    requires
        old(mem).wf(),
        pptr >= PPTR_BASE_OFFSET,
    ensures
        r == create_it_frame_cap_spec(pptr, vptr, asid, use_large),
        final(mem).wf(),
        final(mem).base == old(mem).base,
        final(mem).entries@ == map_at_find(
            old(mem).base,
            old(mem).entries@,
            pd_cap.capVSBasePtr,
            vptr,
            find_type::PTE,
            it_frame_word((pptr - PPTR_BASE_OFFSET) as u64, exec),
        ),
{
    let capability = create_it_frame_cap(pptr, vptr, asid, use_large);
    map_it_frame_cap(mem, pd_cap, &capability, exec);
    capability
}

} // verus!
