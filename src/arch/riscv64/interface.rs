use vstd::prelude::*;

use super::config::{PPTR_BASE_OFFSET, SATP_MODE_SV39};
use super::pagetable::KernelPageTables;
use super::satp::{satp_for_root, satp_t, satp_word};
use super::utils::pptr_to_paddr;
use crate::asid::{asid_t, find_vspace_for_asid, AsidTable, ASID_COUNT};
use crate::memory::{unmap_table_slot, PageTableArena, PteFormat};
use crate::structures::{cap, exception_t, lookup_fault};

verus! {

/// The root that a translation-root capability asks for, with its ASID,
/// when it is a page-table capability.
pub open spec fn requested_root(c: cap) -> Option<(u64, u64)> {
    match c {
        cap::cap_page_table_cap(pt) => Some((pt.capPTBasePtr, pt.capPTMappedASID)),
        _ => None,
    }
}

/// The register image and result of switching to the address space of `c`:
/// the capability's root under its ASID when that ASID is bound to exactly
/// that root (a pointer into the linear map), else the kernel's root. Only
/// an ASID with nothing bound reports a fault.
pub open spec fn vm_root_outcome(table: AsidTable, kernel_root: u64, c: cap) -> (u64, Result<(), lookup_fault>) {
    let kernel = satp_word(SATP_MODE_SV39, 0, kernel_root >> 12);
    match requested_root(c) {
        None => (kernel, Ok(())),
        Some((root, asid)) => if asid >= ASID_COUNT || table.lookup(asid as int) is None {
            (kernel, Err(lookup_fault::InvalidRoot))
        } else if table.lookup(asid as int) != Some(root) || root < PPTR_BASE_OFFSET {
            (kernel, Ok(()))
        } else {
            (satp_word(SATP_MODE_SV39, asid, ((root - PPTR_BASE_OFFSET) as u64) >> 12), Ok(()))
        },
    }
}

/// Chooses the translation root to activate for a thread whose root
/// capability is `vspace_root_cap`; a stale or foreign capability falls back
/// to the kernel's root.
pub fn set_vm_root(table: &AsidTable, kt: &KernelPageTables, vspace_root_cap: &cap) -> (r: (satp_t, Result<(), lookup_fault>))
    requires
        table.wf(),
        kt.wf(),
    ensures
        (r.0.words, r.1) == vm_root_outcome(*table, kt.spec_root(), *vspace_root_cap),
{
    let kernel = satp_for_root(kt.root_paddr(), 0);
    let pt = match vspace_root_cap {
        cap::cap_page_table_cap(pt) => pt,
        _ => {
            return (kernel, Ok(()));
        },
    };
    let lvl1pt = pt.capPTBasePtr;
    let asid = pt.capPTMappedASID;
    if asid >= ASID_COUNT as u64 {
        return (kernel, Err(lookup_fault::InvalidRoot));
    }
    let find_ret = find_vspace_for_asid(table, asid as usize);
    if find_ret.status != exception_t::EXCEPTION_NONE {
        return (kernel, Err(lookup_fault::InvalidRoot));
    }
    let found = match find_ret.vspace_root {
        Some(v) => v,
        None => {
            return (kernel, Ok(()));
        },
    };
    if found != lvl1pt || lvl1pt < PPTR_BASE_OFFSET {
        return (kernel, Ok(()));
    }
    (satp_for_root(pptr_to_paddr(lvl1pt), asid), Ok(()))
}

/// The word cleared when the table at kernel pointer `pt` is unmapped from
/// the address space of `root` for `vptr`.
pub open spec fn rv_unmap_table_target(base: u64, mem: Seq<u64>, root: u64, vptr: u64, pt: u64) -> Option<int> {
    if root >= PPTR_BASE_OFFSET && pt >= PPTR_BASE_OFFSET {
        unmap_table_slot(
            PteFormat::Sv39,
            base,
            mem,
            (root - PPTR_BASE_OFFSET) as u64,
            vptr,
            2,
            (pt - PPTR_BASE_OFFSET) as u64,
        )
    } else {
        None
    }
}

/// Clears the entry that links the table at kernel pointer `pt` into the
/// address space of `asid` on the path of `vptr`. Without a bound root, or
/// when no such entry is on the path, nothing changes. Returns whether an
/// entry was cleared, after which the translation caches must be fenced.
pub fn unmap_page_table(table: &AsidTable, mem: &mut PageTableArena, asid: asid_t, vptr: u64, pt: u64) -> (r: bool)
    requires
        table.wf(),
        old(mem).wf(),
        asid < ASID_COUNT,
    ensures
        final(mem).wf(),
        final(mem).base == old(mem).base,
        match table.lookup(asid as int) {
            Some(root) => match rv_unmap_table_target(old(mem).base, old(mem).entries@, root, vptr, pt) {
                Some(s) => r && final(mem).entries@ == old(mem).entries@.update(s, 0),
                None => !r && final(mem).entries@ == old(mem).entries@,
            },
            None => !r && final(mem).entries@ == old(mem).entries@,
        },
{
    let find_ret = find_vspace_for_asid(table, asid);
    if find_ret.status != exception_t::EXCEPTION_NONE {
        return false;
    }
    let root = match find_ret.vspace_root {
        Some(v) => v,
        None => {
            return false;
        },
    };
    if root < PPTR_BASE_OFFSET || pt < PPTR_BASE_OFFSET {
        return false;
    }
    match mem.find_parent_slot(PteFormat::Sv39, pptr_to_paddr(root), vptr, 2, pptr_to_paddr(pt)) {
        Some(slot) => {
            mem.write(slot, 0);
            true
        },
        None => false,
    }
}

} // verus!
