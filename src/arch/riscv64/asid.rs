use vstd::prelude::*;

use super::interface::{set_vm_root, vm_root_outcome};
use super::pagetable::KernelPageTables;
use super::satp::satp_t;
use crate::asid::{
    asid_t, lemma_asid_split, pool_slot, unbind_in, AsidTable, ASID_COUNT, ASID_LOW_BITS, ASID_TABLE_SLOTS,
    IT_ASID,
};
use crate::structures::{cap, cap_asid_pool_cap, cap_page_table_cap, lookup_fault};

verus! {

/// Installs the initial thread's ASID pool and binds its root table to the
/// initial thread's ASID.
pub fn write_it_asid_pool(table: &mut AsidTable, it_ap_cap: &cap_asid_pool_cap, it_lvl1pt_cap: &cap_page_table_cap)
    requires
        old(table).wf(),
        1 <= it_ap_cap.capASIDPool <= old(table).n_pools(),
    ensures
        final(table).wf(),
        final(table).pools@ == old(table).pools@.update(0, it_ap_cap.capASIDPool),
        final(table).roots@ == old(table).roots@.update(
            (it_ap_cap.capASIDPool - 1) * 512 + IT_ASID,
            it_lvl1pt_cap.capPTBasePtr,
        ),
        final(table).lookup(IT_ASID as int) == if it_lvl1pt_cap.capPTBasePtr != 0 {
            Some(it_lvl1pt_cap.capPTBasePtr)
        } else {
            None::<u64>
        },
{
    proof {
        lemma_asid_split(IT_ASID);
    }
    table.install_pool(IT_ASID >> ASID_LOW_BITS, it_ap_cap.capASIDPool);
    let _ = table.bind(IT_ASID, it_lvl1pt_cap.capPTBasePtr);
}

/// Removes the binding of `asid` if it is still to `vspace`. When it was
/// removed, returns the switch to the address space of `default_vspace_cap`
/// (the caller flushes the ASID from the translation caches first); when
/// the binding had changed, nothing happens.
pub fn delete_asid(
    table: &mut AsidTable,
    kt: &KernelPageTables,
    asid: asid_t,
    vspace: u64,
    default_vspace_cap: &cap,
) -> (r: Option<(satp_t, Result<(), lookup_fault>)>)
    requires
        old(table).wf(),
        kt.wf(),
        asid < ASID_COUNT,
    ensures
        final(table).wf(),
        final(table).pools@ == old(table).pools@,
        final(table).roots@ == unbind_in(old(table).pools@, old(table).roots@, asid as int, vspace),
        r is Some == (old(table).pools@[asid as int / 512] != 0 && old(table).roots@[pool_slot(
            old(table).pools@,
            asid as int,
        )] == vspace),
        r matches Some(sw) ==> (sw.0.words, sw.1) == vm_root_outcome(*final(table), kt.spec_root(), *default_vspace_cap),
{
    if table.unbind(asid, vspace) {
        Some(set_vm_root(table, kt, default_vspace_cap))
    } else {
        None
    }
}

/// Removes the pool at the outer index of `asid_base` if it is still
/// `pool`, and then returns the switch to the address space of
/// `default_vspace_cap`; nothing happens otherwise.
pub fn delete_asid_pool(
    table: &mut AsidTable,
    kt: &KernelPageTables,
    asid_base: asid_t,
    pool: u64,
    default_vspace_cap: &cap,
) -> (r: Option<(satp_t, Result<(), lookup_fault>)>)
    requires
        old(table).wf(),
        kt.wf(),
        asid_base < ASID_COUNT,
    ensures
        final(table).wf(),
        final(table).roots@ == old(table).roots@,
        r is Some == (old(table).pools@[asid_base as int / 512] == pool),
        final(table).pools@ == if r is Some {
            old(table).pools@.update(asid_base as int / 512, 0)
        } else {
            old(table).pools@
        },
        r matches Some(sw) ==> (sw.0.words, sw.1) == vm_root_outcome(*final(table), kt.spec_root(), *default_vspace_cap),
{
    proof {
        lemma_asid_split(asid_base);
    }
    if table.remove_pool(asid_base >> ASID_LOW_BITS, pool) {
        Some(set_vm_root(table, kt, default_vspace_cap))
    } else {
        None
    }
}

/// Names pool `pool_ptr` at outer index `index`; the pools keep their contents.
pub fn set_asid_pool_by_index(table: &mut AsidTable, index: usize, pool_ptr: u64)
    requires
        old(table).wf(),
        index < ASID_TABLE_SLOTS,
        pool_ptr <= old(table).n_pools(),
    ensures
        final(table).wf(),
        final(table).pools@ == old(table).pools@.update(index as int, pool_ptr),
        final(table).roots@ == old(table).roots@,
{
    table.install_pool(index, pool_ptr);
}

/// The pool installed at outer index `index`, if any.
pub fn get_asid_pool_by_index(table: &AsidTable, index: usize) -> (r: Option<u64>)
    requires
        table.wf(),
    ensures
        r == if index < ASID_TABLE_SLOTS && table.pools@[index as int] != 0 {
            Some(table.pools@[index as int])
        } else {
            None::<u64>
        },
{
    if index >= ASID_TABLE_SLOTS {
        return None;
    }
    let p = table.pools[index];
    if p == 0 {
        None
    } else {
        Some(p)
    }
}

} // verus!
