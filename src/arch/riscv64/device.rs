use vstd::prelude::*;

use super::boot::{kernel_frame_slot, kernel_leaf_word, map_kernel_frame};
use super::pagetable::KernelPageTables;
use crate::structures::{kernel_frame_t, p_region_t, reserved_regions, vm_rights_t};

verus! {

/// The kernel tables after mapping `frames` in order.
pub open spec fn apply_devices(mem: Seq<u64>, frames: Seq<kernel_frame_t>) -> Seq<u64>
    decreases frames.len(),
{
    if frames.len() == 0 {
        mem
    } else {
        let f = frames.last();
        apply_devices(mem, frames.drop_last()).update(
            kernel_frame_slot(f.pptr),
            kernel_leaf_word(f.paddr, f.pptr),
        )
    }
}

/// Mapping frames changes nothing but their entries: the length stays, and
/// the entry of a frame that no later frame shares holds that frame's leaf.
pub proof fn lemma_apply_devices_last(mem: Seq<u64>, frames: Seq<kernel_frame_t>, i: int)
    requires
        mem.len() == 1536,
        0 <= i < frames.len(),
        forall|j: int| i < j < frames.len() ==> #[trigger] kernel_frame_slot(frames[j].pptr) != kernel_frame_slot(frames[i].pptr),
    ensures
        apply_devices(mem, frames).len() == 1536,
        apply_devices(mem, frames)[kernel_frame_slot(frames[i].pptr)] == kernel_leaf_word(frames[i].paddr, frames[i].pptr),
    decreases frames.len(),
{
    lemma_apply_devices_len(mem, frames);
    let f = frames.last();
    let rest = frames.drop_last();
    lemma_apply_devices_len(mem, rest);
    lemma_frame_slot_bound(frames[i].pptr);
    lemma_frame_slot_bound(f.pptr);
    if i < frames.len() - 1 {
        assert(rest[i] == frames[i]);
        assert forall|j: int| i < j < rest.len() implies #[trigger] kernel_frame_slot(rest[j].pptr) != kernel_frame_slot(rest[i].pptr) by {
            assert(rest[j] == frames[j]);
        }
        lemma_apply_devices_last(mem, rest, i);
    }
}

pub proof fn lemma_apply_devices_len(mem: Seq<u64>, frames: Seq<kernel_frame_t>)
    requires
        mem.len() == 1536,
    ensures
        apply_devices(mem, frames).len() == mem.len(),
    decreases frames.len(),
{
    if frames.len() > 0 {
        lemma_apply_devices_len(mem, frames.drop_last());
        lemma_frame_slot_bound(frames.last().pptr);
    }
}

pub proof fn lemma_frame_slot_bound(v: u64)
    ensures
        0 <= kernel_frame_slot(v) < 1536,
        v >= super::config::KDEV_BASE ==> kernel_frame_slot(v) >= 1024,
{
    crate::memory::lemma_index_bound(v, 1);
    crate::memory::lemma_index_bound(v, 2);
}

/// Maps every device frame for the kernel alone, and returns the regions to
/// reserve for those that user code may not reach.
pub fn map_kernel_devices(kt: &mut KernelPageTables, frames: &Vec<kernel_frame_t>) -> (r: Vec<p_region_t>)
    requires
        old(kt).wf(),
        forall|i: int| 0 <= i < frames@.len() ==> #[trigger] frames@[i].paddr + 0x1000 <= u64::MAX,
    ensures
        final(kt).wf(),
        final(kt).arena.base == old(kt).arena.base,
        final(kt).mem() == apply_devices(old(kt).mem(), frames@),
        r@ == reserved_regions(frames@),
        forall|k: int|
            0 <= k < 1536 && (forall|i: int| 0 <= i < frames@.len() ==> #[trigger] kernel_frame_slot(frames@[i].pptr) != k)
                ==> final(kt).mem()[k] == old(kt).mem()[k],
{
    let mut regions: Vec<p_region_t> = Vec::new();
    let mut i: usize = 0;
    while i < frames.len()
        invariant
            kt.wf(),
            kt.arena.base == old(kt).arena.base,
            i <= frames@.len(),
            forall|j: int| 0 <= j < frames@.len() ==> #[trigger] frames@[j].paddr + 0x1000 <= u64::MAX,
            kt.mem() == apply_devices(old(kt).mem(), frames@.take(i as int)),
            regions@ == reserved_regions(frames@.take(i as int)),
            forall|k: int|
                0 <= k < 1536 && (forall|j: int| 0 <= j < i ==> #[trigger] kernel_frame_slot(frames@[j].pptr) != k)
                    ==> kt.mem()[k] == old(kt).mem()[k],
        decreases frames@.len() - i,
    {
        let f = frames[i];
        assert(frames@.take(i + 1).drop_last() =~= frames@.take(i as int));
        assert(frames@.take(i + 1).last() == f);
        let ghost before = kt.mem();
        map_kernel_frame(kt, f.paddr, f.pptr, vm_rights_t::VMKernelOnly);
        proof {
            assert(kt.mem() == before.update(kernel_frame_slot(f.pptr), kernel_leaf_word(f.paddr, f.pptr)));
            assert forall|k: int|
                0 <= k < 1536 && (forall|j: int| 0 <= j < i + 1 ==> #[trigger] kernel_frame_slot(frames@[j].pptr) != k)
                implies kt.mem()[k] == old(kt).mem()[k] by {
                assert(f == frames@[i as int]);
                assert(kernel_frame_slot(frames@[i as int].pptr) != k);
                assert(forall|j: int| 0 <= j < i ==> #[trigger] kernel_frame_slot(frames@[j].pptr) != k);
                assert(before.update(kernel_frame_slot(f.pptr), kernel_leaf_word(f.paddr, f.pptr))[k]
                    == before[k]);
            }
        }
        if !f.userAvailable {
            regions.push(p_region_t { start: f.paddr, end: f.paddr + 0x1000 });
        }
        i = i + 1;
    }
    assert(frames@.take(frames@.len() as int) =~= frames@);
    regions
}

} // verus!
