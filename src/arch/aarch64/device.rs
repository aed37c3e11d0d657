use vstd::prelude::*;

use super::boot::{kernel_frame_word, map_kernel_frame};
use super::interface::{ArmKernelTables, KERNEL_PT_TABLE};
use crate::memory::level_index;
use crate::structures::{kernel_frame_t, p_region_t, reserved_regions, vm_attributes_t, vm_rights_t};

verus! {

/// The attribute word a device frame is mapped with: its execute-never flag
/// in bit 2, and not cacheable.
pub open spec fn device_attrs(f: kernel_frame_t) -> vm_attributes_t {
    vm_attributes_t(if f.armExecuteNever {
        4
    } else {
        0
    })
}

/// The kernel tables after mapping `frames` in order.
pub open spec fn apply_devices(mem: Seq<u64>, frames: Seq<kernel_frame_t>) -> Seq<u64>
    decreases frames.len(),
{
    if frames.len() == 0 {
        mem
    } else {
        let f = frames.last();
        apply_devices(mem, frames.drop_last()).update(
            KERNEL_PT_TABLE * 512 + level_index(f.pptr, 0),
            kernel_frame_word(f.paddr, vm_rights_t::VMKernelOnly, device_attrs(f)),
        )
    }
}

/// Maps every device frame for the kernel alone, as device memory, in the
/// page table of the device window, and returns the regions to reserve for those that user
/// code may not reach.
pub fn map_kernel_devices(kt: &mut ArmKernelTables, frames: &Vec<kernel_frame_t>) -> (r: Vec<p_region_t>)
    requires
        old(kt).wf(),
        forall|i: int| 0 <= i < frames@.len() ==> #[trigger] frames@[i].paddr + 0x1000 <= u64::MAX,
    ensures
        final(kt).wf(),
        final(kt).arena.base == old(kt).arena.base,
        final(kt).mem() == apply_devices(old(kt).mem(), frames@),
        r@ == reserved_regions(frames@),
        forall|k: int|
            0 <= k < KERNEL_PT_TABLE * 512 ==> #[trigger] final(kt).mem()[k] == old(kt).mem()[k],
{
    let mut regions: Vec<p_region_t> = Vec::new();
    let mut i: usize = 0;
    while i < frames.len()
        invariant
            kt.wf(),
            kt.arena.base == old(kt).arena.base,
            i <= frames@.len(),
            forall|j: int| 0 <= j < frames@.len() ==> #[trigger] frames@[j].paddr + 0x1000 <= u64::MAX,
            kt.mem() == apply_devices(old(kt).mem(), frames@.take(i as int)),
            regions@ == reserved_regions(frames@.take(i as int)),
            forall|k: int| 0 <= k < KERNEL_PT_TABLE * 512 ==> #[trigger] kt.mem()[k] == old(kt).mem()[k],
        decreases frames@.len() - i,
    {
        let f = frames[i];
        assert(frames@.take(i + 1).drop_last() =~= frames@.take(i as int));
        assert(frames@.take(i + 1).last() == f);
        let vm_attr = vm_attributes_t(if f.armExecuteNever {
            4
        } else {
            0
        });
        let ghost before = kt.mem();
        map_kernel_frame(kt, f.paddr, f.pptr, vm_rights_t::VMKernelOnly, vm_attr);
        proof {
            crate::memory::lemma_index_bound(f.pptr, 0);
            let slot = KERNEL_PT_TABLE * 512 + level_index(f.pptr, 0);
            let w = kernel_frame_word(f.paddr, vm_rights_t::VMKernelOnly, vm_attr);
            assert forall|k: int| 0 <= k < KERNEL_PT_TABLE * 512 implies #[trigger] kt.mem()[k]
                == old(kt).mem()[k] by {
                assert(before.update(slot, w)[k] == before[k]);
            }
        }
        if !f.userAvailable {
            regions.push(p_region_t { start: f.paddr, end: f.paddr + 0x1000 });
        }
        i = i + 1;
    }
    assert(frames@.take(frames@.len() as int) =~= frames@);
    regions
}

} // verus!
