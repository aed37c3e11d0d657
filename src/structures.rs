use vstd::prelude::*;

verus! {

proof fn lemma_low_bit(w: usize, v: usize)
    by (bit_vector)
    ensures
        w & 1 <= 1,
        ((w & !1usize) | ((v << 0usize) & 1usize)) & 1 == v & 1,
        ((w & !1usize) | ((v << 0usize) & 1usize)) & !1usize == w & !1usize,
{
}

/// Attributes that a program passes along with a mapping request.
#[derive(Clone, Copy, Debug, PartialEq, Eq, Structural)]
pub struct vm_attributes_t(pub usize);

impl vm_attributes_t {
    pub fn new(value: usize) -> (r: Self)
        ensures
            r.0 == value,
    {
        vm_attributes_t(value)
    }

    pub fn from_word(w: usize) -> (r: Self)
        ensures
            r.0 == w,
    {
        Self::new(w)
    }

    pub fn get_execute_never(&self) -> (r: usize)
        ensures
            r == self.0 & 1,
            r <= 1,
    {
        proof {
            lemma_low_bit(self.0, 0);
        }
        self.0 & 0x1usize
    }

    /// Sets bit 0 to the low bit of `v64`, keeping every other bit.
    pub fn set_execute_never(&mut self, v64: usize)
        ensures
            final(self).0 & 1 == v64 & 1,
            final(self).0 & !1usize == old(self).0 & !1usize,
    {
        let old_w = self.0;
        proof {
            lemma_low_bit(old_w, v64);
        }
        self.0 = (old_w & !0x1usize) | ((v64 << 0usize) & 0x1usize);
    }

    pub fn get_page_cacheable(&self) -> (r: usize)
        ensures
            r == self.0 & 1,
    {
        self.0 & 0x1usize
    }
}

/// Access rights of a mapping.
#[derive(Clone, Copy, Debug, PartialEq, Eq, Structural)]
pub enum vm_rights_t {
    VMKernelOnly,
    VMReadOnly,
    VMReadWrite,
}

/// Outcome class of a kernel operation.
#[derive(Clone, Copy, Debug, PartialEq, Eq, Structural)]
pub enum exception_t {
    EXCEPTION_NONE,
    EXCEPTION_FAULT,
    EXCEPTION_LOOKUP_FAULT,
}

/// Why a lookup of an address space failed.
#[derive(Clone, Copy, Debug, PartialEq, Eq, Structural)]
pub enum lookup_fault {
    /// The ASID has no pool or no translation root bound to it.
    InvalidRoot,
}

/// Result of looking an ASID up in the ASID directory.
#[derive(Clone, Copy, Debug, PartialEq, Eq, Structural)]
pub struct findVSpaceForASID_ret {
    pub status: exception_t,
    /// Kernel pointer of the translation root, when one is bound.
    pub vspace_root: Option<u64>,
    pub lookup_fault: Option<lookup_fault>,
}

/// Result of a page-table walk: the slot that holds the final entry (its
/// index in the table arena) and the address bits that the walk left
/// unresolved.
#[derive(Clone, Copy, Debug, PartialEq, Eq, Structural)]
pub struct lookupPTSlot_ret_t {
    pub ptSlot: usize,
    pub ptBitsLeft: usize,
}

/// Capability to a page table (or, on the three-level layout, to a root).
#[derive(Clone, Copy, Debug, PartialEq, Eq, Structural)]
pub struct cap_page_table_cap {
    pub capPTMappedASID: u64,
    pub capPTBasePtr: u64,
    pub capPTIsMapped: u64,
    pub capPTMappedAddress: u64,
}

impl cap_page_table_cap {
    pub fn new(asid: u64, base: u64, is_mapped: u64, mapped_address: u64) -> (r: Self)
        ensures
            r == (cap_page_table_cap {
                capPTMappedASID: asid,
                capPTBasePtr: base,
                capPTIsMapped: is_mapped,
                capPTMappedAddress: mapped_address,
            }),
    {
        cap_page_table_cap {
            capPTMappedASID: asid,
            capPTBasePtr: base,
            capPTIsMapped: is_mapped,
            capPTMappedAddress: mapped_address,
        }
    }
}

/// Capability to the root of a four-level address space.
#[derive(Clone, Copy, Debug, PartialEq, Eq, Structural)]
pub struct cap_vspace_cap {
    pub capVSMappedASID: u64,
    pub capVSBasePtr: u64,
    pub capVSIsMapped: u64,
}

/// Capability to a frame of memory.
#[derive(Clone, Copy, Debug, PartialEq, Eq, Structural)]
pub struct cap_frame_cap {
    pub capFMappedASID: u64,
    pub capFBasePtr: u64,
    pub capFSize: u64,
    pub capFMappedAddress: u64,
    pub capFVMRights: vm_rights_t,
    pub capFIsDevice: u64,
}

/// Capability to an ASID pool.
#[derive(Clone, Copy, Debug, PartialEq, Eq, Structural)]
pub struct cap_asid_pool_cap {
    pub capASIDBase: u64,
    pub capASIDPool: u64,
}

/// A capability as seen by the address-space code.
#[derive(Clone, Copy, Debug, PartialEq, Eq, Structural)]
pub enum cap {
    cap_null_cap,
    cap_frame_cap(cap_frame_cap),
    cap_page_table_cap(cap_page_table_cap),
    cap_vspace_cap(cap_vspace_cap),
}

/// A device frame that the kernel maps at a fixed address.
#[derive(Clone, Copy, Debug, PartialEq, Eq, Structural)]
pub struct kernel_frame_t {
    pub paddr: u64,
    pub pptr: u64,
    pub armExecuteNever: bool,
    pub userAvailable: bool,
}

/// A physical region `[start, end)`.
#[derive(Clone, Copy, Debug, PartialEq, Eq, Structural)]
pub struct p_region_t {
    pub start: u64,
    pub end: u64,
}

/// The regions to reserve for the device frames that user code may not
/// reach, one page each, in the order of the frames.
pub open spec fn reserved_regions(frames: Seq<kernel_frame_t>) -> Seq<p_region_t>
    decreases frames.len(),
{
    if frames.len() == 0 {
        Seq::empty()
    } else {
        let f = frames.last();
        let rest = reserved_regions(frames.drop_last());
        if f.userAvailable {
            rest
        } else {
            rest.push(p_region_t { start: f.paddr, end: (f.paddr + 0x1000) as u64 })
        }
    }
}

} // verus!
