use vstd::prelude::*;

use super::config::PPTR_BASE_OFFSET;
use super::utils::pptr_to_paddr;
use crate::memory::{as_slot_ret, PageTableArena, PteFormat};
use crate::structures::{lookupPTSlot_ret_t, vm_rights_t};

verus! {

/// Bits of the flag field of an entry.
pub const PTE_V: u64 = 0x1;
pub const PTE_R: u64 = 0x2;
pub const PTE_W: u64 = 0x4;
pub const PTE_X: u64 = 0x8;
pub const PTE_U: u64 = 0x10;
pub const PTE_G: u64 = 0x20;
pub const PTE_A: u64 = 0x40;
pub const PTE_D: u64 = 0x80;

/// Bits 53..10 of an entry: the physical page number.
pub const PPN_MASK: u64 = 0x3f_ffff_ffff_fc00;

/// One entry of a three-level page table.
#[derive(Clone, Copy, Debug, PartialEq, Eq, Structural)]
pub struct PTE(pub u64);

pub open spec fn rv_valid(w: u64) -> u64 {
    w & 1
}

pub open spec fn rv_read(w: u64) -> u64 {
    (w & 2) >> 1
}

pub open spec fn rv_write(w: u64) -> u64 {
    (w & 4) >> 2
}

pub open spec fn rv_exec(w: u64) -> u64 {
    (w & 8) >> 3
}

pub open spec fn rv_ppn(w: u64) -> u64 {
    (w & PPN_MASK) >> 10
}

/// The ten flag bits below the page number.
pub open spec fn rv_flags(w: u64) -> u64 {
    w & 0x3ff
}

/// A valid entry with none of read, write and execute names the next table.
pub open spec fn rv_is_table(w: u64) -> bool {
    rv_valid(w) != 0 && !(rv_read(w) != 0 || rv_write(w) != 0 || rv_exec(w) != 0)
}

/// A valid entry with one of read, write and execute maps a frame.
pub open spec fn rv_is_leaf(w: u64) -> bool {
    rv_valid(w) != 0 && !rv_is_table(w)
}

/// Physical address that an entry names.
pub open spec fn rv_addr(w: u64) -> u64 {
    (rv_ppn(w) << 12) as u64
}

pub open spec fn rv_word(ppn: u64, flags: u64) -> u64 {
    flags | ((ppn << 10) as u64)
}

pub open spec fn rv_write_right(rights: vm_rights_t) -> bool {
    rights == vm_rights_t::VMReadWrite
}

pub open spec fn rv_read_right(rights: vm_rights_t) -> bool {
    rights != vm_rights_t::VMKernelOnly
}

/// Flags of a user mapping with the given permissions.
pub open spec fn rv_user_flags(exec: bool, read: bool, write: bool) -> u64 {
    PTE_V | PTE_D | PTE_A | PTE_U | (if exec {
        PTE_X
    } else {
        0
    }) | (if write {
        PTE_W
    } else {
        0
    }) | (if read {
        PTE_R
    } else {
        0
    })
}

pub open spec fn rv_kernel_flags(is_leaf: bool) -> u64 {
    if is_leaf {
        PTE_V | PTE_G | PTE_X | PTE_W | PTE_R | PTE_A | PTE_D
    } else {
        PTE_V | PTE_G
    }
}

/// Whether a mapping with these rights may be written.
pub fn riscv_get_write_from_vm_rights(rights: &vm_rights_t) -> (r: bool)
    ensures
        r == rv_write_right(*rights),
{
    match rights {
        vm_rights_t::VMReadWrite => true,
        _ => false,
    }
}

/// Whether a mapping with these rights may be read from user mode.
pub fn riscv_get_read_from_vm_rights(rights: &vm_rights_t) -> (r: bool)
    ensures
        r == rv_read_right(*rights),
{
    match rights {
        vm_rights_t::VMKernelOnly => false,
        _ => true,
    }
}

impl PTE {
    pub fn new(ppn: u64, flags: u64) -> (r: Self)
        ensures
            r.0 == rv_word(ppn, flags),
    {
        PTE(flags | (ppn << 10u64))
    }

    /// A user entry (global clear, user set) mapping `paddr`; invalid when
    /// the mapping would allow neither execute, read nor write.
    pub fn make_user_pte(paddr: u64, executable: bool, vm_rights: vm_rights_t) -> (r: Self)
        ensures
            ({
                let read = rv_read_right(vm_rights);
                let write = rv_write_right(vm_rights);
                r.0 == if !executable && !read && !write {
                    0
                } else {
                    rv_word(paddr >> 12, rv_user_flags(executable, read, write))
                }
            }),
    {
        let write = riscv_get_write_from_vm_rights(&vm_rights);
        let read = riscv_get_read_from_vm_rights(&vm_rights);
        if !executable && !read && !write {
            return Self::pte_invalid();
        }
        let mut flag = PTE_V | PTE_D | PTE_A | PTE_U;
        if executable {
            flag = flag | PTE_X;
        } else {
            flag = flag | 0;
        }
        if write {
            flag = flag | PTE_W;
        } else {
            flag = flag | 0;
        }
        if read {
            flag = flag | PTE_R;
        } else {
            flag = flag | 0;
        }
        Self::new(paddr >> 12u64, flag)
    }

    /// A kernel entry (global set, user clear): a table entry naming the
    /// table at `phys_addr`, or a leaf with every access right when `is_leaf`.
    pub fn pte_next_table(phys_addr: u64, is_leaf: bool) -> (r: Self)
        ensures
            r.0 == rv_word(phys_addr >> 12, rv_kernel_flags(is_leaf)),
    {
        let ppn = phys_addr >> 12u64;
        let mut flag = PTE_V | PTE_G;
        if is_leaf {
            flag = flag | PTE_X | PTE_W | PTE_R | PTE_A | PTE_D;
        }
        Self::new(ppn, flag)
    }

    pub fn pte_invalid() -> (r: Self)
        ensures
            r.0 == 0,
    {
        PTE(0)
    }

    pub fn is_pte_table(&self) -> (r: bool)
        ensures
            r == rv_is_table(self.0),
    {
        self.get_valid() != 0 && !(self.get_read() != 0 || self.get_write() != 0
            || self.get_execute() != 0)
    }

    pub fn is_pte_leaf(&self) -> (r: bool)
        ensures
            r == rv_is_leaf(self.0),
    {
        self.get_valid() != 0 && !self.is_pte_table()
    }

    pub fn get_valid(&self) -> (r: u64)
        ensures
            r == rv_valid(self.0),
    {
        self.0 & 0x1
    }

    pub fn get_ppn(&self) -> (r: u64)
        ensures
            r == rv_ppn(self.0),
    {
        (self.0 & PPN_MASK) >> 10u64
    }

    pub fn get_execute(&self) -> (r: u64)
        ensures
            r == rv_exec(self.0),
    {
        (self.0 & 0x8) >> 3u64
    }

    pub fn get_write(&self) -> (r: u64)
        ensures
            r == rv_write(self.0),
    {
        (self.0 & 0x4) >> 2u64
    }

    pub fn get_read(&self) -> (r: u64)
        ensures
            r == rv_read(self.0),
    {
        (self.0 & 0x2) >> 1u64
    }

    /// Replaces the entry; the caller fences the translation caches.
    pub fn update(&mut self, pte: Self)
        ensures
            *final(self) == pte,
    {
        *self = pte;
    }

    /// The table of `mem` that the entry names, as the arena word where it starts.
    pub fn get_pte_from_ppn(&self, mem: &PageTableArena) -> (r: Option<usize>)
        requires
            mem.wf(),
        ensures
            r matches Some(t) ==> mem.spec_table_at(rv_addr(self.0)) == Some(t as int),
            r is None ==> mem.spec_table_at(rv_addr(self.0)) is None,
    {
        mem.table_of(self.get_paddr())
    }

    /// Walks the address space rooted at kernel pointer `lvl1pt` for `vptr`:
    /// the word that holds the final entry and the address bits left. `None`
    /// when the root or a table on the way is not a table of `mem`.
    pub fn lookup_pt_slot(mem: &PageTableArena, lvl1pt: u64, vptr: u64) -> (r: Option<lookupPTSlot_ret_t>)
        requires
            mem.wf(),
        ensures
            r == if lvl1pt >= PPTR_BASE_OFFSET {
                as_slot_ret(mem.spec_walk_from(PteFormat::Sv39, (lvl1pt - PPTR_BASE_OFFSET) as u64, vptr, 2))
            } else {
                None
            },
    {
        if lvl1pt < PPTR_BASE_OFFSET {
            return None;
        }
        mem.walk(PteFormat::Sv39, pptr_to_paddr(lvl1pt), vptr, 2)
    }

    /// Physical address of the table or frame that the entry names.
    pub fn get_paddr(&self) -> (r: u64)
        ensures
            r == rv_addr(self.0),
    {
        let ppn = self.get_ppn();
        ppn << 12u64
    }
}

/// The flags of kernel entries, as numbers.
pub proof fn lemma_rv_kernel_flags()
    ensures
        rv_kernel_flags(true) == 0xef,
        rv_kernel_flags(false) == 0x21,
{
    assert(PTE_V | PTE_G | PTE_X | PTE_W | PTE_R | PTE_A | PTE_D == 0xefu64 && PTE_V | PTE_G
        == 0x21u64) by (bit_vector);
}

/// An entry built from a page number below 2^44 and flags below 2^10
/// decodes to them; its table and leaf readings never both hold; an entry
/// built for the kernel is a leaf or a table as asked.
pub proof fn lemma_rv_round_trip(ppn: u64, flags: u64)
    requires
        ppn < 0x1000_0000_0000,
        flags < 0x400,
    ensures
        rv_ppn(rv_word(ppn, flags)) == ppn,
        rv_flags(rv_word(ppn, flags)) == flags,
        !(rv_is_table(rv_word(ppn, flags)) && rv_is_leaf(rv_word(ppn, flags))),
        rv_is_leaf(rv_word(ppn, rv_kernel_flags(true))),
        rv_is_table(rv_word(ppn, rv_kernel_flags(false))),
{
    assert({
        let w = flags | ((ppn << 10) as u64);
        &&& (w & 0x3f_ffff_ffff_fc00u64) >> 10 == ppn
        &&& w & 0x3ff == flags
    }) by (bit_vector)
        requires
            ppn < 0x1000_0000_0000,
            flags < 0x400,
    ;
    lemma_rv_kernel_flags();
    assert({
        let w = 0xefu64 | ((ppn << 10) as u64);
        &&& w & 1 != 0
        &&& (w & 2) >> 1 != 0
    }) by (bit_vector);
    assert({
        let w = 0x21u64 | ((ppn << 10) as u64);
        &&& w & 1 != 0
        &&& (w & 2) >> 1 == 0
        &&& (w & 4) >> 2 == 0
        &&& (w & 8) >> 3 == 0
    }) by (bit_vector);
}

} // verus!
