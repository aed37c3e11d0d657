use vstd::prelude::*;

verus! {

/// Bits 47..12 of an entry: the physical address of a frame or of the next table.
pub const PAGE_ADDR_MASK: u64 = 0x0000_ffff_ffff_f000;

/// Type tag of an invalid entry.
pub const pte_invalid_tag: u64 = 0;
/// Type tag of a block (large or huge page) entry.
pub const pte_page_tag: u64 = 1;
/// Type tag of a table entry.
pub const pte_table_tag: u64 = 3;
/// Type tag of a 4 KiB page entry (hardware tag 3, software bit 58 set).
pub const pte_4k_page_tag: u64 = 7;

/// One entry of a four-level page table.
#[derive(Clone, Copy, Debug, PartialEq, Eq, Structural)]
pub struct PTE(pub u64);

/// The type tag of a word: its two hardware type bits, with bit 58 as bit 2.
pub open spec fn arm_type(w: u64) -> u64 {
    (w & 3) | ((w & 0x400_0000_0000_0000) >> 56)
}

pub open spec fn arm_is_table(w: u64) -> bool {
    arm_type(w) == pte_table_tag
}

/// A leaf maps a frame: a block or a 4 KiB page.
pub open spec fn arm_is_leaf(w: u64) -> bool {
    arm_type(w) == pte_page_tag || arm_type(w) == pte_4k_page_tag
}

pub open spec fn arm_addr(w: u64) -> u64 {
    w & PAGE_ADDR_MASK
}

pub open spec fn arm_table_word(addr: u64) -> u64 {
    (addr & PAGE_ADDR_MASK) | 3
}

/// The word of a leaf with the given fields; `four_k` selects the 4 KiB tag.
pub open spec fn arm_leaf_word(
    uxn: u64,
    addr: u64,
    ng: u64,
    af: u64,
    sh: u64,
    ap: u64,
    attr: u64,
    four_k: bool,
) -> u64 {
    ((uxn & 1) << 54) | (addr & PAGE_ADDR_MASK) | ((ng & 1) << 11) | ((af & 1) << 10) | ((sh & 3)
        << 8) | ((ap & 3) << 6) | ((attr & 7) << 2) | (if four_k {
        0x400_0000_0000_0003u64
    } else {
        1u64
    })
}

pub open spec fn arm_uxn(w: u64) -> u64 {
    (w >> 54) & 1
}

pub open spec fn arm_ng(w: u64) -> u64 {
    (w >> 11) & 1
}

pub open spec fn arm_af(w: u64) -> u64 {
    (w >> 10) & 1
}

pub open spec fn arm_sh(w: u64) -> u64 {
    (w >> 8) & 3
}

pub open spec fn arm_ap(w: u64) -> u64 {
    (w >> 6) & 3
}

pub open spec fn arm_attr(w: u64) -> u64 {
    (w >> 2) & 7
}

impl PTE {
    /// A table entry naming the next-level table at `pt_base_address`.
    pub fn pte_new_table(pt_base_address: u64) -> (r: PTE)
        ensures
            r.0 == arm_table_word(pt_base_address),
    {
        PTE((pt_base_address & PAGE_ADDR_MASK) | 3)
    }

    /// A block entry (large or huge page).
    pub fn pte_new_page(uxn: u64, addr: u64, ng: u64, af: u64, sh: u64, ap: u64, attr: u64) -> (r:
        PTE)
        ensures
            r.0 == arm_leaf_word(uxn, addr, ng, af, sh, ap, attr, false),
    {
        PTE(((uxn & 1) << 54u64) | (addr & PAGE_ADDR_MASK) | ((ng & 1) << 11u64) | ((af & 1)
            << 10u64) | ((sh & 3) << 8u64) | ((ap & 3) << 6u64) | ((attr & 7) << 2u64) | 1)
    }

    /// A 4 KiB page entry.
    pub fn pte_new_4k_page(uxn: u64, addr: u64, ng: u64, af: u64, sh: u64, ap: u64, attr: u64) -> (r:
        PTE)
        ensures
            r.0 == arm_leaf_word(uxn, addr, ng, af, sh, ap, attr, true),
    {
        PTE(((uxn & 1) << 54u64) | (addr & PAGE_ADDR_MASK) | ((ng & 1) << 11u64) | ((af & 1)
            << 10u64) | ((sh & 3) << 8u64) | ((ap & 3) << 6u64) | ((attr & 7) << 2u64)
            | 0x400_0000_0000_0003u64)
    }

    pub fn new_from_pte(word: u64) -> (r: PTE)
        ensures
            r.0 == word,
    {
        PTE(word)
    }

    /// Builds an entry from an address and attribute bits, each masked to its field.
    pub fn new_page(addr: u64, sign: u64) -> (r: PTE)
        ensures
            r.0 & PAGE_ADDR_MASK == addr & PAGE_ADDR_MASK,
            r.0 & !PAGE_ADDR_MASK == sign & !PAGE_ADDR_MASK,
    {
        let r = (addr & PAGE_ADDR_MASK) | (sign & !PAGE_ADDR_MASK);
        assert({
            let w = (addr & 0x0000_ffff_ffff_f000u64) | (sign & !0x0000_ffff_ffff_f000u64);
            &&& w & 0x0000_ffff_ffff_f000u64 == addr & 0x0000_ffff_ffff_f000u64
            &&& w & !0x0000_ffff_ffff_f000u64 == sign & !0x0000_ffff_ffff_f000u64
        }) by (bit_vector);
        PTE(r)
    }

    pub fn get_type(&self) -> (r: u64)
        ensures
            r == arm_type(self.0),
    {
        (self.0 & 0x3) | ((self.0 & 0x400_0000_0000_0000u64) >> 56u64)
    }

    pub fn next_level_paddr(&self) -> (r: u64)
        ensures
            r == arm_addr(self.0),
    {
        self.0 & PAGE_ADDR_MASK
    }

    pub fn get_page_base_address(&self) -> (r: u64)
        ensures
            r == arm_addr(self.0),
    {
        self.0 & 0xffff_ffff_f000
    }

    /// Replaces the address field, keeping the attribute bits.
    pub fn set_next_level_paddr(&mut self, value: u64)
        ensures
            final(self).0 & PAGE_ADDR_MASK == value & PAGE_ADDR_MASK,
            final(self).0 & !PAGE_ADDR_MASK == old(self).0 & !PAGE_ADDR_MASK,
    {
        let w = self.0;
        *self = PTE::new_page(value, w);
    }

    /// Replaces the attribute bits, keeping the address field.
    pub fn set_attr(&mut self, value: u64)
        ensures
            final(self).0 & PAGE_ADDR_MASK == old(self).0 & PAGE_ADDR_MASK,
            final(self).0 & !PAGE_ADDR_MASK == value & !PAGE_ADDR_MASK,
    {
        let w = self.0;
        *self = PTE::new_page(w, value);
    }

    pub fn attr(&self) -> (r: u64)
        ensures
            r == self.0 & !PAGE_ADDR_MASK,
    {
        self.0 & !PAGE_ADDR_MASK
    }

    pub fn invalidate(&mut self)
        ensures
            final(self).0 == 0,
    {
        self.0 = 0;
    }

    pub fn get_reserved(&self) -> (r: u64)
        ensures
            r == self.0 & 3,
    {
        self.0 & 0x3
    }

    /// True when both hardware type bits are set.
    pub fn is_present(&self) -> (r: bool)
        ensures
            r == (self.0 & 3 == 3),
    {
        self.get_reserved() == 0x3
    }

    pub fn pte_ptr_get_page_base_address(&self) -> (r: u64)
        ensures
            r == arm_addr(self.0),
    {
        self.0 & 0xffff_ffff_f000
    }

    pub fn is_pte_table(&self) -> (r: bool)
        ensures
            r == arm_is_table(self.0),
    {
        self.get_type() == pte_table_tag
    }

    pub fn is_pte_leaf(&self) -> (r: bool)
        ensures
            r == arm_is_leaf(self.0),
    {
        let t = self.get_type();
        t == pte_page_tag || t == pte_4k_page_tag
    }
}

/// A leaf entry decodes to the fields it was built from (each within its
/// width, the address aligned to 4 KiB below 2^48), carries a leaf tag, and
/// is never a table entry; a table entry decodes to its address and is never
/// a leaf.
pub proof fn lemma_arm_round_trip(
    uxn: u64,
    addr: u64,
    ng: u64,
    af: u64,
    sh: u64,
    ap: u64,
    attr: u64,
    four_k: bool,
)
    requires
        uxn <= 1,
        ng <= 1,
        af <= 1,
        sh <= 3,
        ap <= 3,
        attr <= 7,
        addr & !PAGE_ADDR_MASK == 0,
    ensures
        ({
            let w = arm_leaf_word(uxn, addr, ng, af, sh, ap, attr, four_k);
            &&& arm_addr(w) == addr
            &&& arm_uxn(w) == uxn
            &&& arm_ng(w) == ng
            &&& arm_af(w) == af
            &&& arm_sh(w) == sh
            &&& arm_ap(w) == ap
            &&& arm_attr(w) == attr
            &&& arm_type(w) == (if four_k {
                pte_4k_page_tag
            } else {
                pte_page_tag
            })
            &&& arm_is_leaf(w)
            &&& !arm_is_table(w)
        }),
        arm_addr(arm_table_word(addr)) == addr,
        arm_is_table(arm_table_word(addr)),
        !arm_is_leaf(arm_table_word(addr)),
{
    if four_k {
        assert({
            let w = ((uxn & 1) << 54) | (addr & 0x0000_ffff_ffff_f000u64) | ((ng & 1) << 11) | ((af
                & 1) << 10) | ((sh & 3) << 8) | ((ap & 3) << 6) | ((attr & 7) << 2)
                | 0x400_0000_0000_0003u64;
            &&& w & 0x0000_ffff_ffff_f000u64 == addr
            &&& (w >> 54) & 1 == uxn
            &&& (w >> 11) & 1 == ng
            &&& (w >> 10) & 1 == af
            &&& (w >> 8) & 3 == sh
            &&& (w >> 6) & 3 == ap
            &&& (w >> 2) & 7 == attr
            &&& (w & 3) | ((w & 0x400_0000_0000_0000) >> 56) == 7
        }) by (bit_vector)
            requires
                uxn <= 1,
                ng <= 1,
                af <= 1,
                sh <= 3,
                ap <= 3,
                attr <= 7,
                addr & !0x0000_ffff_ffff_f000u64 == 0,
        ;
    } else {
        assert({
            let w = ((uxn & 1) << 54) | (addr & 0x0000_ffff_ffff_f000u64) | ((ng & 1) << 11) | ((af
                & 1) << 10) | ((sh & 3) << 8) | ((ap & 3) << 6) | ((attr & 7) << 2) | 1u64;
            &&& w & 0x0000_ffff_ffff_f000u64 == addr
            &&& (w >> 54) & 1 == uxn
            &&& (w >> 11) & 1 == ng
            &&& (w >> 10) & 1 == af
            &&& (w >> 8) & 3 == sh
            &&& (w >> 6) & 3 == ap
            &&& (w >> 2) & 7 == attr
            &&& (w & 3) | ((w & 0x400_0000_0000_0000) >> 56) == 1
        }) by (bit_vector)
            requires
                uxn <= 1,
                ng <= 1,
                af <= 1,
                sh <= 3,
                ap <= 3,
                attr <= 7,
                addr & !0x0000_ffff_ffff_f000u64 == 0,
        ;
    }
    assert({
        let w = (addr & 0x0000_ffff_ffff_f000u64) | 3;
        &&& w & 0x0000_ffff_ffff_f000u64 == addr
        &&& (w & 3) | ((w & 0x400_0000_0000_0000) >> 56) == 3
    }) by (bit_vector)
        requires
            addr & !0x0000_ffff_ffff_f000u64 == 0,
    ;
}

} // verus!
