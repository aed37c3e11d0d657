//! Page tables held in one bounds-checked arena of entry words.
//!
//! The arena stands for a physically contiguous run of page-aligned tables
//! of 512 entries each: table `k` lives at physical address
//! `base + k * 4096`, and its entry `i` is word `512 * k + i` of the arena.
//! An entry names another table by physical address; that address is turned
//! into a table of the arena by a pure, checked computation.
use vstd::prelude::*;

use crate::arch::aarch64::pte::{arm_addr, arm_is_leaf, arm_is_table};
use crate::arch::riscv64::pte::{rv_addr, rv_is_leaf, rv_is_table};
use crate::structures::lookupPTSlot_ret_t;

verus! {

/// Entries per table.
pub const PT_ENTRIES: usize = 512;

/// Bytes per table.
pub const TABLE_BYTES: u64 = 4096;

/// Which hardware format the words of a walk are read in.
#[derive(Clone, Copy, Debug, PartialEq, Eq, Structural)]
pub enum PteFormat {
    /// Three-level layout with flag bits below the page number.
    Sv39,
    /// Four-level layout with type tags in the low bits.
    Armv8,
}

pub open spec fn fmt_is_table(fmt: PteFormat, w: u64) -> bool {
    match fmt {
        PteFormat::Sv39 => rv_is_table(w),
        PteFormat::Armv8 => arm_is_table(w),
    }
}

/// Physical address of the next table that a table entry names.
pub open spec fn fmt_next(fmt: PteFormat, w: u64) -> u64 {
    match fmt {
        PteFormat::Sv39 => rv_addr(w),
        PteFormat::Armv8 => arm_addr(w),
    }
}

/// Whether a word maps a frame.
pub open spec fn fmt_is_leaf(fmt: PteFormat, w: u64) -> bool {
    match fmt {
        PteFormat::Sv39 => rv_is_leaf(w),
        PteFormat::Armv8 => arm_is_leaf(w),
    }
}

/// Address bits left below the index of a walk at `level` (0 is the last).
pub open spec fn level_bits(level: nat) -> nat {
    9 * level + 12
}

/// Index into a table at `level` for virtual address `v`.
pub open spec fn level_index(v: u64, level: nat) -> int {
    ((v >> (level_bits(level) as u64)) & 511) as int
}

/// First arena word of the table at physical address `p`, if one is there.
pub open spec fn table_at(base: u64, len: nat, p: u64) -> Option<int> {
    if base <= p && p - base < len * 8 && (p - base) % 4096 == 0 {
        Some(((p - base) / 8) as int)
    } else {
        None
    }
}

/// The walk from the table starting at word `table`, at `level`: it reads
/// the entry that `v` selects and descends while that entry names a table
/// and a level is left. It ends with the word that holds the final entry and
/// the address bits not yet consumed, or with `None` where a table entry
/// names an address outside the arena.
pub open spec fn walk(fmt: PteFormat, base: u64, mem: Seq<u64>, table: int, v: u64, level: nat) -> Option<(int, nat)>
    decreases level,
{
    let slot = table + level_index(v, level);
    let e = mem[slot];
    if level > 0 && fmt_is_table(fmt, e) {
        match table_at(base, mem.len(), fmt_next(fmt, e)) {
            Some(t) => walk(fmt, base, mem, t, v, (level - 1) as nat),
            None => None,
        }
    } else {
        Some((slot, level_bits(level)))
    }
}

/// The walk from the root table at physical address `root`.
pub open spec fn walk_from(fmt: PteFormat, base: u64, mem: Seq<u64>, root: u64, v: u64, top: nat) -> Option<(int, nat)> {
    match table_at(base, mem.len(), root) {
        Some(t) => walk(fmt, base, mem, t, v, top),
        None => None,
    }
}

/// The word that an unmap of the frame at `frame` clears: where the walk
/// from `root` for `v` ends with `page_bits` bits left at a leaf naming
/// exactly that frame. Any other outcome leaves the tables alone.
pub open spec fn unmap_slot(
    fmt: PteFormat,
    base: u64,
    mem: Seq<u64>,
    root: u64,
    v: u64,
    top: nat,
    page_bits: nat,
    frame: u64,
) -> Option<int> {
    match walk_from(fmt, base, mem, root, v, top) {
        Some((s, b)) => if b == page_bits && fmt_is_leaf(fmt, mem[s]) && fmt_next(fmt, mem[s])
            == frame {
            Some(s)
        } else {
            None
        },
        None => None,
    }
}

/// The word that names table `target` on the path of `v` below `table`,
/// looking at levels `level` down to 1; `None` when the path leaves the
/// tables first.
pub open spec fn parent_slot(fmt: PteFormat, base: u64, mem: Seq<u64>, table: int, v: u64, level: nat, target: int) -> Option<int>
    decreases level,
{
    if level == 0 {
        None
    } else {
        let slot = table + level_index(v, level);
        let e = mem[slot];
        if !fmt_is_table(fmt, e) {
            None
        } else {
            match table_at(base, mem.len(), fmt_next(fmt, e)) {
                Some(t) => if t == target {
                    Some(slot)
                } else {
                    parent_slot(fmt, base, mem, t, v, (level - 1) as nat, target)
                },
                None => None,
            }
        }
    }
}

/// The word to clear when the table at `target` is unmapped from the
/// address space rooted at `root`, for `v`.
pub open spec fn unmap_table_slot(fmt: PteFormat, base: u64, mem: Seq<u64>, root: u64, v: u64, top: nat, target: u64) -> Option<int> {
    match (table_at(base, mem.len(), root), table_at(base, mem.len(), target)) {
        (Some(r), Some(t)) => if r == t {
            None
        } else {
            parent_slot(fmt, base, mem, r, v, top, t)
        },
        _ => None,
    }
}

/// Bytes of a page whose entry leaves `b` address bits.
pub open spec fn page_span(b: nat) -> int {
    if b == 12 {
        0x1000
    } else if b == 21 {
        0x20_0000
    } else if b == 30 {
        0x4000_0000
    } else {
        0x80_0000_0000
    }
}

/// Physical address that `v` translates to: the frame of the leaf where the
/// walk ends, plus the offset of `v` inside a page of that level.
pub open spec fn translate(fmt: PteFormat, base: u64, mem: Seq<u64>, root: u64, v: u64, top: nat) -> Option<int> {
    match walk_from(fmt, base, mem, root, v, top) {
        Some((s, b)) => if fmt_is_leaf(fmt, mem[s]) {
            Some(fmt_next(fmt, mem[s]) + (v as int % page_span(b)))
        } else {
            None
        },
        None => None,
    }
}

pub open spec fn as_slot_ret(o: Option<(int, nat)>) -> Option<lookupPTSlot_ret_t> {
    match o {
        Some((s, b)) => Some(lookupPTSlot_ret_t { ptSlot: s as usize, ptBitsLeft: b as usize }),
        None => None,
    }
}

pub proof fn lemma_index_bound(v: u64, level: nat)
    ensures
        0 <= level_index(v, level) < 512,
{
    let k = level_bits(level) as u64;
    assert((v >> k) & 511 <= 511) by (bit_vector);
}

/// A table of the arena starts on a table boundary and lies inside it.
pub proof fn lemma_table_at_bounds(base: u64, len: nat, p: u64)
    requires
        len % 512 == 0,
        table_at(base, len, p) is Some,
    ensures
        ({
            let t = table_at(base, len, p)->0;
            t % 512 == 0 && 0 <= t && t + 512 <= len
        }),
{
    let d = (p - base) as int;
    let k = d / 4096;
    let m = len as int / 512;
    assert(d == 4096 * k) by (nonlinear_arith)
        requires
            d % 4096 == 0,
            k == d / 4096,
    ;
    assert(len == 512 * m) by (nonlinear_arith)
        requires
            len % 512 == 0,
            m == len as int / 512,
    ;
    assert(d / 8 == 512 * k) by (nonlinear_arith)
        requires
            d == 4096 * k,
    ;
    assert(k + 1 <= m) by (nonlinear_arith)
        requires
            d == 4096 * k,
            d < len * 8,
            len == 512 * m,
            d >= 0,
    ;
    assert(512 * k + 512 <= 512 * m) by (nonlinear_arith)
        requires
            k + 1 <= m,
    ;
    assert(k >= 0) by (nonlinear_arith)
        requires
            d == 4096 * k,
            d >= 0,
    ;
}

/// A walk ends at an entry that names no table, or at the last level; the
/// bits it leaves are those of one of the levels it went through.
pub proof fn lemma_walk_stops(fmt: PteFormat, base: u64, mem: Seq<u64>, table: int, v: u64, level: nat)
    requires
        mem.len() % 512 == 0,
        table % 512 == 0,
        0 <= table,
        table + 512 <= mem.len(),
        walk(fmt, base, mem, table, v, level) is Some,
    ensures
        ({
            let (s, b) = walk(fmt, base, mem, table, v, level)->0;
            &&& 0 <= s < mem.len()
            &&& (!fmt_is_table(fmt, mem[s]) || b == 12)
            &&& exists|l: nat| l <= level && b == level_bits(l)
        }),
    decreases level,
{
    lemma_index_bound(v, level);
    let slot = table + level_index(v, level);
    let e = mem[slot];
    if level > 0 && fmt_is_table(fmt, e) {
        let t = table_at(base, mem.len(), fmt_next(fmt, e))->0;
        lemma_table_at_bounds(base, mem.len(), fmt_next(fmt, e));
        lemma_walk_stops(fmt, base, mem, t, v, (level - 1) as nat);
        let (s, b) = walk(fmt, base, mem, table, v, level)->0;
        let l = choose|l: nat| l <= (level - 1) as nat && b == level_bits(l);
        assert(l <= level && b == level_bits(l));
    } else {
        assert(level_bits(level) == level_bits(level));
    }
}

/// Writing a word that names no table (or any word, at the last level) over
/// the entry where a walk ended, an entry that named no table, leaves that
/// walk as it was: it still ends at the same word with the same bits left.
pub proof fn lemma_walk_write(
    fmt: PteFormat,
    base: u64,
    mem: Seq<u64>,
    table: int,
    v: u64,
    level: nat,
    s: int,
    b: nat,
    x: u64,
)
    requires
        mem.len() % 512 == 0,
        table % 512 == 0,
        0 <= table,
        table + 512 <= mem.len(),
        walk(fmt, base, mem, table, v, level) == Some((s, b)),
        !fmt_is_table(fmt, mem[s]),
        !fmt_is_table(fmt, x) || b == 12,
    ensures
        walk(fmt, base, mem.update(s, x), table, v, level) == Some((s, b)),
    decreases level,
{
    lemma_walk_stops(fmt, base, mem, table, v, level);
    lemma_index_bound(v, level);
    let m2 = mem.update(s, x);
    let slot = table + level_index(v, level);
    let e = mem[slot];
    if slot == s {
        assert(!(level > 0 && fmt_is_table(fmt, e)));
        assert(b == level_bits(level));
    } else {
        assert(m2[slot] == e);
        if level > 0 && fmt_is_table(fmt, e) {
            let t = table_at(base, mem.len(), fmt_next(fmt, e))->0;
            lemma_table_at_bounds(base, mem.len(), fmt_next(fmt, e));
            lemma_walk_write(fmt, base, mem, t, v, (level - 1) as nat, s, b, x);
        }
    }
}

/// Mapping a frame over the entry where a walk ended (an entry that named
/// no table) with a leaf makes the same walk end at that entry, with the
/// same bits left, and read the leaf written; at the last level any word may
/// be written.
pub proof fn lemma_walk_after_map(fmt: PteFormat, base: u64, mem: Seq<u64>, root: u64, v: u64, top: nat, x: u64)
    requires
        mem.len() % 512 == 0,
        walk_from(fmt, base, mem, root, v, top) is Some,
        !fmt_is_table(fmt, mem[(walk_from(fmt, base, mem, root, v, top)->0).0]),
        !fmt_is_table(fmt, x) || (walk_from(fmt, base, mem, root, v, top)->0).1 == 12,
    ensures
        ({
            let (s, b) = walk_from(fmt, base, mem, root, v, top)->0;
            &&& walk_from(fmt, base, mem.update(s, x), root, v, top) == Some((s, b))
            &&& mem.update(s, x)[s] == x
        }),
{
    let (s, b) = walk_from(fmt, base, mem, root, v, top)->0;
    let t = table_at(base, mem.len(), root)->0;
    lemma_table_at_bounds(base, mem.len(), root);
    lemma_walk_stops(fmt, base, mem, t, v, top);
    lemma_walk_write(fmt, base, mem, t, v, top, s, b, x);
}

/// Unmapping a frame twice is harmless: after the first unmap cleared its
/// entry, the entry reads zero and a second unmap of the same frame finds
/// nothing to clear.
pub proof fn lemma_unmap_idempotent(
    fmt: PteFormat,
    base: u64,
    mem: Seq<u64>,
    root: u64,
    v: u64,
    top: nat,
    page_bits: nat,
    frame: u64,
)
    requires
        mem.len() % 512 == 0,
        unmap_slot(fmt, base, mem, root, v, top, page_bits, frame) is Some,
    ensures
        ({
            let s = unmap_slot(fmt, base, mem, root, v, top, page_bits, frame)->0;
            &&& mem.update(s, 0)[s] == 0
            &&& unmap_slot(fmt, base, mem.update(s, 0), root, v, top, page_bits, frame) is None
        }),
{
    let (s, b) = walk_from(fmt, base, mem, root, v, top)->0;
    let t = table_at(base, mem.len(), root)->0;
    lemma_table_at_bounds(base, mem.len(), root);
    lemma_walk_stops(fmt, base, mem, t, v, top);
    assert(!fmt_is_table(fmt, 0u64) && !fmt_is_leaf(fmt, 0u64)) by {
        assert(0u64 & 1 == 0 && (0u64 & 3) | ((0u64 & 0x400_0000_0000_0000) >> 56) == 0)
            by (bit_vector);
    }
    lemma_walk_write(fmt, base, mem, t, v, top, s, b, 0);
}

/// Page tables in one contiguous, bounds-checked arena.
pub struct PageTableArena {
    /// Physical address of the first table.
    pub base: u64,
    /// The entry words of all tables, table by table.
    pub entries: Vec<u64>,
}

impl PageTableArena {
    pub open spec fn wf(&self) -> bool {
        &&& self.base % 4096 == 0
        &&& self.entries@.len() % 512 == 0
        &&& self.base + self.entries@.len() * 8 <= u64::MAX
    }

    pub open spec fn mem(&self) -> Seq<u64> {
        self.entries@
    }

    pub open spec fn spec_table_at(&self, p: u64) -> Option<int> {
        table_at(self.base, self.entries@.len(), p)
    }

    pub open spec fn spec_walk_from(&self, fmt: PteFormat, root: u64, v: u64, top: nat) -> Option<(int, nat)> {
        walk_from(fmt, self.base, self.entries@, root, v, top)
    }

    /// An arena of `n_tables` tables at physical address `base`, every entry invalid.
    pub fn new(base: u64, n_tables: usize) -> (r: Self)
        requires
            base % 4096 == 0,
            base + n_tables * 4096 <= u64::MAX,
            n_tables * 512 <= usize::MAX,
        ensures
            r.wf(),
            r.base == base,
            r.entries@.len() == n_tables * 512,
            forall|i: int| 0 <= i < r.entries@.len() ==> r.entries@[i] == 0,
    {
        let n = n_tables * PT_ENTRIES;
        let mut entries: Vec<u64> = Vec::new();
        let mut i: usize = 0;
        while i < n
            invariant
                i <= n,
                entries@.len() == i,
                forall|j: int| 0 <= j < i ==> entries@[j] == 0,
            decreases n - i,
        {
            entries.push(0);
            i = i + 1;
        }
        assert(n % 512 == 0) by (nonlinear_arith)
            requires
                n == n_tables * 512,
        ;
        PageTableArena { base, entries }
    }

    /// Number of tables.
    pub fn n_tables(&self) -> (r: usize)
        requires
            self.wf(),
        ensures
            r * 512 == self.entries@.len(),
    {
        self.entries.len() / PT_ENTRIES
    }

    /// Physical address of the `k`-th table.
    pub fn table_paddr(&self, k: usize) -> (r: u64)
        requires
            self.wf(),
            k * 512 < self.entries@.len(),
        ensures
            r == self.base + k * 4096,
            self.spec_table_at(r) == Some(k * 512),
    {
        assert(k * 4096 <= self.entries@.len() * 8) by (nonlinear_arith)
            requires
                k * 512 < self.entries@.len(),
        ;
        assert((k * 4096) % 4096 == 0 && (k * 4096) / 8 == k * 512) by (nonlinear_arith);
        self.base + (k as u64) * TABLE_BYTES
    }

    /// The first word of the table at physical address `p`, if the arena holds one there.
    pub fn table_of(&self, p: u64) -> (r: Option<usize>)
        requires
            self.wf(),
        ensures
            r matches Some(t) ==> self.spec_table_at(p) == Some(t as int),
            r is None ==> self.spec_table_at(p) is None,
    {
        if p < self.base {
            return None;
        }
        let d = p - self.base;
        let len = self.entries.len() as u64;
        if d % TABLE_BYTES != 0 {
            None
        } else if d >= len * 8 {
            None
        } else {
            Some((d / 8) as usize)
        }
    }

    pub fn read(&self, slot: usize) -> (r: u64)
        requires
            slot < self.entries@.len(),
        ensures
            r == self.entries@[slot as int],
    {
        self.entries[slot]
    }

    pub fn write(&mut self, slot: usize, w: u64)
        requires
            slot < old(self).entries@.len(),
        ensures
            final(self).base == old(self).base,
            final(self).entries@ == old(self).entries@.update(slot as int, w),
    {
        self.entries.set(slot, w);
    }

    /// Walks from the root table at physical address `root`, starting at
    /// level `top`, through entries read in format `fmt`.
    pub fn walk(&self, fmt: PteFormat, root: u64, v: u64, top: usize) -> (r: Option<lookupPTSlot_ret_t>)
        requires
            self.wf(),
            top <= 3,
        ensures
            r == as_slot_ret(self.spec_walk_from(fmt, root, v, top as nat)),
            r matches Some(ret) ==> ret.ptSlot < self.entries@.len() && ret.ptBitsLeft <= 39
                && self.spec_walk_from(fmt, root, v, top as nat) == Some(
                (ret.ptSlot as int, ret.ptBitsLeft as nat),
            ),
    {
        let mut table = match self.table_of(root) {
            Some(t) => t,
            None => {
                return None;
            },
        };
        proof {
            lemma_table_at_bounds(self.base, self.entries@.len(), root);
        }
        let mut level: usize = top;
        loop
            invariant
                self.wf(),
                level <= 3,
                table % 512 == 0,
                table + 512 <= self.entries@.len(),
                walk(fmt, self.base, self.entries@, table as int, v, level as nat)
                    == self.spec_walk_from(fmt, root, v, top as nat),
            decreases level,
        {
            let bits: u64 = 9 * (level as u64) + 12;
            let idx = ((v >> bits) & 511) as usize;
            proof {
                lemma_index_bound(v, level as nat);
            }
            let slot = table + idx;
            let e = self.entries[slot];
            let is_table = match fmt {
                PteFormat::Sv39 => crate::arch::riscv64::pte::PTE(e).is_pte_table(),
                PteFormat::Armv8 => crate::arch::aarch64::pte::PTE(e).is_pte_table(),
            };
            if level > 0 && is_table {
                let next = match fmt {
                    PteFormat::Sv39 => crate::arch::riscv64::pte::PTE(e).get_paddr(),
                    PteFormat::Armv8 => crate::arch::aarch64::pte::PTE(e).next_level_paddr(),
                };
                match self.table_of(next) {
                    Some(t) => {
                        proof {
                            lemma_table_at_bounds(self.base, self.entries@.len(), next);
                        }
                        table = t;
                        level = level - 1;
                    },
                    None => {
                        return None;
                    },
                }
            } else {
                return Some(lookupPTSlot_ret_t { ptSlot: slot, ptBitsLeft: bits as usize });
            }
        }
    }

    /// The word that names the table at physical address `target` on the
    /// path of `v` from the root at `root`, looking at levels `top` down to 1.
    pub fn find_parent_slot(&self, fmt: PteFormat, root: u64, v: u64, top: usize, target: u64) -> (r: Option<usize>)
        requires
            self.wf(),
            top <= 3,
        ensures
            r matches Some(s) ==> unmap_table_slot(fmt, self.base, self.entries@, root, v, top as nat, target) == Some(s as int),
            r is None ==> unmap_table_slot(fmt, self.base, self.entries@, root, v, top as nat, target) is None,
            r matches Some(s) ==> s < self.entries@.len(),
    {
        let mut table = match self.table_of(root) {
            Some(t) => t,
            None => {
                return None;
            },
        };
        let goal = match self.table_of(target) {
            Some(t) => t,
            None => {
                return None;
            },
        };
        if table == goal {
            return None;
        }
        proof {
            lemma_table_at_bounds(self.base, self.entries@.len(), root);
        }
        let mut level: usize = top;
        while level > 0
            invariant
                self.wf(),
                level <= 3,
                table % 512 == 0,
                table + 512 <= self.entries@.len(),
                parent_slot(fmt, self.base, self.entries@, table as int, v, level as nat, goal as int)
                    == unmap_table_slot(fmt, self.base, self.entries@, root, v, top as nat, target),
            decreases level,
        {
            let bits: u64 = 9 * (level as u64) + 12;
            let idx = ((v >> bits) & 511) as usize;
            proof {
                lemma_index_bound(v, level as nat);
            }
            let slot = table + idx;
            let e = self.entries[slot];
            let is_table = match fmt {
                PteFormat::Sv39 => crate::arch::riscv64::pte::PTE(e).is_pte_table(),
                PteFormat::Armv8 => crate::arch::aarch64::pte::PTE(e).is_pte_table(),
            };
            if !is_table {
                return None;
            }
            let next = match fmt {
                PteFormat::Sv39 => crate::arch::riscv64::pte::PTE(e).get_paddr(),
                PteFormat::Armv8 => crate::arch::aarch64::pte::PTE(e).next_level_paddr(),
            };
            match self.table_of(next) {
                Some(t) => {
                    if t == goal {
                        return Some(slot);
                    }
                    proof {
                        lemma_table_at_bounds(self.base, self.entries@.len(), next);
                    }
                    table = t;
                    level = level - 1;
                },
                None => {
                    return None;
                },
            }
        }
        None
    }
}

} // verus!
