//! The kernel's own page tables on the three-level layout: a root table and
//! a second-level table for the re-map of the kernel image, and the window
//! that maps all physical memory.
use vstd::prelude::*;

use super::config::{KDEV_BASE, KERNEL_ELF_BASE, KERNEL_ELF_BASE_OFFSET, KERNEL_ELF_PADDR_BASE, PADDR_BASE, PADDR_TOP, PPTR_BASE, PPTR_BASE_OFFSET, PPTR_TOP, RISCV_GIGA_PAGE, SATP_MODE_SV39};
use super::boot::kernel_frame_slot;
use super::device::{apply_devices, lemma_apply_devices_last, lemma_apply_devices_len, lemma_frame_slot_bound, map_kernel_devices};
use super::pte::{lemma_rv_kernel_flags, lemma_rv_round_trip, rv_addr, rv_is_leaf, rv_is_table, rv_kernel_flags, rv_word, PTE};
use super::satp::{satp_for_root, satp_t, satp_word};
use super::utils::{kpptr_to_paddr, pptr_to_paddr, riscv_get_pt_index};
use crate::asid::{asid_t, find_vspace_for_asid, AsidTable, ASID_COUNT};
use crate::memory::{lemma_index_bound, level_index, translate, unmap_slot, walk, walk_from, table_at, PageTableArena, PteFormat};
use crate::utils::{page_bits, pageBitsForSize};
use crate::structures::{exception_t, kernel_frame_t, lookup_fault, p_region_t, reserved_regions};

verus! {

/// The kernel's tables: table 0 of the arena is the root, table 1 the
/// second-level table of the kernel image.
pub struct KernelPageTables {
    pub arena: PageTableArena,
}

/// Word of the root entry `k` of the linear map, a 1 GiB kernel leaf.
pub open spec fn direct_word(k: int) -> u64 {
    rv_word(((k - 256) * 0x40000) as u64, rv_kernel_flags(true))
}

/// Word of entry `j` of the image table, a 2 MiB kernel leaf.
pub open spec fn image_word(j: int) -> u64 {
    rv_word((0x80000 + j * 512) as u64, rv_kernel_flags(true))
}

proof fn lemma_direct_step(pptr: u64, paddr: u64)
    by (bit_vector)
    requires
        paddr < 0x3F_8000_0000,
        paddr & 0x3fff_ffff == 0,
        pptr == paddr + 0xFFFF_FFC0_0000_0000u64,
    ensures
        (pptr >> 30) & 511 == 256 + (paddr >> 30),
        ((paddr + 0x4000_0000) as u64) <= 0x3F_8000_0000u64,
        paddr >> 12 == (paddr >> 30) * 0x40000,
        ((paddr + 0x4000_0000) as u64) & 0x3fff_ffff == 0,
        ((paddr + 0x4000_0000) as u64) >> 30 == (paddr >> 30) + 1,
        (paddr >> 30) < 254,
{
}

proof fn lemma_start()
    by (bit_vector)
    ensures
        0u64 & 0x3fff_ffff == 0,
        0u64 >> 30 == 0,
        0x3F_8000_0000u64 >> 30 == 254,
{
}

proof fn lemma_image_step(j: u64, paddr: u64)
    by (bit_vector)
    requires
        j < 512,
        paddr == 0x8000_0000u64 + j * 0x20_0000,
    ensures
        paddr >> 12 == 0x80000 + j * 512,
        (((0x80000 + j * 512) as u64) << 12) == 0x8000_0000u64 + j * 0x20_0000,
{
}

proof fn lemma_window_point(p: u64)
    by (bit_vector)
    requires
        p < 0x3F_8000_0000,
    ensures
        (((p + 0xFFFF_FFC0_0000_0000u64) as u64) >> 30) & 511 == 256 + (p >> 30),
        (p >> 30) < 254,
        (((p >> 30) * 0x40000) as u64) << 12 == (p >> 30) * 0x4000_0000,
        (p >> 30) * 0x4000_0000 + ((p + 0xFFFF_FFC0_0000_0000u64) as u64) % 0x4000_0000 == p,
        (((p + 0xFFFF_FFC0_0000_0000u64) as u64) >> 21) & 511 == (p >> 21) & 511,
        (p >> 21) & 511 < 512,
        (p >> 30) == 2 ==> ((((0x80000 + ((p >> 21) & 511) * 512) as u64) << 12) as int) + (((p
            + 0xFFFF_FFC0_0000_0000u64) as u64) % 0x20_0000) as int == p as int,
{
}

proof fn lemma_image_point(v: u64)
    by (bit_vector)
    requires
        0xFFFF_FFFF_8000_0000u64 <= v < 0xFFFF_FFFF_C000_0000u64,
    ensures
        (v >> 30) & 511 == 510,
        (v >> 21) & 511 < 512,
        ((((0x80000 + ((v >> 21) & 511) * 512) as u64) << 12) as int) + (v % 0x20_0000) as int == v
            - 0xFFFF_FFFF_0000_0000u64,
{
}

proof fn lemma_table_word(l2: u64)
    by (bit_vector)
    requires
        l2 % 4096 == 0,
        l2 < 0x1_0000_0000,
    ensures
        (l2 >> 12) << 12 == l2,
        l2 >> 12 < 0x1000_0000_0000,
{
}

proof fn lemma_device_addr(x: u64, v: u64)
    by (bit_vector)
    requires
        x % 0x20_0000 == 0,
        x < 0x100_0000_0000_0000,
        v >= 0xFFFF_FFFF_C000_0000u64,
    ensures
        (x >> 12) << 12 == x,
        x >> 12 < 0x1000_0000_0000,
        (v >> 30) & 511 == 511,
{
}

/// A kernel table entry naming the table at `p`.
pub open spec fn table_word(p: u64) -> u64 {
    rv_word(p >> 12, rv_kernel_flags(false))
}

/// The kernel tables `m0` once the window is built, before any device is
/// mapped: the linear map in root entries 256 to 509, except entry 258 of
/// the gigabyte that holds the image, which shares the image table with
/// entry 510; entry 511 names the device table; the image table holds 512
/// leaves of 2 MiB from physical address 2 GiB.
pub open spec fn rv_window(base: u64, m0: Seq<u64>) -> Seq<u64> {
    Seq::new(
        m0.len(),
        |k: int|
            if 256 <= k < 510 && k != 258 {
                direct_word(k)
            } else if k == 258 || k == 510 {
                table_word((base + 0x1000) as u64)
            } else if k == 511 {
                table_word((base + 0x2000) as u64)
            } else if 512 <= k < 1024 {
                image_word(k - 512)
            } else {
                m0[k]
            },
    )
}

impl KernelPageTables {
    pub open spec fn wf(&self) -> bool {
        &&& self.arena.wf()
        &&& self.arena.entries@.len() == 1536
        &&& self.arena.base + 0x3000 <= 0x1_0000_0000
    }

    pub open spec fn mem(&self) -> Seq<u64> {
        self.arena.entries@
    }

    pub open spec fn spec_root(&self) -> u64 {
        self.arena.base
    }

    pub open spec fn spec_image_table(&self) -> u64 {
        (self.arena.base + 0x1000) as u64
    }

    pub open spec fn spec_device_table(&self) -> u64 {
        (self.arena.base + 0x2000) as u64
    }

    /// Empty kernel tables at physical address `base`: the root, the
    /// second-level table of the kernel image, and that of the device window.
    pub fn new(base: u64) -> (r: Self)
        requires
            base % 4096 == 0,
            base + 0x3000 <= 0x1_0000_0000,
        ensures
            r.wf(),
            r.arena.base == base,
            forall|i: int| 0 <= i < 1536 ==> r.mem()[i] == 0,
    {
        KernelPageTables { arena: PageTableArena::new(base, 3) }
    }

    /// Physical address of the root table.
    pub fn root_paddr(&self) -> (r: u64)
        requires
            self.wf(),
        ensures
            r == self.spec_root(),
    {
        self.arena.base
    }

    /// Kernel pointer to the root table.
    pub fn root_pptr(&self) -> (r: u64)
        requires
            self.wf(),
        ensures
            r == self.spec_root() + KERNEL_ELF_BASE_OFFSET,
    {
        self.arena.base + KERNEL_ELF_BASE_OFFSET
    }

    /// Kernel pointer to the second-level table of the kernel image.
    pub fn image_table_pptr(&self) -> (r: u64)
        requires
            self.wf(),
        ensures
            r == self.spec_image_table() + KERNEL_ELF_BASE_OFFSET,
    {
        self.arena.base + 0x1000 + KERNEL_ELF_BASE_OFFSET
    }

    /// Kernel pointer to the second-level table of the device window.
    pub fn device_table_pptr(&self) -> (r: u64)
        requires
            self.wf(),
        ensures
            r == self.spec_device_table() + KERNEL_ELF_BASE_OFFSET,
    {
        self.arena.base + 0x2000 + KERNEL_ELF_BASE_OFFSET
    }
}

/// Whether every device frame lies in the device window.
pub open spec fn devices_in_window(devices: Seq<kernel_frame_t>) -> bool {
    forall|i: int| 0 <= i < devices.len() ==> #[trigger] devices[i].pptr >= KDEV_BASE
}

/// Whether no device frame after the `i`-th is entered where it is.
pub open spec fn last_in_slot(devices: Seq<kernel_frame_t>, i: int) -> bool {
    forall|j: int| i < j < devices.len() ==> #[trigger] kernel_frame_slot(devices[j].pptr) != kernel_frame_slot(devices[i].pptr)
}

/// Builds the kernel window: 1 GiB leaves of the linear map for the
/// physical addresses below `PADDR_TOP`, the kernel image mapped a second
/// time at its linked address through the second-level image table in 2 MiB
/// leaves (the root entry of the gigabyte that holds the image in the linear
/// map uses that table too), the device table linked from the last root
/// entry, then the device frames. Returns the regions to reserve for device
/// frames that user code may not reach.
///
/// When every device frame lies in the device window: every physical
/// address below `PADDR_TOP` translates back to itself through its linear
/// alias; a walk in the image window ends in the image table with 21 bits
/// left and translates by the image offset; and each device frame that no
/// later frame shares an entry with translates to its 2 MiB frame.
pub fn rust_map_kernel_window(kt: &mut KernelPageTables, devices: &Vec<kernel_frame_t>) -> (r: Vec<p_region_t>)
    requires
        old(kt).wf(),
        forall|i: int| 0 <= i < devices@.len() ==> #[trigger] devices@[i].paddr + 0x1000 <= u64::MAX,
    ensures
        final(kt).wf(),
        final(kt).arena.base == old(kt).arena.base,
        r@ == reserved_regions(devices@),
        final(kt).mem() == apply_devices(rv_window(old(kt).arena.base, old(kt).mem()), devices@),
        devices_in_window(devices@) ==> forall|p: u64|
            PADDR_BASE <= p < PADDR_TOP ==> #[trigger] translate(
                PteFormat::Sv39,
                final(kt).arena.base,
                final(kt).mem(),
                final(kt).spec_root(),
                (p + PPTR_BASE_OFFSET) as u64,
                2,
            ) == Some(p as int),
        devices_in_window(devices@) ==> forall|v: u64|
            PPTR_TOP <= v < KDEV_BASE ==> #[trigger] walk_from(
                PteFormat::Sv39,
                final(kt).arena.base,
                final(kt).mem(),
                final(kt).spec_root(),
                v,
                2,
            ) == Some((512 + level_index(v, 1), 21nat)) && translate(
                PteFormat::Sv39,
                final(kt).arena.base,
                final(kt).mem(),
                final(kt).spec_root(),
                v,
                2,
            ) == Some(v - KERNEL_ELF_BASE_OFFSET),
        devices_in_window(devices@) ==> forall|i: int|
            0 <= i < devices@.len() && devices@[i].paddr < 0x100_0000_0000_0000 && last_in_slot(
                devices@,
                i,
            ) ==> #[trigger] translate(
                PteFormat::Sv39,
                final(kt).arena.base,
                final(kt).mem(),
                final(kt).spec_root(),
                devices@[i].pptr,
                2,
            ) == Some(
                (devices@[i].paddr - devices@[i].paddr % 0x20_0000) + devices@[i].pptr as int
                    % 0x20_0000,
            ),
{
    let ghost m0 = kt.mem();
    let ghost base = kt.arena.base;
    proof {
        lemma_start();
    }
    let mut pptr: u64 = PPTR_BASE;
    let mut paddr: u64 = PADDR_BASE;
    while pptr < PPTR_TOP
        invariant
            kt.wf(),
            kt.arena.base == base,
            pptr == PPTR_BASE + paddr,
            paddr <= PADDR_TOP,
            paddr & 0x3fff_ffff == 0,
            forall|k: int|
                0 <= k < 1536 ==> #[trigger] kt.mem()[k] == if 256 <= k < 256 + (paddr >> 30) {
                    direct_word(k)
                } else {
                    m0[k]
                },
        decreases PPTR_TOP - pptr,
    {
        proof {
            lemma_direct_step(pptr, paddr);
        }
        let idx = riscv_get_pt_index(pptr, 0);
        let w = PTE::pte_next_table(paddr, true).0;
        let ghost before = kt.mem();
        kt.arena.write(idx, w);
        proof {
            let q = paddr >> 30;
            assert(idx == 256 + q);
            assert(w == direct_word(256 + q));
            assert forall|k: int| 0 <= k < 1536 implies #[trigger] kt.mem()[k] == if 256 <= k < 256 + q + 1 {
                direct_word(k)
            } else {
                m0[k]
            } by {
                if k != idx {
                    assert(kt.mem()[k] == before[k]);
                }
            }
        }
        pptr = pptr + 0x4000_0000;
        paddr = paddr + 0x4000_0000;
    }
    assert(paddr == PADDR_TOP);
    let l2 = kt.arena.base + 0x1000;
    let table = PTE::pte_next_table(kpptr_to_paddr(kt.image_table_pptr()), false).0;
    let mut pptr: u64 = KERNEL_ELF_BASE - KERNEL_ELF_BASE % 0x4000_0000;
    let mut paddr: u64 = KERNEL_ELF_PADDR_BASE - KERNEL_ELF_PADDR_BASE % 0x4000_0000;
    let i1 = riscv_get_pt_index(KERNEL_ELF_PADDR_BASE + PPTR_BASE_OFFSET, 0);
    let i2 = riscv_get_pt_index(pptr, 0);
    assert((((0x8400_0000u64 + 0xFFFF_FFC0_0000_0000u64) as u64) >> 30) & 511 == 258 && (
    0xFFFF_FFFF_8000_0000u64 >> 30) & 511 == 510) by (bit_vector);
    assert(i1 == 258);
    assert(i2 == 510);
    let ghost pre = kt.mem();
    kt.arena.write(i1, table);
    kt.arena.write(i2, table);
    assert forall|k: int| 0 <= k < 1536 && k != 258 && k != 510 implies #[trigger] kt.mem()[k] == pre[k] by {}
    let ghost m1 = kt.mem();
    let mut index: usize = 0;
    while pptr < PPTR_TOP + 0x4000_0000
        invariant
            kt.wf(),
            kt.arena.base == base,
            index <= 512,
            pptr == PPTR_TOP + index * 0x20_0000,
            paddr == 0x8000_0000 + index * 0x20_0000,
            forall|k: int|
                0 <= k < 1536 ==> #[trigger] kt.mem()[k] == if 512 <= k < 512 + index {
                    image_word(k - 512)
                } else {
                    m1[k]
                },
        decreases PPTR_TOP + 0x4000_0000 - pptr,
    {
        proof {
            lemma_image_step(index as u64, paddr);
        }
        let w = PTE::pte_next_table(paddr, true).0;
        let ghost before = kt.mem();
        kt.arena.write(512 + index, w);
        proof {
            assert(w == image_word(index as int));
            assert forall|k: int| 0 <= k < 1536 implies #[trigger] kt.mem()[k] == if 512 <= k < 512 + index + 1 {
                image_word(k - 512)
            } else {
                m1[k]
            } by {
                if k != 512 + index {
                    assert(kt.mem()[k] == before[k]);
                }
            }
        }
        pptr = pptr + 0x20_0000;
        paddr = paddr + 0x20_0000;
        index = index + 1;
    }
    assert(index == 512);
    let dev_link = riscv_get_pt_index(KDEV_BASE, 0);
    assert((0xFFFF_FFFF_C000_0000u64 >> 30) & 511 == 511) by (bit_vector);
    let ghost m2 = kt.mem();
    kt.arena.write(dev_link, PTE::pte_next_table(kpptr_to_paddr(kt.device_table_pptr()), false).0);
    proof {
        let w = rv_window(base, m0);
        assert forall|k: int| 0 <= k < 1536 implies #[trigger] kt.mem()[k] == w[k] by {
            if k != 511 {
                assert(kt.mem()[k] == m2[k]);
                if !(512 <= k < 1024) {
                    assert(m2[k] == m1[k]);
                    if k != 258 && k != 510 {
                        assert(m1[k] == pre[k]);
                    }
                }
            }
        }
        assert(kt.mem() =~= w);
    }
    let ghost m3 = kt.mem();
    let regions = map_kernel_devices(kt, devices);
    proof {
        if devices_in_window(devices@) {
            lemma_window_complete(base, m3, kt.mem(), devices@);
        }
    }
    regions
}

/// What the builder leaves, once the device frames stay in their window:
/// the linear map, the image window and the device frames translate as
/// they should.
proof fn lemma_window_complete(base: u64, w: Seq<u64>, mem: Seq<u64>, devices: Seq<kernel_frame_t>)
    requires
        base % 4096 == 0,
        base + 0x3000 <= 0x1_0000_0000,
        w.len() == 1536,
        devices_in_window(devices),
        mem == apply_devices(w, devices),
        forall|k: int| 256 <= k < 510 && k != 258 ==> #[trigger] w[k] == direct_word(k),
        w[258] == table_word((base + 0x1000) as u64),
        w[510] == table_word((base + 0x1000) as u64),
        w[511] == table_word((base + 0x2000) as u64),
        forall|k: int| 512 <= k < 1024 ==> #[trigger] w[k] == image_word(k - 512),
        forall|k: int|
            0 <= k < 1536 && (forall|i: int| 0 <= i < devices.len() ==> #[trigger] kernel_frame_slot(devices[i].pptr) != k)
                ==> mem[k] == w[k],
    ensures
        forall|p: u64|
            PADDR_BASE <= p < PADDR_TOP ==> #[trigger] translate(
                PteFormat::Sv39,
                base,
                mem,
                base,
                (p + PPTR_BASE_OFFSET) as u64,
                2,
            ) == Some(p as int),
        forall|v: u64|
            PPTR_TOP <= v < KDEV_BASE ==> #[trigger] walk_from(PteFormat::Sv39, base, mem, base, v, 2)
                == Some((512 + level_index(v, 1), 21nat)) && translate(PteFormat::Sv39, base, mem, base, v, 2)
                == Some(v - KERNEL_ELF_BASE_OFFSET),
        forall|i: int|
            0 <= i < devices.len() && devices[i].paddr < 0x100_0000_0000_0000 && last_in_slot(devices, i)
                ==> #[trigger] translate(PteFormat::Sv39, base, mem, base, devices[i].pptr, 2) == Some(
                (devices[i].paddr - devices[i].paddr % 0x20_0000) + devices[i].pptr as int % 0x20_0000,
            ),
{
    let l2 = (base + 0x1000) as u64;
    let dt = (base + 0x2000) as u64;
    lemma_apply_devices_len(w, devices);
    assert forall|k: int| 0 <= k < 1024 implies mem[k] == w[k] by {
        assert forall|i: int| 0 <= i < devices.len() implies #[trigger] kernel_frame_slot(devices[i].pptr) != k by {
            lemma_frame_slot_bound(devices[i].pptr);
        }
    }
    lemma_table_word(l2);
    lemma_table_word(dt);
    lemma_rv_kernel_flags();
    lemma_rv_round_trip(l2 >> 12, rv_kernel_flags(false));
    lemma_rv_round_trip(dt >> 12, rv_kernel_flags(false));
    let table = table_word(l2);
    assert(rv_addr(table) == l2);
    assert(rv_addr(table_word(dt)) == dt);
    assert(table_at(base, 1536, l2) == Some(512int));
    assert(table_at(base, 1536, dt) == Some(1024int));
    assert forall|j: int| 0 <= j < 512 implies rv_is_leaf(#[trigger] image_word(j)) && !rv_is_table(image_word(j)) && rv_addr(image_word(j)) == ((0x80000 + j * 512) as u64) << 12 by {
        lemma_rv_round_trip((0x80000 + j * 512) as u64, rv_kernel_flags(true));
    }
    assert forall|p: u64| PADDR_BASE <= p < PADDR_TOP implies #[trigger] translate(
        PteFormat::Sv39,
        base,
        mem,
        base,
        (p + PPTR_BASE_OFFSET) as u64,
        2,
    ) == Some(p as int) by {
        lemma_window_point(p);
        let v = (p + PPTR_BASE_OFFSET) as u64;
        let q = p >> 30;
        let k = 256 + q;
        if q == 2 {
            let j = (p >> 21) & 511;
            lemma_image_step(j, (0x8000_0000u64 + j * 0x20_0000) as u64);
            assert(mem[k as int] == w[k as int]);
            assert(mem[512 + j] == image_word(j as int));
            assert(walk(PteFormat::Sv39, base, mem, 512, v, 1) == Some((512 + j, 21nat)));
            assert(walk(PteFormat::Sv39, base, mem, 0, v, 2) == Some((512 + j, 21nat)));
        } else {
            assert(mem[k as int] == direct_word(k as int));
            lemma_rv_round_trip((q * 0x40000) as u64, rv_kernel_flags(true));
            assert(walk(PteFormat::Sv39, base, mem, 0, v, 2) == Some((k as int, 30nat)));
        }
    }
    assert forall|v: u64| PPTR_TOP <= v < KDEV_BASE implies #[trigger] walk_from(PteFormat::Sv39, base, mem, base, v, 2)
        == Some((512 + level_index(v, 1), 21nat)) && translate(PteFormat::Sv39, base, mem, base, v, 2)
        == Some(v - KERNEL_ELF_BASE_OFFSET) by {
        lemma_image_point(v);
        let j = (v >> 21) & 511;
        assert(mem[510] == table);
        assert(mem[512 + j] == image_word(j as int));
        assert(walk(PteFormat::Sv39, base, mem, 512, v, 1) == Some((512 + j, 21nat)));
        assert(walk(PteFormat::Sv39, base, mem, 0, v, 2) == Some((512 + j, 21nat)));
    }
    assert forall|i: int|
        0 <= i < devices.len() && devices[i].paddr < 0x100_0000_0000_0000 && last_in_slot(devices, i)
        implies #[trigger] translate(PteFormat::Sv39, base, mem, base, devices[i].pptr, 2) == Some(
            (devices[i].paddr - devices[i].paddr % 0x20_0000) + devices[i].pptr as int % 0x20_0000,
        ) by {
        let f = devices[i];
        let v = f.pptr;
        let x = (f.paddr - f.paddr % 0x20_0000) as u64;
        assert(f.pptr >= KDEV_BASE);
        lemma_device_addr(x, v);
        lemma_index_bound(v, 1);
        lemma_apply_devices_last(w, devices, i);
        let s = 1024 + level_index(v, 1);
        assert(mem[s] == rv_word(x >> 12, rv_kernel_flags(true)));
        lemma_rv_round_trip(x >> 12, rv_kernel_flags(true));
        assert(mem[511] == table_word(dt));
        assert(walk(PteFormat::Sv39, base, mem, 1024, v, 1) == Some((s, 21nat)));
        assert(walk(PteFormat::Sv39, base, mem, 0, v, 2) == Some((s, 21nat)));
    }
}

/// The word that unmapping the frame at kernel pointer `pptr`, of size
/// class `page_size`, clears in the address space of `root` for `vptr`.
pub open spec fn rv_unmap_target(base: u64, mem: Seq<u64>, root: u64, vptr: u64, page_size: int, pptr: u64) -> Option<int> {
    if root >= PPTR_BASE_OFFSET {
        unmap_slot(
            PteFormat::Sv39,
            base,
            mem,
            (root - PPTR_BASE_OFFSET) as u64,
            vptr,
            2,
            page_bits(page_size),
            (pptr - PPTR_BASE_OFFSET) as u64,
        )
    } else {
        None
    }
}

/// Unmapping the same frame twice: once the first unmap cleared its entry,
/// the entry reads zero and the second unmap finds nothing to clear, so it
/// succeeds and changes nothing.
pub proof fn lemma_rv_unmap_twice(base: u64, mem: Seq<u64>, root: u64, vptr: u64, page_size: int, pptr: u64)
    requires
        mem.len() % 512 == 0,
        rv_unmap_target(base, mem, root, vptr, page_size, pptr) is Some,
    ensures
        ({
            let s = rv_unmap_target(base, mem, root, vptr, page_size, pptr)->0;
            &&& mem.update(s, 0)[s] == 0
            &&& rv_unmap_target(base, mem.update(s, 0), root, vptr, page_size, pptr) is None
        }),
{
    crate::memory::lemma_unmap_idempotent(
        PteFormat::Sv39,
        base,
        mem,
        (root - PPTR_BASE_OFFSET) as u64,
        vptr,
        2,
        page_bits(page_size),
        (pptr - PPTR_BASE_OFFSET) as u64,
    );
}

/// Removes the mapping of the frame at kernel pointer `pptr` at `vptr` in
/// the address space of `asid`: the entry is cleared only where the walk
/// ends at a leaf of the given size that names that frame; any other
/// mismatch leaves the tables alone. An ASID with nothing bound is a lookup
/// fault. `Ok(true)` tells that an entry was cleared and the translation
/// caches must be fenced.
pub fn unmap_page(table: &AsidTable, mem: &mut PageTableArena, page_size: usize, asid: asid_t, vptr: u64, pptr: u64) -> (r: Result<bool, lookup_fault>)
    requires
        table.wf(),
        old(mem).wf(),
        asid < ASID_COUNT,
        page_size <= RISCV_GIGA_PAGE,
        pptr >= PPTR_BASE_OFFSET,
    ensures
        final(mem).wf(),
        final(mem).base == old(mem).base,
        match table.lookup(asid as int) {
            None => r == Err::<bool, lookup_fault>(lookup_fault::InvalidRoot) && final(mem).entries@
                == old(mem).entries@,
            Some(root) => match rv_unmap_target(old(mem).base, old(mem).entries@, root, vptr, page_size as int, pptr) {
                Some(s) => r == Ok::<bool, lookup_fault>(true) && final(mem).entries@ == old(
                    mem,
                ).entries@.update(s, 0),
                None => r == Ok::<bool, lookup_fault>(false) && final(mem).entries@ == old(mem).entries@,
            },
        },
{
    let find_ret = find_vspace_for_asid(table, asid);
    if find_ret.status != exception_t::EXCEPTION_NONE {
        return Err(lookup_fault::InvalidRoot);
    }
    let root = match find_ret.vspace_root {
        Some(v) => v,
        None => {
            return Err(lookup_fault::InvalidRoot);
        },
    };
    if root < PPTR_BASE_OFFSET {
        return Ok(false);
    }
    let lu_ret = match mem.walk(PteFormat::Sv39, pptr_to_paddr(root), vptr, 2) {
        Some(ret) => ret,
        None => {
            return Ok(false);
        },
    };
    if lu_ret.ptBitsLeft != pageBitsForSize(page_size) {
        return Ok(false);
    }
    let slot = PTE(mem.read(lu_ret.ptSlot));
    if slot.get_valid() == 0 || slot.is_pte_table() || slot.get_paddr() != pptr_to_paddr(pptr) {
        return Ok(false);
    }
    mem.write(lu_ret.ptSlot, 0);
    Ok(true)
}

/// Copies the kernel's root entries from index 2 on (the addresses from
/// 2 GiB up) into the new root table at kernel pointer `lvl1pt`. Returns
/// whether that pointer names a table of `mem`; nothing changes otherwise.
pub fn copyGlobalMappings(kt: &KernelPageTables, mem: &mut PageTableArena, lvl1pt: u64) -> (r: bool)
    requires
        kt.wf(),
        old(mem).wf(),
    ensures
        final(mem).wf(),
        final(mem).base == old(mem).base,
        r == (lvl1pt >= PPTR_BASE_OFFSET && old(mem).spec_table_at((lvl1pt - PPTR_BASE_OFFSET) as u64) is Some),
        !r ==> final(mem).entries@ == old(mem).entries@,
        r ==> ({
            let t = old(mem).spec_table_at((lvl1pt - PPTR_BASE_OFFSET) as u64)->0;
            &&& final(mem).entries@.len() == old(mem).entries@.len()
            &&& forall|i: int|
                0 <= i < final(mem).entries@.len() ==> #[trigger] final(mem).entries@[i] == if t + 2
                    <= i < t + 512 {
                    kt.mem()[i - t]
                } else {
                    old(mem).entries@[i]
                }
        }),
{
    if lvl1pt < PPTR_BASE_OFFSET {
        return false;
    }
    let t = match mem.table_of(pptr_to_paddr(lvl1pt)) {
        Some(t) => t,
        None => {
            return false;
        },
    };
    proof {
        crate::memory::lemma_table_at_bounds(mem.base, mem.entries@.len(), (lvl1pt - PPTR_BASE_OFFSET) as u64);
    }
    let len = mem.entries.len();
    let mut i: usize = riscv_get_pt_index(0x8000_0000, 0);
    assert((0x8000_0000u64 >> 30) & 511 == 2) by (bit_vector);
    while i < 512
        invariant
            mem.wf(),
            kt.wf(),
            mem.base == old(mem).base,
            mem.entries@.len() == old(mem).entries@.len(),
            2 <= i <= 512,
            len == mem.entries@.len(),
            t + 512 <= len,
            forall|k: int|
                0 <= k < mem.entries@.len() ==> #[trigger] mem.entries@[k] == if t + 2 <= k < t + i {
                    kt.mem()[k - t]
                } else {
                    old(mem).entries@[k]
                },
        decreases 512 - i,
    {
        let w = kt.arena.read(i);
        mem.write(t + i, w);
        i = i + 1;
    }
    true
}

/// The register image that activates the kernel's root table.
pub fn activate_kernel_vspace(kt: &KernelPageTables) -> (r: satp_t)
    requires
        kt.wf(),
    ensures
        r.words == satp_word(SATP_MODE_SV39, 0, kt.spec_root() >> 12),
{
    satp_for_root(kpptr_to_paddr(kt.root_pptr()), 0)
}

} // verus!
