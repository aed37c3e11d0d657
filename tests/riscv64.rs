use sel4_vspace::arch::riscv64::asid::{
    delete_asid, delete_asid_pool, get_asid_pool_by_index, set_asid_pool_by_index, write_it_asid_pool,
};
use sel4_vspace::arch::riscv64::boot::{
    create_it_pt_cap, create_mapped_it_frame_cap, create_unmapped_it_frame_cap, map_kernel_frame,
};
use sel4_vspace::arch::riscv64::config::{PPTR_BASE_OFFSET, RISCV_4K_PAGE, RISCV_MEGA_PAGE};
use sel4_vspace::arch::riscv64::interface::{set_vm_root, unmap_page_table};
use sel4_vspace::arch::riscv64::pagetable::{
    activate_kernel_vspace, copyGlobalMappings, rust_map_kernel_window, unmap_page,
    KernelPageTables,
};
use sel4_vspace::arch::riscv64::pte::PTE;
use sel4_vspace::arch::riscv64::utils::{
    kpptr_to_paddr, paddr_to_pptr, pptr_to_paddr, riscv_get_lvl_pgsize, riscv_get_lvl_pgsize_bits,
    riscv_get_pt_index,
};
use sel4_vspace::asid::AsidTable;
use sel4_vspace::memory::{PageTableArena, PteFormat};
use sel4_vspace::structures::{
    cap, cap_asid_pool_cap, cap_page_table_cap, kernel_frame_t, lookup_fault, p_region_t, vm_rights_t,
};

fn translate(mem: &PageTableArena, root: u64, v: u64) -> Option<u64> {
    let r = mem.walk(PteFormat::Sv39, root, v, 2)?;
    let e = PTE(mem.read(r.ptSlot));
    if !e.is_pte_leaf() {
        return None;
    }
    Some(e.get_paddr() + (v % (1u64 << r.ptBitsLeft)))
}

fn kernel_window() -> (KernelPageTables, Vec<p_region_t>) {
    let mut kt = KernelPageTables::new(0x8420_0000);
    let devices = vec![
        kernel_frame_t { paddr: 0x1000_0000, pptr: 0xFFFF_FFFF_C000_0000, armExecuteNever: false, userAvailable: false },
        kernel_frame_t { paddr: 0x0c00_0000, pptr: 0xFFFF_FFFF_C020_0000, armExecuteNever: false, userAvailable: true },
    ];
    let regions = rust_map_kernel_window(&mut kt, &devices);
    (kt, regions)
}

#[test]
fn rv_kernel_window_linear_map() {
    let (kt, _) = kernel_window();
    let root = kt.root_paddr();
    for p in [0u64, 0x1234_5678, 0x8000_0000, 0x8123_4567, 0xbfff_ffff, 0xc000_0000, 0x3F_7FFF_FFFF] {
        assert_eq!(translate(&kt.arena, root, p + PPTR_BASE_OFFSET), Some(p), "p = {:#x}", p);
    }
    let r = kt.arena.walk(PteFormat::Sv39, root, 0x1234_5678 + PPTR_BASE_OFFSET, 2).unwrap();
    assert_eq!(r.ptBitsLeft, 30);
    let r = kt.arena.walk(PteFormat::Sv39, root, 0x8123_4567 + PPTR_BASE_OFFSET, 2).unwrap();
    assert_eq!(r.ptBitsLeft, 21);
}

#[test]
fn rv_kernel_window_image_and_devices() {
    let (kt, regions) = kernel_window();
    let root = kt.root_paddr();
    assert_eq!(translate(&kt.arena, root, 0xFFFF_FFFF_8420_1234), Some(0x8420_1234));
    assert_eq!(translate(&kt.arena, root, 0xFFFF_FFFF_BFFF_FFFF), Some(0xBFFF_FFFF));
    assert_eq!(regions, vec![p_region_t { start: 0x1000_0000, end: 0x1000_1000 }]);
    // Each device frame has its own 2 MiB entry in the device table, which
    // the last root entry names.
    assert_eq!(kt.arena.read(511), PTE::pte_next_table(0x8420_2000, false).0);
    assert_eq!(translate(&kt.arena, root, 0xFFFF_FFFF_C000_0010), Some(0x1000_0010));
    assert_eq!(translate(&kt.arena, root, 0xFFFF_FFFF_C020_0010), Some(0x0c00_0010));
    let r = kt.arena.walk(PteFormat::Sv39, root, 0xFFFF_FFFF_C020_0010, 2).unwrap();
    assert_eq!((r.ptSlot, r.ptBitsLeft), (1024 + 1, 21));
    let r = kt.arena.walk(PteFormat::Sv39, root, 0xFFFF_FFFF_8420_1234, 2).unwrap();
    assert_eq!((r.ptSlot, r.ptBitsLeft), (512 + 0x21, 21));
    assert_eq!(translate(&kt.arena, root, 0x4000_0000), None);
    let s = activate_kernel_vspace(&kt);
    assert_eq!(s.words, (8u64 << 60) | (0x8420_0000u64 >> 12));
}

#[test]
fn rv_map_kernel_frame_alignment() {
    let mut kt = KernelPageTables::new(0x8420_0000);
    map_kernel_frame(&mut kt, 0x1234_5678, 0xFFFF_FFFF_C040_0000, vm_rights_t::VMKernelOnly);
    assert_eq!(PTE(kt.arena.read(1024 + 2)).get_paddr(), 0x1220_0000);
    assert_eq!(kt.arena.read(511), 0);
    map_kernel_frame(&mut kt, 0x1234_5678, 0xFFFF_FFC0_4000_0000, vm_rights_t::VMKernelOnly);
    assert_eq!(PTE(kt.arena.read(257)).get_paddr(), 0);
}

#[test]
fn rv_index_helpers() {
    assert_eq!(riscv_get_pt_index(0xFFFF_FFC0_8040_3000, 0), 258);
    assert_eq!(riscv_get_pt_index(0xFFFF_FFC0_8040_3000, 1), 2);
    assert_eq!(riscv_get_pt_index(0xFFFF_FFC0_8040_3000, 2), 3);
    assert_eq!(riscv_get_lvl_pgsize_bits(0), 30);
    assert_eq!(riscv_get_lvl_pgsize(1), 0x20_0000);
    assert_eq!(kpptr_to_paddr(0xFFFF_FFFF_8420_0000), 0x8420_0000);
    assert_eq!(pptr_to_paddr(0xFFFF_FFC0_8000_0000), 0x8000_0000);
    assert_eq!(paddr_to_pptr(0x8000_0000), 0xFFFF_FFC0_8000_0000);
}

const BASE: u64 = 0x8000_0000;

fn pptr(paddr: u64) -> u64 {
    paddr + PPTR_BASE_OFFSET
}

/// Root at BASE, second level at BASE + 0x1000, last level at BASE + 0x2000,
/// and a 4 KiB frame at 0x8010_0000 mapped at 0x1000.
fn user_space() -> (PageTableArena, cap_page_table_cap) {
    let mut mem = PageTableArena::new(BASE, 3);
    let vs = cap_page_table_cap::new(3, pptr(BASE), 1, 0);
    let l1 = create_it_pt_cap(&mut mem, &vs, pptr(BASE + 0x1000), 0x1000, 3);
    assert_eq!(l1.capPTIsMapped, 1);
    create_it_pt_cap(&mut mem, &vs, pptr(BASE + 0x2000), 0x1000, 3);
    let f = create_mapped_it_frame_cap(&mut mem, &vs, pptr(0x8010_0000), 0x1000, 3, false, false);
    assert_eq!(f.capFSize, RISCV_4K_PAGE as u64);
    assert_eq!(f.capFVMRights, vm_rights_t::VMReadWrite);
    (mem, vs)
}

#[test]
fn rv_scenario_bind_map_walk_unmap() {
    let (mut mem, vs) = user_space();
    let mut dir = AsidTable::new(4);
    dir.install_pool(0, 1);
    assert!(dir.bind(3, vs.capPTBasePtr));
    let r = PTE::lookup_pt_slot(&mem, vs.capPTBasePtr, 0x1000).unwrap();
    assert_eq!(r.ptSlot, 2 * 512 + 1);
    assert_eq!(r.ptBitsLeft, 12);
    let e = PTE(mem.read(r.ptSlot));
    assert!(e.is_pte_leaf());
    assert_eq!(e.get_paddr(), 0x8010_0000);
    let before = mem.read(r.ptSlot);
    assert_eq!(unmap_page(&dir, &mut mem, RISCV_4K_PAGE, 3, 0x1000, pptr(0x8020_0000)), Ok(false));
    assert_eq!(mem.read(r.ptSlot), before);
    assert_eq!(unmap_page(&dir, &mut mem, RISCV_MEGA_PAGE, 3, 0x1000, pptr(0x8010_0000)), Ok(false));
    assert_eq!(mem.read(r.ptSlot), before);
    assert_eq!(unmap_page(&dir, &mut mem, RISCV_4K_PAGE, 3, 0x1000, pptr(0x8010_0000)), Ok(true));
    assert_eq!(mem.read(r.ptSlot), 0);
    assert_eq!(unmap_page(&dir, &mut mem, RISCV_4K_PAGE, 3, 0x1000, pptr(0x8010_0000)), Ok(false));
    assert_eq!(mem.read(r.ptSlot), 0);
}

#[test]
fn rv_unmap_unbound_asid_faults() {
    let (mut mem, _) = user_space();
    let dir = AsidTable::new(4);
    assert_eq!(
        unmap_page(&dir, &mut mem, RISCV_4K_PAGE, 3, 0x1000, pptr(0x8010_0000)),
        Err(lookup_fault::InvalidRoot)
    );
    assert_eq!(PTE(mem.read(2 * 512 + 1)).get_paddr(), 0x8010_0000);
}

#[test]
fn rv_walk_stops_at_invalid_entry() {
    let (mem, vs) = user_space();
    let r = PTE::lookup_pt_slot(&mem, vs.capPTBasePtr, 0x4000_0000).unwrap();
    assert_eq!(r.ptSlot, 1);
    assert_eq!(r.ptBitsLeft, 30);
    let r = PTE::lookup_pt_slot(&mem, vs.capPTBasePtr, 0x20_0000).unwrap();
    assert_eq!(r.ptSlot, 512 + 1);
    assert_eq!(r.ptBitsLeft, 21);
    assert_eq!(PTE::lookup_pt_slot(&mem, 0x1000, 0x1000), None);
}

#[test]
fn rv_unmap_page_table_clears_link() {
    let (mut mem, vs) = user_space();
    let mut dir = AsidTable::new(4);
    dir.install_pool(0, 1);
    dir.bind(3, vs.capPTBasePtr);
    assert!(!unmap_page_table(&dir, &mut mem, 3, 0x1000, pptr(BASE + 0x3000)));
    assert!(!unmap_page_table(&dir, &mut mem, 3, 0x1000, vs.capPTBasePtr));
    assert!(unmap_page_table(&dir, &mut mem, 3, 0x1000, pptr(BASE + 0x2000)));
    assert_eq!(mem.read(512), 0);
    let r = PTE::lookup_pt_slot(&mem, vs.capPTBasePtr, 0x1000).unwrap();
    assert_eq!((r.ptSlot, r.ptBitsLeft), (512, 21));
}

#[test]
fn rv_set_vm_root_choices() {
    let kt = KernelPageTables::new(0x8420_0000);
    let kernel = (8u64 << 60) | (0x8420_0000u64 >> 12);
    let mut dir = AsidTable::new(4);
    let (s, r) = set_vm_root(&dir, &kt, &cap::cap_null_cap);
    assert_eq!((s.words, r), (kernel, Ok(())));
    let c = cap::cap_page_table_cap(cap_page_table_cap::new(3, pptr(BASE), 1, 0));
    let (s, r) = set_vm_root(&dir, &kt, &c);
    assert_eq!((s.words, r), (kernel, Err(lookup_fault::InvalidRoot)));
    dir.install_pool(0, 1);
    dir.bind(3, pptr(BASE + 0x1000));
    let (s, r) = set_vm_root(&dir, &kt, &c);
    assert_eq!((s.words, r), (kernel, Ok(())));
    dir.bind(3, pptr(BASE));
    let (s, r) = set_vm_root(&dir, &kt, &c);
    assert_eq!((s.words, r), ((8u64 << 60) | (3u64 << 44) | (BASE >> 12), Ok(())));
}

#[test]
fn rv_asid_deletion() {
    let kt = KernelPageTables::new(0x8420_0000);
    let kernel = (8u64 << 60) | (0x8420_0000u64 >> 12);
    let mut dir = AsidTable::new(4);
    write_it_asid_pool(
        &mut dir,
        &cap_asid_pool_cap { capASIDBase: 0, capASIDPool: 1 },
        &cap_page_table_cap::new(1, pptr(BASE), 1, 0),
    );
    assert_eq!(dir.lookup_root(1), Ok(pptr(BASE)));
    assert_eq!(get_asid_pool_by_index(&dir, 0), Some(1));
    assert_eq!(get_asid_pool_by_index(&dir, 1), None);
    assert_eq!(get_asid_pool_by_index(&dir, 500), None);
    assert_eq!(delete_asid(&mut dir, &kt, 1, pptr(BASE + 0x1000), &cap::cap_null_cap), None);
    assert_eq!(dir.lookup_root(1), Ok(pptr(BASE)));
    let sw = delete_asid(&mut dir, &kt, 1, pptr(BASE), &cap::cap_null_cap).unwrap();
    assert_eq!((sw.0.words, sw.1), (kernel, Ok(())));
    assert_eq!(dir.lookup_root(1), Err(lookup_fault::InvalidRoot));
    set_asid_pool_by_index(&mut dir, 1, 2);
    assert_eq!(delete_asid_pool(&mut dir, &kt, 512, 3, &cap::cap_null_cap), None);
    assert!(delete_asid_pool(&mut dir, &kt, 512, 2, &cap::cap_null_cap).is_some());
    assert_eq!(get_asid_pool_by_index(&dir, 1), None);
}

#[test]
fn rv_copy_global_mappings() {
    let (kt, _) = kernel_window();
    let mut mem = PageTableArena::new(BASE, 2);
    assert!(!copyGlobalMappings(&kt, &mut mem, pptr(BASE + 0x800)));
    assert!(copyGlobalMappings(&kt, &mut mem, pptr(BASE + 0x1000)));
    assert_eq!(mem.read(512), 0);
    assert_eq!(mem.read(512 + 1), 0);
    for i in 2..512usize {
        assert_eq!(mem.read(512 + i), kt.arena.read(i));
    }
    assert_eq!(mem.read(256), 0);
}

#[test]
fn rv_unmapped_frame_cap() {
    let c = create_unmapped_it_frame_cap(pptr(0x8030_0000), true);
    assert_eq!(c.capFBasePtr, pptr(0x8030_0000));
    assert_eq!(c.capFMappedAddress, 0);
    assert_eq!(c.capFSize, 0);
}

#[test]
fn rv_entry_table_reference() {
    let (mem, _) = user_space();
    let root = PTE(mem.read(0));
    assert_eq!(root.get_pte_from_ppn(&mem), Some(512));
    let leaf = PTE(mem.read(2 * 512 + 1));
    assert_eq!(leaf.get_pte_from_ppn(&mem), None);
    let mut e = PTE::pte_invalid();
    e.update(leaf);
    assert_eq!(e, leaf);
}
