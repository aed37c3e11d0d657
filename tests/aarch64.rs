use sel4_vspace::arch::aarch64::boot::{
    create_it_pd_cap, create_it_pt_cap, create_it_pud_cap, create_mapped_it_frame_cap,
    create_unmapped_it_frame_cap, find_pt, find_type, map_kernel_frame, rust_map_kernel_window,
};
use sel4_vspace::arch::aarch64::config::{ARM_LARGE_PAGE, ARM_SMALL_PAGE, PPTR_BASE_OFFSET};
use sel4_vspace::arch::aarch64::interface::{
    activate_kernel_vspace, do_flush, get_arm_global_user_vspace_base,
    get_kernel_page_directory_base_by_index, get_kernel_page_global_directory_base,
    get_kernel_page_table_base, get_kernel_page_upper_directory_base,
    set_vm_root, set_vm_root_for_flush_with_thread_root, tlb_va_asid_operand, unmap_page,
    unmap_page_table, ArmKernelTables, MessageLabel, KERNEL_PT_TABLE,
};
use sel4_vspace::arch::aarch64::machine::{
    assoc, clean_cache_range_poc, clean_invalidate_d_by_level, clean_invalidate_cache_range_ram, clean_invalidate_d_poc,
    ctype, invalidate_cache_range_ram, line_bits, loc, nsets, ttbr_new, CacheOp, LINE_INDEX,
    LINE_START,
};
use sel4_vspace::arch::aarch64::pte::PTE;
use sel4_vspace::arch::aarch64::utils::{
    ap_from_vm_rights, get_kpt_index, GET_PD_INDEX, GET_PGD_INDEX, GET_PT_INDEX, GET_PUD_INDEX,
    GET_ULVL_PGSIZE, KPT_LEVEL_SHIFT,
};
use sel4_vspace::asid::AsidTable;
use sel4_vspace::memory::{PageTableArena, PteFormat};
use sel4_vspace::structures::{
    cap, cap_vspace_cap, kernel_frame_t, lookup_fault, p_region_t, vm_attributes_t, vm_rights_t,
};

fn translate(mem: &PageTableArena, root: u64, v: u64) -> Option<u64> {
    let r = mem.walk(PteFormat::Armv8, root, v, 3)?;
    let e = PTE(mem.read(r.ptSlot));
    if !e.is_pte_leaf() {
        return None;
    }
    Some(e.get_page_base_address() + (v % (1u64 << r.ptBitsLeft)))
}

const KBASE: u64 = 0x4100_0000;

#[test]
fn arm_kernel_window_linear_map() {
    let mut kt = ArmKernelTables::new(KBASE);
    let devices = vec![
        kernel_frame_t { paddr: 0x0900_0000, pptr: 0xFFFF_FFFF_FFE0_0000, armExecuteNever: true, userAvailable: false },
        kernel_frame_t { paddr: 0x0800_0000, pptr: 0xFFFF_FFFF_FFE0_1000, armExecuteNever: false, userAvailable: true },
    ];
    let regions = rust_map_kernel_window(&mut kt, &devices);
    assert_eq!(regions, vec![p_region_t { start: 0x0900_0000, end: 0x0900_1000 }]);
    for p in [0u64, 0x4000_1234, 0x1_2345_6789, 0x7F_BFFF_FFFF] {
        assert_eq!(translate(&kt.arena, KBASE, p + PPTR_BASE_OFFSET), Some(p), "p = {:#x}", p);
    }
    let r = kt.arena.walk(PteFormat::Armv8, KBASE, 0x4000_1234 + PPTR_BASE_OFFSET, 3).unwrap();
    assert_eq!(r.ptBitsLeft, 21);
    // Device frames resolve through the page table of the device window.
    assert_eq!(translate(&kt.arena, KBASE, 0xFFFF_FFFF_FFE0_0010), Some(0x0900_0010));
    assert_eq!(translate(&kt.arena, KBASE, 0xFFFF_FFFF_FFE0_1010), Some(0x0800_0010));
    let dev = PTE(kt.arena.read(KERNEL_PT_TABLE * 512));
    assert_eq!(dev.get_type(), 7);
    assert_eq!((dev.0 >> 2) & 7, 0);
    // The chain to the device page table, and the attributes of the blocks.
    assert_eq!(kt.arena.read(511), PTE::pte_new_table(KBASE + 0x1000).0);
    assert_eq!(kt.arena.read(1023), PTE::pte_new_table(KBASE + 513 * 0x1000).0);
    assert_eq!(kt.arena.read(1024 + 511 * 512 + 511), PTE::pte_new_table(KBASE + 514 * 0x1000).0);
    let block = PTE(kt.arena.read(1024 + 3));
    assert_eq!(block.0, PTE::pte_new_page(1, 3 * 0x20_0000, 0, 1, 0, 0, 4).0);
    assert_eq!((block.0 >> 10) & 1, 1);
    let dev2 = PTE(kt.arena.read(KERNEL_PT_TABLE * 512 + 1));
    assert_eq!((dev2.0 >> 2) & 7, 0);
}

#[test]
fn arm_kernel_table_addresses() {
    let kt = ArmKernelTables::new(KBASE);
    let off = 0xFFFF_FFFF_8000_0000u64;
    assert_eq!(get_kernel_page_global_directory_base(&kt), KBASE + off);
    assert_eq!(get_kernel_page_upper_directory_base(&kt), KBASE + 0x1000 + off);
    assert_eq!(get_kernel_page_directory_base_by_index(&kt, 3), KBASE + 0x5000 + off);
    assert_eq!(get_kernel_page_table_base(&kt), KBASE + 514 * 0x1000 + off);
    assert_eq!(get_arm_global_user_vspace_base(&kt), KBASE + 515 * 0x1000 + off);
    assert_eq!(activate_kernel_vspace(&kt), (KBASE, KBASE + 515 * 0x1000));
}

#[test]
fn arm_map_kernel_frame_attributes() {
    let mut kt = ArmKernelTables::new(KBASE);
    map_kernel_frame(&mut kt, 0x0900_0000, 0xFFFF_FFFF_FFE0_3000, vm_rights_t::VMReadOnly, vm_attributes_t::new(0));
    let e = PTE(kt.arena.read(KERNEL_PT_TABLE * 512 + 3));
    assert_eq!(e.0, PTE::pte_new_4k_page(1, 0x0900_0000, 0, 1, 0, 3, 0).0);
    assert_eq!(ap_from_vm_rights(vm_rights_t::VMReadWrite), 1);
    assert_eq!(ap_from_vm_rights(vm_rights_t::VMKernelOnly), 0);
}

#[test]
fn arm_index_helpers() {
    let v = 0x0000_8040_2010_3000u64;
    assert_eq!(GET_PGD_INDEX(v), 0x100);
    assert_eq!(GET_PUD_INDEX(v), 0x100);
    assert_eq!(GET_PD_INDEX(v), 0x100);
    assert_eq!(GET_PT_INDEX(v), 0x103);
    assert_eq!(get_kpt_index(v, 3), 0x103);
    assert_eq!(KPT_LEVEL_SHIFT(0), 39);
    assert_eq!(GET_ULVL_PGSIZE(2), 0x20_0000);
}

const BASE: u64 = 0x4000_0000;

fn pptr(paddr: u64) -> u64 {
    paddr + PPTR_BASE_OFFSET
}

/// Global directory at BASE, then an upper directory, a page directory and
/// a page table; a 4 KiB frame at 0x4010_0000 mapped at 0x1000.
fn user_space() -> (PageTableArena, cap_vspace_cap) {
    let mut mem = PageTableArena::new(BASE, 4);
    let vs = cap_vspace_cap { capVSMappedASID: 3, capVSBasePtr: pptr(BASE), capVSIsMapped: 1 };
    create_it_pud_cap(&mut mem, &vs, pptr(BASE + 0x1000), 0x1000, 3);
    let pd = create_it_pd_cap(&mut mem, &vs, pptr(BASE + 0x2000), 0x1000, 3);
    assert!(matches!(pd, cap::cap_page_table_cap(_)));
    create_it_pt_cap(&mut mem, &vs, pptr(BASE + 0x3000), 0x1000, 3);
    let f = create_mapped_it_frame_cap(&mut mem, &vs, pptr(0x4010_0000), 0x1000, 3, false, true);
    assert_eq!(f.capFSize, ARM_SMALL_PAGE as u64);
    (mem, vs)
}

#[test]
fn arm_scenario_bind_map_walk_unmap() {
    let (mut mem, vs) = user_space();
    let mut dir = AsidTable::new(4);
    dir.install_pool(0, 1);
    assert!(dir.bind(3, vs.capVSBasePtr));
    let r = mem.walk(PteFormat::Armv8, BASE, 0x1000, 3).unwrap();
    assert_eq!((r.ptSlot, r.ptBitsLeft), (3 * 512 + 1, 12));
    assert_eq!(find_pt(&mem, pptr(BASE), 0x1000, find_type::PTE), Some(3 * 512 + 1));
    let e = PTE(mem.read(r.ptSlot));
    assert_eq!(e.get_type(), 7);
    assert_eq!(e.get_page_base_address(), 0x4010_0000);
    assert_eq!((e.0 >> 54) & 1, 0);
    let before = mem.read(r.ptSlot);
    assert_eq!(unmap_page(&dir, &mut mem, ARM_SMALL_PAGE, 3, 0x1000, pptr(0x4020_0000)), Ok(false));
    assert_eq!(mem.read(r.ptSlot), before);
    assert_eq!(unmap_page(&dir, &mut mem, ARM_LARGE_PAGE, 3, 0x1000, pptr(0x4010_0000)), Ok(false));
    assert_eq!(unmap_page(&dir, &mut mem, ARM_SMALL_PAGE, 3, 0x1000, pptr(0x4010_0000)), Ok(true));
    assert_eq!(mem.read(r.ptSlot), 0);
    assert_eq!(unmap_page(&dir, &mut mem, ARM_SMALL_PAGE, 3, 0x1000, pptr(0x4010_0000)), Ok(false));
    assert_eq!(
        unmap_page(&dir, &mut mem, ARM_SMALL_PAGE, 4, 0x1000, pptr(0x4010_0000)),
        Err(lookup_fault::InvalidRoot)
    );
    assert_eq!(tlb_va_asid_operand(3, 0x1000), (3u64 << 48) | 1);
}

#[test]
fn arm_unmap_page_table_clears_link() {
    let (mut mem, vs) = user_space();
    let mut dir = AsidTable::new(4);
    dir.install_pool(0, 1);
    dir.bind(3, vs.capVSBasePtr);
    assert!(unmap_page_table(&dir, &mut mem, 3, 0x1000, pptr(BASE + 0x3000)));
    assert_eq!(mem.read(2 * 512), 0);
    let r = mem.walk(PteFormat::Armv8, BASE, 0x1000, 3).unwrap();
    assert_eq!((r.ptSlot, r.ptBitsLeft), (2 * 512, 21));
    assert!(!unmap_page_table(&dir, &mut mem, 3, 0x1000, pptr(BASE + 0x3000)));
}

#[test]
fn arm_set_vm_root_choices() {
    let kt = ArmKernelTables::new(KBASE);
    let fallback = ttbr_new(0, KBASE + 515 * 0x1000);
    let mut dir = AsidTable::new(4);
    let vs = cap_vspace_cap { capVSMappedASID: 3, capVSBasePtr: pptr(BASE), capVSIsMapped: 1 };
    assert_eq!(set_vm_root(&dir, &kt, &cap::cap_null_cap), (fallback, Ok(())));
    assert_eq!(set_vm_root(&dir, &kt, &cap::cap_vspace_cap(vs)), (fallback, Err(lookup_fault::InvalidRoot)));
    dir.install_pool(0, 1);
    dir.bind(3, pptr(BASE + 0x1000));
    assert_eq!(set_vm_root(&dir, &kt, &cap::cap_vspace_cap(vs)), (fallback, Ok(())));
    dir.bind(3, pptr(BASE));
    assert_eq!(set_vm_root(&dir, &kt, &cap::cap_vspace_cap(vs)), ((3u64 << 48) | BASE, Ok(())));
    let unmapped = cap_vspace_cap { capVSIsMapped: 0, ..vs };
    assert_eq!(set_vm_root(&dir, &kt, &cap::cap_vspace_cap(unmapped)), (fallback, Ok(())));
    assert_eq!(set_vm_root_for_flush_with_thread_root(pptr(BASE), 3, &vs), None);
    assert_eq!(
        set_vm_root_for_flush_with_thread_root(BASE + 0x1000, 5, &vs),
        Some((5u64 << 48) | (BASE + 0x1000))
    );
}

#[test]
fn arm_cache_line_plans() {
    assert_eq!(LINE_START(0x1047), 0x1040);
    assert_eq!(LINE_INDEX(0x1047), 0x41);
    assert_eq!(
        clean_cache_range_poc(0x1010, 0x10c0),
        vec![CacheOp::Clean(0x1000), CacheOp::Clean(0x1040), CacheOp::Clean(0x1080), CacheOp::Clean(0x10c0)]
    );
    assert_eq!(clean_cache_range_poc(0x1080, 0x1000), vec![]);
    assert_eq!(
        clean_invalidate_cache_range_ram(0x1000, 0x1040, 0x4000_1000),
        vec![
            CacheOp::Clean(0x1000),
            CacheOp::Clean(0x1040),
            CacheOp::Dsb,
            CacheOp::CleanInvalidate(0x1000),
            CacheOp::CleanInvalidate(0x1040),
            CacheOp::Dsb
        ]
    );
    assert_eq!(
        invalidate_cache_range_ram(0x1000, 0x103f, 0x4000_1000),
        vec![CacheOp::Invalidate(0x1000), CacheOp::Dsb]
    );
    assert_eq!(
        invalidate_cache_range_ram(0x1010, 0x1050, 0x4000_1000),
        vec![
            CacheOp::Clean(0x1000),
            CacheOp::Clean(0x1040),
            CacheOp::Dsb,
            CacheOp::Clean(0x1040),
            CacheOp::Dsb,
            CacheOp::Invalidate(0x1000),
            CacheOp::Invalidate(0x1040),
            CacheOp::Dsb
        ]
    );
}

#[test]
fn arm_do_flush_dispatch() {
    assert_eq!(
        do_flush(MessageLabel::ARMPageUnify_Instruction, 0x2000, 0x2010, 0x4000_2000),
        vec![CacheOp::CleanPoU(0x2000), CacheOp::Dsb, CacheOp::InvalidateI(0x2000), CacheOp::Isb]
    );
    assert_eq!(
        do_flush(MessageLabel::ARMVSpaceClean_Data, 0x2000, 0x2010, 0x4000_2000),
        vec![CacheOp::Clean(0x2000), CacheOp::Dsb]
    );
    assert_eq!(
        do_flush(MessageLabel::ARMPageInvalidate_Data, 0x2000, 0x203f, 0x4000_2000),
        vec![CacheOp::Invalidate(0x2000), CacheOp::Dsb]
    );
    assert_eq!(
        do_flush(MessageLabel::ARMPageCleanInvalidate_Data, 0x2000, 0x2000, 0x4000_2000),
        vec![CacheOp::Clean(0x2000), CacheOp::Dsb, CacheOp::CleanInvalidate(0x2000), CacheOp::Dsb]
    );
}

#[test]
fn arm_cache_geometry_fields() {
    let clid = (2u64 << 24) | (4 << 3) | 3;
    assert_eq!(loc(clid), 2);
    assert_eq!(ctype(clid, 0), 3);
    assert_eq!(ctype(clid, 1), 4);
    assert_eq!(clean_invalidate_d_poc(clid), vec![0, 1]);
    assert_eq!(clean_invalidate_d_poc((2u64 << 24) | (4 << 3) | 1), vec![1]);
    let ccsidr = (0x7fu64 << 13) | (3 << 3) | 2;
    assert_eq!(line_bits(ccsidr), 6);
    assert_eq!(assoc(ccsidr), 4);
    assert_eq!(nsets(ccsidr), 128);
}

#[test]
fn arm_unmapped_frame_cap() {
    let c = create_unmapped_it_frame_cap(pptr(0x4030_0000), true);
    assert_eq!(c.capFSize, ARM_LARGE_PAGE as u64);
    assert_eq!(c.capFMappedAddress, 0);
    assert_eq!(c.capFMappedASID, 0);
    assert_eq!(c.capFVMRights, vm_rights_t::VMReadWrite);
}

#[test]
fn arm_set_way_operands() {
    // Four ways (two way bits), two sets, 64-byte lines, level 1.
    let ccsidr = (1u64 << 13) | (3 << 3) | 2;
    let ops = clean_invalidate_d_by_level(1, ccsidr);
    assert_eq!(ops.len(), 8);
    assert_eq!(ops[0], 2);
    assert_eq!(ops[1], (1 << 6) | 2);
    assert_eq!(ops[2], (1 << 30) | 2);
    assert_eq!(ops[7], (3 << 30) | (1 << 6) | 2);
    // A direct-mapped cache has no way bits.
    let ops = clean_invalidate_d_by_level(0, 0);
    assert_eq!(ops, vec![0]);
}
