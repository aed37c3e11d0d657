use sel4_vspace::arch::aarch64::machine::{ttbr_new, mair_types};
use sel4_vspace::arch::aarch64::pte::PTE as ArmPte;
use sel4_vspace::arch::riscv64::pte::{PTE as RvPte, PTE_A, PTE_D, PTE_R, PTE_U, PTE_V, PTE_W, PTE_X};
use sel4_vspace::arch::riscv64::satp::{satp_for_root, satp_t};
use sel4_vspace::structures::{vm_attributes_t, vm_rights_t};
use sel4_vspace::utils::{check_vp_alignment, pageBitsForSize, PageAligned};

#[test]
fn attributes_execute_never_bit() {
    let mut a = vm_attributes_t::from_word(0b110);
    assert_eq!(a.get_execute_never(), 0);
    a.set_execute_never(3);
    assert_eq!(a.0, 0b111);
    assert_eq!(a.get_execute_never(), 1);
    a.set_execute_never(2);
    assert_eq!(a.0, 0b110);
    assert_eq!(vm_attributes_t::new(5).get_page_cacheable(), 1);
}

#[test]
fn attributes_arm_views() {
    let a = vm_attributes_t::new(0b101);
    assert!(a.get_arm_execute_never());
    assert!(a.get_arm_page_cachable());
    assert_eq!(a.get_attr_index(), mair_types::NORMAL);
    let d = vm_attributes_t::new(0b100);
    assert!(!d.get_arm_page_cachable());
    assert_eq!(d.get_attr_index(), mair_types::DEVICE_nGnRnE);
    assert_eq!(mair_types::NORMAL.index(), 4);
}

#[test]
fn arm_leaf_round_trip() {
    let addr = 0x0000_1234_5678_9000u64;
    let p = ArmPte::pte_new_4k_page(1, addr, 1, 1, 3, 2, 5);
    assert_eq!(p.get_type(), 7);
    assert_eq!(p.get_page_base_address(), addr);
    assert_eq!((p.0 >> 54) & 1, 1);
    assert_eq!((p.0 >> 11) & 1, 1);
    assert_eq!((p.0 >> 10) & 1, 1);
    assert_eq!((p.0 >> 8) & 3, 3);
    assert_eq!((p.0 >> 6) & 3, 2);
    assert_eq!((p.0 >> 2) & 7, 5);
    assert!(p.is_pte_leaf() && !p.is_pte_table());
    let b = ArmPte::pte_new_page(0, addr | 0xfff, 0, 1, 0, 0, 4);
    assert_eq!(b.get_type(), 1);
    assert_eq!(b.next_level_paddr(), addr);
    assert!(b.is_pte_leaf() && !b.is_pte_table());
    let t = ArmPte::pte_new_table(addr);
    assert_eq!(t.0, addr | 3);
    assert!(t.is_pte_table() && !t.is_pte_leaf());
    assert!(t.is_present());
}

#[test]
fn arm_entry_field_edits() {
    let mut p = ArmPte::new_page(0x4000_2000, 0x403);
    assert_eq!(p.0, 0x4000_2403);
    p.set_next_level_paddr(0x8000_1000);
    assert_eq!(p.0, 0x8000_1403);
    p.set_attr(3);
    assert_eq!(p.0, 0x8000_1003);
    assert_eq!(p.attr(), 3);
    p.invalidate();
    assert_eq!(p.get_type(), 0);
}

#[test]
fn rv_entry_round_trip() {
    let p = RvPte::new(0x8_0123, 0xef);
    assert_eq!(p.get_ppn(), 0x8_0123);
    assert_eq!(p.0 & 0x3ff, 0xef);
    assert!(p.is_pte_leaf() && !p.is_pte_table());
    let t = RvPte::pte_next_table(0x8020_0000, false);
    assert_eq!(t.0, (0x80200 << 10) | 0x21);
    assert!(t.is_pte_table() && !t.is_pte_leaf());
    assert_eq!(t.get_paddr(), 0x8020_0000);
    let l = RvPte::pte_next_table(0x4000_0000, true);
    assert_eq!(l.0, (0x40000 << 10) | 0xef);
}

#[test]
fn rv_user_entries() {
    let rw = RvPte::make_user_pte(0x8000_3000, false, vm_rights_t::VMReadWrite);
    assert_eq!(rw.0, (0x80003 << 10) | PTE_V | PTE_D | PTE_A | PTE_U | PTE_W | PTE_R);
    let ro = RvPte::make_user_pte(0x8000_3000, true, vm_rights_t::VMReadOnly);
    assert_eq!(ro.0, (0x80003 << 10) | PTE_V | PTE_D | PTE_A | PTE_U | PTE_X | PTE_R);
    let none = RvPte::make_user_pte(0x8000_3000, false, vm_rights_t::VMKernelOnly);
    assert_eq!(none.0, 0);
    assert_eq!(none.get_valid(), 0);
}

#[test]
fn translation_register_images() {
    let s = satp_t::new(8, 3, 0x80_123);
    assert_eq!(s.words, (8u64 << 60) | (3u64 << 44) | 0x80_123);
    assert_eq!(satp_for_root(0x8020_0000, 5).words, (8u64 << 60) | (5u64 << 44) | 0x80200);
    assert_eq!(ttbr_new(0x1_0003, 0xffff_0000_4000_1000), (3u64 << 48) | 0x4000_1000);
}

#[test]
fn page_sizes_and_alignment() {
    assert_eq!(pageBitsForSize(0), 12);
    assert_eq!(pageBitsForSize(1), 21);
    assert_eq!(pageBitsForSize(2), 30);
    assert!(check_vp_alignment(0, 0x3000));
    assert!(!check_vp_alignment(0, 0x3010));
    assert!(check_vp_alignment(1, 0x40_0000));
    assert!(!check_vp_alignment(1, 0x40_1000));
    assert!(check_vp_alignment(2, 0x8000_0000));
    assert!(!check_vp_alignment(2, 0x8020_0000));
}

#[test]
fn page_aligned_table_is_filled() {
    let t = PageAligned::new(7u64);
    assert_eq!(t.0.len(), 512);
    assert!(t.0.iter().all(|x| *x == 7));
}
