use sel4_vspace::asid::{find_vspace_for_asid, AsidTable};
use sel4_vspace::structures::{exception_t, lookup_fault};

#[test]
fn rebinding_replaces_and_stale_unbind_is_noop() {
    let mut t = AsidTable::new(4);
    t.install_pool(0, 1);
    let a = 0xffff_ffc0_8000_0000u64;
    let b = 0xffff_ffc0_8000_1000u64;
    assert!(t.bind(3, a));
    assert!(t.bind(3, b));
    assert_eq!(t.lookup_root(3), Ok(b));
    assert!(!t.unbind(3, a));
    assert_eq!(t.lookup_root(3), Ok(b));
    assert!(t.unbind(3, b));
    assert_eq!(t.lookup_root(3), Err(lookup_fault::InvalidRoot));
}

#[test]
fn lookup_without_pool_or_binding_fails() {
    let mut t = AsidTable::new(4);
    let r = find_vspace_for_asid(&t, 600);
    assert_eq!(r.status, exception_t::EXCEPTION_LOOKUP_FAULT);
    assert_eq!(r.vspace_root, None);
    assert_eq!(r.lookup_fault, Some(lookup_fault::InvalidRoot));
    assert!(!t.bind(600, 0x1000));
    t.install_pool(1, 2);
    let r = find_vspace_for_asid(&t, 600);
    assert_eq!(r.status, exception_t::EXCEPTION_LOOKUP_FAULT);
    assert!(t.bind(600, 0x1000));
    let r = find_vspace_for_asid(&t, 600);
    assert_eq!(r.status, exception_t::EXCEPTION_NONE);
    assert_eq!(r.vspace_root, Some(0x1000));
    assert_eq!(r.lookup_fault, None);
}

#[test]
fn pool_removal_compares_first() {
    let mut t = AsidTable::new(4);
    t.install_pool(2, 1);
    assert!(t.bind(2 * 512 + 7, 0x9000));
    assert!(!t.remove_pool(2, 2));
    assert_eq!(t.lookup_root(2 * 512 + 7), Ok(0x9000));
    assert!(t.remove_pool(2, 1));
    assert_eq!(t.lookup_root(2 * 512 + 7), Err(lookup_fault::InvalidRoot));
    t.install_pool(2, 3);
    assert_eq!(t.lookup_root(2 * 512 + 7), Err(lookup_fault::InvalidRoot));
}

#[test]
fn reinstalled_pool_keeps_bindings() {
    let mut t = AsidTable::new(4);
    t.install_pool(0, 2);
    assert!(t.bind(5, 0xabc000));
    t.install_pool(0, 0);
    assert_eq!(t.lookup_root(5), Err(lookup_fault::InvalidRoot));
    t.install_pool(3, 2);
    assert_eq!(t.lookup_root(3 * 512 + 5), Ok(0xabc000));
    t.install_pool(0, 2);
    assert_eq!(t.lookup_root(5), Ok(0xabc000));
    assert_eq!(t.roots[512 + 5], 0xabc000);
}
