use arceos_guestaspace::vmcb::{efer_with_svme, svm_supported, Vmcb};

#[test]
fn fields_are_little_endian() {
    let mut v = Vmcb::new();
    v.write_u64(0x100, 0x0102_0304_0506_0708);
    assert_eq!(&v.data[0x100..0x108], &[8, 7, 6, 5, 4, 3, 2, 1]);
    assert_eq!(v.read_u64(0x100), 0x0102_0304_0506_0708);
    assert_eq!(v.read_u32(0x100), 0x0506_0708);
    assert_eq!(v.read_u32(0x104), 0x0102_0304);
    assert_eq!(v.read_u16(0x102), 0x0506);
    v.write_u32(0x102, 0xAABB_CCDD);
    assert_eq!(v.read_u64(0x100), 0x0102_AABB_CCDD_0708);
    v.write_u16(0xffe, 0xBEEF);
    assert_eq!(v.read_u16(0xffe), 0xBEEF);
    assert_eq!(v.data[0xffe], 0xEF);
    assert_eq!(v.data[0xfff], 0xBE);
    assert_eq!(v.data.iter().filter(|b| **b != 0).count(), 10);
}

#[test]
fn set_segment_writes_selector_attributes_limit_and_base() {
    let mut v = Vmcb::new();
    v.set_segment(0x410, 0x1000, 0x009B, 0xFFFF, 0x1_0000);
    assert_eq!(v.read_u16(0x410), 0x1000);
    assert_eq!(v.read_u16(0x412), 0x009B);
    assert_eq!(v.read_u32(0x414), 0xFFFF);
    assert_eq!(v.read_u64(0x418), 0x1_0000);
    assert!(v.data[..0x410].iter().all(|b| *b == 0));
    assert!(v.data[0x420..].iter().all(|b| *b == 0));
}

#[test]
fn prepare_sets_up_a_real_mode_guest_behind_nested_paging() {
    let mut v = Vmcb::new();
    v.prepare(0x1_0000, 0x7700_0000, 0x7701_0000, 0x7702_0000);
    assert_eq!(v.read_u32(0x010), 0x3);
    assert_eq!(v.read_u64(0x040), 0x7701_0000);
    assert_eq!(v.read_u64(0x048), 0x7702_0000);
    assert_eq!(v.read_u32(0x058), 1);
    assert_eq!(v.read_u64(0x090), 1);
    assert_eq!(v.read_u64(0x0B0), 0x7700_0000);
    let seg = |v: &Vmcb, off: usize| {
        (v.read_u16(off), v.read_u16(off + 2), v.read_u32(off + 4), v.read_u64(off + 8))
    };
    assert_eq!(seg(&v, 0x410), (0x1000, 0x009B, 0xFFFF, 0x1_0000));
    for off in [0x400usize, 0x420, 0x430, 0x440, 0x450] {
        assert_eq!(seg(&v, off), (0, 0x0093, 0xFFFF, 0));
    }
    assert_eq!(seg(&v, 0x460), (0, 0, 0xFFFF, 0));
    assert_eq!(seg(&v, 0x480), (0, 0, 0x3FF, 0));
    assert_eq!(seg(&v, 0x490), (0, 0x008B, 0xFFFF, 0));
    assert_eq!(seg(&v, 0x470), (0, 0x0082, 0, 0));
    assert_eq!(v.read_u64(0x4D0), 0x1000);
    assert_eq!(v.read_u64(0x558), 0x10);
    assert_eq!(v.read_u64(0x568), 0xFFFF_0FF0);
    assert_eq!(v.read_u64(0x560), 0x0400);
    assert_eq!(v.read_u64(0x570), 0x2);
    assert_eq!(v.guest_rip(), 0);
    assert_eq!(v.guest_rax(), 0);
    assert_eq!(v.exit_code(), 0);
}

#[test]
fn prepare_leaves_other_bytes_alone() {
    let mut v = Vmcb::new();
    v.data = [0xA5; 4096];
    v.prepare(0x2_3450, 1, 2, 3);
    assert_eq!(v.read_u16(0x410), 0x2345);
    assert_eq!(v.read_u64(0x418), 0x2_3450);
    assert_eq!(v.data[0x00f], 0xA5);
    assert_eq!(v.data[0x014], 0xA5);
    assert_eq!(v.exit_code(), 0xA5A5_A5A5_A5A5_A5A5);
    assert_eq!(v.guest_rax(), 0xA5A5_A5A5_A5A5_A5A5);
    assert_eq!(v.data[0x4A0], 0xA5);
    assert_eq!(v.data[0xfff], 0xA5);
}

#[test]
fn exit_fields_and_advance() {
    let mut v = Vmcb::new();
    v.set_exit(0x400, 0x6, 0x2_0123);
    v.set_guest_rax(0x4101);
    v.set_guest_rip(0x20);
    assert_eq!(v.exit_code(), 0x400);
    assert_eq!(v.exit_info1(), 0x6);
    assert_eq!(v.exit_info2(), 0x2_0123);
    assert_eq!(v.guest_rax(), 0x4101);
    v.advance_pc();
    assert_eq!(v.guest_rip(), 0x23);
    v.set_guest_rip(u64::MAX);
    v.advance_pc();
    assert_eq!(v.guest_rip(), 2);
}

#[test]
fn svm_feature_bit_and_efer() {
    assert!(svm_supported(0x4));
    assert!(svm_supported(0xffff_ffff));
    assert!(!svm_supported(0));
    assert!(!svm_supported(0xffff_fffb));
    assert_eq!(efer_with_svme(0xd01), 0x1d01);
    assert_eq!(efer_with_svme(0x1000), 0x1000);
}
