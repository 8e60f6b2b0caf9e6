use arceos_guestaspace::context::{Aarch64Context, RiscvContext};
use arceos_guestaspace::exit::{decode_aarch64, decode_riscv, decode_svm, AccessKind, ExitEvent};

#[test]
fn riscv_ecall_is_a_hypercall_with_a7_and_arguments() {
    let mut ctx = RiscvContext::new();
    ctx.scause = 10;
    ctx.gprs[17] = 0x5352_5354;
    ctx.gprs[10] = 7;
    ctx.gprs[16] = 9;
    match decode_riscv(&ctx) {
        ExitEvent::Hypercall { function_id, args } => {
            assert_eq!(function_id, 0x5352_5354);
            assert_eq!(args, [7, 0, 0, 0, 0, 0, 9, 0]);
        }
        other => panic!("unexpected event {:?}", other),
    }
}

#[test]
fn riscv_interrupt_with_code_ten_is_fatal() {
    let mut ctx = RiscvContext::new();
    ctx.scause = (1u64 << 63) | 10;
    ctx.sepc = 0x8020_0004;
    match decode_riscv(&ctx) {
        ExitEvent::Fatal { diagnostic } => {
            assert_eq!(diagnostic.code, (1u64 << 63) | 10);
            assert_eq!(diagnostic.pc, 0x8020_0004);
        }
        other => panic!("unexpected event {:?}", other),
    }
}

#[test]
fn riscv_guest_page_fault_address_joins_htval_and_stval() {
    let mut ctx = RiscvContext::new();
    ctx.scause = 21;
    ctx.htval = 0x2200_0000 >> 2;
    ctx.stval = 0xffff_ffc0_2200_0003;
    match decode_riscv(&ctx) {
        ExitEvent::PageFault { gpa, kind } => {
            assert_eq!(gpa, 0x2200_0003);
            assert_eq!(kind, AccessKind::Load);
        }
        other => panic!("unexpected event {:?}", other),
    }
    ctx.scause = 23;
    match decode_riscv(&ctx) {
        ExitEvent::PageFault { kind, .. } => assert_eq!(kind, AccessKind::Store),
        other => panic!("unexpected event {:?}", other),
    }
}

#[test]
fn aarch64_svc_and_data_abort() {
    let mut ctx = Aarch64Context::new();
    ctx.esr = 0x15 << 26;
    ctx.gprs[8] = 1;
    ctx.gprs[0] = 0x41;
    match decode_aarch64(&ctx) {
        ExitEvent::Hypercall { function_id, args } => {
            assert_eq!(function_id, 1);
            assert_eq!(args[0], 0x41);
        }
        other => panic!("unexpected event {:?}", other),
    }
    ctx.esr = (0x24 << 26) | 0x45;
    ctx.far = 0x4030_0123;
    match decode_aarch64(&ctx) {
        ExitEvent::PageFault { gpa, kind } => {
            assert_eq!(gpa, 0x4030_0000);
            assert_eq!(kind, AccessKind::Load);
        }
        other => panic!("unexpected event {:?}", other),
    }
    ctx.esr = 0x20 << 26;
    assert!(matches!(decode_aarch64(&ctx), ExitEvent::Fatal { .. }));
}

#[test]
fn svm_vmmcall_and_nested_page_fault() {
    match decode_svm(0x81, 0, 0, 0x4101, 0x10) {
        ExitEvent::Hypercall { function_id, args } => {
            assert_eq!(function_id, 1);
            assert_eq!(args[0], 0x41);
            assert_eq!(args[1], 0x4101);
        }
        other => panic!("unexpected event {:?}", other),
    }
    match decode_svm(0x400, 0x2, 0x2_0fff, 0, 0) {
        ExitEvent::PageFault { gpa, kind } => {
            assert_eq!(gpa, 0x2_0000);
            assert_eq!(kind, AccessKind::Store);
        }
        other => panic!("unexpected event {:?}", other),
    }
    match decode_svm(0x400, 0x14, 0x3_0000, 0, 0) {
        ExitEvent::PageFault { kind, .. } => assert_eq!(kind, AccessKind::Fetch),
        other => panic!("unexpected event {:?}", other),
    }
    match decode_svm(0x7b, 1, 2, 3, 4) {
        ExitEvent::Fatal { diagnostic } => {
            assert_eq!((diagnostic.code, diagnostic.pc), (0x7b, 4));
            assert_eq!((diagnostic.info1, diagnostic.info2), (1, 2));
        }
        other => panic!("unexpected event {:?}", other),
    }
}
