use arceos_guestaspace::arch::{advance, page_of, Arch, MapPolicy, PlatformShutdown, Shootdown};
use arceos_guestaspace::context::{guest_hstatus, hgatp, Aarch64Context, RiscvContext};

#[test]
fn arch_constants_are_those_of_the_three_back_ends() {
    assert_eq!(Arch::Riscv64.vm_entry(), 0x8020_0000);
    assert_eq!(Arch::Aarch64.vm_entry(), 0x4020_0000);
    assert_eq!(Arch::X86_64.vm_entry(), 0x1_0000);
    assert_eq!((Arch::Riscv64.region_base(), Arch::Riscv64.region_size()), (0, 0x7fff_ffff_f000));
    assert_eq!(
        (Arch::Aarch64.region_base(), Arch::Aarch64.region_size()),
        (0x4000_0000, 0x800_0000)
    );
    assert_eq!((Arch::X86_64.region_base(), Arch::X86_64.region_size()), (0x1_0000, 0x100_0000));
    assert_eq!(Arch::Riscv64.hypercall_len(), 4);
    assert_eq!(Arch::Aarch64.hypercall_len(), 4);
    assert_eq!(Arch::X86_64.hypercall_len(), 3);
    assert_eq!(Arch::Riscv64.map_policy(), MapPolicy::Passthrough);
    assert_eq!(Arch::Aarch64.map_policy(), MapPolicy::Allocated);
    assert_eq!(Arch::X86_64.map_policy(), MapPolicy::Allocated);
    assert_eq!(Arch::Riscv64.shootdown(), Shootdown::HfenceGvma);
    assert_eq!(Arch::Aarch64.shootdown(), Shootdown::TlbiVmalle1is);
    assert_eq!(Arch::X86_64.shootdown(), Shootdown::NotNeeded);
}

#[test]
fn platform_shutdown_per_back_end() {
    assert_eq!(Arch::Riscv64.platform_shutdown(), PlatformShutdown::SbiReset);
    assert_eq!(
        Arch::Aarch64.platform_shutdown(),
        PlatformShutdown::Psci { function: 0x8400_0008 }
    );
    assert_eq!(
        Arch::X86_64.platform_shutdown(),
        PlatformShutdown::Acpi { port: 0x604, value: 0x2000 }
    );
    assert!(Arch::Aarch64.restores_root());
    assert!(!Arch::Riscv64.restores_root());
    assert!(!Arch::X86_64.restores_root());
}

#[test]
fn page_of_clears_the_offset() {
    assert_eq!(page_of(0), 0);
    assert_eq!(page_of(0xfff), 0);
    assert_eq!(page_of(0x1000), 0x1000);
    assert_eq!(page_of(0x2200_0abc), 0x2200_0000);
    assert_eq!(page_of(u64::MAX), 0xffff_ffff_ffff_f000);
}

#[test]
fn advance_adds_and_wraps() {
    assert_eq!(advance(0x8020_0000, 4), 0x8020_0004);
    assert_eq!(advance(0, 3), 3);
    assert_eq!(advance(u64::MAX, 4), 3);
    assert_eq!(advance(u64::MAX - 3, 4), 0);
    assert_eq!(advance(u64::MAX - 4, 4), u64::MAX);
}

#[test]
fn hgatp_selects_sv39x4_over_the_root() {
    assert_eq!(hgatp(0x8040_0000), (8u64 << 60) | 0x8_0400);
    assert_eq!(hgatp(0), 8u64 << 60);
    assert_eq!(hgatp(0xfff), 8u64 << 60);
}

#[test]
fn guest_hstatus_sets_spv_and_spvp() {
    assert_eq!(guest_hstatus(0), 0x180);
    assert_eq!(guest_hstatus(0x2_0000_0000), 0x2_0000_0180);
    assert_eq!(guest_hstatus(0x180), 0x180);
    assert_eq!(guest_hstatus(u64::MAX), u64::MAX);
    assert_eq!(guest_hstatus(0x80), 0x180);
}

#[test]
fn riscv_context_starts_zeroed_and_prepares_for_vs_mode() {
    let mut ctx = RiscvContext::new();
    assert!(ctx.gprs.iter().all(|r| *r == 0));
    assert_eq!((ctx.sepc, ctx.sstatus, ctx.hstatus), (0, 0, 0));
    assert_eq!((ctx.scause, ctx.stval, ctx.htval), (0, 0, 0));
    ctx.prepare(0x8020_0000, 0x2_0000_0000, 0x8000_0002_0000_6022);
    assert_eq!(ctx.sepc, 0x8020_0000);
    assert_eq!(ctx.hstatus, 0x2_0000_0180);
    assert_eq!(ctx.sstatus, 0x8000_0002_0000_6122);
}

#[test]
fn riscv_a_regs_are_x10_to_x17() {
    let mut ctx = RiscvContext::new();
    for i in 0..32 {
        ctx.gprs[i] = 100 + i as u64;
    }
    assert_eq!(ctx.a_regs(), [110, 111, 112, 113, 114, 115, 116, 117]);
}

#[test]
fn riscv_advance_pc_adds_four() {
    let mut ctx = RiscvContext::new();
    ctx.sepc = 0x8020_0010;
    ctx.gprs[10] = 5;
    ctx.advance_pc();
    assert_eq!(ctx.sepc, 0x8020_0014);
    assert_eq!(ctx.gprs[10], 5);
}

#[test]
fn aarch64_context_prepares_for_el0t_masked() {
    let mut ctx = Aarch64Context::new();
    assert!(ctx.gprs.iter().all(|r| *r == 0));
    ctx.prepare(0x4020_0000);
    assert_eq!(ctx.elr, 0x4020_0000);
    assert_eq!(ctx.spsr, 0x3C0);
    ctx.advance_pc();
    assert_eq!(ctx.elr, 0x4020_0004);
}
