use arceos_guestaspace::aarch64_guest;
use arceos_guestaspace::arch::Arch;
use arceos_guestaspace::exit::{AccessKind, ExitEvent};
use arceos_guestaspace::machine::{run_script, End, GuestCpu, Outcome};
use arceos_guestaspace::script::GuestOp;
use arceos_guestaspace::vm::{AbortCause, Phase, Vm};
use arceos_guestaspace::x86_64_guest;

fn boot(arch: Arch, payload: &[u8]) -> (Vm, GuestCpu) {
    let mut vm = Vm::new(arch, 0x7000_0000);
    let frames: Vec<u64> = (0..16u64).map(|k| 0x7100_0000 + k * 0x1000).collect();
    assert_eq!(vm.load_image(Some(payload), &frames), Ok(()));
    vm.installed();
    let cpu = GuestCpu::prepared(arch, 0, 0, 0x7000_0000, 0x7001_0000, 0x7002_0000);
    (vm, cpu)
}

fn run(arch: Arch, script: &[GuestOp], frames: &[u64]) -> (Vm, GuestCpu, Outcome) {
    let (mut vm, mut cpu) = boot(arch, &[0x13, 0, 0, 0]);
    let out = run_script(&mut vm, &mut cpu, script, frames);
    (vm, cpu, out)
}

fn load(gpa: u64) -> GuestOp {
    GuestOp::Access { gpa, kind: AccessKind::Load }
}

fn store(gpa: u64) -> GuestOp {
    GuestOp::Access { gpa, kind: AccessKind::Store }
}

fn exit_op(arch: Arch) -> GuestOp {
    match arch {
        Arch::Riscv64 => GuestOp::Hypercall { id_reg: 8, arg_reg: 0 },
        Arch::Aarch64 => aarch64_guest::svc_exit(),
        Arch::X86_64 => x86_64_guest::vmmcall_exit(),
    }
}

fn putchar_op(arch: Arch, c: u8) -> GuestOp {
    match arch {
        Arch::Riscv64 => GuestOp::Hypercall { id_reg: 1, arg_reg: c as u64 },
        Arch::Aarch64 => aarch64_guest::svc_putchar(c),
        Arch::X86_64 => x86_64_guest::vmmcall_putchar(c),
    }
}

const ARCHES: [Arch; 3] = [Arch::Riscv64, Arch::Aarch64, Arch::X86_64];

fn in_region(arch: Arch, offset: u64) -> u64 {
    arch.region_base() + 0x80_0000 + offset
}

#[test]
fn prepared_cpu_starts_at_the_entry() {
    assert_eq!(GuestCpu::prepared(Arch::Riscv64, 0, 0, 0, 0, 0).pc(), 0x8020_0000);
    assert_eq!(GuestCpu::prepared(Arch::Aarch64, 0, 0, 0, 0, 0).pc(), 0x4020_0000);
    assert_eq!(GuestCpu::prepared(Arch::X86_64, 0, 0, 0, 0, 0).pc(), 0);
    match GuestCpu::prepared(Arch::Riscv64, 0x2_0000_0000, 0x22, 0, 0, 0) {
        GuestCpu::Riscv(ctx) => {
            assert_eq!(ctx.hstatus, 0x2_0000_0180);
            assert_eq!(ctx.sstatus, 0x122);
        }
        other => panic!("unexpected registers {:?}", other),
    }
    match GuestCpu::prepared(Arch::X86_64, 0, 0, 0x7000_0000, 1, 2) {
        GuestCpu::Svm(vmcb) => {
            assert_eq!(vmcb.read_u64(0x0B0), 0x7000_0000);
            assert_eq!(vmcb.read_u64(0x418), 0x1_0000);
        }
        other => panic!("unexpected registers {:?}", other),
    }
}

#[test]
fn prepared_cpu_has_no_trap_state() {
    match GuestCpu::prepared(Arch::Riscv64, 0x2_0000_0000, 0x22, 0, 0, 0) {
        GuestCpu::Riscv(ctx) => {
            assert_eq!((ctx.scause, ctx.stval, ctx.htval), (0, 0, 0));
            assert!(ctx.gprs.iter().all(|r| *r == 0));
        }
        other => panic!("unexpected registers {:?}", other),
    }
    match GuestCpu::prepared(Arch::Aarch64, 0, 0, 0, 0, 0) {
        GuestCpu::Aarch64(ctx) => {
            assert_eq!((ctx.esr, ctx.far, ctx.spsr), (0, 0, 0x3C0));
            assert!(ctx.gprs.iter().all(|r| *r == 0));
        }
        other => panic!("unexpected registers {:?}", other),
    }
    match GuestCpu::prepared(Arch::X86_64, 0, 0, 0, 0, 0) {
        GuestCpu::Svm(vmcb) => {
            assert_eq!((vmcb.exit_code(), vmcb.exit_info1(), vmcb.exit_info2()), (0, 0, 0));
            assert_eq!(vmcb.guest_rax(), 0);
            assert!(vmcb.data[0x600..].iter().all(|b| *b == 0));
        }
        other => panic!("unexpected registers {:?}", other),
    }
}

#[test]
fn taking_an_exit_leaves_the_other_registers_alone() {
    let mut cpu = GuestCpu::prepared(Arch::Riscv64, 0x2_0000_0000, 0x22, 0, 0, 0);
    if let GuestCpu::Riscv(ctx) = &mut cpu {
        ctx.gprs[5] = 55;
        ctx.gprs[12] = 77;
    }
    cpu.take_fault(0x2200_0000, AccessKind::Load);
    match cpu {
        GuestCpu::Riscv(ctx) => {
            assert_eq!((ctx.gprs[5], ctx.gprs[12]), (55, 77));
            assert_eq!((ctx.sepc, ctx.hstatus, ctx.sstatus), (0x8020_0000, 0x2_0000_0180, 0x122));
            assert_eq!((ctx.scause, ctx.stval, ctx.htval), (21, 0x2200_0000, 0x2200_0000 >> 2));
        }
        other => panic!("unexpected registers {:?}", other),
    }
    cpu.take_hypercall(1, 0x41);
    match cpu {
        GuestCpu::Riscv(ctx) => {
            assert_eq!((ctx.gprs[5], ctx.gprs[12], ctx.gprs[10], ctx.gprs[17]), (55, 0, 0x41, 1));
            assert_eq!((ctx.stval, ctx.htval), (0x2200_0000, 0x2200_0000 >> 2));
            assert_eq!(ctx.sepc, 0x8020_0000);
        }
        other => panic!("unexpected registers {:?}", other),
    }
    let mut cpu = GuestCpu::prepared(Arch::X86_64, 0, 0, 0x7000_0000, 1, 2);
    cpu.take_fault(0x2_0000, AccessKind::Store);
    cpu.take_hypercall(0x4101, 0);
    match cpu {
        GuestCpu::Svm(vmcb) => {
            assert_eq!(vmcb.read_u64(0x0B0), 0x7000_0000);
            assert_eq!(vmcb.read_u64(0x418), 0x1_0000);
            assert_eq!(vmcb.guest_rip(), 0);
            assert_eq!((vmcb.exit_code(), vmcb.guest_rax()), (0x81, 0x4101));
        }
        other => panic!("unexpected registers {:?}", other),
    }
}

#[test]
fn riscv_guest_may_touch_the_address_of_a_payload_frame() {
    let script = [load(0x7100_0000), store(0x7100_0fff), exit_op(Arch::Riscv64)];
    let (vm, _, out) = run(Arch::Riscv64, &script, &[]);
    assert_eq!(out.faults, 1);
    assert_eq!(out.end, End::Stopped);
    assert_eq!(vm.space().translate(0x7100_0004), Some(0x7100_0004));
    assert_eq!(vm.space().translate(0x8020_0004), Some(0x7100_0004));
}

#[test]
fn take_fault_and_take_hypercall_fill_the_trap_registers() {
    let mut cpu = GuestCpu::prepared(Arch::Riscv64, 0, 0, 0, 0, 0);
    cpu.take_fault(0x2200_0003, AccessKind::Store);
    match cpu.decode() {
        ExitEvent::PageFault { gpa, kind } => {
            assert_eq!((gpa, kind), (0x2200_0003, AccessKind::Store))
        }
        other => panic!("unexpected event {:?}", other),
    }
    cpu.take_fault(0x2200_0000, AccessKind::Fetch);
    assert!(matches!(cpu.decode(), ExitEvent::Fatal { .. }));
    let mut cpu = GuestCpu::prepared(Arch::X86_64, 0, 0, 0, 0, 0);
    cpu.take_fault(0x2_0123, AccessKind::Fetch);
    match cpu.decode() {
        ExitEvent::PageFault { gpa, kind } => assert_eq!((gpa, kind), (0x2_0000, AccessKind::Fetch)),
        other => panic!("unexpected event {:?}", other),
    }
    cpu.take_hypercall(0x4101, 0);
    match cpu.decode() {
        ExitEvent::Hypercall { function_id, args } => {
            assert_eq!((function_id, args[0], args[1]), (1, 0x41, 0x4101))
        }
        other => panic!("unexpected event {:?}", other),
    }
    let mut cpu = GuestCpu::prepared(Arch::Aarch64, 0, 0, 0, 0, 0);
    cpu.take_hypercall(1, 0x41);
    match cpu.decode() {
        ExitEvent::Hypercall { function_id, args } => {
            assert_eq!((function_id, args), (1, [0x41, 0, 0, 0, 0, 0, 0, 0]))
        }
        other => panic!("unexpected event {:?}", other),
    }
}

#[test]
fn minimal_fault_then_shutdown() {
    for arch in ARCHES {
        let g = in_region(arch, 0x123);
        let script = [load(g), exit_op(arch)];
        let (vm, cpu, out) = run(arch, &script, &[0x7200_0000]);
        assert_eq!(out.faults, 1);
        assert_eq!(out.hypercalls, 1);
        assert_eq!(out.end, End::Stopped);
        assert!(out.console.is_empty());
        assert!(out.warnings.is_empty());
        assert_eq!(vm.phase(), Phase::Stopped);
        assert!(vm.space().is_mapped(g));
        assert_eq!(vm.space().mapped_pages().len(), 2);
        let entry_pc = if arch == Arch::X86_64 { 0 } else { arch.vm_entry() };
        assert_eq!(out.pc, entry_pc);
        assert_eq!(cpu.pc(), entry_pc);
        let backing = if arch == Arch::Riscv64 { g } else { 0x7200_0123 };
        assert_eq!(vm.space().translate(g), Some(backing));
        assert_eq!(out.frames_used, if arch == Arch::Riscv64 { 0 } else { 1 });
    }
}

#[test]
fn pflash_is_passed_through_on_riscv() {
    let mut script = vec![load(0x2200_0000)];
    for c in b"Got pflash magic: pfld\n" {
        script.push(putchar_op(Arch::Riscv64, *c));
    }
    script.push(GuestOp::Hypercall { id_reg: 0x5352_5354, arg_reg: 0 });
    let (vm, _, out) = run(Arch::Riscv64, &script, &[]);
    assert_eq!(out.faults, 1);
    assert_eq!(out.console, b"Got pflash magic: pfld\n".to_vec());
    assert_eq!(out.end, End::Stopped);
    assert_eq!(vm.space().translate(0x2200_0000), Some(0x2200_0000));
    assert_eq!(vm.space().translate(0x2200_0003), Some(0x2200_0003));
    assert_eq!(out.frames_used, 0);
    assert_eq!(out.pc, 0x8020_0000 + 4 * 23);
}

#[test]
fn repeated_putchar() {
    for arch in ARCHES {
        let text = b"HELLO!\n\0";
        let script: Vec<GuestOp> = text.iter().map(|c| putchar_op(arch, *c)).collect();
        let (vm, cpu, out) = run(arch, &script, &[]);
        assert_eq!(out.hypercalls, 8);
        assert_eq!(out.console, text.to_vec());
        assert_eq!(out.faults, 0);
        assert_eq!(out.end, End::Running);
        assert_eq!(vm.phase(), Phase::Ready);
        let entry_pc = if arch == Arch::X86_64 { 0 } else { arch.vm_entry() };
        assert_eq!(cpu.pc(), entry_pc + 8 * arch.hypercall_len());
        assert_eq!(vm.space().mapped_pages().len(), 1);
    }
}

#[test]
fn unknown_hypercall_then_exit() {
    for arch in ARCHES {
        let script = [GuestOp::Hypercall { id_reg: 0xDEAD, arg_reg: 5 }, exit_op(arch)];
        let (vm, cpu, out) = run(arch, &script, &[]);
        let id = if arch == Arch::X86_64 { 0xAD } else { 0xDEAD };
        assert_eq!(out.warnings, vec![id]);
        assert_eq!(out.hypercalls, 2);
        assert_eq!(out.end, End::Stopped);
        assert!(out.console.is_empty());
        let entry_pc = if arch == Arch::X86_64 { 0 } else { arch.vm_entry() };
        assert_eq!(cpu.pc(), entry_pc + arch.hypercall_len());
        assert_eq!(vm.phase(), Phase::Stopped);
    }
}

#[test]
fn fault_outside_the_region_ends_the_run() {
    for (arch, gpa) in
        [(Arch::Aarch64, 0x0400_0000u64), (Arch::X86_64, 0xFFC0_0000), (Arch::Riscv64, u64::MAX)]
    {
        let script = [load(gpa), putchar_op(arch, b'x'), exit_op(arch)];
        let (vm, _, out) = run(arch, &script, &[0x7200_0000]);
        let seen = if arch == Arch::Riscv64 { gpa } else { gpa & !0xfff };
        assert_eq!(
            out.end,
            End::Aborted {
                cause: AbortCause::FaultOutsideRegion { gpa: seen, kind: AccessKind::Load }
            }
        );
        assert_eq!(out.faults, 1);
        assert_eq!(out.hypercalls, 0);
        assert!(out.console.is_empty());
        assert_eq!(out.frames_used, 0);
        assert_eq!(vm.phase(), Phase::Aborted);
        assert_eq!(vm.space().mapped_pages().len(), 1);
    }
}

#[test]
fn banner_then_exit() {
    let banner: Vec<u8> = (0..600u32).map(|i| b' ' + (i % 95) as u8).collect();
    for arch in [Arch::Aarch64, Arch::X86_64] {
        let mut script: Vec<GuestOp> = Vec::new();
        match arch {
            Arch::Aarch64 => aarch64_guest::print_bytes(&banner, &mut script),
            _ => x86_64_guest::print_bytes(&banner, &mut script),
        }
        script.push(exit_op(arch));
        let (_, _, out) = run(arch, &script, &[]);
        assert_eq!(out.console, banner);
        assert_eq!(out.hypercalls, 601);
        assert_eq!(out.faults, 0);
        assert_eq!(out.end, End::Stopped);
    }
}

#[test]
fn payload_prints_its_introduction_then_faults_on_the_flash_outside_the_region() {
    let script = aarch64_guest::start(0x646c_6670);
    let (_, _, out) = run(Arch::Aarch64, &script, &[0x7200_0000]);
    let text = String::from_utf8(out.console.clone()).unwrap();
    assert!(text.starts_with("\n       d8888"));
    assert!(text.ends_with("Try to access pflash dev region [0x04000000], got "));
    assert!(text.contains("arch = aarch64\nplatform = aarch64-qemu-virt\nsmp = 1\n\n"));
    assert_eq!(out.hypercalls as usize, out.console.len());
    assert_eq!(
        out.end,
        End::Aborted {
            cause: AbortCause::FaultOutsideRegion { gpa: 0x0400_0000, kind: AccessKind::Load }
        }
    );
    let script = x86_64_guest::start(0x646c_6670);
    let (_, _, out) = run(Arch::X86_64, &script, &[0x7200_0000]);
    let text = String::from_utf8(out.console).unwrap();
    assert!(text.ends_with("Try to access pflash dev region [0xFFC00000], got "));
    assert!(matches!(out.end, End::Aborted { .. }));
}

#[test]
fn mapped_accesses_take_no_exit() {
    for arch in ARCHES {
        let entry = arch.vm_entry();
        let script = [load(entry), store(entry + 0xfff), load(entry + 8), exit_op(arch)];
        let (vm, _, out) = run(arch, &script, &[0x7200_0000]);
        assert_eq!(out.faults, 0);
        assert_eq!(out.frames_used, 0);
        assert_eq!(out.hypercalls, 1);
        assert_eq!(vm.space().mapped_pages().len(), 1);
    }
}

#[test]
fn one_fault_for_each_distinct_unmapped_page() {
    for arch in ARCHES {
        let a = in_region(arch, 0);
        let b = in_region(arch, 0x5000);
        let c = in_region(arch, 0x9000);
        let script = [
            load(a),
            load(a + 8),
            store(b + 0xfff),
            load(arch.vm_entry()),
            store(a + 0x800),
            load(c),
            store(b),
            load(c + 1),
            exit_op(arch),
        ];
        let frames = [0x7200_0000u64, 0x7200_1000, 0x7200_2000, 0x7200_3000];
        let (vm, _, out) = run(arch, &script, &frames);
        assert_eq!(out.faults, 3);
        assert_eq!(out.end, End::Stopped);
        assert_eq!(vm.space().mapped_pages().len(), 4);
        assert_eq!(out.frames_used, if arch == Arch::Riscv64 { 0 } else { 3 });
        for g in [a, b, c] {
            assert!(vm.space().is_mapped(g));
            assert!(vm.space().is_mapped(g + 0xfff));
        }
    }
}

#[test]
fn fetch_faults_are_fatal_on_riscv_and_aarch64_and_serviced_on_svm() {
    for arch in [Arch::Riscv64, Arch::Aarch64] {
        let g = in_region(arch, 0);
        let script = [GuestOp::Access { gpa: g, kind: AccessKind::Fetch }, exit_op(arch)];
        let (_, _, out) = run(arch, &script, &[0x7200_0000]);
        assert!(matches!(out.end, End::Aborted { cause: AbortCause::FatalExit { .. } }));
        assert_eq!(out.faults, 0);
    }
    let g = in_region(Arch::X86_64, 0);
    let script = [GuestOp::Access { gpa: g, kind: AccessKind::Fetch }, exit_op(Arch::X86_64)];
    let (_, _, out) = run(Arch::X86_64, &script, &[0x7200_0000]);
    assert_eq!(out.end, End::Stopped);
    assert_eq!(out.faults, 1);
}

#[test]
fn running_out_of_frames_aborts() {
    let a = in_region(Arch::Aarch64, 0);
    let script = [load(a), load(a + 0x1000), exit_op(Arch::Aarch64)];
    let (vm, _, out) = run(Arch::Aarch64, &script, &[0x7200_0000]);
    assert_eq!(out.faults, 2);
    assert_eq!(out.frames_used, 1);
    assert!(matches!(out.end, End::Aborted { cause: AbortCause::MappingFailure { .. } }));
    assert!(vm.space().is_mapped(a));
    assert!(!vm.space().is_mapped(a + 0x1000));
}

#[test]
fn nothing_runs_after_the_exit() {
    for arch in ARCHES {
        let script = [exit_op(arch), putchar_op(arch, b'x'), load(in_region(arch, 0))];
        let (_, _, out) = run(arch, &script, &[0x7200_0000]);
        assert_eq!(out.end, End::Stopped);
        assert_eq!(out.hypercalls, 1);
        assert_eq!(out.faults, 0);
        assert!(out.console.is_empty());
    }
}
