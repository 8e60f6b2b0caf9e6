//! A guest reduced to a script, run against the run loop: each operation of
//! the script either goes through or leaves the guest, as the hardware would
//! decide it from the second stage, and every exit is put into the registers
//! of the back end, decoded and serviced.
use vstd::prelude::*;
use crate::arch::{page_base, Arch};
use crate::context::{Aarch64Context, RiscvContext};
use crate::exit::{aarch64_event, riscv_event, AccessKind, Diagnostic, ExitEvent};
use crate::s2as::Mapping;
use crate::script::GuestOp;
use crate::vm::{frame_action_on, step_on, svm_exit, AbortCause, Action, Phase, Vm};
use crate::vmcb::Vmcb;

verus! {

/// `scause` code of a guest page fault on an instruction fetch.
pub const SCAUSE_FETCH_GUEST_PAGE_FAULT: u64 = 20;

/// `esr_el1` of a data abort taken from the lower exception level.
pub const ESR_DATA_ABORT: u64 = 0x9000_0000;

/// `esr_el1` of an instruction abort taken from the lower exception level.
pub const ESR_INSTRUCTION_ABORT: u64 = 0x8000_0000;

/// `esr_el1` of `svc` taken from the lower exception level.
pub const ESR_SVC: u64 = 0x5400_0000;

/// The register state of the one virtual CPU, in the form of its back end.
#[derive(Clone, Copy, Debug)]
pub enum GuestCpu {
    Riscv(RiscvContext),
    Aarch64(Aarch64Context),
    Svm(Vmcb),
}

/// How a script ended.
#[derive(Clone, Copy, Debug, PartialEq, Eq, Structural)]
pub enum End {
    /// Every operation was carried out; the guest would go on.
    Running,
    /// The guest asked to exit.
    Stopped,
    /// The run loop gave up.
    Aborted { cause: AbortCause },
}

/// What was observed while a script ran.
pub struct Outcome {
    /// The bytes written to the host console, in order.
    pub console: Vec<u8>,
    /// The function ids of the unknown hypercalls, in order.
    pub warnings: Vec<u64>,
    /// The number of exits decoded as page faults.
    pub faults: u64,
    /// The number of hypercall exits.
    pub hypercalls: u64,
    /// The number of frames taken from the host allocator.
    pub frames_used: usize,
    /// The program counter of the guest at the end.
    pub pc: u64,
    /// How the script ended.
    pub end: End,
}

/// The state of a run, in mathematical terms.
pub struct Trace {
    pub mappings: Map<u64, Mapping>,
    pub console: Seq<u8>,
    pub warnings: Seq<u64>,
    pub faults: nat,
    pub hypercalls: nat,
    pub frames_used: nat,
    pub pc: u64,
    pub end: End,
}

/// The event that the hardware reports, decoded, when the guest touches the
/// unmapped address `gpa`. RISC-V and AArch64 report instruction fetches
/// under a cause that the run loop does not handle.
pub open spec fn fault_event(arch: Arch, gpa: u64, kind: AccessKind, pc: u64) -> ExitEvent {
    match arch {
        Arch::Riscv64 => match kind {
            AccessKind::Load => ExitEvent::PageFault { gpa, kind: AccessKind::Load },
            AccessKind::Store => ExitEvent::PageFault { gpa, kind: AccessKind::Store },
            AccessKind::Fetch => ExitEvent::Fatal {
                diagnostic: Diagnostic { code: 20, pc, info1: gpa, info2: gpa >> 2 },
            },
        },
        Arch::Aarch64 => match kind {
            AccessKind::Fetch => ExitEvent::Fatal {
                diagnostic: Diagnostic { code: 0x8000_0000, pc, info1: gpa, info2: 0 },
            },
            _ => ExitEvent::PageFault { gpa: gpa & !0xFFFu64, kind: AccessKind::Load },
        },
        Arch::X86_64 => ExitEvent::PageFault { gpa: gpa & !0xFFFu64, kind },
    }
}

/// The event that the hardware reports, decoded, when the guest issues a
/// hypercall with these registers.
pub open spec fn call_event(arch: Arch, id_reg: u64, arg_reg: u64) -> ExitEvent {
    match arch {
        Arch::X86_64 => ExitEvent::Hypercall {
            function_id: id_reg & 0xFF,
            args: [(id_reg >> 8) & 0xFF, id_reg, 0, 0, 0, 0, 0, 0],
        },
        _ => ExitEvent::Hypercall { function_id: id_reg, args: [arg_reg, 0, 0, 0, 0, 0, 0, 0] },
    }
}

/// The frame that the host allocator hands out next, if it has one left.
pub open spec fn next_frame(frames: Seq<u64>, used: nat) -> Option<u64> {
    if used < frames.len() {
        Some(frames[used as int])
    } else {
        None
    }
}

/// The run after an action that answers a fault was carried out.
pub open spec fn after_fault_action(t: Trace, action: Action) -> Trace {
    match action {
        Action::Install { gpa, hpa, perms, backing, .. } => Trace {
            mappings: t.mappings.insert(gpa, Mapping { hpa, perms, backing }),
            ..t
        },
        Action::Abort { cause } => Trace { end: End::Aborted { cause }, ..t },
        _ => t,
    }
}

/// The run after one operation of the guest.
pub open spec fn after_op(arch: Arch, t: Trace, op: GuestOp, frames: Seq<u64>) -> Trace {
    match op {
        GuestOp::Access { gpa, kind } => if t.mappings.contains_key(page_base(gpa)) {
            t
        } else {
            let event = fault_event(arch, gpa, kind, t.pc);
            let action = step_on(arch, t.mappings, event, t.pc).action;
            let counted = Trace {
                faults: if event is PageFault {
                    t.faults + 1
                } else {
                    t.faults
                },
                ..t
            };
            match action {
                Action::NeedFrame { gpa: page } => {
                    let frame = next_frame(frames, t.frames_used);
                    let taken = Trace {
                        frames_used: if frame is Some {
                            t.frames_used + 1
                        } else {
                            t.frames_used
                        },
                        ..counted
                    };
                    after_fault_action(taken, frame_action_on(arch, t.mappings, page, frame))
                },
                _ => after_fault_action(counted, action),
            }
        },
        GuestOp::Hypercall { id_reg, arg_reg } => {
            let step = step_on(arch, t.mappings, call_event(arch, id_reg, arg_reg), t.pc);
            let counted = Trace { hypercalls: t.hypercalls + 1, pc: step.pc, ..t };
            match step.action {
                Action::Emit { byte } => Trace { console: t.console.push(byte), ..counted },
                Action::Warn { function_id } => Trace {
                    warnings: t.warnings.push(function_id),
                    ..counted
                },
                Action::Stop { .. } => Trace { end: End::Stopped, ..counted },
                _ => counted,
            }
        },
    }
}

/// The run after the operations of `script` from number `i` on, as far as
/// the guest gets.
pub open spec fn run_from(arch: Arch, t: Trace, script: Seq<GuestOp>, frames: Seq<u64>, i: int)
    -> Trace
    decreases script.len() - i,
{
    if i < 0 || i >= script.len() || t.end != End::Running {
        t
    } else {
        run_from(arch, after_op(arch, t, script[i], frames), script, frames, i + 1)
    }
}

/// The run before the first operation.
pub open spec fn start_trace(m: Map<u64, Mapping>, pc: u64) -> Trace {
    Trace {
        mappings: m,
        console: Seq::empty(),
        warnings: Seq::empty(),
        faults: 0,
        hypercalls: 0,
        frames_used: 0,
        pc,
        end: End::Running,
    }
}

impl Outcome {
    /// The run that the outcome reports, with the mappings it left.
    pub open spec fn trace(&self, m: Map<u64, Mapping>) -> Trace {
        Trace {
            mappings: m,
            console: self.console@,
            warnings: self.warnings@,
            faults: self.faults as nat,
            hypercalls: self.hypercalls as nat,
            frames_used: self.frames_used as nat,
            pc: self.pc,
            end: self.end,
        }
    }
}

impl GuestCpu {
    /// The back end that the registers belong to.
    pub open spec fn spec_arch(&self) -> Arch {
        match self {
            GuestCpu::Riscv(_) => Arch::Riscv64,
            GuestCpu::Aarch64(_) => Arch::Aarch64,
            GuestCpu::Svm(_) => Arch::X86_64,
        }
    }

    /// The program counter of the guest: `sepc`, `elr_el1` or `rip`.
    pub open spec fn spec_pc(&self) -> u64 {
        match self {
            GuestCpu::Riscv(ctx) => ctx.sepc,
            GuestCpu::Aarch64(ctx) => ctx.elr,
            GuestCpu::Svm(vmcb) => vmcb.spec_guest_rip(),
        }
    }

    /// The event that the exit state in the registers stands for.
    pub open spec fn spec_event(&self) -> ExitEvent {
        match self {
            GuestCpu::Riscv(ctx) => riscv_event(*ctx),
            GuestCpu::Aarch64(ctx) => aarch64_event(*ctx),
            GuestCpu::Svm(vmcb) => svm_exit(*vmcb),
        }
    }

    /// Whether these registers are those of `before` but for what a page
    /// fault writes: `scause`, `stval` and `htval`; `esr_el1` and `far_el1`;
    /// exit code and exit information of the control block.
    pub open spec fn same_but_fault(&self, before: &GuestCpu) -> bool {
        match (*self, *before) {
            (GuestCpu::Riscv(now), GuestCpu::Riscv(was)) => {
                &&& now.gprs == was.gprs
                &&& now.sepc == was.sepc
                &&& now.sstatus == was.sstatus
                &&& now.hstatus == was.hstatus
            },
            (GuestCpu::Aarch64(now), GuestCpu::Aarch64(was)) => {
                &&& now.gprs == was.gprs
                &&& now.elr == was.elr
                &&& now.spsr == was.spsr
            },
            (GuestCpu::Svm(now), GuestCpu::Svm(was)) => now.same_outside(&was, 0x070, 0x088),
            _ => false,
        }
    }

    /// Whether these registers are those of `before` but for what a hypercall
    /// writes: the cause of the exit, the function-id register and the
    /// argument registers.
    pub open spec fn same_but_call(&self, before: &GuestCpu) -> bool {
        match (*self, *before) {
            (GuestCpu::Riscv(now), GuestCpu::Riscv(was)) => {
                &&& forall|i: int| 0 <= i < 32 && !(10 <= i <= 17) ==> now.gprs[i] == was.gprs[i]
                &&& now.sepc == was.sepc
                &&& now.sstatus == was.sstatus
                &&& now.hstatus == was.hstatus
                &&& now.stval == was.stval
                &&& now.htval == was.htval
            },
            (GuestCpu::Aarch64(now), GuestCpu::Aarch64(was)) => {
                &&& forall|i: int| 9 <= i < 31 ==> now.gprs[i] == was.gprs[i]
                &&& now.elr == was.elr
                &&& now.spsr == was.spsr
                &&& now.far == was.far
            },
            (GuestCpu::Svm(now), GuestCpu::Svm(was)) => forall|i: int|
                0 <= i < 4096 && !(0x070 <= i < 0x088) && !(0x5F8 <= i < 0x600) ==> now.data@[i]
                    == was.data@[i],
            _ => false,
        }
    }

    /// Registers of the back end, all zero, then prepared for the first entry
    /// at the entry address of the back end. The host's `hstatus` and
    /// `sstatus` matter on RISC-V only, the table root and the two permission
    /// maps on x86_64 only.
    pub fn prepared(
        arch: Arch,
        host_hstatus: u64,
        host_sstatus: u64,
        root: u64,
        iopm_pa: u64,
        msrpm_pa: u64,
    ) -> (cpu: GuestCpu)
        ensures
            cpu.spec_arch() == arch,
            cpu.spec_pc() == (if arch == Arch::X86_64 {
                0
            } else {
                arch.spec_vm_entry()
            }),
            cpu matches GuestCpu::Riscv(ctx) ==> {
                &&& ctx.sepc == arch.spec_vm_entry()
                &&& ctx.hstatus == host_hstatus | 0x180
                &&& ctx.sstatus == host_sstatus | 0x100
                &&& forall|i: int| 0 <= i < 32 ==> ctx.gprs[i] == 0
                &&& ctx.scause == 0
                &&& ctx.stval == 0
                &&& ctx.htval == 0
            },
            cpu matches GuestCpu::Aarch64(ctx) ==> {
                &&& ctx.elr == arch.spec_vm_entry()
                &&& ctx.spsr == 0x3C0
                &&& forall|i: int| 0 <= i < 31 ==> ctx.gprs[i] == 0
                &&& ctx.esr == 0
                &&& ctx.far == 0
            },
            cpu matches GuestCpu::Svm(vmcb) ==> {
                &&& vmcb.control_prepared(root, iopm_pa, msrpm_pa)
                &&& vmcb.segments_prepared(arch.spec_vm_entry())
                &&& vmcb.registers_prepared()
                &&& forall|i: int|
                    0 <= i < 4096 && !Vmcb::prepared_byte(i) ==> vmcb.data@[i] == 0
            },
    {
        match arch {
            Arch::Riscv64 => {
                let mut ctx = RiscvContext::new();
                ctx.prepare(arch.vm_entry(), host_hstatus, host_sstatus);
                GuestCpu::Riscv(ctx)
            },
            Arch::Aarch64 => {
                let mut ctx = Aarch64Context::new();
                ctx.prepare(arch.vm_entry());
                GuestCpu::Aarch64(ctx)
            },
            Arch::X86_64 => {
                let mut vmcb = Vmcb::new();
                vmcb.prepare(arch.vm_entry(), root, iopm_pa, msrpm_pa);
                GuestCpu::Svm(vmcb)
            },
        }
    }

    /// The program counter of the guest.
    #[verifier::when_used_as_spec(spec_pc)]
    pub fn pc(&self) -> (r: u64)
        ensures
            r == self.spec_pc(),
    {
        match self {
            GuestCpu::Riscv(ctx) => ctx.sepc,
            GuestCpu::Aarch64(ctx) => ctx.elr,
            GuestCpu::Svm(vmcb) => vmcb.guest_rip(),
        }
    }
}

impl Vm {
    /// Decodes the exit that the hardware left in the registers, takes the
    /// step for it and puts the program counter to go on with back.
    pub fn service(&mut self, cpu: &mut GuestCpu) -> (action: Action)
        requires
            old(self).wf(),
            old(self).spec_phase() == Phase::Ready,
        ensures
            action == old(self).step_of(old(cpu).spec_event(), old(cpu).spec_pc()).action,
            final(cpu).spec_pc() == old(self).step_of(old(cpu).spec_event(), old(cpu).spec_pc()).pc,
            final(cpu).spec_arch() == old(cpu).spec_arch(),
            final(self).follows(
                old(self),
                old(self).step_of(old(cpu).spec_event(), old(cpu).spec_pc()),
            ),
    {
        match cpu {
            GuestCpu::Riscv(ctx) => self.service_riscv(ctx),
            GuestCpu::Aarch64(ctx) => self.service_aarch64(ctx),
            GuestCpu::Svm(vmcb) => self.service_svm(vmcb),
        }
    }
}

/// The phase of the run loop when a script has ended in this way.
pub open spec fn phase_at(end: End) -> Phase {
    match end {
        End::Running => Phase::Ready,
        End::Stopped => Phase::Stopped,
        End::Aborted { .. } => Phase::Aborted,
    }
}

impl GuestCpu {
    /// Decodes the exit state in the registers.
    pub fn decode(&self) -> (ev: ExitEvent)
        ensures
            ev == self.spec_event(),
    {
        match self {
            GuestCpu::Riscv(ctx) => crate::exit::decode_riscv(ctx),
            GuestCpu::Aarch64(ctx) => crate::exit::decode_aarch64(ctx),
            GuestCpu::Svm(vmcb) => vmcb.decode(),
        }
    }

    /// Leaves the guest as the hardware does when an access to the unmapped
    /// address `gpa` misses in the second stage: cause and fault address go
    /// into the trap registers, everything else stays.
    pub fn take_fault(&mut self, gpa: u64, kind: AccessKind)
        ensures
            final(self).spec_arch() == old(self).spec_arch(),
            final(self).spec_pc() == old(self).spec_pc(),
            final(self).same_but_fault(old(self)),
            final(self).spec_event() == fault_event(
                old(self).spec_arch(),
                gpa,
                kind,
                old(self).spec_pc(),
            ),
    {
        match self {
            GuestCpu::Riscv(ctx) => {
                let cause: u64 = match kind {
                    AccessKind::Load => 21,
                    AccessKind::Store => 23,
                    AccessKind::Fetch => SCAUSE_FETCH_GUEST_PAGE_FAULT,
                };
                ctx.scause = cause;
                ctx.htval = gpa >> 2;
                ctx.stval = gpa;
                proof {
                    assert(cause >> 63 == 0 && cause & 0x7fff_ffff_ffff_ffff == cause)
                        by (bit_vector)
                        requires
                            cause < 32,
                    ;
                    assert(((gpa >> 2) << 2) | (gpa & 0x3) == gpa) by (bit_vector);
                }
            },
            GuestCpu::Aarch64(ctx) => {
                let esr: u64 = match kind {
                    AccessKind::Fetch => ESR_INSTRUCTION_ABORT,
                    _ => ESR_DATA_ABORT,
                };
                ctx.esr = esr;
                ctx.far = gpa;
                proof {
                    assert((0x9000_0000u64 >> 26) & 0x3F == 0x24) by (bit_vector);
                    assert((0x8000_0000u64 >> 26) & 0x3F == 0x20) by (bit_vector);
                }
            },
            GuestCpu::Svm(vmcb) => {
                let info1: u64 = match kind {
                    AccessKind::Load => 0x4,
                    AccessKind::Store => 0x6,
                    AccessKind::Fetch => 0x14,
                };
                vmcb.set_exit(0x400, info1, gpa);
                proof {
                    assert(0x4u64 & 0x10 == 0 && 0x4u64 & 0x2 == 0) by (bit_vector);
                    assert(0x6u64 & 0x10 == 0 && 0x6u64 & 0x2 != 0) by (bit_vector);
                    assert(0x14u64 & 0x10 != 0) by (bit_vector);
                }
            },
        }
    }

    /// Leaves the guest as the hardware does on a hypercall instruction with
    /// the function-id register and the first argument register set as given
    /// and the other argument registers zero; everything else stays.
    pub fn take_hypercall(&mut self, id_reg: u64, arg_reg: u64)
        ensures
            final(self).spec_arch() == old(self).spec_arch(),
            final(self).spec_pc() == old(self).spec_pc(),
            final(self).same_but_call(old(self)),
            final(self).spec_event() == call_event(old(self).spec_arch(), id_reg, arg_reg),
    {
        match self {
            GuestCpu::Riscv(ctx) => {
                ctx.scause = 10;
                ctx.gprs[17] = id_reg;
                ctx.gprs[10] = arg_reg;
                ctx.gprs[11] = 0;
                ctx.gprs[12] = 0;
                ctx.gprs[13] = 0;
                ctx.gprs[14] = 0;
                ctx.gprs[15] = 0;
                ctx.gprs[16] = 0;
                proof {
                    assert(10u64 >> 63 == 0 && 10u64 & 0x7fff_ffff_ffff_ffff == 10) by (bit_vector);
                }
            },
            GuestCpu::Aarch64(ctx) => {
                ctx.esr = ESR_SVC;
                ctx.gprs[8] = id_reg;
                ctx.gprs[0] = arg_reg;
                ctx.gprs[1] = 0;
                ctx.gprs[2] = 0;
                ctx.gprs[3] = 0;
                ctx.gprs[4] = 0;
                ctx.gprs[5] = 0;
                ctx.gprs[6] = 0;
                ctx.gprs[7] = 0;
                proof {
                    assert((0x5400_0000u64 >> 26) & 0x3F == 0x15) by (bit_vector);
                }
            },
            GuestCpu::Svm(vmcb) => {
                vmcb.set_exit(0x81, 0, 0);
                vmcb.set_guest_rax(id_reg);
            },
        }
    }
}

/// Carries out one operation of the guest: where it leaves the guest, the
/// exit is serviced, with frames taken from `frames` as the run loop asks
/// for them and every mapping reported installed at once.
fn run_op(vm: &mut Vm, cpu: &mut GuestCpu, out: &mut Outcome, op: GuestOp, frames: &[u64])
    requires
        old(vm).wf(),
        old(vm).spec_phase() == Phase::Ready,
        old(cpu).spec_arch() == old(vm).spec_arch(),
        old(out).end == End::Running,
        old(out).pc == old(cpu).spec_pc(),
        old(out).faults < u64::MAX,
        old(out).hypercalls < u64::MAX,
        old(out).frames_used < usize::MAX,
    ensures
        final(vm).wf(),
        final(vm).spec_arch() == old(vm).spec_arch(),
        final(cpu).spec_arch() == old(cpu).spec_arch(),
        final(vm).spec_phase() == phase_at(final(out).end),
        final(out).pc == final(cpu).spec_pc(),
        final(out).faults <= old(out).faults + 1,
        final(out).hypercalls <= old(out).hypercalls + 1,
        final(out).frames_used <= old(out).frames_used + 1,
        final(vm).spec_space().spec_root() == old(vm).spec_space().spec_root(),
        final(out).trace(final(vm).spec_space().mappings()) == after_op(
            old(vm).spec_arch(),
            old(out).trace(old(vm).spec_space().mappings()),
            op,
            frames@,
        ),
{
    let ghost arch = vm.spec_arch();
    let ghost before = out.trace(vm.spec_space().mappings());
    proof {
        vm.lemma_wf();
    }
    match op {
        GuestOp::Access { gpa, kind } => {
            if vm.space().is_mapped(gpa) {
                return;
            }
            proof {
                crate::arch::lemma_mask_is_page_base(gpa);
                assert(page_base(page_base(gpa)) == page_base(gpa));
            }
            cpu.take_fault(gpa, kind);
            match cpu.decode() {
                ExitEvent::PageFault { .. } => {
                    out.faults = out.faults + 1;
                },
                _ => {},
            }
            let action = vm.service(cpu);
            let answer = match action {
                Action::NeedFrame { gpa: page } => {
                    let frame = if out.frames_used < frames.len() {
                        let taken = frames[out.frames_used];
                        out.frames_used = out.frames_used + 1;
                        Some(taken)
                    } else {
                        None
                    };
                    vm.supply_frame(frame)
                },
                other => other,
            };
            match answer {
                Action::Install { .. } => {
                    vm.installed();
                },
                Action::Abort { cause } => {
                    out.end = End::Aborted { cause };
                },
                _ => {
                    assert(false);
                },
            }
            proof {
                let after = after_op(arch, before, op, frames@);
                let now = out.trace(vm.spec_space().mappings());
                assert(now.mappings =~= after.mappings);
                assert(now == after);
            }
        },
        GuestOp::Hypercall { id_reg, arg_reg } => {
            cpu.take_hypercall(id_reg, arg_reg);
            let action = vm.service(cpu);
            out.hypercalls = out.hypercalls + 1;
            out.pc = cpu.pc();
            match action {
                Action::Emit { byte } => {
                    out.console.push(byte);
                },
                Action::Warn { function_id } => {
                    out.warnings.push(function_id);
                },
                Action::Stop { .. } => {
                    out.end = End::Stopped;
                },
                _ => {
                    assert(false);
                },
            }
            proof {
                let after = after_op(arch, before, op, frames@);
                let now = out.trace(vm.spec_space().mappings());
                assert(now.mappings =~= after.mappings);
                assert(now == after);
            }
        },
    }
}

/// Runs a script against the run loop, from the state that guest and run
/// loop are in, until the script is through, the guest asks to exit or the
/// run loop gives up.
pub fn run_script(vm: &mut Vm, cpu: &mut GuestCpu, script: &[GuestOp], frames: &[u64]) -> (out:
    Outcome)
    requires
        old(vm).wf(),
        old(vm).spec_phase() == Phase::Ready,
        old(cpu).spec_arch() == old(vm).spec_arch(),
    ensures
        final(vm).wf(),
        final(vm).spec_arch() == old(vm).spec_arch(),
        final(cpu).spec_arch() == old(cpu).spec_arch(),
        final(vm).spec_phase() == phase_at(out.end),
        final(vm).spec_space().spec_root() == old(vm).spec_space().spec_root(),
        out.pc == final(cpu).spec_pc(),
        out.trace(final(vm).spec_space().mappings()) == run_from(
            old(vm).spec_arch(),
            start_trace(old(vm).spec_space().mappings(), old(cpu).spec_pc()),
            script@,
            frames@,
            0,
        ),
{
    let mut out = Outcome {
        console: Vec::new(),
        warnings: Vec::new(),
        faults: 0,
        hypercalls: 0,
        frames_used: 0,
        pc: cpu.pc(),
        end: End::Running,
    };
    let ghost arch = vm.spec_arch();
    let ghost first = start_trace(vm.spec_space().mappings(), cpu.spec_pc());
    assert(out.trace(vm.spec_space().mappings()) == first);
    let mut i: usize = 0;
    while i < script.len() && out.end == End::Running
        invariant
            vm.wf(),
            vm.spec_arch() == arch,
            cpu.spec_arch() == arch,
            arch == old(vm).spec_arch(),
            cpu.spec_arch() == old(cpu).spec_arch(),
            vm.spec_space().spec_root() == old(vm).spec_space().spec_root(),
            vm.spec_phase() == phase_at(out.end),
            i <= script@.len(),
            out.faults <= i,
            out.hypercalls <= i,
            out.frames_used <= i,
            out.pc == cpu.spec_pc(),
            run_from(arch, first, script@, frames@, 0) == run_from(
                arch,
                out.trace(vm.spec_space().mappings()),
                script@,
                frames@,
                i as int,
            ),
        decreases script@.len() - i,
    {
        run_op(vm, cpu, &mut out, script[i], frames);
        i = i + 1;
    }
    out
}

} // verus!
