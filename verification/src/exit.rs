//! Decoding of the raw exit state of each back end into one kind of event.
use vstd::prelude::*;
use crate::context::{Aarch64Context, RiscvContext};

verus! {

/// `scause` code of an environment call from VS-mode.
pub const SCAUSE_VS_ECALL: u64 = 10;

/// `scause` code of a guest page fault on a load.
pub const SCAUSE_LOAD_GUEST_PAGE_FAULT: u64 = 21;

/// `scause` code of a guest page fault on a store.
pub const SCAUSE_STORE_GUEST_PAGE_FAULT: u64 = 23;

/// Exception class of `svc` taken from the lower exception level.
pub const EC_SVC: u64 = 0x15;

/// Exception class of a data abort taken from the lower exception level.
pub const EC_DATA_ABORT_LOWER: u64 = 0x24;

/// Exception class of a data abort taken without a change of exception level.
pub const EC_DATA_ABORT_SAME: u64 = 0x25;

/// SVM exit code of an intercepted `vmmcall`.
pub const VMEXIT_VMMCALL: u64 = 0x81;

/// SVM exit code of a nested page fault.
pub const VMEXIT_NPF: u64 = 0x400;

/// Bit of the nested-page-fault error code that marks a write.
pub const NPF_WRITE: u64 = 0x2;

/// Bit of the nested-page-fault error code that marks an instruction fetch.
pub const NPF_FETCH: u64 = 0x10;

/// What the guest was doing when a second-stage translation missed.
#[derive(Clone, Copy, Debug, PartialEq, Eq, Structural)]
pub enum AccessKind {
    Load,
    Store,
    Fetch,
}

/// The raw exit state of an exit that the hypervisor does not handle.
#[derive(Clone, Copy, Debug, PartialEq, Eq, Structural)]
pub struct Diagnostic {
    /// The raw exit code: `scause`, `esr_el1` or the SVM exit code.
    pub code: u64,
    /// The guest program counter at the exit.
    pub pc: u64,
    /// First word of fault information: `stval`, `far_el1` or `exit_info1`.
    pub info1: u64,
    /// Second word of fault information: `htval`, zero or `exit_info2`.
    pub info2: u64,
}

/// A VM exit, decoded.
#[derive(Clone, Copy, Debug)]
pub enum ExitEvent {
    /// The guest asked the host for a service.
    Hypercall { function_id: u64, args: [u64; 8] },
    /// A guest access missed in the second stage.
    PageFault { gpa: u64, kind: AccessKind },
    /// The platform asked the guest to stop.
    Shutdown { reason: u64 },
    /// An exit outside the handled set.
    Fatal { diagnostic: Diagnostic },
}

/// Whether an `scause` value reports an exception rather than an interrupt.
pub open spec fn scause_exception(scause: u64) -> bool {
    scause >> 63 == 0
}

/// The code field of an `scause` value.
pub open spec fn scause_code_of(scause: u64) -> u64 {
    scause & 0x7fff_ffff_ffff_ffff
}

/// The guest-physical address of a RISC-V guest page fault: `htval` holds the
/// address shifted right by two, `stval` its two lowest bits.
pub open spec fn riscv_fault_gpa(htval: u64, stval: u64) -> u64 {
    (htval << 2) | (stval & 0x3)
}

/// The exception class of an `esr_el1` value, bits 31 to 26.
pub open spec fn esr_class(esr: u64) -> u64 {
    (esr >> 26) & 0x3F
}

/// The kind of access that a nested-page-fault error code reports.
pub open spec fn npf_kind(exit_info1: u64) -> AccessKind {
    if exit_info1 & 0x10 != 0 {
        AccessKind::Fetch
    } else if exit_info1 & 0x2 != 0 {
        AccessKind::Store
    } else {
        AccessKind::Load
    }
}

/// The event that a RISC-V exit state stands for.
pub open spec fn riscv_event(ctx: RiscvContext) -> ExitEvent {
    let code = scause_code_of(ctx.scause);
    if scause_exception(ctx.scause) && code == 10 {
        ExitEvent::Hypercall {
            function_id: ctx.gprs[17],
            args: [
                ctx.gprs[10],
                ctx.gprs[11],
                ctx.gprs[12],
                ctx.gprs[13],
                ctx.gprs[14],
                ctx.gprs[15],
                ctx.gprs[16],
                0,
            ],
        }
    } else if scause_exception(ctx.scause) && (code == 21 || code == 23) {
        ExitEvent::PageFault {
            gpa: riscv_fault_gpa(ctx.htval, ctx.stval),
            kind: if code == 21 {
                AccessKind::Load
            } else {
                AccessKind::Store
            },
        }
    } else {
        ExitEvent::Fatal {
            diagnostic: Diagnostic {
                code: ctx.scause,
                pc: ctx.sepc,
                info1: ctx.stval,
                info2: ctx.htval,
            },
        }
    }
}

/// The event that an AArch64 exit state stands for.
pub open spec fn aarch64_event(ctx: Aarch64Context) -> ExitEvent {
    let ec = esr_class(ctx.esr);
    if ec == 0x15 {
        ExitEvent::Hypercall {
            function_id: ctx.gprs[8],
            args: [
                ctx.gprs[0],
                ctx.gprs[1],
                ctx.gprs[2],
                ctx.gprs[3],
                ctx.gprs[4],
                ctx.gprs[5],
                ctx.gprs[6],
                ctx.gprs[7],
            ],
        }
    } else if ec == 0x24 || ec == 0x25 {
        ExitEvent::PageFault { gpa: ctx.far & !0xFFFu64, kind: AccessKind::Load }
    } else {
        ExitEvent::Fatal {
            diagnostic: Diagnostic { code: ctx.esr, pc: ctx.elr, info1: ctx.far, info2: 0 },
        }
    }
}

/// The event that an SVM exit state stands for. A hypercall carries the
/// character argument in `args[0]` and the whole of `rax` in `args[1]`.
pub open spec fn svm_event(
    exit_code: u64,
    exit_info1: u64,
    exit_info2: u64,
    rax: u64,
    rip: u64,
) -> ExitEvent {
    if exit_code == 0x81 {
        ExitEvent::Hypercall {
            function_id: rax & 0xFF,
            args: [(rax >> 8) & 0xFF, rax, 0, 0, 0, 0, 0, 0],
        }
    } else if exit_code == 0x400 {
        ExitEvent::PageFault { gpa: exit_info2 & !0xFFFu64, kind: npf_kind(exit_info1) }
    } else {
        ExitEvent::Fatal {
            diagnostic: Diagnostic { code: exit_code, pc: rip, info1: exit_info1, info2: exit_info2 },
        }
    }
}

/// Asks `riscv::register::scause::Scause` whether the raw value `bits` reports
/// an exception: the crate tests bit 63 and answers `true` when it is clear.
#[verifier::external_body]
fn scause_is_exception(bits: u64) -> (r: bool)
    ensures
        r == scause_exception(bits),
{
    riscv::register::scause::Scause::from_bits(bits as usize).is_exception()
}

/// Asks `riscv::register::scause::Scause` for the code field of the raw value
/// `bits`: the crate returns bits 62 to 0.
#[verifier::external_body]
fn scause_code(bits: u64) -> (r: u64)
    ensures
        r == scause_code_of(bits),
{
    riscv::register::scause::Scause::from_bits(bits as usize).code() as u64
}

/// Decodes the exit state that the hardware left in a RISC-V context.
pub fn decode_riscv(ctx: &RiscvContext) -> (ev: ExitEvent)
    ensures
        ev == riscv_event(*ctx),
{
    let exception = scause_is_exception(ctx.scause);
    let code = scause_code(ctx.scause);
    if exception && code == SCAUSE_VS_ECALL {
        ExitEvent::Hypercall {
            function_id: ctx.gprs[17],
            args: [
                ctx.gprs[10],
                ctx.gprs[11],
                ctx.gprs[12],
                ctx.gprs[13],
                ctx.gprs[14],
                ctx.gprs[15],
                ctx.gprs[16],
                0,
            ],
        }
    } else if exception && (code == SCAUSE_LOAD_GUEST_PAGE_FAULT || code
        == SCAUSE_STORE_GUEST_PAGE_FAULT) {
        let kind = if code == SCAUSE_LOAD_GUEST_PAGE_FAULT {
            AccessKind::Load
        } else {
            AccessKind::Store
        };
        ExitEvent::PageFault { gpa: (ctx.htval << 2) | (ctx.stval & 0x3), kind }
    } else {
        ExitEvent::Fatal {
            diagnostic: Diagnostic {
                code: ctx.scause,
                pc: ctx.sepc,
                info1: ctx.stval,
                info2: ctx.htval,
            },
        }
    }
}

/// Decodes the exit state that the hardware left in an AArch64 context.
pub fn decode_aarch64(ctx: &Aarch64Context) -> (ev: ExitEvent)
    ensures
        ev == aarch64_event(*ctx),
{
    let ec = (ctx.esr >> 26) & 0x3F;
    if ec == EC_SVC {
        ExitEvent::Hypercall {
            function_id: ctx.gprs[8],
            args: [
                ctx.gprs[0],
                ctx.gprs[1],
                ctx.gprs[2],
                ctx.gprs[3],
                ctx.gprs[4],
                ctx.gprs[5],
                ctx.gprs[6],
                ctx.gprs[7],
            ],
        }
    } else if ec == EC_DATA_ABORT_LOWER || ec == EC_DATA_ABORT_SAME {
        ExitEvent::PageFault { gpa: ctx.far & !0xFFFu64, kind: AccessKind::Load }
    } else {
        ExitEvent::Fatal {
            diagnostic: Diagnostic { code: ctx.esr, pc: ctx.elr, info1: ctx.far, info2: 0 },
        }
    }
}

/// Decodes the exit fields of a VMCB after `vmrun` returned.
pub fn decode_svm(exit_code: u64, exit_info1: u64, exit_info2: u64, rax: u64, rip: u64) -> (ev:
    ExitEvent)
    ensures
        ev == svm_event(exit_code, exit_info1, exit_info2, rax, rip),
{
    if exit_code == VMEXIT_VMMCALL {
        ExitEvent::Hypercall {
            function_id: rax & 0xFF,
            args: [(rax >> 8) & 0xFF, rax, 0, 0, 0, 0, 0, 0],
        }
    } else if exit_code == VMEXIT_NPF {
        let kind = if exit_info1 & NPF_FETCH != 0 {
            AccessKind::Fetch
        } else if exit_info1 & NPF_WRITE != 0 {
            AccessKind::Store
        } else {
            AccessKind::Load
        };
        ExitEvent::PageFault { gpa: exit_info2 & !0xFFFu64, kind }
    } else {
        ExitEvent::Fatal {
            diagnostic: Diagnostic { code: exit_code, pc: rip, info1: exit_info1, info2: exit_info2 },
        }
    }
}

} // verus!
