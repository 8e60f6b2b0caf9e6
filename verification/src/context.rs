//! Per-vCPU guest register state that survives from one VM entry to the next.
use vstd::prelude::*;
use crate::arch::{advance, spec_advance};

verus! {

/// Bit position of `hstatus.SPV`, the previous virtualization mode; with it
/// set, `sret` returns to the guest.
pub const HSTATUS_SPV_SHIFT: u32 = 7;

/// Bit position of `hstatus.SPVP`, the privilege that guest memory accesses
/// of the host assume.
pub const HSTATUS_SPVP_SHIFT: u32 = 8;

/// `sstatus.SPP`: the previous privilege; set, `sret` returns to supervisor mode.
pub const SSTATUS_SPP: u64 = 0x100;

/// `spsr` of a guest at EL0t with D, A, I and F masked.
pub const SPSR_EL0T_MASKED: u64 = 0x3C0;

/// Guest state of the RISC-V back end.
#[derive(Clone, Copy, Debug)]
pub struct RiscvContext {
    /// `x0` to `x31` of the guest.
    pub gprs: [u64; 32],
    /// Guest program counter.
    pub sepc: u64,
    /// `sstatus` to run the guest with.
    pub sstatus: u64,
    /// `hstatus` to run the guest with.
    pub hstatus: u64,
    /// `scause` of the last exit.
    pub scause: u64,
    /// `stval` of the last exit.
    pub stval: u64,
    /// `htval` of the last exit.
    pub htval: u64,
}

/// Guest state of the AArch64 back end.
#[derive(Clone, Copy, Debug)]
pub struct Aarch64Context {
    /// `x0` to `x30` of the guest.
    pub gprs: [u64; 31],
    /// Guest program counter (`elr_el1`).
    pub elr: u64,
    /// Guest processor state (`spsr_el1`).
    pub spsr: u64,
    /// `esr_el1` of the last exit.
    pub esr: u64,
    /// `far_el1` of the last exit.
    pub far: u64,
}

/// The value of `hgatp` that selects Sv39x4 translation through the table at
/// `root`: mode 8 in the top four bits, the page number of the root below.
pub open spec fn spec_hgatp(root: u64) -> u64 {
    (8u64 << 60) | (root >> 12)
}

/// The value of `hgatp` that selects Sv39x4 translation through the table at `root`.
#[verifier::when_used_as_spec(spec_hgatp)]
pub fn hgatp(root: u64) -> (r: u64)
    ensures
        r == spec_hgatp(root),
{
    (8u64 << 60) | (root >> 12)
}

/// A register value with one field replaced: the bits of `mask << shift`
/// cleared, then `(field & mask) << shift` set.
pub open spec fn field_replaced(value: u64, mask: u64, shift: u32, field: u64) -> u64 {
    (value & !(mask << (shift as u64))) | ((field & mask) << (shift as u64))
}

/// Replaces one field of a register value through
/// `tock_registers::LocalRegisterCopy::modify` with a
/// `tock_registers::fields::FieldValue` made of `mask`, `shift` and `field`.
/// The crate shifts mask and masked value into place, clears the bits of the
/// mask in the local copy and ORs the value in.
#[verifier::external_body]
fn modify_field(value: u64, mask: u64, shift: u32, field: u64) -> (r: u64)
    requires
        shift < 64,
    ensures
        r == field_replaced(value, mask, shift, field),
{
    let mut reg = tock_registers::LocalRegisterCopy::<u64, ()>::new(value);
    reg.modify(tock_registers::fields::FieldValue::<u64, ()>::new(mask, shift as usize, field));
    reg.get()
}

/// The `hstatus` to run the guest with, made from the host's current value:
/// `SPV` set, so that `sret` enters the guest, and `SPVP` set to supervisor.
pub fn guest_hstatus(host_hstatus: u64) -> (r: u64)
    ensures
        r == host_hstatus | 0x180,
{
    let with_spv = modify_field(host_hstatus, 1, HSTATUS_SPV_SHIFT, 1);
    let with_spvp = modify_field(with_spv, 1, HSTATUS_SPVP_SHIFT, 1);
    assert(with_spvp == host_hstatus | 0x180) by (bit_vector)
        requires
            with_spv == (host_hstatus & !(1u64 << 7u64)) | ((1u64 & 1u64) << 7u64),
            with_spvp == (with_spv & !(1u64 << 8u64)) | ((1u64 & 1u64) << 8u64),
    ;
    with_spvp
}

impl RiscvContext {
    /// A context with every register zero.
    pub fn new() -> (ctx: Self)
        ensures
            forall|i: int| 0 <= i < 32 ==> ctx.gprs[i] == 0,
            ctx.sepc == 0,
            ctx.sstatus == 0,
            ctx.hstatus == 0,
            ctx.scause == 0,
            ctx.stval == 0,
            ctx.htval == 0,
    {
        RiscvContext {
            gprs: [0u64; 32],
            sepc: 0,
            sstatus: 0,
            hstatus: 0,
            scause: 0,
            stval: 0,
            htval: 0,
        }
    }

    /// The argument registers `a0` to `a7`, in that order.
    pub open spec fn spec_a_regs(self) -> Seq<u64> {
        Seq::new(8, |i: int| self.gprs[10 + i])
    }

    /// The argument registers `a0` to `a7`, in that order.
    pub fn a_regs(&self) -> (r: [u64; 8])
        ensures
            r@ == self.spec_a_regs(),
    {
        let r: [u64; 8] = [
            self.gprs[10],
            self.gprs[11],
            self.gprs[12],
            self.gprs[13],
            self.gprs[14],
            self.gprs[15],
            self.gprs[16],
            self.gprs[17],
        ];
        assert(r@ =~= self.spec_a_regs());
        r
    }
}

impl RiscvContext {
    /// Prepares the context for the first entry: the guest starts at `entry`
    /// in VS-mode, with `hstatus.SPV` and `hstatus.SPVP` set on top of the
    /// host's `hstatus` and `sstatus.SPP` set on top of the host's `sstatus`.
    pub fn prepare(&mut self, entry: u64, host_hstatus: u64, host_sstatus: u64)
        ensures
            final(self).sepc == entry,
            final(self).hstatus == host_hstatus | 0x180,
            final(self).sstatus == host_sstatus | 0x100,
            final(self).gprs == old(self).gprs,
            final(self).scause == old(self).scause,
            final(self).stval == old(self).stval,
            final(self).htval == old(self).htval,
    {
        self.hstatus = guest_hstatus(host_hstatus);
        self.sstatus = host_sstatus | SSTATUS_SPP;
        self.sepc = entry;
    }

    /// Moves the guest past the `ecall` that it trapped on.
    pub fn advance_pc(&mut self)
        ensures
            final(self).sepc == spec_advance(old(self).sepc, 4),
            old(self).sepc + 4 <= u64::MAX ==> final(self).sepc == old(self).sepc + 4,
            final(self).gprs == old(self).gprs,
            final(self).sstatus == old(self).sstatus,
            final(self).hstatus == old(self).hstatus,
            final(self).scause == old(self).scause,
            final(self).stval == old(self).stval,
            final(self).htval == old(self).htval,
    {
        self.sepc = advance(self.sepc, 4);
    }
}

impl Aarch64Context {
    /// A context with every register zero.
    pub fn new() -> (ctx: Self)
        ensures
            forall|i: int| 0 <= i < 31 ==> ctx.gprs[i] == 0,
            ctx.elr == 0,
            ctx.spsr == 0,
            ctx.esr == 0,
            ctx.far == 0,
    {
        Aarch64Context { gprs: [0u64; 31], elr: 0, spsr: 0, esr: 0, far: 0 }
    }

    /// Prepares the context for the first entry: the guest starts at `entry`
    /// at EL0t with D, A, I and F masked.
    pub fn prepare(&mut self, entry: u64)
        ensures
            final(self).elr == entry,
            final(self).spsr == 0x3C0,
            final(self).gprs == old(self).gprs,
            final(self).esr == old(self).esr,
            final(self).far == old(self).far,
    {
        self.elr = entry;
        self.spsr = SPSR_EL0T_MASKED;
    }

    /// Moves the guest past the `svc` that it trapped on.
    pub fn advance_pc(&mut self)
        ensures
            final(self).elr == spec_advance(old(self).elr, 4),
            old(self).elr + 4 <= u64::MAX ==> final(self).elr == old(self).elr + 4,
            final(self).gprs == old(self).gprs,
            final(self).spsr == old(self).spsr,
            final(self).esr == old(self).esr,
            final(self).far == old(self).far,
    {
        self.elr = advance(self.elr, 4);
    }
}

impl Default for RiscvContext {
    /// A context with every register zero.
    fn default() -> (ctx: Self)
        ensures
            forall|i: int| 0 <= i < 32 ==> ctx.gprs[i] == 0,
            ctx.sepc == 0,
            ctx.sstatus == 0,
            ctx.hstatus == 0,
            ctx.scause == 0,
            ctx.stval == 0,
            ctx.htval == 0,
    {
        RiscvContext::new()
    }
}

impl Default for Aarch64Context {
    /// A context with every register zero.
    fn default() -> (ctx: Self)
        ensures
            forall|i: int| 0 <= i < 31 ==> ctx.gprs[i] == 0,
            ctx.elr == 0,
            ctx.spsr == 0,
            ctx.esr == 0,
            ctx.far == 0,
    {
        Aarch64Context::new()
    }
}

} // verus!
