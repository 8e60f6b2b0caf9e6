//! The three supported CPU back ends and the constants that tell them apart.
use vstd::prelude::*;

verus! {

/// Size of a page; every second-stage mapping covers whole pages.
pub const PAGE_SIZE: u64 = 0x1000;

/// Mask of the offset of an address inside its page.
pub const PAGE_MASK: u64 = 0xFFF;

/// A virtualization back end.
#[derive(Clone, Copy, Debug, PartialEq, Eq, Structural)]
pub enum Arch {
    /// RISC-V 64 with the hypervisor extension; the guest runs in VS-mode.
    Riscv64,
    /// AArch64; the guest runs at EL0 over a stage-1 table of its own.
    Aarch64,
    /// x86_64 with AMD SVM and nested paging; the guest starts in real mode.
    X86_64,
}

/// How a faulting guest page gets its backing frame.
#[derive(Clone, Copy, Debug, PartialEq, Eq, Structural)]
pub enum MapPolicy {
    /// The guest-physical page is mapped onto the host frame of the same address.
    Passthrough,
    /// A fresh anonymous host frame is taken for the page.
    Allocated,
}

/// The barrier sequence a back end owes after a change to the second stage.
#[derive(Clone, Copy, Debug, PartialEq, Eq, Structural)]
pub enum Shootdown {
    /// `hfence.gvma` over all guest-physical addresses.
    HfenceGvma,
    /// `tlbi vmalle1is; dsb ish; isb`.
    TlbiVmalle1is,
    /// Nothing: the nested table is walked again on every `vmrun`.
    NotNeeded,
}

/// How the platform is powered off once the run loop has ended.
#[derive(Clone, Copy, Debug, PartialEq, Eq, Structural)]
pub enum PlatformShutdown {
    /// The guest's own SBI reset request is passed on; the host adds nothing.
    SbiReset,
    /// `smc #0` with the PSCI function `SYSTEM_OFF` in `x0`.
    Psci { function: u64 },
    /// `out dx, ax` to the ACPI power-management port.
    Acpi { port: u16, value: u16 },
}

impl Arch {
    /// Guest-physical address of the first guest instruction.
    pub open spec fn spec_vm_entry(self) -> u64 {
        match self {
            Arch::Riscv64 => 0x8020_0000,
            Arch::Aarch64 => 0x4020_0000,
            Arch::X86_64 => 0x1_0000,
        }
    }

    /// First guest-physical address of the second-stage region.
    pub open spec fn spec_region_base(self) -> u64 {
        match self {
            Arch::Riscv64 => 0,
            Arch::Aarch64 => 0x4000_0000,
            Arch::X86_64 => 0x1_0000,
        }
    }

    /// Length in bytes of the second-stage region.
    pub open spec fn spec_region_size(self) -> u64 {
        match self {
            Arch::Riscv64 => 0x7fff_ffff_f000,
            Arch::Aarch64 => 0x800_0000,
            Arch::X86_64 => 0x100_0000,
        }
    }

    /// Length in bytes of the hypercall instruction (`ecall`, `svc`, `vmmcall`).
    pub open spec fn spec_hypercall_len(self) -> u64 {
        match self {
            Arch::Riscv64 => 4,
            Arch::Aarch64 => 4,
            Arch::X86_64 => 3,
        }
    }

    /// Backing policy for pages that the guest faults on.
    pub open spec fn spec_map_policy(self) -> MapPolicy {
        match self {
            Arch::Riscv64 => MapPolicy::Passthrough,
            Arch::Aarch64 => MapPolicy::Allocated,
            Arch::X86_64 => MapPolicy::Allocated,
        }
    }

    /// Barrier owed after the second stage changed.
    pub open spec fn spec_shootdown(self) -> Shootdown {
        match self {
            Arch::Riscv64 => Shootdown::HfenceGvma,
            Arch::Aarch64 => Shootdown::TlbiVmalle1is,
            Arch::X86_64 => Shootdown::NotNeeded,
        }
    }

    /// How the platform is powered off after the loop.
    pub open spec fn spec_platform_shutdown(self) -> PlatformShutdown {
        match self {
            Arch::Riscv64 => PlatformShutdown::SbiReset,
            Arch::Aarch64 => PlatformShutdown::Psci { function: 0x8400_0008 },
            Arch::X86_64 => PlatformShutdown::Acpi { port: 0x604, value: 0x2000 },
        }
    }

    /// Whether the host replaced a translation root of its own to run the
    /// guest and owes putting it back after the loop.
    pub open spec fn spec_restores_root(self) -> bool {
        self == Arch::Aarch64
    }

    /// How the platform is powered off after the loop.
    #[verifier::when_used_as_spec(spec_platform_shutdown)]
    pub fn platform_shutdown(self) -> (r: PlatformShutdown)
        ensures
            r == self.spec_platform_shutdown(),
    {
        match self {
            Arch::Riscv64 => PlatformShutdown::SbiReset,
            Arch::Aarch64 => PlatformShutdown::Psci { function: 0x8400_0008 },
            Arch::X86_64 => PlatformShutdown::Acpi { port: 0x604, value: 0x2000 },
        }
    }

    /// Whether the host owes putting its own translation root back after the loop.
    #[verifier::when_used_as_spec(spec_restores_root)]
    pub fn restores_root(self) -> (r: bool)
        ensures
            r == self.spec_restores_root(),
    {
        match self {
            Arch::Aarch64 => true,
            _ => false,
        }
    }

    /// Guest-physical address of the first guest instruction.
    #[verifier::when_used_as_spec(spec_vm_entry)]
    pub fn vm_entry(self) -> (r: u64)
        ensures
            r == self.spec_vm_entry(),
    {
        match self {
            Arch::Riscv64 => 0x8020_0000,
            Arch::Aarch64 => 0x4020_0000,
            Arch::X86_64 => 0x1_0000,
        }
    }

    /// First guest-physical address of the second-stage region.
    #[verifier::when_used_as_spec(spec_region_base)]
    pub fn region_base(self) -> (r: u64)
        ensures
            r == self.spec_region_base(),
    {
        match self {
            Arch::Riscv64 => 0,
            Arch::Aarch64 => 0x4000_0000,
            Arch::X86_64 => 0x1_0000,
        }
    }

    /// Length in bytes of the second-stage region.
    #[verifier::when_used_as_spec(spec_region_size)]
    pub fn region_size(self) -> (r: u64)
        ensures
            r == self.spec_region_size(),
    {
        match self {
            Arch::Riscv64 => 0x7fff_ffff_f000,
            Arch::Aarch64 => 0x800_0000,
            Arch::X86_64 => 0x100_0000,
        }
    }

    /// Length in bytes of the hypercall instruction.
    #[verifier::when_used_as_spec(spec_hypercall_len)]
    pub fn hypercall_len(self) -> (r: u64)
        ensures
            r == self.spec_hypercall_len(),
    {
        match self {
            Arch::Riscv64 => 4,
            Arch::Aarch64 => 4,
            Arch::X86_64 => 3,
        }
    }

    /// Backing policy for pages that the guest faults on.
    #[verifier::when_used_as_spec(spec_map_policy)]
    pub fn map_policy(self) -> (r: MapPolicy)
        ensures
            r == self.spec_map_policy(),
    {
        match self {
            Arch::Riscv64 => MapPolicy::Passthrough,
            Arch::Aarch64 => MapPolicy::Allocated,
            Arch::X86_64 => MapPolicy::Allocated,
        }
    }

    /// Barrier owed after the second stage changed.
    #[verifier::when_used_as_spec(spec_shootdown)]
    pub fn shootdown(self) -> (r: Shootdown)
        ensures
            r == self.spec_shootdown(),
    {
        match self {
            Arch::Riscv64 => Shootdown::HfenceGvma,
            Arch::Aarch64 => Shootdown::TlbiVmalle1is,
            Arch::X86_64 => Shootdown::NotNeeded,
        }
    }
}

/// A program counter moved on by `len` bytes, wrapping at the end of the
/// address range as the hardware does.
pub open spec fn spec_advance(pc: u64, len: u64) -> u64 {
    ((pc + len) % 0x1_0000_0000_0000_0000) as u64
}

/// A program counter moved on by `len` bytes.
#[verifier::when_used_as_spec(spec_advance)]
pub fn advance(pc: u64, len: u64) -> (r: u64)
    ensures
        r == spec_advance(pc, len),
        pc + len <= u64::MAX ==> r == pc + len,
{
    if pc > u64::MAX - len {
        pc - (u64::MAX - len) - 1
    } else {
        pc + len
    }
}

/// The base of the page that holds `addr`.
pub open spec fn page_base(addr: u64) -> u64 {
    (addr - addr % 0x1000) as u64
}

/// Whether `addr` is the first byte of a page.
pub open spec fn page_aligned(addr: u64) -> bool {
    addr % 0x1000 == 0
}

/// Clearing the low twelve bits of an address gives the base of its page.
pub proof fn lemma_mask_is_page_base(addr: u64)
    ensures
        addr & !0xFFFu64 == page_base(addr),
        addr & 0xFFFu64 == addr % 0x1000,
        page_aligned(page_base(addr)),
        page_base(addr) <= addr < page_base(addr) + 0x1000,
{
    assert(addr & !0xFFFu64 == (addr - addr % 0x1000) as u64) by (bit_vector);
    assert(addr & 0xFFFu64 == addr % 0x1000) by (bit_vector);
}

/// The base of the page that holds `addr`.
pub fn page_of(addr: u64) -> (r: u64)
    ensures
        r == page_base(addr),
        page_aligned(r),
        r <= addr < r + 0x1000,
{
    proof {
        lemma_mask_is_page_base(addr);
    }
    addr & !0xFFFu64
}

} // verus!
