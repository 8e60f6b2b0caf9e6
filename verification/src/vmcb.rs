//! The virtual machine control block of AMD SVM as a page of bytes: typed
//! little-endian access at byte offsets, the layout of the fields that the
//! hypervisor touches, and the state of a guest that starts in real mode.
use vstd::prelude::*;
use crate::arch::{advance, spec_advance};
use crate::exit::{decode_svm, svm_event, ExitEvent};

verus! {

/// Size of the control block in bytes.
pub const VMCB_SIZE: usize = 4096;

/// Offset of the second word of miscellaneous intercepts.
pub const CTRL_INTERCEPT_MISC2: usize = 0x010;

/// Offset of the physical address of the I/O permission map.
pub const CTRL_IOPM_BASE: usize = 0x040;

/// Offset of the physical address of the MSR permission map.
pub const CTRL_MSRPM_BASE: usize = 0x048;

/// Offset of the address space identifier of the guest.
pub const CTRL_GUEST_ASID: usize = 0x058;

/// Offset of the exit code.
pub const CTRL_EXIT_CODE: usize = 0x070;

/// Offset of the first word of exit information.
pub const CTRL_EXIT_INFO1: usize = 0x078;

/// Offset of the second word of exit information.
pub const CTRL_EXIT_INFO2: usize = 0x080;

/// Offset of the nested paging enable word.
pub const CTRL_NP_ENABLE: usize = 0x090;

/// Offset of the nested page table root.
pub const CTRL_NCR3: usize = 0x0B0;

/// Offsets of the segment registers in the state save area.
pub const SAVE_ES: usize = 0x400;

pub const SAVE_CS: usize = 0x410;

pub const SAVE_SS: usize = 0x420;

pub const SAVE_DS: usize = 0x430;

pub const SAVE_FS: usize = 0x440;

pub const SAVE_GS: usize = 0x450;

pub const SAVE_GDTR: usize = 0x460;

pub const SAVE_LDTR: usize = 0x470;

pub const SAVE_IDTR: usize = 0x480;

pub const SAVE_TR: usize = 0x490;

/// Offsets of the registers in the state save area.
pub const SAVE_EFER: usize = 0x4D0;

pub const SAVE_CR0: usize = 0x558;

pub const SAVE_DR7: usize = 0x560;

pub const SAVE_DR6: usize = 0x568;

pub const SAVE_RFLAGS: usize = 0x570;

pub const SAVE_RIP: usize = 0x578;

pub const SAVE_RAX: usize = 0x5F8;

/// Intercept bit of `vmrun` in the second word of miscellaneous intercepts.
pub const INTERCEPT_VMRUN: u32 = 0x1;

/// Intercept bit of `vmmcall` in the second word of miscellaneous intercepts.
pub const INTERCEPT_VMMCALL: u32 = 0x2;

/// `EFER.SVME`, which must be set in the guest's `EFER` for `vmrun` to accept it.
pub const EFER_SVME: u64 = 0x1000;

/// Model-specific register `EFER`.
pub const MSR_EFER: u32 = 0xC000_0080;

/// Model-specific register that holds the physical address of the host save area.
pub const MSR_VM_HSAVE_PA: u32 = 0xC001_0117;

/// CPUID leaf whose `ecx` reports SVM.
pub const CPUID_EXT_FEATURES: u32 = 0x8000_0001;

/// Bit of `ecx` of that leaf that reports SVM.
pub const CPUID_ECX_SVM: u32 = 0x4;

/// Length of `vmmcall` in bytes.
pub const VMMCALL_LEN: u64 = 3;

/// A virtual machine control block.
#[derive(Clone, Copy, Debug)]
pub struct Vmcb {
    pub data: [u8; 4096],
}

/// Byte number `k` of a value, counted from the least significant.
pub open spec fn byte_of(v: u64, k: int) -> u8 {
    ((v >> ((8 * k) as u64)) & 0xFF) as u8
}

/// The 16-bit little-endian value at `off`.
pub open spec fn le_u16(bytes: Seq<u8>, off: int) -> u16 {
    (bytes[off] as u16) | ((bytes[off + 1] as u16) << 8)
}

/// The 32-bit little-endian value at `off`.
pub open spec fn le_u32(bytes: Seq<u8>, off: int) -> u32 {
    (bytes[off] as u32) | ((bytes[off + 1] as u32) << 8) | ((bytes[off + 2] as u32) << 16) | ((
    bytes[off + 3] as u32) << 24)
}

/// The 64-bit little-endian value at `off`.
pub open spec fn le_u64(bytes: Seq<u8>, off: int) -> u64 {
    (bytes[off] as u64) | ((bytes[off + 1] as u64) << 8) | ((bytes[off + 2] as u64) << 16) | ((
    bytes[off + 3] as u64) << 24) | ((bytes[off + 4] as u64) << 32) | ((bytes[off + 5] as u64)
        << 40) | ((bytes[off + 6] as u64) << 48) | ((bytes[off + 7] as u64) << 56)
}

/// The bytes after the `n` low bytes of `v` were stored at `off`, least
/// significant first.
pub open spec fn stored(bytes: Seq<u8>, off: int, n: int, v: u64) -> Seq<u8> {
    Seq::new(
        bytes.len(),
        |i: int|
            if off <= i < off + n {
                byte_of(v, i - off)
            } else {
                bytes[i]
            },
    )
}

/// Whether the CPU supports SVM, from `ecx` of CPUID leaf `0x8000_0001`.
pub open spec fn spec_svm_supported(ecx: u32) -> bool {
    ecx & 0x4 != 0
}

/// Whether the CPU supports SVM, from `ecx` of CPUID leaf `0x8000_0001`.
#[verifier::when_used_as_spec(spec_svm_supported)]
pub fn svm_supported(ecx: u32) -> (r: bool)
    ensures
        r == spec_svm_supported(ecx),
{
    ecx & CPUID_ECX_SVM != 0
}

/// The value to write to `EFER` to enable SVM on top of the current value.
pub fn efer_with_svme(efer: u64) -> (r: u64)
    ensures
        r == efer | 0x1000,
{
    efer | EFER_SVME
}

/// A 64-bit value stored in little-endian order reads back unchanged.
pub proof fn lemma_store_load_u64(bytes: Seq<u8>, off: int, v: u64)
    requires
        0 <= off,
        off + 8 <= bytes.len(),
    ensures
        le_u64(stored(bytes, off, 8, v), off) == v,
{
    let b0 = byte_of(v, 0);
    let b1 = byte_of(v, 1);
    let b2 = byte_of(v, 2);
    let b3 = byte_of(v, 3);
    let b4 = byte_of(v, 4);
    let b5 = byte_of(v, 5);
    let b6 = byte_of(v, 6);
    let b7 = byte_of(v, 7);
    let s8 = stored(bytes, off, 8, v);
    assert(s8[off] == b0 && s8[off + 1] == b1 && s8[off + 2] == b2 && s8[off + 3] == b3 && s8[off
        + 4] == b4 && s8[off + 5] == b5 && s8[off + 6] == b6 && s8[off + 7] == b7);
    assert((b0 as u64) | ((b1 as u64) << 8) | ((b2 as u64) << 16) | ((b3 as u64) << 24) | ((
    b4 as u64) << 32) | ((b5 as u64) << 40) | ((b6 as u64) << 48) | ((b7 as u64) << 56) == v)
        by (bit_vector)
        requires
            b0 == ((v >> 0u64) & 0xFF) as u8,
            b1 == ((v >> 8u64) & 0xFF) as u8,
            b2 == ((v >> 16u64) & 0xFF) as u8,
            b3 == ((v >> 24u64) & 0xFF) as u8,
            b4 == ((v >> 32u64) & 0xFF) as u8,
            b5 == ((v >> 40u64) & 0xFF) as u8,
            b6 == ((v >> 48u64) & 0xFF) as u8,
            b7 == ((v >> 56u64) & 0xFF) as u8,
    ;
}

/// A 32-bit value stored in little-endian order reads back unchanged.
pub proof fn lemma_store_load_u32(bytes: Seq<u8>, off: int, v: u32)
    requires
        0 <= off,
        off + 4 <= bytes.len(),
    ensures
        le_u32(stored(bytes, off, 4, v as u64), off) == v,
{
    let w = v as u64;
    let b0 = byte_of(w, 0);
    let b1 = byte_of(w, 1);
    let b2 = byte_of(w, 2);
    let b3 = byte_of(w, 3);
    let s4 = stored(bytes, off, 4, w);
    assert(s4[off] == b0 && s4[off + 1] == b1 && s4[off + 2] == b2 && s4[off + 3] == b3);
    assert((b0 as u32) | ((b1 as u32) << 8) | ((b2 as u32) << 16) | ((b3 as u32) << 24) == v)
        by (bit_vector)
        requires
            w == v as u64,
            b0 == ((w >> 0u64) & 0xFF) as u8,
            b1 == ((w >> 8u64) & 0xFF) as u8,
            b2 == ((w >> 16u64) & 0xFF) as u8,
            b3 == ((w >> 24u64) & 0xFF) as u8,
    ;
}

/// A 16-bit value stored in little-endian order reads back unchanged.
pub proof fn lemma_store_load_u16(bytes: Seq<u8>, off: int, v: u16)
    requires
        0 <= off,
        off + 2 <= bytes.len(),
    ensures
        le_u16(stored(bytes, off, 2, v as u64), off) == v,
{
    let w = v as u64;
    let b0 = byte_of(w, 0);
    let b1 = byte_of(w, 1);
    let s2 = stored(bytes, off, 2, w);
    assert(s2[off] == b0 && s2[off + 1] == b1);
    assert((b0 as u16) | ((b1 as u16) << 8) == v) by (bit_vector)
        requires
            w == v as u64,
            b0 == ((w >> 0u64) & 0xFF) as u8,
            b1 == ((w >> 8u64) & 0xFF) as u8,
    ;
}

impl Vmcb {
    /// A control block of zero bytes.
    pub fn new() -> (v: Vmcb)
        ensures
            forall|i: int| 0 <= i < 4096 ==> v.data@[i] == 0,
    {
        Vmcb { data: [0u8; 4096] }
    }

    /// The 16-bit field at `off`.
    pub open spec fn spec_u16(&self, off: int) -> u16 {
        le_u16(self.data@, off)
    }

    /// The 32-bit field at `off`.
    pub open spec fn spec_u32(&self, off: int) -> u32 {
        le_u32(self.data@, off)
    }

    /// The 64-bit field at `off`.
    pub open spec fn spec_u64(&self, off: int) -> u64 {
        le_u64(self.data@, off)
    }

    /// Reads the 16-bit field at `off`.
    pub fn read_u16(&self, off: usize) -> (r: u16)
        requires
            off + 2 <= 4096,
        ensures
            r == self.spec_u16(off as int),
    {
        (self.data[off] as u16) | ((self.data[off + 1] as u16) << 8)
    }

    /// Reads the 32-bit field at `off`.
    pub fn read_u32(&self, off: usize) -> (r: u32)
        requires
            off + 4 <= 4096,
        ensures
            r == self.spec_u32(off as int),
    {
        (self.data[off] as u32) | ((self.data[off + 1] as u32) << 8) | ((self.data[off
            + 2] as u32) << 16) | ((self.data[off + 3] as u32) << 24)
    }

    /// Reads the 64-bit field at `off`.
    pub fn read_u64(&self, off: usize) -> (r: u64)
        requires
            off + 8 <= 4096,
        ensures
            r == self.spec_u64(off as int),
    {
        (self.data[off] as u64) | ((self.data[off + 1] as u64) << 8) | ((self.data[off
            + 2] as u64) << 16) | ((self.data[off + 3] as u64) << 24) | ((self.data[off
            + 4] as u64) << 32) | ((self.data[off + 5] as u64) << 40) | ((self.data[off
            + 6] as u64) << 48) | ((self.data[off + 7] as u64) << 56)
    }

    /// Stores the `n` low bytes of `v` at `off`, least significant first.
    fn store(&mut self, off: usize, n: usize, v: u64)
        requires
            n <= 8,
            off + n <= 4096,
        ensures
            final(self).data@ == stored(old(self).data@, off as int, n as int, v),
    {
        let mut k: usize = 0;
        while k < n
            invariant
                n <= 8,
                off + n <= 4096,
                k <= n,
                self.data@ == stored(old(self).data@, off as int, k as int, v),
            decreases n - k,
        {
            let shift: u64 = 8 * (k as u64);
            let byte: u64 = (v >> shift) & 0xFF;
            assert(byte < 256) by (bit_vector)
                requires
                    byte == (v >> shift) & 0xFF,
            ;
            self.data[off + k] = byte as u8;
            assert(self.data@ =~= stored(old(self).data@, off as int, k + 1, v));
            k = k + 1;
        }
        assert(self.data@ =~= stored(old(self).data@, off as int, n as int, v));
    }

    /// Writes the 16-bit field at `off`.
    pub fn write_u16(&mut self, off: usize, v: u16)
        requires
            off + 2 <= 4096,
        ensures
            final(self).data@ == stored(old(self).data@, off as int, 2, v as u64),
            final(self).spec_u16(off as int) == v,
    {
        proof {
            lemma_store_load_u16(self.data@, off as int, v);
        }
        self.store(off, 2, v as u64);
    }

    /// Writes the 32-bit field at `off`.
    pub fn write_u32(&mut self, off: usize, v: u32)
        requires
            off + 4 <= 4096,
        ensures
            final(self).data@ == stored(old(self).data@, off as int, 4, v as u64),
            final(self).spec_u32(off as int) == v,
    {
        proof {
            lemma_store_load_u32(self.data@, off as int, v);
        }
        self.store(off, 4, v as u64);
    }

    /// Writes the 64-bit field at `off`.
    pub fn write_u64(&mut self, off: usize, v: u64)
        requires
            off + 8 <= 4096,
        ensures
            final(self).data@ == stored(old(self).data@, off as int, 8, v),
            final(self).spec_u64(off as int) == v,
    {
        proof {
            lemma_store_load_u64(self.data@, off as int, v);
        }
        self.store(off, 8, v);
    }

    /// Whether the segment register at `off` holds these four values.
    pub open spec fn segment_is(&self, off: int, selector: u16, attrib: u16, limit: u32, base: u64)
        -> bool {
        &&& self.spec_u16(off) == selector
        &&& self.spec_u16(off + 2) == attrib
        &&& self.spec_u32(off + 4) == limit
        &&& self.spec_u64(off + 8) == base
    }

    /// Whether `other` agrees with this block on every byte outside `[lo, hi)`.
    pub open spec fn same_outside(&self, other: &Vmcb, lo: int, hi: int) -> bool {
        forall|i: int| 0 <= i < 4096 && !(lo <= i < hi) ==> self.data@[i] == other.data@[i]
    }

    /// Writes the segment register at `off`: selector, attributes, limit and base.
    pub fn set_segment(&mut self, off: usize, selector: u16, attrib: u16, limit: u32, base: u64)
        requires
            off + 16 <= 4096,
        ensures
            final(self).segment_is(off as int, selector, attrib, limit, base),
            final(self).same_outside(old(self), off as int, off + 16),
    {
        self.write_u16(off, selector);
        self.write_u16(off + 2, attrib);
        self.write_u32(off + 4, limit);
        self.write_u64(off + 8, base);
    }

    /// The exit code of the last exit.
    pub open spec fn spec_exit_code(&self) -> u64 {
        self.spec_u64(0x070)
    }

    /// The first word of exit information of the last exit.
    pub open spec fn spec_exit_info1(&self) -> u64 {
        self.spec_u64(0x078)
    }

    /// The second word of exit information of the last exit.
    pub open spec fn spec_exit_info2(&self) -> u64 {
        self.spec_u64(0x080)
    }

    /// The guest's `rax`.
    pub open spec fn spec_guest_rax(&self) -> u64 {
        self.spec_u64(0x5F8)
    }

    /// The guest's `rip`.
    pub open spec fn spec_guest_rip(&self) -> u64 {
        self.spec_u64(0x578)
    }

    /// The exit code of the last exit.
    #[verifier::when_used_as_spec(spec_exit_code)]
    pub fn exit_code(&self) -> (r: u64)
        ensures
            r == self.spec_exit_code(),
    {
        self.read_u64(CTRL_EXIT_CODE)
    }

    /// The first word of exit information of the last exit.
    #[verifier::when_used_as_spec(spec_exit_info1)]
    pub fn exit_info1(&self) -> (r: u64)
        ensures
            r == self.spec_exit_info1(),
    {
        self.read_u64(CTRL_EXIT_INFO1)
    }

    /// The second word of exit information of the last exit.
    #[verifier::when_used_as_spec(spec_exit_info2)]
    pub fn exit_info2(&self) -> (r: u64)
        ensures
            r == self.spec_exit_info2(),
    {
        self.read_u64(CTRL_EXIT_INFO2)
    }

    /// The guest's `rax`.
    #[verifier::when_used_as_spec(spec_guest_rax)]
    pub fn guest_rax(&self) -> (r: u64)
        ensures
            r == self.spec_guest_rax(),
    {
        self.read_u64(SAVE_RAX)
    }

    /// The guest's `rip`.
    #[verifier::when_used_as_spec(spec_guest_rip)]
    pub fn guest_rip(&self) -> (r: u64)
        ensures
            r == self.spec_guest_rip(),
    {
        self.read_u64(SAVE_RIP)
    }

    /// Records an exit as the CPU does: exit code and the two words of exit
    /// information.
    pub fn set_exit(&mut self, code: u64, info1: u64, info2: u64)
        ensures
            final(self).spec_exit_code() == code,
            final(self).spec_exit_info1() == info1,
            final(self).spec_exit_info2() == info2,
            final(self).same_outside(old(self), 0x070, 0x088),
    {
        self.write_u64(CTRL_EXIT_CODE, code);
        self.write_u64(CTRL_EXIT_INFO1, info1);
        self.write_u64(CTRL_EXIT_INFO2, info2);
    }

    /// Sets the guest's `rax`.
    pub fn set_guest_rax(&mut self, rax: u64)
        ensures
            final(self).spec_guest_rax() == rax,
            final(self).same_outside(old(self), 0x5F8, 0x600),
    {
        self.write_u64(SAVE_RAX, rax);
    }

    /// Sets the guest's `rip`.
    pub fn set_guest_rip(&mut self, rip: u64)
        ensures
            final(self).spec_guest_rip() == rip,
            final(self).same_outside(old(self), 0x578, 0x580),
    {
        self.write_u64(SAVE_RIP, rip);
    }

    /// Moves the guest past the `vmmcall` that it exited on.
    pub fn advance_pc(&mut self)
        ensures
            final(self).spec_guest_rip() == spec_advance(old(self).spec_guest_rip(), 3),
            old(self).spec_guest_rip() + 3 <= u64::MAX ==> final(self).spec_guest_rip() == old(
                self,
            ).spec_guest_rip() + 3,
            final(self).same_outside(old(self), 0x578, 0x580),
    {
        let rip = self.guest_rip();
        self.write_u64(SAVE_RIP, advance(rip, VMMCALL_LEN));
    }

    /// Decodes the exit that the CPU left in the control block.
    pub fn decode(&self) -> (ev: ExitEvent)
        ensures
            ev == svm_event(
                self.spec_exit_code(),
                self.spec_exit_info1(),
                self.spec_exit_info2(),
                self.spec_guest_rax(),
                self.spec_guest_rip(),
            ),
    {
        decode_svm(
            self.exit_code(),
            self.exit_info1(),
            self.exit_info2(),
            self.guest_rax(),
            self.guest_rip(),
        )
    }

    /// Whether the control area asks for nested paging through the table at
    /// `root` under address space identifier 1, intercepts `vmrun` and
    /// `vmmcall`, and names the two permission maps.
    pub open spec fn control_prepared(&self, root: u64, iopm_pa: u64, msrpm_pa: u64) -> bool {
        &&& self.spec_u32(0x010) == 0x3
        &&& self.spec_u64(0x040) == iopm_pa
        &&& self.spec_u64(0x048) == msrpm_pa
        &&& self.spec_u32(0x058) == 1
        &&& self.spec_u64(0x090) == 1
        &&& self.spec_u64(0x0B0) == root
    }

    /// Whether the segment registers are those of a guest in 16-bit real mode
    /// whose code segment starts at `entry`.
    pub open spec fn segments_prepared(&self, entry: u64) -> bool {
        &&& self.segment_is(0x410, ((entry >> 4) & 0xFFFF) as u16, 0x009B, 0xFFFF, entry)
        &&& self.segment_is(0x430, 0, 0x0093, 0xFFFF, 0)
        &&& self.segment_is(0x400, 0, 0x0093, 0xFFFF, 0)
        &&& self.segment_is(0x420, 0, 0x0093, 0xFFFF, 0)
        &&& self.segment_is(0x440, 0, 0x0093, 0xFFFF, 0)
        &&& self.segment_is(0x450, 0, 0x0093, 0xFFFF, 0)
        &&& self.segment_is(0x460, 0, 0, 0xFFFF, 0)
        &&& self.segment_is(0x480, 0, 0, 0x3FF, 0)
        &&& self.segment_is(0x490, 0, 0x008B, 0xFFFF, 0)
        &&& self.segment_is(0x470, 0, 0x0082, 0, 0)
    }

    /// Whether the registers are those of a guest that starts at offset zero
    /// of its code segment: `EFER.SVME` set, `CR0` with only `ET`, the reset
    /// values of `DR6` and `DR7`, `RFLAGS` with only its fixed bit, `RIP` zero.
    pub open spec fn registers_prepared(&self) -> bool {
        &&& self.spec_u64(0x4D0) == 0x1000
        &&& self.spec_u64(0x558) == 0x10
        &&& self.spec_u64(0x568) == 0xFFFF_0FF0
        &&& self.spec_u64(0x560) == 0x0400
        &&& self.spec_u64(0x570) == 0x2
        &&& self.spec_u64(0x578) == 0
    }

    /// Whether byte `i` belongs to a field that preparing the block writes.
    pub open spec fn prepared_byte(i: int) -> bool {
        ||| 0x010 <= i < 0x014
        ||| 0x040 <= i < 0x050
        ||| 0x058 <= i < 0x05C
        ||| 0x090 <= i < 0x098
        ||| 0x0B0 <= i < 0x0B8
        ||| 0x400 <= i < 0x4A0
        ||| 0x4D0 <= i < 0x4D8
        ||| 0x558 <= i < 0x580
    }

    /// Writes the control area.
    fn prepare_control(&mut self, root: u64, iopm_pa: u64, msrpm_pa: u64)
        ensures
            final(self).control_prepared(root, iopm_pa, msrpm_pa),
            forall|i: int|
                0 <= i < 4096 && !Self::prepared_byte(i) ==> final(self).data@[i] == old(
                    self,
                ).data@[i],
            final(self).same_outside(old(self), 0, 0x400),
    {
        let misc2: u32 = INTERCEPT_VMRUN | INTERCEPT_VMMCALL;
        assert(misc2 == 3) by (bit_vector)
            requires
                misc2 == 1u32 | 2u32,
        ;
        self.write_u32(CTRL_INTERCEPT_MISC2, misc2);
        self.write_u64(CTRL_IOPM_BASE, iopm_pa);
        self.write_u64(CTRL_MSRPM_BASE, msrpm_pa);
        self.write_u32(CTRL_GUEST_ASID, 1);
        self.write_u64(CTRL_NP_ENABLE, 1);
        self.write_u64(CTRL_NCR3, root);
    }

    /// Writes the segment registers.
    fn prepare_segments(&mut self, entry: u64)
        ensures
            final(self).segments_prepared(entry),
            final(self).same_outside(old(self), 0x400, 0x4A0),
    {
        let paragraph: u64 = (entry >> 4) & 0xFFFF;
        assert(paragraph < 0x1_0000) by (bit_vector)
            requires
                paragraph == (entry >> 4) & 0xFFFF,
        ;
        self.set_segment(SAVE_CS, paragraph as u16, 0x009B, 0xFFFF, entry);
        self.set_segment(SAVE_DS, 0, 0x0093, 0xFFFF, 0);
        self.set_segment(SAVE_ES, 0, 0x0093, 0xFFFF, 0);
        self.set_segment(SAVE_SS, 0, 0x0093, 0xFFFF, 0);
        self.set_segment(SAVE_FS, 0, 0x0093, 0xFFFF, 0);
        self.set_segment(SAVE_GS, 0, 0x0093, 0xFFFF, 0);
        self.set_segment(SAVE_GDTR, 0, 0, 0xFFFF, 0);
        self.set_segment(SAVE_IDTR, 0, 0, 0x3FF, 0);
        self.set_segment(SAVE_TR, 0, 0x008B, 0xFFFF, 0);
        self.set_segment(SAVE_LDTR, 0, 0x0082, 0, 0);
    }

    /// Writes the registers of the state save area.
    fn prepare_registers(&mut self)
        ensures
            final(self).registers_prepared(),
            forall|i: int|
                0 <= i < 4096 && !Self::prepared_byte(i) ==> final(self).data@[i] == old(
                    self,
                ).data@[i],
            final(self).same_outside(old(self), 0x4D0, 0x580),
    {
        self.write_u64(SAVE_EFER, EFER_SVME);
        self.write_u64(SAVE_CR0, 0x10);
        self.write_u64(SAVE_DR6, 0xFFFF_0FF0);
        self.write_u64(SAVE_DR7, 0x0400);
        self.write_u64(SAVE_RFLAGS, 0x2);
        self.write_u64(SAVE_RIP, 0);
    }

    /// Prepares the block for the first entry of a guest in 16-bit real mode
    /// that starts at `entry`, behind the nested page table at `root`.
    pub fn prepare(&mut self, entry: u64, root: u64, iopm_pa: u64, msrpm_pa: u64)
        ensures
            final(self).control_prepared(root, iopm_pa, msrpm_pa),
            final(self).segments_prepared(entry),
            final(self).registers_prepared(),
            forall|i: int|
                0 <= i < 4096 && !Self::prepared_byte(i) ==> final(self).data@[i] == old(
                    self,
                ).data@[i],
    {
        self.prepare_control(root, iopm_pa, msrpm_pa);
        self.prepare_segments(entry);
        self.prepare_registers();
    }
}

impl Default for Vmcb {
    /// A control block of zero bytes.
    fn default() -> (v: Self)
        ensures
            forall|i: int| 0 <= i < 4096 ==> v.data@[i] == 0,
    {
        Vmcb::new()
    }
}

} // verus!
