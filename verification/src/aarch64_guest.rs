//! The AArch64 guest payload as the host sees it: the hypercalls it issues and
//! the memory it touches, in order.
//!
//! A hypercall is `svc #0` with the function id in `x8`: 1 prints the
//! character in `x0`, 2 ends the guest.
use vstd::prelude::*;
use vstd::string::StringSliceAdditionalSpecFns;
use crate::exit::AccessKind;
use crate::script::{hex32, hex32_text, is_utf8, le_bytes, le_bytes_of, GuestOp};

verus! {

/// Guest-physical address of the flash device that the payload reads.
pub const PFLASH_START: u64 = 0x0400_0000;

/// The hypercall that prints the byte `c`.
pub open spec fn spec_svc_putchar(c: u8) -> GuestOp {
    GuestOp::Hypercall { id_reg: 1, arg_reg: c as u64 }
}

/// The hypercall that ends the guest.
pub open spec fn spec_svc_exit() -> GuestOp {
    GuestOp::Hypercall { id_reg: 2, arg_reg: 0 }
}

/// The hypercall that prints the byte `c`.
#[verifier::when_used_as_spec(spec_svc_putchar)]
pub fn svc_putchar(c: u8) -> (op: GuestOp)
    ensures
        op == spec_svc_putchar(c),
{
    GuestOp::Hypercall { id_reg: 1, arg_reg: c as u64 }
}

/// The hypercall that ends the guest.
#[verifier::when_used_as_spec(spec_svc_exit)]
pub fn svc_exit() -> (op: GuestOp)
    ensures
        op == spec_svc_exit(),
{
    GuestOp::Hypercall { id_reg: 2, arg_reg: 0 }
}

/// The hypercalls that print `bytes`, one for each byte, in order.
pub open spec fn put_ops(bytes: Seq<u8>) -> Seq<GuestOp> {
    Seq::new(bytes.len(), |i: int| spec_svc_putchar(bytes[i]))
}

/// Printing one text after another prints their concatenation.
pub proof fn lemma_put_concat(a: Seq<u8>, b: Seq<u8>)
    ensures
        put_ops(a + b) == put_ops(a) + put_ops(b),
{
    assert(put_ops(a + b) =~= put_ops(a) + put_ops(b));
}

/// Appends to `out` the hypercalls that print `bytes`.
pub fn print_bytes(bytes: &[u8], out: &mut Vec<GuestOp>)
    ensures
        final(out)@ == old(out)@ + put_ops(bytes@),
{
    let mut i: usize = 0;
    while i < bytes.len()
        invariant
            i <= bytes@.len(),
            out@ == old(out)@ + put_ops(bytes@.subrange(0, i as int)),
        decreases bytes@.len() - i,
    {
        out.push(svc_putchar(bytes[i]));
        assert(out@ =~= old(out)@ + put_ops(bytes@.subrange(0, i + 1)));
        i = i + 1;
    }
    assert(bytes@.subrange(0, i as int) =~= bytes@);
}

/// Appends to `out` the hypercalls that print the bytes of `s`.
pub fn print_str(s: &str, out: &mut Vec<GuestOp>)
    ensures
        final(out)@ == old(out)@ + put_ops(s.spec_bytes()),
{
    print_bytes(s.as_bytes(), out);
}

/// Appends to `out` the hypercalls that print `val` as `0x` and eight hex digits.
pub fn print_hex32(val: u32, out: &mut Vec<GuestOp>)
    ensures
        final(out)@ == old(out)@ + put_ops(hex32(val)),
{
    let text = hex32_text(val);
    print_bytes(text.as_slice(), out);
}

/// What the payload prints before it reads the flash device.
pub open spec fn intro_text() -> Seq<u8> {
    "\n       d8888                            .d88888b.   .d8888b.\n".spec_bytes()
        + "      d88888                           d88P\" \"Y88b d88P  Y88b\n".spec_bytes()
        + "     d88P888                           888     888 Y88b.\n".spec_bytes()
        + "    d88P 888 888d888  .d8888b  .d88b.  888     888  \"Y888b.\n".spec_bytes()
        + "   d88P  888 888P\"   d88P\"    d8P  Y8b 888     888     \"Y88b.\n".spec_bytes()
        + "  d88P   888 888     888      88888888 888     888       \"888\n".spec_bytes()
        + " d8888888888 888     Y88b.    Y8b.     Y88b. .d88P Y88b  d88P\n".spec_bytes()
        + "d88P     888 888      \"Y8888P  \"Y8888   \"Y88888P\"   \"Y8888P\"\n\n".spec_bytes()
        + "arch = aarch64\nplatform = aarch64-qemu-virt\nsmp = 1\n\n".spec_bytes()
        + "Reading PFlash at physical address 0x04000000...\n".spec_bytes()
        + "Try to access pflash dev region [0x04000000], got ".spec_bytes()
}

/// What the payload prints after it read `val` from the flash device: the
/// value in hex, then its four bytes as text where they are UTF-8.
pub open spec fn report_text(val: u32) -> Seq<u8> {
    hex32(val) + "\n".spec_bytes() + "Got pflash magic: ".spec_bytes() + (if vstd::utf8::valid_utf8(
        le_bytes(val),
    ) {
        le_bytes(val)
    } else {
        "???".spec_bytes()
    }) + "\n".spec_bytes()
}

/// The whole payload when the flash device holds `val`: print the
/// introduction, read the device, print the report, exit.
pub open spec fn start_ops(val: u32) -> Seq<GuestOp> {
    put_ops(intro_text()) + seq![GuestOp::Access { gpa: PFLASH_START, kind: AccessKind::Load }]
        + put_ops(report_text(val)) + seq![spec_svc_exit()]
}

/// Appends to `out`, which holds `head` and then the hypercalls that print
/// `text`, the hypercalls that print `s`.
fn say(s: &str, out: &mut Vec<GuestOp>, head: Ghost<Seq<GuestOp>>, text: Ghost<Seq<u8>>) -> (after:
    Ghost<Seq<u8>>)
    requires
        old(out)@ == head@ + put_ops(text@),
    ensures
        after@ == text@ + s.spec_bytes(),
        final(out)@ == head@ + put_ops(after@),
{
    print_str(s, out);
    proof {
        lemma_put_concat(text@, s.spec_bytes());
    }
    Ghost(text@ + s.spec_bytes())
}

/// Appends to `out`, which holds `head` and then the hypercalls that print
/// `text`, the hypercalls that print `bytes`.
fn say_bytes(
    bytes: &[u8],
    out: &mut Vec<GuestOp>,
    head: Ghost<Seq<GuestOp>>,
    text: Ghost<Seq<u8>>,
) -> (after: Ghost<Seq<u8>>)
    requires
        old(out)@ == head@ + put_ops(text@),
    ensures
        after@ == text@ + bytes@,
        final(out)@ == head@ + put_ops(after@),
{
    print_bytes(bytes, out);
    proof {
        lemma_put_concat(text@, bytes@);
    }
    Ghost(text@ + bytes@)
}

/// Appends to `out`, which holds `head` and then the hypercalls that print
/// `text`, the hypercalls that print `val` in hex.
fn say_hex32(val: u32, out: &mut Vec<GuestOp>, head: Ghost<Seq<GuestOp>>, text: Ghost<Seq<u8>>) -> (
    after: Ghost<Seq<u8>>)
    requires
        old(out)@ == head@ + put_ops(text@),
    ensures
        after@ == text@ + hex32(val),
        final(out)@ == head@ + put_ops(after@),
{
    print_hex32(val, out);
    proof {
        lemma_put_concat(text@, hex32(val));
    }
    Ghost(text@ + hex32(val))
}

/// The operations of the payload when the flash device holds `val`.
pub fn start(val: u32) -> (ops: Vec<GuestOp>)
    ensures
        ops@ == start_ops(val),
{
    let mut out: Vec<GuestOp> = Vec::new();
    let none: Ghost<Seq<GuestOp>> = Ghost(Seq::empty());
    let text: Ghost<Seq<u8>> = Ghost(Seq::empty());
    assert(out@ =~= none@ + put_ops(text@));
    let text = say("\n       d8888                            .d88888b.   .d8888b.\n", &mut out, none, text);
    let text = say("      d88888                           d88P\" \"Y88b d88P  Y88b\n", &mut out, none, text);
    let text = say("     d88P888                           888     888 Y88b.\n", &mut out, none, text);
    let text = say("    d88P 888 888d888  .d8888b  .d88b.  888     888  \"Y888b.\n", &mut out, none, text);
    let text = say("   d88P  888 888P\"   d88P\"    d8P  Y8b 888     888     \"Y88b.\n", &mut out, none, text);
    let text = say("  d88P   888 888     888      88888888 888     888       \"888\n", &mut out, none, text);
    let text = say(" d8888888888 888     Y88b.    Y8b.     Y88b. .d88P Y88b  d88P\n", &mut out, none, text);
    let text = say("d88P     888 888      \"Y8888P  \"Y8888   \"Y88888P\"   \"Y8888P\"\n\n", &mut out, none, text);
    let text = say("arch = aarch64\nplatform = aarch64-qemu-virt\nsmp = 1\n\n", &mut out, none, text);
    let text = say("Reading PFlash at physical address 0x04000000...\n", &mut out, none, text);
    let text = say("Try to access pflash dev region [0x04000000], got ", &mut out, none, text);
    assert(text@ =~= intro_text());
    out.push(GuestOp::Access { gpa: PFLASH_START, kind: AccessKind::Load });
    let head: Ghost<Seq<GuestOp>> = Ghost(out@);
    let said: Ghost<Seq<u8>> = Ghost(Seq::empty());
    assert(out@ =~= head@ + put_ops(said@));
    let said = say_hex32(val, &mut out, head, said);
    let said = say("\n", &mut out, head, said);
    let said = say("Got pflash magic: ", &mut out, head, said);
    let magic = le_bytes_of(val);
    let said = if is_utf8(magic.as_slice()) {
        say_bytes(magic.as_slice(), &mut out, head, said)
    } else {
        say("???", &mut out, head, said)
    };
    let said = say("\n", &mut out, head, said);
    assert(said@ =~= report_text(val));
    out.push(svc_exit());
    assert(out@ =~= start_ops(val));
    out
}

} // verus!
