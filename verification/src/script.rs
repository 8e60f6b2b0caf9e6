//! What a guest does, as far as the host can tell: it touches memory and it
//! issues hypercalls. A guest program is a sequence of such operations.
use vstd::prelude::*;
use crate::exit::AccessKind;

verus! {

/// One operation of a guest.
#[derive(Clone, Copy, Debug, PartialEq, Eq, Structural)]
pub enum GuestOp {
    /// An access to guest-physical memory.
    Access { gpa: u64, kind: AccessKind },
    /// A hypercall instruction with the function-id register and the first
    /// argument register set: `a7` and `a0`, `x8` and `x0`, or `rax` alone.
    Hypercall { id_reg: u64, arg_reg: u64 },
}

/// The hex digit, in lower case, of a value below sixteen.
pub open spec fn spec_hex_digit(nibble: u8) -> u8 {
    if nibble < 10 {
        (0x30 + nibble) as u8
    } else {
        (0x61 + nibble - 10) as u8
    }
}

/// The hex digit, in lower case, of a value below sixteen.
#[verifier::when_used_as_spec(spec_hex_digit)]
pub fn hex_digit(nibble: u8) -> (c: u8)
    requires
        nibble < 16,
    ensures
        c == spec_hex_digit(nibble),
{
    if nibble < 10 {
        0x30u8 + nibble
    } else {
        0x61u8 + nibble - 10
    }
}

/// Nibble number `i` of a 32-bit value, counted from the most significant.
pub open spec fn nibble_of(val: u32, i: int) -> u8 {
    ((val >> ((28 - 4 * i) as u32)) & 0xF) as u8
}

/// The text `0x` followed by the eight hex digits of `val`, most significant first.
pub open spec fn hex32(val: u32) -> Seq<u8> {
    Seq::new(
        10,
        |i: int|
            if i == 0 {
                0x30u8
            } else if i == 1 {
                0x78u8
            } else {
                spec_hex_digit(nibble_of(val, i - 2))
            },
    )
}

/// Byte number `i` of the text `0x` followed by the eight hex digits of `val`.
pub fn hex32_byte(val: u32, i: usize) -> (byte: u8)
    requires
        i < 10,
    ensures
        byte == hex32(val)[i as int],
{
    if i == 0 {
        0x30u8
    } else if i == 1 {
        0x78u8
    } else {
        let shift: u32 = 28 - 4 * (i as u32 - 2);
        let nibble: u32 = (val >> shift) & 0xF;
        assert(nibble < 16) by (bit_vector)
            requires
                nibble == (val >> shift) & 0xF,
        ;
        hex_digit(nibble as u8)
    }
}

/// The text `0x` followed by the eight hex digits of `val`, most significant first.
pub fn hex32_text(val: u32) -> (text: Vec<u8>)
    ensures
        text@ == hex32(val),
{
    let mut text: Vec<u8> = Vec::new();
    text.push(0x30u8);
    text.push(0x78u8);
    let mut i: u32 = 0;
    while i < 8
        invariant
            i <= 8,
            text@.len() == 2 + i,
            text@[0] == 0x30u8,
            text@[1] == 0x78u8,
            forall|j: int|
                2 <= j < 2 + i ==> #[trigger] text@[j] == spec_hex_digit(nibble_of(val, j - 2)),
        decreases 8 - i,
    {
        let shift: u32 = 28 - 4 * i;
        let nibble: u32 = (val >> shift) & 0xF;
        assert(nibble < 16) by (bit_vector)
            requires
                nibble == (val >> shift) & 0xF,
        ;
        text.push(hex_digit(nibble as u8));
        i = i + 1;
    }
    assert(text@ =~= hex32(val));
    text
}

/// The four bytes of a 32-bit value, least significant first.
pub open spec fn le_bytes(val: u32) -> Seq<u8> {
    seq![
        (val & 0xFF) as u8,
        ((val >> 8) & 0xFF) as u8,
        ((val >> 16) & 0xFF) as u8,
        ((val >> 24) & 0xFF) as u8,
    ]
}

/// The four bytes of a 32-bit value, least significant first.
pub fn le_bytes_of(val: u32) -> (bytes: Vec<u8>)
    ensures
        bytes@ == le_bytes(val),
{
    let b0: u32 = val & 0xFF;
    let b1: u32 = (val >> 8) & 0xFF;
    let b2: u32 = (val >> 16) & 0xFF;
    let b3: u32 = (val >> 24) & 0xFF;
    assert(b0 < 256 && b1 < 256 && b2 < 256 && b3 < 256) by (bit_vector)
        requires
            b0 == val & 0xFF,
            b1 == (val >> 8) & 0xFF,
            b2 == (val >> 16) & 0xFF,
            b3 == (val >> 24) & 0xFF,
    ;
    let mut bytes: Vec<u8> = Vec::new();
    bytes.push(b0 as u8);
    bytes.push(b1 as u8);
    bytes.push(b2 as u8);
    bytes.push(b3 as u8);
    assert(bytes@ =~= le_bytes(val));
    bytes
}

/// Asks `core::str::from_utf8` whether `bytes` are well-formed UTF-8: it
/// returns `Ok` exactly for such bytes.
#[verifier::external_body]
pub(crate) fn is_utf8(bytes: &[u8]) -> (r: bool)
    ensures
        r == vstd::utf8::valid_utf8(bytes@),
{
    core::str::from_utf8(bytes).is_ok()
}

} // verus!
