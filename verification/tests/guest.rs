use arceos_guestaspace::aarch64_guest;
use arceos_guestaspace::exit::AccessKind;
use arceos_guestaspace::script::{hex32_byte, hex32_text, hex_digit, le_bytes_of, GuestOp};
use arceos_guestaspace::x86_64_guest;

fn svc_text(ops: &[GuestOp]) -> Vec<u8> {
    ops.iter()
        .map(|op| match op {
            GuestOp::Hypercall { id_reg: 1, arg_reg } => *arg_reg as u8,
            other => panic!("not a putchar: {:?}", other),
        })
        .collect()
}

fn vmmcall_text(ops: &[GuestOp]) -> Vec<u8> {
    ops.iter()
        .map(|op| match op {
            GuestOp::Hypercall { id_reg, arg_reg: 0 } if id_reg & 0xff == 1 && id_reg >> 16 == 0 => {
                (id_reg >> 8) as u8
            }
            other => panic!("not a putchar: {:?}", other),
        })
        .collect()
}

#[test]
fn hex_digits_are_lower_case() {
    let digits: Vec<u8> = (0..16u8).map(hex_digit).collect();
    assert_eq!(digits, b"0123456789abcdef".to_vec());
}

#[test]
fn hex32_text_is_0x_and_eight_digits() {
    assert_eq!(hex32_text(0), b"0x00000000".to_vec());
    assert_eq!(hex32_text(0x646c_6670), b"0x646c6670".to_vec());
    assert_eq!(hex32_text(0xDEAD_BEEF), b"0xdeadbeef".to_vec());
    assert_eq!(hex32_text(0x0000_00a0), b"0x000000a0".to_vec());
    assert_eq!(hex32_text(u32::MAX), b"0xffffffff".to_vec());
}

#[test]
fn hex32_byte_is_one_byte_of_the_hex_text() {
    let bytes: Vec<u8> = (0..10).map(|i| hex32_byte(0xDEAD_BEEF, i)).collect();
    assert_eq!(bytes, b"0xdeadbeef".to_vec());
    let bytes: Vec<u8> = (0..10).map(|i| hex32_byte(0x0000_00a0, i)).collect();
    assert_eq!(bytes, hex32_text(0x0000_00a0));
}

#[test]
fn le_bytes_of_a_word() {
    assert_eq!(le_bytes_of(0x646c_6670), b"pfld".to_vec());
    assert_eq!(le_bytes_of(0x0102_0304), vec![4, 3, 2, 1]);
}

#[test]
fn aarch64_hypercall_registers() {
    assert_eq!(aarch64_guest::svc_putchar(b'A'), GuestOp::Hypercall { id_reg: 1, arg_reg: 0x41 });
    assert_eq!(aarch64_guest::svc_exit(), GuestOp::Hypercall { id_reg: 2, arg_reg: 0 });
}

#[test]
fn x86_64_hypercall_registers() {
    assert_eq!(
        x86_64_guest::vmmcall_putchar(b'A'),
        GuestOp::Hypercall { id_reg: 0x4101, arg_reg: 0 }
    );
    assert_eq!(
        x86_64_guest::vmmcall_putchar(0xff),
        GuestOp::Hypercall { id_reg: 0xff01, arg_reg: 0 }
    );
    assert_eq!(
        x86_64_guest::vmmcall_exit(),
        GuestOp::Hypercall { id_reg: 0x8400_0008, arg_reg: 0 }
    );
}

#[test]
fn print_str_appends_one_hypercall_for_each_byte() {
    let mut out = vec![aarch64_guest::svc_exit()];
    aarch64_guest::print_str("hi\n", &mut out);
    assert_eq!(out.len(), 4);
    assert_eq!(out[0], aarch64_guest::svc_exit());
    assert_eq!(svc_text(&out[1..]), b"hi\n".to_vec());
    aarch64_guest::print_str("", &mut out);
    assert_eq!(out.len(), 4);
    aarch64_guest::print_str("\u{e9}", &mut out);
    assert_eq!(svc_text(&out[4..]), vec![0xc3, 0xa9]);

    let mut out = Vec::new();
    x86_64_guest::print_str("HELLO!\n\0", &mut out);
    assert_eq!(vmmcall_text(&out), b"HELLO!\n\0".to_vec());
}

#[test]
fn print_hex32_prints_the_hex_text() {
    let mut out = Vec::new();
    aarch64_guest::print_hex32(0x646c_6670, &mut out);
    assert_eq!(svc_text(&out), b"0x646c6670".to_vec());
    let mut out = Vec::new();
    x86_64_guest::print_hex32(0x1, &mut out);
    assert_eq!(vmmcall_text(&out), b"0x00000001".to_vec());
}

const BANNER: &str = "\n       d8888                            .d88888b.   .d8888b.\n      d88888                           d88P\" \"Y88b d88P  Y88b\n     d88P888                           888     888 Y88b.\n    d88P 888 888d888  .d8888b  .d88b.  888     888  \"Y888b.\n   d88P  888 888P\"   d88P\"    d8P  Y8b 888     888     \"Y88b.\n  d88P   888 888     888      88888888 888     888       \"888\n d8888888888 888     Y88b.    Y8b.     Y88b. .d88P Y88b  d88P\nd88P     888 888      \"Y8888P  \"Y8888   \"Y88888P\"   \"Y8888P\"\n\n";

#[test]
fn aarch64_payload_prints_reads_the_flash_reports_and_exits() {
    let ops = aarch64_guest::start(0x646c_6670);
    let read = ops.iter().position(|op| matches!(op, GuestOp::Access { .. })).unwrap();
    assert_eq!(ops[read], GuestOp::Access { gpa: 0x0400_0000, kind: AccessKind::Load });
    let intro = format!(
        "{}arch = aarch64\nplatform = aarch64-qemu-virt\nsmp = 1\n\nReading PFlash at physical address 0x04000000...\nTry to access pflash dev region [0x04000000], got ",
        BANNER
    );
    assert_eq!(svc_text(&ops[..read]), intro.into_bytes());
    let last = ops.len() - 1;
    assert_eq!(ops[last], aarch64_guest::svc_exit());
    assert_eq!(
        svc_text(&ops[read + 1..last]),
        b"0x646c6670\nGot pflash magic: pfld\n".to_vec()
    );
}

#[test]
fn x86_64_payload_prints_reads_the_flash_reports_and_exits() {
    let ops = x86_64_guest::start(0x646c_6670);
    let read = ops.iter().position(|op| matches!(op, GuestOp::Access { .. })).unwrap();
    assert_eq!(ops[read], GuestOp::Access { gpa: 0xFFC0_0000, kind: AccessKind::Load });
    let intro = format!(
        "{}arch = x86_64\nplatform = x86-pc\nsmp = 1\n\nReading PFlash at physical address 0xFFC00000...\nTry to access pflash dev region [0xFFC00000], got ",
        BANNER
    );
    assert_eq!(vmmcall_text(&ops[..read]), intro.into_bytes());
    let last = ops.len() - 1;
    assert_eq!(ops[last], x86_64_guest::vmmcall_exit());
    assert_eq!(
        vmmcall_text(&ops[read + 1..last]),
        b"0x646c6670\nGot pflash magic: pfld\n".to_vec()
    );
}

#[test]
fn magic_that_is_not_utf8_is_reported_as_question_marks() {
    let ops = aarch64_guest::start(0xffff_ffff);
    let read = ops.iter().position(|op| matches!(op, GuestOp::Access { .. })).unwrap();
    let last = ops.len() - 1;
    assert_eq!(
        svc_text(&ops[read + 1..last]),
        b"0xffffffff\nGot pflash magic: ???\n".to_vec()
    );
    let ops = x86_64_guest::start(0x0000_0080);
    let read = ops.iter().position(|op| matches!(op, GuestOp::Access { .. })).unwrap();
    let last = ops.len() - 1;
    assert_eq!(
        vmmcall_text(&ops[read + 1..last]),
        b"0x00000080\nGot pflash magic: ???\n".to_vec()
    );
    let ops = x86_64_guest::start(0x0000_0041);
    let read = ops.iter().position(|op| matches!(op, GuestOp::Access { .. })).unwrap();
    let last = ops.len() - 1;
    assert_eq!(
        vmmcall_text(&ops[read + 1..last]),
        b"0x00000041\nGot pflash magic: A\0\0\0\n".to_vec()
    );
}
