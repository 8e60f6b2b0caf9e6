//! What the build-and-run tool decides before it touches the file system or
//! starts a process: the names that belong to an architecture, the contents
//! of the flash image, and the command line of the emulator.
use vstd::prelude::*;
use vstd::string::{StringExecFns, StringSliceAdditionalSpecFns};

verus! {

/// The names that go with a target architecture.
#[derive(Clone, Copy, Debug, PartialEq, Eq)]
pub struct ArchInfo {
    /// The compiler target triple.
    pub target: &'static str,
    /// The platform configuration.
    pub platform: &'static str,
    /// The architecture name that `objcopy` takes.
    pub objcopy_arch: &'static str,
}

/// Size in bytes of the disk image that carries the payload.
pub const DISK_SIZE: u64 = 64 * 1024 * 1024;

/// The four bytes at the start of the flash image.
pub const PFLASH_MAGIC: [u8; 4] = [0x70, 0x66, 0x6c, 0x64];

/// The root of the project: the directory of the manifest that the tool was
/// built from.
pub fn project_root(manifest_dir: &str) -> (root: String)
    ensures
        root@ == manifest_dir@,
{
    manifest_dir.to_owned()
}

/// Whether two texts have the same bytes.
pub fn same_text(a: &str, b: &str) -> (r: bool)
    ensures
        r == (a.spec_bytes() == b.spec_bytes()),
{
    let x = a.as_bytes();
    let y = b.as_bytes();
    if x.len() != y.len() {
        return false;
    }
    let mut i: usize = 0;
    while i < x.len()
        invariant
            x@ == a.spec_bytes(),
            y@ == b.spec_bytes(),
            x@.len() == y@.len(),
            i <= x@.len(),
            forall|k: int| 0 <= k < i ==> x@[k] == y@[k],
        decreases x@.len() - i,
    {
        if x[i] != y[i] {
            return false;
        }
        i = i + 1;
    }
    assert(x@ =~= y@);
    true
}

/// The names that go with the architecture called `arch`, if it is one of
/// the three that are supported.
pub open spec fn spec_arch_info(arch: &str) -> Option<ArchInfo> {
    if arch.spec_bytes() == "riscv64".spec_bytes() {
        Some(
            ArchInfo {
                target: "riscv64gc-unknown-none-elf",
                platform: "riscv64-qemu-virt",
                objcopy_arch: "riscv64",
            },
        )
    } else if arch.spec_bytes() == "aarch64".spec_bytes() {
        Some(
            ArchInfo {
                target: "aarch64-unknown-none-softfloat",
                platform: "aarch64-qemu-virt",
                objcopy_arch: "aarch64",
            },
        )
    } else if arch.spec_bytes() == "x86_64".spec_bytes() {
        Some(ArchInfo { target: "x86_64-unknown-none", platform: "x86-pc", objcopy_arch: "x86_64" })
    } else {
        None
    }
}

/// The names that go with the architecture called `arch`; `None` for an
/// architecture that is not supported.
pub fn arch_info(arch: &str) -> (r: Option<ArchInfo>)
    ensures
        r == spec_arch_info(arch),
{
    if same_text(arch, "riscv64") {
        Some(
            ArchInfo {
                target: "riscv64gc-unknown-none-elf",
                platform: "riscv64-qemu-virt",
                objcopy_arch: "riscv64",
            },
        )
    } else if same_text(arch, "aarch64") {
        Some(
            ArchInfo {
                target: "aarch64-unknown-none-softfloat",
                platform: "aarch64-qemu-virt",
                objcopy_arch: "aarch64",
            },
        )
    } else if same_text(arch, "x86_64") {
        Some(ArchInfo { target: "x86_64-unknown-none", platform: "x86-pc", objcopy_arch: "x86_64" })
    } else {
        None
    }
}

/// Size in bytes of the flash image for the architecture called `arch`: that
/// of the second flash bank of the emulated board.
pub open spec fn spec_pflash_size(arch: &str) -> usize {
    if arch.spec_bytes() == "riscv64".spec_bytes() {
        0x200_0000
    } else if arch.spec_bytes() == "aarch64".spec_bytes() {
        0x400_0000
    } else {
        0x40_0000
    }
}

/// Size in bytes of the flash image for the architecture called `arch`.
pub fn pflash_size(arch: &str) -> (size: usize)
    ensures
        size == spec_pflash_size(arch),
{
    if same_text(arch, "riscv64") {
        32 * 1024 * 1024
    } else if same_text(arch, "aarch64") {
        64 * 1024 * 1024
    } else {
        4 * 1024 * 1024
    }
}

/// A flash image of `size` bytes: erased flash, all bits set, with the magic
/// `pfld` in its first four bytes.
pub open spec fn spec_pflash_image(size: int) -> Seq<u8> {
    Seq::new(
        size as nat,
        |i: int|
            if 0 <= i < 4 {
                PFLASH_MAGIC[i]
            } else {
                0xFFu8
            },
    )
}

/// A flash image of `size` bytes, which must hold the magic.
pub fn pflash_image(size: usize) -> (image: Vec<u8>)
    requires
        size >= 4,
    ensures
        image@ == spec_pflash_image(size as int),
{
    let mut image: Vec<u8> = Vec::new();
    let mut i: usize = 0;
    while i < size
        invariant
            i <= size,
            image@.len() == i,
            forall|k: int|
                0 <= k < i ==> #[trigger] image@[k] == (if k < 4 {
                    PFLASH_MAGIC[k]
                } else {
                    0xFFu8
                }),
        decreases size - i,
    {
        let byte = if i < 4 {
            PFLASH_MAGIC[i]
        } else {
            0xFFu8
        };
        image.push(byte);
        i = i + 1;
    }
    assert(image@ =~= spec_pflash_image(size as int));
    image
}

/// The flash image for the architecture called `arch`.
pub fn create_pflash_image(arch: &str) -> (image: Vec<u8>)
    ensures
        image@ == spec_pflash_image(spec_pflash_size(arch) as int),
{
    pflash_image(pflash_size(arch))
}

/// Three texts, one after another.
fn joined(a: &str, b: &str, c: &str) -> (r: String)
    ensures
        r@ == a@ + b@ + c@,
{
    a.to_owned().concat(b).concat(c)
}

/// The texts of a list of strings.
pub open spec fn texts(args: Seq<String>) -> Seq<Seq<char>> {
    Seq::new(args.len(), |i: int| args[i]@)
}

/// The name of the emulator for the architecture called `arch`.
pub fn qemu_program(arch: &str) -> (r: String)
    ensures
        r@ == "qemu-system-"@ + arch@,
{
    let r = joined("qemu-system-", arch, "");
    proof {
        reveal_strlit("");
        assert(r@ =~= "qemu-system-"@ + arch@);
    }
    r
}

/// The arguments that select machine and kernel for the architecture called
/// `arch`, if it is supported. RISC-V and AArch64 boot the raw binary,
/// x86_64 the ELF file; RISC-V gets the flash image, if there is one, as its
/// second flash bank.
pub open spec fn spec_machine_args(arch: &str, elf: &str, bin: &str, pflash: Option<&str>)
    -> Option<Seq<Seq<char>>> {
    if arch.spec_bytes() == "riscv64".spec_bytes() {
        let machine = seq!["-machine"@, "virt"@, "-bios"@, "default"@, "-kernel"@, bin@];
        match pflash {
            Some(image) => Some(
                machine + seq![
                    "-drive"@,
                    "if=pflash,format=raw,unit=1,file="@ + image@ + ",readonly=on"@,
                ],
            ),
            None => Some(machine),
        }
    } else if arch.spec_bytes() == "aarch64".spec_bytes() {
        Some(seq!["-cpu"@, "max"@, "-machine"@, "virt,virtualization=on"@, "-kernel"@, bin@])
    } else if arch.spec_bytes() == "x86_64".spec_bytes() {
        Some(seq!["-machine"@, "q35"@, "-cpu"@, "EPYC"@, "-kernel"@, elf@])
    } else {
        None
    }
}

/// The whole argument list of the emulator: memory and CPU count, no
/// graphics, machine and kernel, then the disk image as a VirtIO block device.
pub open spec fn spec_qemu_args(arch: &str, elf: &str, bin: &str, disk: &str, pflash: Option<&str>)
    -> Option<Seq<Seq<char>>> {
    match spec_machine_args(arch, elf, bin, pflash) {
        Some(machine) => Some(
            seq!["-m"@, "128M"@, "-smp"@, "1"@, "-nographic"@] + machine + seq![
                "-drive"@,
                "file="@ + disk@ + ",format=raw,if=none,id=disk0"@,
                "-device"@,
                "virtio-blk-pci,drive=disk0"@,
            ],
        ),
        None => None,
    }
}

/// Appends the text `s` to the argument list.
fn push_text(args: &mut Vec<String>, s: &str)
    ensures
        texts(final(args)@) == texts(old(args)@).push(s@),
{
    args.push(s.to_owned());
    assert(texts(args@) =~= texts(old(args)@).push(s@));
}

/// Appends a string to the argument list.
fn push_string(args: &mut Vec<String>, s: String)
    ensures
        texts(final(args)@) == texts(old(args)@).push(s@),
{
    args.push(s);
    assert(texts(args@) =~= texts(old(args)@).push(s@));
}

/// The argument list of the emulator for the architecture called `arch`,
/// which runs the kernel at `elf` or `bin` with the disk image at `disk`;
/// `None` for an architecture that is not supported.
pub fn qemu_args(arch: &str, elf: &str, bin: &str, disk: &str, pflash: Option<&str>) -> (r: Option<
    Vec<String>,
>)
    ensures
        r is Some <==> spec_qemu_args(arch, elf, bin, disk, pflash) is Some,
        r matches Some(args) ==> Some(texts(args@)) == spec_qemu_args(arch, elf, bin, disk, pflash),
{
    let mut args: Vec<String> = Vec::new();
    assert(texts(args@) =~= Seq::<Seq<char>>::empty());
    push_text(&mut args, "-m");
    push_text(&mut args, "128M");
    push_text(&mut args, "-smp");
    push_text(&mut args, "1");
    push_text(&mut args, "-nographic");
    let ghost common = texts(args@);
    assert(common =~= seq!["-m"@, "128M"@, "-smp"@, "1"@, "-nographic"@]);
    if same_text(arch, "riscv64") {
        push_text(&mut args, "-machine");
        push_text(&mut args, "virt");
        push_text(&mut args, "-bios");
        push_text(&mut args, "default");
        push_text(&mut args, "-kernel");
        push_text(&mut args, bin);
        match pflash {
            Some(image) => {
                push_text(&mut args, "-drive");
                push_string(&mut args, joined("if=pflash,format=raw,unit=1,file=", image, ",readonly=on"));
            },
            None => {},
        }
    } else if same_text(arch, "aarch64") {
        push_text(&mut args, "-cpu");
        push_text(&mut args, "max");
        push_text(&mut args, "-machine");
        push_text(&mut args, "virt,virtualization=on");
        push_text(&mut args, "-kernel");
        push_text(&mut args, bin);
    } else if same_text(arch, "x86_64") {
        push_text(&mut args, "-machine");
        push_text(&mut args, "q35");
        push_text(&mut args, "-cpu");
        push_text(&mut args, "EPYC");
        push_text(&mut args, "-kernel");
        push_text(&mut args, elf);
    } else {
        return None;
    }
    let ghost with_machine = texts(args@);
    assert(with_machine =~= common + spec_machine_args(arch, elf, bin, pflash).unwrap());
    push_text(&mut args, "-drive");
    push_string(&mut args, joined("file=", disk, ",format=raw,if=none,id=disk0"));
    push_text(&mut args, "-device");
    push_text(&mut args, "virtio-blk-pci,drive=disk0");
    assert(texts(args@) =~= spec_qemu_args(arch, elf, bin, disk, pflash).unwrap());
    Some(args)
}

/// The arguments of `cargo` that build the payload.
pub open spec fn spec_payload_build_args(manifest: &str, target: &str) -> Seq<Seq<char>> {
    seq!["build"@, "--release"@, "--manifest-path"@, manifest@, "--target"@, target@]
}

/// The arguments of `cargo` that build the payload from the manifest at
/// `manifest` for the target triple `target`.
pub fn payload_build_args(manifest: &str, target: &str) -> (args: Vec<String>)
    ensures
        texts(args@) == spec_payload_build_args(manifest, target),
{
    let mut args: Vec<String> = Vec::new();
    assert(texts(args@) =~= Seq::<Seq<char>>::empty());
    push_text(&mut args, "build");
    push_text(&mut args, "--release");
    push_text(&mut args, "--manifest-path");
    push_text(&mut args, manifest);
    push_text(&mut args, "--target");
    push_text(&mut args, target);
    assert(texts(args@) =~= spec_payload_build_args(manifest, target));
    args
}

/// The arguments of `cargo` that build the hypervisor.
pub open spec fn spec_kernel_build_args(manifest: &str, target: &str) -> Seq<Seq<char>> {
    seq![
        "build"@,
        "--release"@,
        "--target"@,
        target@,
        "--features"@,
        "axstd"@,
        "--manifest-path"@,
        manifest@,
    ]
}

/// The arguments of `cargo` that build the hypervisor from the manifest at
/// `manifest` for the target triple `target`.
pub fn kernel_build_args(manifest: &str, target: &str) -> (args: Vec<String>)
    ensures
        texts(args@) == spec_kernel_build_args(manifest, target),
{
    let mut args: Vec<String> = Vec::new();
    assert(texts(args@) =~= Seq::<Seq<char>>::empty());
    push_text(&mut args, "build");
    push_text(&mut args, "--release");
    push_text(&mut args, "--target");
    push_text(&mut args, target);
    push_text(&mut args, "--features");
    push_text(&mut args, "axstd");
    push_text(&mut args, "--manifest-path");
    push_text(&mut args, manifest);
    assert(texts(args@) =~= spec_kernel_build_args(manifest, target));
    args
}

/// The arguments of `rust-objcopy` that turn an ELF file into a raw binary;
/// with `text_only`, into the raw contents of its `.text` section.
pub open spec fn spec_objcopy_args(objcopy_arch: &str, elf: &str, bin: &str, text_only: bool)
    -> Seq<Seq<char>> {
    let head = seq!["--binary-architecture="@ + objcopy_arch@];
    let section = if text_only {
        seq!["--only-section=.text"@]
    } else {
        Seq::<Seq<char>>::empty()
    };
    head + section + seq![elf@, "--strip-all"@, "-O"@, "binary"@, bin@]
}

/// The arguments of `rust-objcopy` that turn the ELF file at `elf` into the
/// raw binary at `bin`; with `text_only`, only its `.text` section, as the
/// payload needs it.
pub fn objcopy_args(objcopy_arch: &str, elf: &str, bin: &str, text_only: bool) -> (args: Vec<
    String,
>)
    ensures
        texts(args@) == spec_objcopy_args(objcopy_arch, elf, bin, text_only),
{
    let mut args: Vec<String> = Vec::new();
    assert(texts(args@) =~= Seq::<Seq<char>>::empty());
    let first = joined("--binary-architecture=", objcopy_arch, "");
    proof {
        reveal_strlit("");
        assert(first@ =~= "--binary-architecture="@ + objcopy_arch@);
    }
    push_string(&mut args, first);
    if text_only {
        push_text(&mut args, "--only-section=.text");
    }
    push_text(&mut args, elf);
    push_text(&mut args, "--strip-all");
    push_text(&mut args, "-O");
    push_text(&mut args, "binary");
    push_text(&mut args, bin);
    assert(texts(args@) =~= spec_objcopy_args(objcopy_arch, elf, bin, text_only));
    args
}

} // verus!
