use arceos_guestaspace::tooling::{
    arch_info, create_pflash_image, kernel_build_args, objcopy_args, payload_build_args,
    pflash_image, pflash_size, project_root, qemu_args, qemu_program, same_text, ArchInfo,
};

#[test]
fn project_root_is_the_manifest_directory() {
    assert_eq!(project_root("/work/arceos-guestaspace/xtask"), "/work/arceos-guestaspace/xtask");
    assert_eq!(project_root("."), ".");
}

#[test]
fn arch_info_knows_three_architectures() {
    assert_eq!(
        arch_info("riscv64"),
        Some(ArchInfo {
            target: "riscv64gc-unknown-none-elf",
            platform: "riscv64-qemu-virt",
            objcopy_arch: "riscv64"
        })
    );
    assert_eq!(
        arch_info("aarch64"),
        Some(ArchInfo {
            target: "aarch64-unknown-none-softfloat",
            platform: "aarch64-qemu-virt",
            objcopy_arch: "aarch64"
        })
    );
    assert_eq!(
        arch_info("x86_64"),
        Some(ArchInfo { target: "x86_64-unknown-none", platform: "x86-pc", objcopy_arch: "x86_64" })
    );
    assert_eq!(arch_info("loongarch64"), None);
    assert_eq!(arch_info(""), None);
    assert_eq!(arch_info("riscv64 "), None);
    assert_eq!(arch_info("RISCV64"), None);
}

#[test]
fn same_text_compares_bytes() {
    assert!(same_text("", ""));
    assert!(same_text("abc", "abc"));
    assert!(!same_text("abc", "abd"));
    assert!(!same_text("abc", "ab"));
    assert!(!same_text("ab", "abc"));
}

#[test]
fn pflash_sizes() {
    assert_eq!(pflash_size("riscv64"), 32 * 1024 * 1024);
    assert_eq!(pflash_size("aarch64"), 64 * 1024 * 1024);
    assert_eq!(pflash_size("x86_64"), 4 * 1024 * 1024);
    assert_eq!(pflash_size("other"), 4 * 1024 * 1024);
}

#[test]
fn pflash_image_is_erased_flash_with_the_magic() {
    let image = pflash_image(16);
    assert_eq!(&image[..4], b"pfld");
    assert_eq!(&image[4..], &[0xFFu8; 12]);
    assert_eq!(pflash_image(4), b"pfld".to_vec());
    let image = create_pflash_image("x86_64");
    assert_eq!(image.len(), 4 * 1024 * 1024);
    assert_eq!(&image[..4], b"pfld");
    assert!(image[4..].iter().all(|b| *b == 0xFF));
    assert_eq!(u32::from_le_bytes([image[0], image[1], image[2], image[3]]), 0x646c_6670);
}

#[test]
fn qemu_program_is_named_after_the_architecture() {
    assert_eq!(qemu_program("riscv64"), "qemu-system-riscv64");
    assert_eq!(qemu_program("x86_64"), "qemu-system-x86_64");
}

#[test]
fn qemu_args_for_riscv64_with_the_flash_bank() {
    let args = qemu_args("riscv64", "k.elf", "k.bin", "disk.img", Some("pf.img")).unwrap();
    assert_eq!(
        args,
        vec![
            "-m",
            "128M",
            "-smp",
            "1",
            "-nographic",
            "-machine",
            "virt",
            "-bios",
            "default",
            "-kernel",
            "k.bin",
            "-drive",
            "if=pflash,format=raw,unit=1,file=pf.img,readonly=on",
            "-drive",
            "file=disk.img,format=raw,if=none,id=disk0",
            "-device",
            "virtio-blk-pci,drive=disk0",
        ]
    );
    let args = qemu_args("riscv64", "k.elf", "k.bin", "disk.img", None).unwrap();
    assert_eq!(args.len(), 15);
    assert!(!args.iter().any(|a| a.contains("pflash")));
}

#[test]
fn qemu_args_for_aarch64_and_x86_64() {
    let args = qemu_args("aarch64", "k.elf", "k.bin", "d", Some("pf.img")).unwrap();
    assert_eq!(
        args,
        vec![
            "-m",
            "128M",
            "-smp",
            "1",
            "-nographic",
            "-cpu",
            "max",
            "-machine",
            "virt,virtualization=on",
            "-kernel",
            "k.bin",
            "-drive",
            "file=d,format=raw,if=none,id=disk0",
            "-device",
            "virtio-blk-pci,drive=disk0",
        ]
    );
    let args = qemu_args("x86_64", "k.elf", "k.bin", "d", None).unwrap();
    assert_eq!(
        args[5..11].to_vec(),
        vec!["-machine", "q35", "-cpu", "EPYC", "-kernel", "k.elf"]
    );
    assert_eq!(qemu_args("mips", "a", "b", "c", None), None);
}

#[test]
fn build_and_objcopy_arguments() {
    assert_eq!(
        payload_build_args("p/Cargo.toml", "x86_64-unknown-none"),
        vec!["build", "--release", "--manifest-path", "p/Cargo.toml", "--target", "x86_64-unknown-none"]
    );
    assert_eq!(
        kernel_build_args("Cargo.toml", "riscv64gc-unknown-none-elf"),
        vec![
            "build",
            "--release",
            "--target",
            "riscv64gc-unknown-none-elf",
            "--features",
            "axstd",
            "--manifest-path",
            "Cargo.toml"
        ]
    );
    assert_eq!(
        objcopy_args("aarch64", "g", "g.bin", true),
        vec![
            "--binary-architecture=aarch64",
            "--only-section=.text",
            "g",
            "--strip-all",
            "-O",
            "binary",
            "g.bin"
        ]
    );
    assert_eq!(
        objcopy_args("riscv64", "k", "k.bin", false),
        vec!["--binary-architecture=riscv64", "k", "--strip-all", "-O", "binary", "k.bin"]
    );
}
