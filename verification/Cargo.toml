[package]
name = "arceos_guestaspace"
version = "0.1.0"
edition = "2021"
publish = false

[dependencies]
axhal = { version = "0.3.0-preview.3", default-features = false }
axio = { version = "*", default-features = false }
axlog = { version = "0.3.0-preview.3", default-features = false }
axmm = { version = "0.3.0-preview.3", default-features = false }
axstd = { version = "0.3.0-preview.3", default-features = false }
clap = { version = "4", default-features = false, features = ["derive", "std"] }
fatfs = { version = "0.3", default-features = false, features = ["std", "alloc"] }
memory_addr = "*"
riscv = "*"
tock-registers = "*"
