[package]
name = "security_monitor"
version = "0.1.0"
edition = "2021"
publish = false

[dependencies]
riscv = "0.10"
riscv-decode = "*"
sbi = "*"
buddy_system_allocator = "*"
virtio-drivers = "*"
