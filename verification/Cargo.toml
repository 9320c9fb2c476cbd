[package]
name = "aprk_kernel"
version = "0.1.0"
edition = "2021"
publish = false

[dependencies]
fatfs = "0.3"
linked_list_allocator = "0.10"
spin = "0.9"
virtio-drivers = "0.7"
