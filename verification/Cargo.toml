[package]
name = "rust_td"
version = "0.1.0"
edition = "2021"
publish = false

[dependencies]
bitmap-allocator = "=0.4.6"
x86_64 = { version = "=0.15.5", default-features = false, features = ["instructions"] }
spin = "=0.12.3"
log = "=0.4.35"
linked_list_allocator = "=0.10.6"
x86 = "=0.52.0"
cc = "=1.11.1"
