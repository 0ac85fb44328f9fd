[package]
name = "lazy_heap"
version = "0.1.0"
edition = "2021"

[dependencies]
slab_allocator_rs = "*"
spin = "*"
