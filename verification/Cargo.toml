[package]
name = "user_ptr"
version = "0.1.0"
edition = "2021"
publish = false

[dependencies]
axerrno = "*"
memory_addr = "*"
page_table_multiarch = "*"
percpu = "*"
