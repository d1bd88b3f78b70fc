[package]
name = "wachy"
version = "0.1.0"
edition = "2021"
publish = false

[dependencies]
object = "=0.32.2"
addr2line = "=0.21.0"
cpp_demangle = "=0.5.1"
crc32fast = "=1.5.2"
zydis = "=4.1.1"
memmap2 = "=0.9.11"
log = "=0.4.34"
cursive = "=0.21.1"
cursive_table_view = "=0.15.0"
