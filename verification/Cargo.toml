[package]
name = "move-llvm-ir"
version = "0.1.0"
edition = "2021"
publish = false

[dependencies]
execute = "=0.2.15"
inkwell = { version = "=0.5.0", features = ["llvm14-0-force-dynamic"] }
