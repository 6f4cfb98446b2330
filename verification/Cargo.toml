[package]
name = "sp1_sdk"
version = "0.1.0"
edition = "2021"
publish = false

[dependencies]
hashbrown = "=0.14.5"
allocator-api2 = "=0.2.21"
ahash = "=0.8.12"
p3-baby-bear = "=0.2.2-succinct"
p3-field = "=0.2.2-succinct"
p3-fri = "=0.2.2-succinct"
p3-commit = "=0.2.2-succinct"
p3-matrix = "=0.2.2-succinct"
p3-symmetric = "=0.2.2-succinct"
sp1-stark = "=4.2.1"
sp1-primitives = "=4.2.1"
anyhow = "=1.0.104"
