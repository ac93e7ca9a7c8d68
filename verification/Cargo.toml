[package]
name = "wopt"
version = "0.1.0"
edition = "2021"
publish = false

[dependencies]
convert_case = "*"
enum-unit-core = "*"
bytemuck = "*"
