[package]
name = "tracedis"
version = "0.1.0"
edition = "2021"
publish = false

[dependencies]
iced-x86 = { version = "1", default-features = false, features = ["std", "decoder", "fast_fmt"] }
structopt = "0.3"
