[package]
name = "vid_launcher"
version = "0.1.0"
edition = "2021"
publish = false

[dependencies]
md5 = "=0.8.1"
rand = "=0.9.5"
async-fs = "=2.2.0"
async-io = "=2.6.0"
async-process = "=2.5.0"
iced = { version = "=0.14.0", default-features = false, features = ["image", "tiny-skia", "x11", "thread-pool"] }
