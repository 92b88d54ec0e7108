[package]
name = "usbcan-2eu"
version = "0.1.0"
edition = "2021"
publish = false

[dependencies]
clap = { version = "4", features = ["derive"] }
embedded-can = "0.4"
libc = "0.2"
objc2 = "0.6"
objc2-core-foundation = "0.3"
objc2-foundation = "0.3"
objc2-io-kit = "0.3"
objc2-io-usb-host = "0.3"
serde = { version = "1", features = ["derive"] }
thiserror = "2"
tracing = "0.1"
tracing-subscriber = { version = "0.3", features = ["env-filter"] }
