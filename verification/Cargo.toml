[package]
name = "avisaver"
version = "0.1.0"
edition = "2021"
publish = false

[dependencies]
rand = "=0.9.5"
rosc = "=0.11.4"
serde = { version = "=1.0.229", features = ["derive"] }
serde_json = "=1.0.154"
toml = "=0.9.12"
tokio = { version = "=1.54.1", features = ["rt-multi-thread", "macros", "net", "sync", "time", "fs", "io-util"] }
tokio-stream = "=0.1.19"
hyper = { version = "=1.12.0", features = ["server", "http1", "http2"] }
hyper-util = { version = "=0.1.21", features = ["server", "server-auto", "server-graceful", "tokio", "http1", "http2"] }
searchlight = "=0.3.2"
thiserror = "=2.0.21"
tracing = "=0.1.44"
tracing-subscriber = { version = "=0.3.23", default-features = false, features = ["fmt", "std", "ansi", "smallvec"] }
directories = "=6.0.0"
iced = { version = "=0.14.0", default-features = false, features = ["tokio", "svg", "x11", "tiny-skia"] }
