[package]
name = "gitara"
version = "0.1.0"
edition = "2021"
publish = false

[dependencies]
anyhow = "1"
directories = "*"
git2 = { version = "*", default-features = false }
gix = { version = "*", default-features = false, features = ["sha1"] }
libc = "0.2"
serde = { version = "1", features = ["derive"] }
serde_json = "1"
time = { version = "0.3", features = ["std"] }
tiny-skia = "*"
tracing = "0.1"
tracing-subscriber = { version = "0.3", features = ["env-filter"] }
