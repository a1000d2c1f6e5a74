[package]
name = "hx-lsp"
version = "0.1.0"
edition = "2021"
publish = false

[dependencies]
aho-corasick = "1"
anyhow = "1"
async-lsp = { version = "0.2", features = ["tokio"] }
comrak = { version = "*", default-features = false }
convert_case = "*"
copypasta = "*"
etcetera = "*"
futures = "0.3"
json_comments = "*"
miette = "*"
parking_lot = "0.12"
rand = "0.9"
ropey = "1.6"
serde = { version = "1", features = ["derive"] }
serde_json = "1"
thiserror = "*"
time = { version = "0.3", features = ["formatting", "local-offset", "parsing"] }
tokio = { version = "1", features = ["macros", "rt", "time", "io-std", "io-util"] }
tokio-util = { version = "0.7", features = ["compat"] }
tower = "*"
tracing = "0.1"
tracing-subscriber = "0.3"
unicode-general-category = "*"
unicode-width = "*"
uuid = { version = "1", features = ["v4"] }
which = "*"
