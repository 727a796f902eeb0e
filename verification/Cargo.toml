[package]
name = "jutils"
version = "0.1.0"
edition = "2021"
publish = false

[dependencies]
rand = "0.8"
regex = "1"
poise = "0.6"
serenity = "0.12"
tokio = { version = "1", features = ["macros", "rt-multi-thread", "fs", "time", "sync"] }
mongodb = "2"
bson = "2"
serde = { version = "1", features = ["derive"] }
serde_json = "1"
toml = "0.8"
chrono = "0.4"
chrono-tz = "0.9"
duration-string = "0.4"
image = { version = "0.25", default-features = false, features = ["gif", "png", "jpeg", "webp"] }
imageproc = { version = "0.25", default-features = false }
ab_glyph = "0.2"
rusttype = "0.9"
png = "0.17"
reqwest = { version = "0.12", default-features = false, features = ["blocking", "json", "rustls-tls"] }
rayon = "1"
itertools = "0.13"
once_cell = "1"
tracing = "0.1"
