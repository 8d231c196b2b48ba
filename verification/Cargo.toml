[package]
name = "slm_inference"
version = "0.1.0"
edition = "2021"
publish = false

[dependencies]
quick-xml = "*"
zip = { version = "*", default-features = false, features = ["deflate"] }
whatlang = "*"
serde_json = "1"
serde = { version = "1", features = ["derive"] }
schemars = "*"
strum = { version = "*", features = ["derive"] }
llguidance = "*"
toktrie = "*"
anyhow = "1"
thiserror = "*"
tokio = { version = "1", features = ["sync", "rt"] }
hf-hub = { version = "*", default-features = false, features = ["ureq"] }
tracing = "*"
