[package]
name = "capsa"
version = "0.1.0"
edition = "2021"
publish = false

[dependencies]
anyhow = "1"
async-openai = { version = "0.33", default-features = false, features = ["embedding", "rustls"] }
axum = { version = "0.8", default-features = false, features = ["http1", "tokio"] }
clap = { version = "4", features = ["derive"] }
futures = "0.3"
libsql = { version = "0.9", default-features = false, features = ["core"] }
lopdf = { version = "0.39", default-features = false, features = ["rayon"] }
lru = "0.16"
lz4_flex = "0.12"
quick-xml = "0.37"
rayon = "1"
rmcp = { version = "1", default-features = false, features = ["server", "macros", "transport-streamable-http-server"] }
secrecy = "0.10"
serde = { version = "1", features = ["derive"] }
serde_json = "1"
text-splitter = { version = "0.29", features = ["tokenizers"] }
thiserror = "2"
tokenizers = { version = "0.22", default-features = false, features = ["onig", "http"] }
tokio = { version = "1", features = ["rt", "rt-multi-thread", "macros", "sync", "signal", "net"] }
tokio-util = "0.7"
tower-http = { version = "0.6", features = ["trace"] }
tracing = "0.1"
tracing-subscriber = { version = "0.3", features = ["env-filter"] }
zip = { version = "7", default-features = false, features = ["deflate"] }
