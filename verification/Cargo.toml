[package]
name = "service"
version = "0.1.0"
edition = "2021"
publish = false

[dependencies]
anyhow = "1"
async-trait = "0.1"
axum = "0.8"
bytes = "1"
chromiumoxide = { version = "0.9", default-features = false }
chrono = "0.4"
futures = "0.3"
hex = "0.4"
image = { version = "0.25", default-features = false, features = ["png"] }
object_store = { version = "0.12", default-features = false, features = ["aws"] }
sea-orm = { version = "1.1", default-features = false, features = ["macros", "with-uuid", "with-chrono", "with-json"] }
serde = { version = "1", features = ["derive"] }
serde_json = "1"
sha2 = "0.10"
tempfile = "3"
thiserror = "2"
tokio = { version = "1", features = ["rt-multi-thread", "macros", "net", "time", "fs", "sync"] }
tokio-util = { version = "0.7", features = ["io"] }
tower-http = { version = "0.6", features = ["fs"] }
tracing = "0.1"
uuid = { version = "1", features = ["v4", "v5"] }
zip = { version = "4", default-features = false, features = ["deflate"] }
