[package]
name = "bbox"
version = "0.1.0"
edition = "2021"
publish = false

[dependencies]
actix-web = { version = "4", default-features = false, features = ["macros"] }
async-trait = "0.1"
bincode = "1"
chrono = "0.4"
dyn-clone = "1"
log = "0.4"
serde = { version = "1", features = ["derive"] }
serde_json = "1"
serde_urlencoded = "0.7"
sqlx = { version = "0.7", default-features = false, features = ["postgres", "runtime-tokio"] }
thiserror = "1"
tile-grid = "*"
