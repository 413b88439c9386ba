[package]
name = "get_url"
version = "0.1.0"
edition = "2021"
publish = false

[dependencies]
conv = "0.3"
log = "0.4"
url = "2"
winapi = { version = "0.3", features = ["errhandlingapi", "minwindef", "wininet"] }
wio = "0.2"

[dev-dependencies]
rustc-serialize = "0.3"
serde_json = "1"
