[package]
name = "rust_url"
version = "0.1.0"
edition = "2021"
publish = false

[dependencies]
anyhow = "1"
base64 = "0.21"
clap = "4"
cxx = "1"
env_logger = "0.10"
fastly-api = "*"
futures = "0.3"
httpdate = "1"
indicatif = "0.17"
log = "0.4"
percent-encoding = "2"
phf = { version = "0.11", features = ["macros"] }
rasn = "*"
reqwest = { version = "0.11", default-features = false, features = ["json", "stream"] }
serde = { version = "1", features = ["derive"] }
serde_derive = "1"
serde_json = "1"
sha2 = "0.10"
simple-error = "0.3"
structopt = "0.3"
tempfile = "3"
tokio = { version = "1", features = ["rt-multi-thread", "macros", "fs"] }
toml_edit = "0.19"
tree-sitter = "0.20"
tree-sitter-javascript = "0.20"
url = "=2.5.8"
walkdir = "2"
