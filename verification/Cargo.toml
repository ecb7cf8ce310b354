[package]
name = "apix"
version = "1.0.0"
edition = "2021"
publish = false

[dependencies]
tera = "=1.20.1"
serde_json = "=1.0.151"
serde_yaml = "=0.8.26"
jsonschema = { version = "=0.16.1", default-features = false }
url = "=2.5.8"
whoami = "=1.6.1"
chrono = "=0.4.45"
serde = { version = "=1.0.229", features = ["derive"] }
indexmap = { version = "=1.9.3", features = ["serde"] }
reqwest = { version = "=0.11.27", default-features = false, features = ["json", "gzip", "stream"] }
tokio = { version = "=1.53.2", features = ["fs", "io-std", "io-util", "macros", "rt-multi-thread"] }
tokio-util = { version = "=0.7.19", features = ["codec", "compat"] }
futures = "=0.3.34"
clap = "=3.2.25"
clap_complete = "=3.2.5"
dialoguer = "=0.10.4"
indicatif = "0.17"
regex = "1"
bat = { version = "=0.22.1", default-features = false, features = ["regex-fancy"] }
atty = "=0.2.14"
term_size = "=0.3.2"
anyhow = "=1.0.104"
dirs = "=4.0.0"
