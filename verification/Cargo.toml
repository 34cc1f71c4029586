[package]
name = "tms"
version = "0.1.0"
edition = "2021"
publish = false

[dependencies]
aho-corasick = "=1.1.5"
clap = { version = "=4.6.7", default-features = false, features = ["std", "cargo", "derive", "help", "usage", "error-context"] }
clap_complete = { version = "=4.6.11", features = ["unstable-dynamic"] }
config = { version = "=0.15.27", default-features = false, features = ["toml"] }
crossterm = "=0.28.1"
dirs = "=6.0.0"
gix = { version = "=0.73.0", default-features = false, features = ["attributes"] }
jj-lib = "=0.32.0"
# not called by this crate: `gix` needs it, and it is held at a release that the compiler in use builds
kstring = ">=2.0.0, <=2.0.2"
nucleo = "=0.5.0"
num_cpus = "=1.17.0"
ratatui = { version = "=0.29.0", features = ["serde"] }
reqwest = { version = "=0.12.28", default-features = false, features = ["json", "rustls-tls"] }
serde = { version = "=1.0.229", features = ["derive"] }
serde_derive = "=1.0.229"
serde_json = "=1.0.154"
shellexpand = "=3.1.2"
simd-json = "=0.18.1"
thiserror = "=2.0.21"
tokio = { version = "=1.54.1", features = ["rt-multi-thread", "macros", "fs", "process", "sync", "time"] }
toml = "=1.1.8"
