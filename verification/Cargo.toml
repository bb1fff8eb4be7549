[package]
name = "brint"
version = "0.1.0"
edition = "2021"
publish = false

[dependencies]
semver = "=1.0.28"
rustpython-parser = "0.4"
rustpython-ast = "0.4"
dashmap = "=5.5.3"
tokio = { version = "1", features = ["rt", "fs", "sync", "time"] }
crossbeam = "0.8"
jwalk = "0.8"
rayon = "1"
awaitgroup = "0.7"
colored = "2"
slog = "2"
slog-async = "2"
slog-scope = "4"
slog-term = "2"
