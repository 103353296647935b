[package]
name = "russ"
version = "0.6.0"
edition = "2021"
publish = false

[dependencies]
anyhow = "1"
atom_syndication = "0.12"
chrono = "0.4"
clap = { version = "4", features = ["derive"] }
crossterm = "*"
diligent-date-parser = "0.1"
directories = "*"
html-escape = "0.2"
num_cpus = "1"
r2d2 = "0.8"
r2d2_sqlite = "*"
ratatui = "*"
rss = "2"
rusqlite = { version = "*", features = ["bundled", "chrono"] }
tokio = { version = "1", features = ["macros", "rt-multi-thread", "sync", "time"] }
ureq = "3"
