[package]
name = "office_queue"
version = "0.1.0"
edition = "2021"
publish = false

[dependencies]
uuid = { version = "*", features = ["v4"] }
serde = { version = "*", features = ["derive"] }
actix-web = "*"
actix-files = "*"
tokio = { version = "*", features = ["macros", "rt-multi-thread", "sync"] }
structopt = "*"
crossterm = "*"
ratatui = "*"
log = "*"
dirs = "*"
