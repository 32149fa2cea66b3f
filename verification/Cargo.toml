[package]
name = "kimai_timer"
version = "0.1.0"
edition = "2021"
publish = false

[dependencies]
anyhow = "=1.0.104"
chrono = "=0.4.45"
clap = { version = "=4.6.7", features = ["derive", "env"] }
colored = "=3.1.1"
directories = "=6.0.0"
inquire = { version = "=0.9.4", features = ["date"] }
serde = { version = "=1.0.229", features = ["derive"] }
serde_json = "=1.0.154"
serde-jsonlines = "=0.7.0"
simsearch = "=0.2.5"
tabled = "=0.22.0"
time = { version = "=0.3.55", features = ["macros", "formatting", "parsing", "serde", "local-offset"] }
tracing = "=0.1.44"
tracing-subscriber = "=0.3.23"
uuid = { version = "=1.29.0", features = ["v4"] }
