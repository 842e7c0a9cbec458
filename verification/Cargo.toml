[package]
name = "draft_claw"
version = "0.1.0"
edition = "2021"
publish = false

[dependencies]
indicium = { version = "=0.5.2", default-features = false, features = ["simple"] }
kstring = "=2.0.0"
strsim = "=0.11.1"
itertools = "=0.15.0"
serde = { version = "=1.0.229", features = ["derive"] }
serde_json = "=1.0.154"
chrono = "=0.4.45"
directories = "=6.0.0"
dotenv = "=0.15.0"
nanoid = "=0.5.0"
shlex = "=1.3.0"
clap = "=4.6.7"
tokio = { version = "=1.54.1", features = ["full"] }
terminal-menu = "=3.1.0"
