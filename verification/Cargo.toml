[package]
name = "hc_ops"
version = "0.1.0"
edition = "2021"
publish = false

[dependencies]
anyhow = "=1.0.104"
base64 = "=0.22.1"
clap = { version = "=4.6.7", features = ["derive"] }
dialoguer = "=0.11.0"
diesel = { version = "=2.3.14", features = ["sqlite"] }
diesel_migrations = "2.3"
futures = "0.3"
holochain_serialized_bytes = "=0.0.57"
holochain_zome_types = "=0.7.1"
human_bytes = "=0.4.3"
nom = "=8.0.0"
proc-ctl = "0.4"
rpassword = "=7.5.4"
serde = { version = "=1.0.228", features = ["derive"] }
serde_json = "=1.0.154"
sodoken = "=0.1.0"
tabled = "=0.22.0"
thiserror = "=2.0.21"
tokio = { version = "=1.54.1", features = ["full"] }
xdg = "3"

[dev-dependencies]
rand = "=0.9.5"
