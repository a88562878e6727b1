[package]
name = "fireplan_alert"
version = "0.1.0"
edition = "2021"
publish = false

[dependencies]
anyhow = "1"
chrono = "0.4"
derive-getters = "0.5"
homedir = "0.3"
icalendar = "0.16"
imap = "2"
log = "0.4"
mail-parser = "*"
native-tls = "0.2"
regex = "1"
reqwest = { version = "0.12", default-features = false, features = ["blocking"] }
serde = "1"
serde_derive = "1"
serde_json = "1"
simplelog = "0.12"
toml = "0.8"
