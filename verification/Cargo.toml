[package]
name = "spotdora"
version = "0.1.0"
edition = "2021"
publish = false

[dependencies]
url = "2"
serde = { version = "1", features = ["derive"] }
serde_json = "1"
isahc = "1"
tokio = { version = "1", features = ["net", "io-util", "rt", "time", "sync"] }
oauth2 = { version = "4", default-features = false, features = ["reqwest"] }
log = "0.4"
thiserror = "1"
gtk4 = "0.9"
libadwaita = { version = "0.7", features = ["v1_5"] }
gio = "0.20"
glib = "0.20"
gettext-rs = "0.7"
