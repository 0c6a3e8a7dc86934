[package]
name = "discord_lite"
version = "0.3.0"
edition = "2021"
publish = false

[dependencies]
aes = "0.8"
aes-gcm = "0.10"
anyhow = "1"
audiopus = "=0.3.0-rc.0"
base64 = "0.22"
chacha20poly1305 = "0.10"
cpal = "0.15"
directories = "5"
fltk = "1.4"
futures-util = { version = "0.3", default-features = false, features = ["sink", "std"] }
ghash = "0.5"
hmac = "0.12"
keyring = "3"
nnnoiseless = { version = "0.5", default-features = false }
openmls = "0.6"
openmls_basic_credential = "0.3"
openmls_rust_crypto = "0.3"
openmls_traits = "0.3"
rand = "0.8"
regex = "1"
reqwest = { version = "0.12", default-features = false, features = ["json", "native-tls"] }
serde = { version = "1", features = ["derive"] }
serde_json = "1"
sha2 = "0.10"
tokio = { version = "1", features = ["rt-multi-thread", "macros", "sync", "time", "net"] }
tokio-tungstenite = { version = "0.24", features = ["native-tls"] }
tracing = "0.1"
tracing-subscriber = { version = "0.3", features = ["env-filter"] }
