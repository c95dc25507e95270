[package]
name = "tinybrowser"
version = "0.1.0"
edition = "2021"
publish = false

[dependencies]
aes = "0.8"
aes-gcm = "0.10"
base64 = "0.22"
cbc = { version = "0.1", features = ["alloc"] }
ctr = "0.9"
deno_error = "*"
encoding_rs = "0.8"
getrandom = "0.2"
hkdf = "0.12"
hmac = "0.12"
html5ever = "*"
pbkdf2 = "0.12"
psl = "2"
reqwest = { version = "0.12", default-features = false }
rquickjs = { version = "*", features = ["loader", "macro"] }
serde = { version = "1", features = ["derive"] }
serde_json = "1"
sha1 = "0.10"
sha2 = "0.10"
tokio = { version = "1", features = ["rt", "sync", "time", "net"] }
tracing = "0.1"
url = "2"
