[package]
name = "obscura_js"
version = "0.1.0"
edition = "2021"
publish = false

[dependencies]
aes = "=0.8.4"
aes-gcm = "=0.10.3"
base64 = "=0.22.1"
cbc = { version = "=0.1.2", features = ["alloc"] }
ctr = "=0.9.2"
encoding_rs = "=0.8.44"
getrandom = "=0.2.17"
hkdf = "=0.12.4"
hmac = "=0.12.1"
pbkdf2 = "=0.12.2"
sha1 = "=0.10.7"
sha2 = "=0.10.9"
serde_json = "=1.0.154"
url = "=2.5.8"
urlencoding = "=2.1.3"
rquickjs = { version = "=0.12.2", features = ["loader"] }
tokio = { version = "=1.54.1", features = ["rt", "rt-multi-thread", "sync", "macros", "time"] }
reqwest = { version = "=0.12.28", default-features = false }
tracing = "=0.1.44"
jni = "=0.21.1"
