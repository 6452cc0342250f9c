[package]
name = "qubee"
version = "0.2.0"
edition = "2021"
publish = false

[dependencies]
blake3 = { version = "1", default-features = false, features = ["std", "pure"] }
hkdf = "0.12"
sha2 = "0.10"
chacha20poly1305 = "0.10"
x25519-dalek = { version = "2", features = ["static_secrets"] }
ed25519-dalek = "2"
pqcrypto-kyber = "0.8"
pqcrypto-dilithium = "0.5"
pqcrypto-traits = "0.3"
subtle = "2"
rand = "0.8"
rand_chacha = "0.3"
getrandom = "0.2"
zeroize = "1"
secrecy = "0.8"
hex = "0.4"
base64 = "0.21"
crc32fast = "1"
serde = { version = "1", features = ["derive"] }
bincode = "1"
thiserror = "1"
anyhow = "1"
tokio = { version = "1", features = ["rt", "macros", "net", "time", "fs", "io-util", "sync"] }
tracing = "0.1"
tracing-subscriber = { version = "0.3", features = ["env-filter"] }
dirs = "5"
libc = "0.2"

[dev-dependencies]
tempfile = "3"
