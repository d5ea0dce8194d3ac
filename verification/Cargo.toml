[package]
name = "malachitebft"
version = "0.1.0"
edition = "2021"
publish = false

[dependencies]
async-trait = "0.1"
asynchronous-codec = "0.7"
byteorder = "1.5"
bytes = "1"
bytesize = "1.3"
ed25519-consensus = "2.1"
eyre = "0.6"
futures = "0.3"
itertools = "0.14"
libp2p = { version = "0.56", default-features = false, features = ["gossipsub", "identify", "kad", "request-response", "macros", "ed25519"] }
libp2p-broadcast = "0.3"
prometheus-client = "0.23"
rand = "0.8"
serde = { version = "1", features = ["derive"] }
signature = "2.2"
thiserror = "2"
tokio = { version = "1", features = ["sync", "time", "rt", "macros"] }
tracing = "0.1"
unsigned-varint = { version = "0.8", features = ["codec", "asynchronous_codec"] }
zeroize = "1.8"
