[package]
name = "contract_runtime"
version = "0.1.0"
edition = "2021"
publish = false

[dependencies]
anyhow = "*"
argparse = "*"
serde = { version = "*", features = ["derive"] }
envconfig = "*"
thiserror = "*"
log = "*"
actix-web = { version = "*", default-features = false, features = ["macros"] }
actix-multipart = "*"
futures = "*"
tokio = { version = "*", features = ["sync"] }
tonic = { version = "*", default-features = false }
zip = { version = "*", default-features = false, features = ["deflate"] }
infer = "*"
byteorder = "*"
rocksdb = { version = "*", default-features = false }
