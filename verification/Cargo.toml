[package]
name = "stock_simulation"
version = "0.1.0"
edition = "2021"
publish = false

[dependencies]
chrono = "=0.4.45"
bigdecimal = { version = "=0.4.11", features = ["serde"] }
uuid = "=1.29.0"
sqlx = { version = "*", default-features = false, features = ["postgres", "runtime-tokio", "bigdecimal", "chrono", "uuid", "derive"] }
tokio = { version = "1", features = ["macros", "rt-multi-thread"] }
serde = { version = "1", features = ["derive"] }
serde_bytes = "*"
rmp-serde = "*"
redis = "*"
mongodb = "*"
apache-avro = "*"
derive_builder = "*"
flatbuffers = "*"
