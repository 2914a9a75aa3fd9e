[package]
name = "zkp_auth"
version = "0.1.0"
edition = "2021"
publish = false

[dependencies]
num = "0.4"
num-bigint = { version = "0.4", features = ["rand"] }
num-traits = "0.2"
rand = "0.8"
rpassword = "7"
prost = "0.13"
sqlx = { version = "0.7", default-features = false, features = ["postgres", "runtime-tokio"] }
tokio = { version = "1", features = ["macros", "rt-multi-thread"] }
tonic = "0.12"
