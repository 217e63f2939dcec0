[package]
name = "fuelmint"
version = "0.1.0"
edition = "2021"
publish = false

[dependencies]
async-graphql = "4.0"
fuel-core-types = "0.17"
hex = "0.4"
reqwest = { version = "0.11", default-features = false }
tendermint-rpc = "0.31"
