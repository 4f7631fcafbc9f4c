[package]
name = "graphql_subscription_core"
version = "0.1.0"
edition = "2021"
publish = false

[dependencies]
serde_urlencoded = "0.7"
serde_json = "1.0"
futures = "0.3"
warp = "0.3"
hyper = "0.14"
