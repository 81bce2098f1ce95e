[package]
name = "ars"
version = "0.1.0"
edition = "2021"
publish = false

[dependencies]
adblock = { version = "=0.8.12", default-features = false, features = ["embedded-domain-resolver", "full-regex-handling"] }
attohttpc = "=0.31.0"
# Not used directly. adblock stores snapshots with rmp-serde 0.15, which does
# not compile against rmp 0.8.15 and later: this line holds rmp at 0.8.14.
rmp = "=0.8.14"
