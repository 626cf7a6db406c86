[package]
name = "source_generator"
version = "0.1.0"
edition = "2021"
publish = false

[dependencies]
chrono = "*"
itertools = "*"
linked-hash-map = "*"
linked_hash_set = "*"
serde = "*"
serde_derive = "*"
serde_json = "*"
serde-json-schema = "*"
