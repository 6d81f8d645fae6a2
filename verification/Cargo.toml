[package]
name = "bestmatch"
version = "0.1.0"
edition = "2021"
publish = false

[dependencies]
jieba-rs = "=0.7.4"
pgrx = { version = "=0.12.9", features = ["pg15"] }
tiktoken-rs = "=0.12.1"
tiniestsegmenter = "=0.3.0"
tokenizers = { version = "=0.23.2", features = ["http"] }
