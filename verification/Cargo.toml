[package]
name = "lyric_sync"
version = "0.1.0"
edition = "2021"
publish = false

[dependencies]
colored = "2"
glob = "0.3"
rodio = "0.19"
tokio = { version = "1", features = ["macros", "rt-multi-thread", "time"] }
