[package]
name = "notion_picker"
version = "0.1.0"
edition = "2021"
publish = false

[dependencies]
anyhow = "1"
async-trait = "0.1"
notion = "*"
rand = "0.8"
tokio = { version = "1", features = ["macros", "rt-multi-thread"] }
