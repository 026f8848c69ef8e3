[package]
name = "sheetable"
version = "0.1.0"
edition = "2021"
publish = false

[dependencies]
a1_notation = "=0.6.3"
anyhow = "=1.0.104"
dotenv = "=0.15.0"
google-sheets4 = { version = "=7.0.0", features = ["yup-oauth2-service-account"] }
serde_json = "=1.0.154"
thiserror = "=2.0.21"
tokio = { version = "=1.54.1", features = ["macros", "rt-multi-thread", "sync"] }
