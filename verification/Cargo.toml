[package]
name = "sql_ddl_to_json_schema"
version = "0.2.1"
edition = "2021"
publish = false

[dependencies]
serde_json = { version = "1", features = ["preserve_order"] }
