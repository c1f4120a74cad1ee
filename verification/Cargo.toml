[package]
name = "livy_manager"
version = "0.1.0"
edition = "2021"
publish = false

[dependencies]
uuid = { version = "*", features = ["v4"] }
time = { version = "*", features = ["formatting"] }
percent-encoding = "*"
argparse = "*"
toml = "*"
serde = { version = "*", features = ["derive"] }
ldap3 = { version = "*", default-features = false, features = ["sync"] }
livy = "*"
