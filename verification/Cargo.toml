[package]
name = "gemview"
version = "0.1.0"
edition = "2021"
publish = false

[dependencies]
base64 = "*"
urlencoding = "*"
url = "*"
tree_magic_mini = "*"
native-tls = "*"
mime_open = "*"
