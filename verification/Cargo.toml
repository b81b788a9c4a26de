[package]
name = "passivized_htpasswd"
version = "0.1.0"
edition = "2021"
publish = false

[dependencies]
bcrypt = "*"
indexmap = "*"
pwhash = "1"
thiserror = "1"
