[package]
name = "ldap_directory"
version = "0.1.0"
edition = "2021"
publish = false

[dependencies]
anyhow = "1"
bytes = "1"
rand = "0.8"
rasn = "*"
rasn-ldap = "*"
thiserror = "1"
