[package]
name = "convco"
version = "0.1.0"
edition = "2021"
publish = false

[dependencies]
regex = "1"
semver = "1"
url = "2"
jiff = "*"
strsim = "0.11"
anyhow = "1"
bstr = "1"
clap = { version = "4", features = ["derive", "env"] }
ctrlc = "3"
dialoguer = "*"
git2 = { version = "*", default-features = false }
handlebars = "*"
serde = { version = "1", features = ["derive"] }
serde_norway = "*"
thiserror = "*"
walkdir = "2"
