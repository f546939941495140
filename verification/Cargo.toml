[package]
name = "wasupdate"
version = "0.1.0"
edition = "2021"
publish = false

[dependencies]
semver = "*"
jmespath = "*"
reqwest = { version = "*", default-features = false, features = ["blocking"] }
zip = { version = "*", default-features = false, features = ["deflate"] }
tar = "*"
flate2 = "*"
clap = { version = "*", features = ["derive"] }
console = "*"
indicatif = "*"
git-version = "*"
serde = { version = "*", features = ["derive"] }
serde_json = "*"
