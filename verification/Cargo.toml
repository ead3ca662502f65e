[package]
name = "git_lab"
version = "0.1.0"
edition = "2021"
publish = false

[dependencies]
slugify = "*"
git2 = "*"
chrono = "*"
humantime = "*"
url = "*"
