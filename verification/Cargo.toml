[package]
name = "fmt_sentinel"
version = "0.1.0"
edition = "2021"
publish = false

[dependencies]
comrak = "*"
failure = "*"
git-version = "*"
htmlescape = "*"
log = "*"
orca = "*"
rand = "*"
simple_logger = "*"
