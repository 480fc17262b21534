[package]
name = "garden"
version = "0.1.0"
edition = "2021"
publish = false

[dependencies]
yaml-rust = "=0.4.5"
glob = "=0.3.4"
shlex = "=1.3.0"
shell-words = "=1.1.1"
shellexpand = "=3.1.2"
subprocess = "=0.2.15"
dirs = "=5.0.1"
xdg = "=2.5.2"
dunce = "=1.0.5"
which = "=8.0.6"
clap = { version = "=4.6.7", features = ["derive"] }
anyhow = "=1.0.104"
yansi = "=1.0.1"
thiserror = "=1.0.69"
pathdiff = "=0.2.3"
indexmap = "=2.14.2"
rayon = "1"
