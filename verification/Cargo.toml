[package]
name = "embedded2020"
version = "0.1.0"
edition = "2021"
publish = false

[dependencies]
anyhow = "=1.0.104"
colored = "=1.9.4"
ctrlc = "=3.5.2"
env_logger = "=0.7.1"
gimli = "=0.20.0"
heck = "=0.3.3"
hidapi = "=1.5.0"
log = "=0.4.35"
rustc-demangle = "=0.1.28"
rustyline = "8.2"
structopt = "=0.3.26"
svd-parser = "0.11"
xmas-elf = "=0.7.0"
