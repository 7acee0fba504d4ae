[package]
name = "doh"
version = "0.1.1"
edition = "2021"
publish = false

[dependencies]
clap = "=2.34.0"
getch = "=0.3.1"
itertools = "=0.15.0"
kernel32-sys = "=0.2.2"
pbr = "=1.1.1"
reqwest = { version = "=0.12.28", default-features = false, features = ["blocking", "gzip", "json"] }
rfsapi = "=0.2.0"
tabwriter = "=1.4.1"
term_size = "=0.3.2"
time = "=0.1.45"
tinyfiledialogs = "=3.9.1"
url = "=1.7.2"
winapi = "=0.2.8"
