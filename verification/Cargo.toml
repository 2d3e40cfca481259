[package]
name = "debrep"
version = "0.1.0"
edition = "2021"
publish = false

[dependencies]
bus_writer = "=0.1.2"
chrono = { version = "*", default-features = false, features = ["std"] }
clap = "=4.6.7"
deb-version = "=0.1.1"
debarchive = "=0.2.1"
deflate = { version = "=1.0.0", features = ["gzip"] }
digest = "=0.11.3"
fern = "=0.7.1"
glob = "=0.3.4"
hex-view = "=0.1.3"
libc = "=0.2.191"
log = "=0.4.34"
md-5 = "=0.11.0"
rayon = "=1.12.0"
regex = "=1.13.1"
reqwest = { version = "*", default-features = false, features = ["blocking"] }
select = "*"
serde = { version = "=1.0.229", features = ["derive"] }
sha1 = "=0.11.0"
sha2 = "=0.11.1"
subprocess = "=1.2.1"
toml = "=1.1.8"
utime = "*"
walkdir = "=2.5.0"
xz2 = "=0.1.7"

[dev-dependencies]
libflate = "=2.3.2"
