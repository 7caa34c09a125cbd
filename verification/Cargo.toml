[package]
name = "intel-mkl-tool"
version = "0.8.1"
edition = "2021"
publish = false

[dependencies]
anyhow = "1"
colored = "*"
curl = "*"
dirs = "*"
env_logger = "*"
glob = "*"
log = "0.4"
oci-spec = "*"
ocipkg = "*"
pkg-config = "*"
structopt = "0.3"
tar = "*"
walkdir = "2"
zstd = "*"
