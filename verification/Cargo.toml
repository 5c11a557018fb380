[package]
name = "subtitle_resync"
version = "0.1.0"
edition = "2021"
publish = false

[dependencies]
aligner = "=0.1.6"
clap = "=2.34.0"
encoding = "=0.2.33"
error-chain = "=0.10.0"
pbr = "=1.1.1"
subparse = "=0.3.0"
