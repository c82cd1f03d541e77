[package]
name = "phoneme_align"
version = "0.1.0"
edition = "2021"
publish = false

[dependencies]
anyhow = "1"
clap = { version = "4", features = ["derive"] }
dasp = { version = "0.11", features = ["signal", "interpolate", "interpolate-sinc", "ring_buffer"] }
hound = "3"
jpreprocess = "=0.4.0"
jpreprocess-jpcommon = "=0.4.0"
