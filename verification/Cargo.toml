[package]
name = "autoeq"
version = "0.1.0"
edition = "2021"
publish = false

[dependencies]
urlencoding = "=2.1.3"
serde = { version = "=1.0.229", features = ["derive"] }
serde_json = "=1.0.154"
clap = { version = "=4.6.7", features = ["derive"] }
tokio = { version = "=1.54.1", features = ["rt-multi-thread", "macros", "fs", "time"] }
reqwest = { version = "=0.12.28", default-features = false, features = ["json", "rustls-tls"] }
hound = "=3.5.1"
symphonia = "=0.5.5"
symphonia-bundle-flac = "=0.5.5"
symphonia-bundle-mp3 = "=0.5.5"
symphonia-codec-pcm = "=0.5.5"
symphonia-codec-aac = "=0.5.5"
symphonia-codec-vorbis = "=0.5.5"
symphonia-format-riff = "=0.5.5"
symphonia-format-ogg = "=0.5.5"
symphonia-format-isomp4 = "=0.5.5"
cpal = "=0.15.3"
rand = "0.9"
num_cpus = "1"
