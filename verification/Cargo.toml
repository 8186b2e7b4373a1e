[package]
name = "chew_tts"
version = "0.1.0"
edition = "2021"
publish = false

[dependencies]
anyhow = "1"
byteorder = "1"
candle-core = { version = "*", default-features = false }
cudarc = { version = "*", default-features = false, features = ["std", "driver", "nvrtc", "cublas", "f16", "cuda-12080", "dynamic-loading"] }
half = "2"
memmap2 = "0.9"
rustfft = "6"
serde = { version = "1", features = ["derive"] }
serde_json = "1"
thiserror = "2"
tokenizers = { version = "*", default-features = false, features = ["onig"] }
unicode-normalization = "0.1"
zip = { version = "*", default-features = false, features = ["deflate"] }
