[package]
name = "pbs_lookup"
version = "0.1.0"
edition = "2021"
publish = false

[dependencies]
concrete-core = { version = "=1.0.2", features = ["backend_default", "backend_fft", "backend_default_serialization", "backend_fft_serialization", "seeder_unix"] }
concrete-shortint = "=0.1.1"
bincode = "=1.3.3"
