[package]
name = "privacy_bridge"
version = "0.1.0"
edition = "2021"
publish = false

[dependencies]
ark-bn254 = "=0.4.0"
ark-ff = "=0.4.2"
ark-groth16 = { version = "=0.4.0", default-features = false, features = ["std"] }
ark-r1cs-std = "=0.4.0"
ark-relations = "=0.4.0"
ark-serialize = "=0.4.2"
ark-std = "=0.4.0"
rand_chacha = "=0.3.1"
polkadot-sdk-frame = { version = "0.8", default-features = false, features = ["experimental", "runtime", "std"] }
frame-system = "39"
sp-core = "35"
sp-runtime = "40"
staging-xcm = "15"
parity-scale-codec = { version = "3.6", features = ["derive", "max-encoded-len"] }
scale-info = { version = "2.11", features = ["derive"] }
