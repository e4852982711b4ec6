[package]
name = "ferrum"
version = "0.1.0"
edition = "2021"
publish = false

[dependencies]
blake2 = "=0.10.6"
sp-crypto-hashing = "=0.1.0"
ark-bls12-381 = "=0.4.0"
ark-ff = "=0.4.2"
ark-groth16 = "=0.4.0"
ark-serialize = "=0.4.2"
ark-std = { version = "=0.4.0", features = ["std"] }
sp-consensus-grandpa = "=31.0.0"
finality-grandpa = "=0.16.3"
sp-core = "=43.0.0"

[dev-dependencies]
parity-scale-codec = "=3.7.5"
ark-relations = "=0.4.0"
ark-r1cs-std = "=0.4.0"
ark-snark = "=0.4.0"
ark-crypto-primitives = { version = "=0.4.0", features = ["sponge", "r1cs"] }
