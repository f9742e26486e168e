[package]
name = "fflonk_decider"
version = "0.1.0"
edition = "2021"
publish = false

[dependencies]
ark-bn254 = "=0.6.0"
ark-ec = "=0.6.0"
ark-ff = "=0.6.0"
ark-poly = "=0.6.0"
ark-serialize = "=0.6.0"
ark-std = { version = "=0.6.0", features = ["std"] }
ark-relations = "=0.6.0"
ark-r1cs-std = "=0.6.0"
w3f-pcs = { version = "=0.0.7", features = ["std"] }

[dev-dependencies]
ark-grumpkin = "=0.6.0"
