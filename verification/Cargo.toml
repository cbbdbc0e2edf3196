[package]
name = "ditto_checker"
version = "0.1.0"
edition = "2021"
publish = false

[dependencies]
dprint-core = { version = "=0.71.1", default-features = false, features = ["formatting"] }
clap = "=3.2.25"
miette = { version = "=5.10.0", features = ["fancy"] }
serde = { version = "=1.0.229", features = ["derive"] }
serde_json = "=1.0.154"
ciborium = "=0.2.2"
semver = { version = "=1.0.28", features = ["serde"] }
time = { version = "=0.3.55", features = ["formatting", "parsing"] }
notify = "=5.2.0"
fs2 = "=0.4.3"
console = "=0.15.11"
clearscreen = "=5.0.0"
log = "=0.4.34"
pathdiff = "=0.2.3"
path-slash = "=0.2.1"
toml = "0.5"
