[package]
name = "juliaset"
version = "0.1.0"
edition = "2021"
publish = false

[dependencies]
num = "0.4"
colorous = "1"
num_cpus = "1"
rayon = "1"
rand = "0.8"
getopts = "0.2"
crossbeam = "0.8"
csv = "1"
image = "0.24"
num-traits = "0.2"

[dev-dependencies]
regex = "1"
num-bigint = "0.4"
