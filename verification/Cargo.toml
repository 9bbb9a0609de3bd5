[package]
name = "terraces"
version = "0.1.0"
edition = "2021"
publish = false

[dependencies]
noise = { version = "=0.6.0", default-features = false }
ordered-float = "=0.5.2"
png = "=0.16.8"
rand = { version = "=0.7.3", features = ["small_rng"] }
rayon = "=1.12.0"
voronoi = "=0.1.4"
