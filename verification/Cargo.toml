[package]
name = "filter_cigars"
version = "0.1.0"
edition = "2021"
publish = false

[dependencies]
rust-htslib = { version = "=0.46.0", default-features = false }
# Not used by name. rust-htslib 0.46 reads the record's fields as the bindings
# of hts-sys 2.1.1 declare them; later 2.x releases renamed and retyped some,
# and rust-htslib 0.46 does not compile against those. The pin keeps the two
# releases that belong together.
hts-sys = { version = "=2.1.1", default-features = false }
