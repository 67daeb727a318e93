[package]
name = "dipole_oracle"
version = "0.1.0"
edition = "2021"
publish = false

[dependencies]
parity-scale-codec = "=1.3.7"
sp-io = "=2.0.1"
# Not called by this crate: holds sp-core 2.0.1 (under sp-io) to the
# substrate-bip39 release it was built against; later releases pull a
# schnorrkel that sp-core 2.0.1 does not compile with.
substrate-bip39 = "=0.4.2"
