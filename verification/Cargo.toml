[package]
name = "checksums"
version = "0.1.0"
edition = "2021"
publish = false

[dependencies]
blake = "*"
blake2-rfc = "*"
crc = "*"
crc16 = "*"
crc8 = "*"
md5 = "*"
shaman = "*"
tiny-keccak = { version = "*", features = ["sha3"] }
