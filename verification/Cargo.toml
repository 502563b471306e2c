[package]
name = "hushpaperlib"
version = "0.1.0"
edition = "2021"
publish = false

[dependencies]
base58 = "=0.2.0"
bech32 = "=0.9.1"
hex = "=0.4.3"
json = "=0.12.4"
libsecp256k1 = "=0.7.2"
rand = "=0.6.5"
ripemd160 = "=0.9.1"
sha2 = "=0.10.9"
sapling-crypto = "=0.9.0"
zip32 = "*"
clap = "=2.34.0"
printpdf = "=0.5.3"
qrcode = "=0.12.0"
