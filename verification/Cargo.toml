[package]
name = "osshkeys"
version = "0.1.0"
edition = "2021"
publish = false

[dependencies]
pem = "=4.0.0"
bcrypt-pbkdf = "=0.11.0"
aes = "=0.9.3"
ctr = "=0.10.1"
cbc = { version = "=0.2.1", features = ["alloc"] }
des = "=0.9.0"
cipher = { version = "=0.5.2", features = ["block-padding", "alloc"] }
zeroize = "=1.9.0"
openssl = "=0.10.81"
ed25519-dalek = "=3.0.0"
