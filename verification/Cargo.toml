[package]
name = "imagebed"
version = "0.1.0"
edition = "2021"
publish = false

[dependencies]
sha2 = "*"
new_mime_guess = "*"
actix-web = "*"
actix-multipart = "*"
actix-cors = "*"
futures-util = "*"
log = "*"
log4rs = "*"
clap = { version = "*", features = ["derive"] }
serde = "*"
serde_derive = "*"
toml = "*"
