[package]
name = "floormap"
version = "0.1.0"
edition = "2021"
publish = false

[dependencies]
uuid = { version = "=1.29.1", features = ["v4"] }
chrono = { version = "=0.4.45", features = ["serde"] }
serde = { version = "=1.0.229", features = ["derive"] }
serde_json = "=1.0.154"
diesel = { version = "=1.4.8", features = ["sqlite", "chrono"] }
dotenv = "=0.15.0"
clap = "=2.34.0"
csv = "=1.4.0"
image = { version = "=0.23.14", default-features = false, features = ["png"] }
zip = { version = "=0.5.13", default-features = false }
mustache = "=0.9.0"
iron = "=0.6.1"
router = "=0.6.0"
mount = "=0.4.0"
staticfile = "=0.5.0"
urlencoded = "=0.6.0"
multipart = { version = "=0.16.1", default-features = false, features = ["server", "iron"] }
r2d2 = "0.8"
r2d2-diesel = "1"
