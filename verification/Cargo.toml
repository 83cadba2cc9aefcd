[package]
name = "code_hunt"
version = "0.1.0"
edition = "2021"
publish = false

[dependencies]
base64 = "=0.21.7"
chrono = "=0.4.45"
country-boundaries = "=1.2.0"
git2 = { version = "=0.18.3", default-features = false }
image = "=0.24.9"
isocountry = "=0.3.2"
pathfinding = "=4.16.0"
regex = "=1.13.1"
reqwest = { version = "=0.11.27", default-features = false, features = ["json"] }
rocket = { version = "=0.5.2", features = ["json"] }
rocket_dyn_templates = { version = "=0.2.0", features = ["tera"] }
rocket_ws = "=0.1.1"
s2 = "=0.2.0"
serde = { version = "=1.0.229", features = ["derive"] }
serde_json = "=1.0.154"
sha256 = "=1.6.0"
sqlx = { version = "=0.7.4", default-features = false, features = ["postgres", "runtime-tokio", "macros"] }
tar = "=0.4.46"
tempfile = "=3.27.0"
tokio = { version = "=1.54.1", features = ["sync", "macros"] }
ulid = "=1.2.1"
uuid = "=1.29.0"
