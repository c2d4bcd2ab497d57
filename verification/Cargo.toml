[package]
name = "user_gateway"
version = "0.1.0"
edition = "2021"
publish = false

[dependencies]
uuid = { version = "=1.27.0", features = ["serde", "v4"] }
axum = "=0.8.9"
tokio = { version = "*", features = ["macros", "rt-multi-thread", "net"] }
serde = { version = "*", features = ["derive"] }
serde_json = "*"
sqlx = { version = "=0.9.0", default-features = false, features = ["postgres", "runtime-tokio", "macros", "uuid"] }
reqwest = { version = "=0.13.5", default-features = false, features = ["json", "form"] }
tower-http = { version = "=0.7.1", features = ["trace"] }
tracing = "*"
tracing-subscriber = { version = "=0.3.23", features = ["env-filter", "fmt", "registry"] }
tracing-appender = "*"
aide = { version = "=0.15.1", features = ["axum"] }
schemars = { version = "*", features = ["uuid1"] }
axum-keycloak-auth = "=0.8.3"
axum-prometheus = "=0.10.1"
dotenv = "=0.15.0"
anyhow = "*"
