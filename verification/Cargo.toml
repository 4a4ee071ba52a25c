[package]
name = "marketplace"
version = "0.1.0"
edition = "2021"
publish = false

[dependencies]
jwt = "0.16"
hmac = "0.12"
sha2 = "0.10"
argon2 = "0.5"
serde = { version = "1", features = ["derive"] }
serde_json = "1"
chrono = "0.4"
actix-web = { version = "4", default-features = false, features = ["macros"] }
actix-cors = "0.7"
async-graphql = { version = "7", default-features = false, features = ["chrono", "graphiql", "email-validator"] }
async-graphql-actix-web = "7"
async-trait = "0.1"
sea-orm = { version = "1", default-features = false, features = ["macros", "with-chrono", "sqlx-postgres", "runtime-tokio-rustls"] }
sea-orm-migration = { version = "1", default-features = false, features = ["sqlx-postgres", "runtime-tokio-rustls"] }
deadpool-redis = "*"
reqwest = { version = "0.12", default-features = false, features = ["json", "rustls-tls"] }
dotenvy = "0.15"
