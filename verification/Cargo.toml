[package]
name = "coupon_draw"
version = "0.1.0"
edition = "2021"
publish = false

[dependencies]
rand = "0.8"
uuid = { version = "1", features = ["v4"] }
chrono = "0.4"
axum = "0.6"
hyper = "0.14"
tokio = { version = "1", features = ["full"] }
sqlx = { version = "0.7", default-features = false, features = ["runtime-tokio", "postgres", "chrono"] }
redis = { version = "0.23", features = ["tokio-comp"] }
serde = { version = "1", features = ["derive"] }
dotenv = "0.15"
utoipa = { version = "3", features = ["axum_extras"] }
utoipa-swagger-ui = { version = "3", features = ["axum"] }
utoipa-redoc = { version = "0.1", features = ["axum"] }
utoipa-rapidoc = { version = "0.1", features = ["axum"] }
