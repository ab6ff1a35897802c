[package]
name = "srvr"
version = "0.1.0"
edition = "2021"
publish = false

[dependencies]
anyhow = "*"
axum = "*"
axum-extra = { version = "*", features = ["typed-header"] }
clap = { version = "*", features = ["derive"] }
clap_complete = "*"
clap-verbosity-flag = "*"
httpdate = "*"
humantime = "*"
mime = "*"
mime_guess = "*"
percent-encoding = "*"
thiserror = "*"
tokio = { version = "*", features = ["full"] }
tokio-util = { version = "*", features = ["io"] }
tower-http = { version = "*", features = ["timeout", "trace"] }
tracing = "*"
tracing-subscriber = { version = "*", features = ["env-filter"] }
