[package]
name = "connector_core"
version = "0.1.0"
edition = "2021"
publish = false

[dependencies]
bytesize = "1"
humantime = "2"
serde = { version = "1", features = ["derive"] }
serde_yaml = "0.8"
serde_json = "1"
toml = "0.5"
anyhow = "1"
thiserror = "1"
tracing = "0.1"
structopt = "0.3"
clap = { version = "3", features = ["derive", "env"] }
schemars = "0.8"
tempfile = "3"
notify = "*"
tokio = { version = "1", features = ["macros", "rt-multi-thread"] }
tokio-stream = "0.1"
reqwest = { version = "0.11", features = ["json"] }
rumqttc = "*"
rdkafka = "*"
fluvio = "*"
fluvio-future = "*"
fluvio-controlplane-metadata = "*"
