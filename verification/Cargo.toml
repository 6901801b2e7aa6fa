[package]
name = "fe2o3_steel"
version = "0.1.0"
edition = "2021"
publish = false

[dependencies]
nix = { version = "*", features = ["fs"] }
oxedize_fe2o3_core = "=0.5.1"
oxedize_fe2o3_crypto = "=0.5.1"
oxedize_fe2o3_data = "=0.5.1"
oxedize_fe2o3_hash = "=0.5.1"
oxedize_fe2o3_iop_hash = "=0.5.1"
oxedize_fe2o3_jdat = "=0.5.1"
oxedyne_fe2o3_core = "=0.0.1"
oxedyne_fe2o3_crypto = "=0.0.1"
oxedyne_fe2o3_hash = "=0.0.1"
oxedyne_fe2o3_iop_crypto = "=0.0.1"
oxedyne_fe2o3_iop_db = "=0.0.1"
oxedyne_fe2o3_iop_hash = "=0.0.1"
oxedyne_fe2o3_jdat = "=0.0.1"
oxedyne_fe2o3_namex = "=0.0.1"
oxedyne_fe2o3_net = "=0.0.1"
oxedyne_fe2o3_o3db_sync = "*"
oxedyne_fe2o3_syntax = "=0.0.1"
oxedyne_fe2o3_text = "=0.0.1"
oxedyne_fe2o3_tui = "=0.0.1"
rcgen = "*"
rpassword = "*"
rustls = "*"
rustls-pemfile = "*"
secrecy = "*"
tokio = { version = "=1.54.1", features = ["full"] }
tokio-rustls = "*"
zeroize = "*"
