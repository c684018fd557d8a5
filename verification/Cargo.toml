[package]
name = "sms_data_clean"
version = "0.1.0"
edition = "2021"
publish = false

[dependencies]
smartcore = "*"
stopwords = "*"
serde_json = "*"
