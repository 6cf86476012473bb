[package]
name = "xmpp_client"
version = "0.1.0"
edition = "2021"
publish = false

[dependencies]
base64 = "0.22"
futures = "0.3"
jid = "*"
minidom = "*"
sasl = "*"
