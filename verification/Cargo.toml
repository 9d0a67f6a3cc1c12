[package]
name = "imap_grammar"
version = "0.1.0"
edition = "2021"
publish = false

[dependencies]
nom = "7"
abnf-core = "*"
imap-types = "*"
