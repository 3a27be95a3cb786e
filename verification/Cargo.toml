[package]
name = "prompt_print"
version = "0.1.0"
edition = "2021"
publish = false

[dependencies]
ansi_term = "0.12"
clap = "2.33"
log = "0.4"
rayon = "1"
term_size = "0.3"
toml = "0.5"
unicode-segmentation = "1"
unicode-width = "0.1"
