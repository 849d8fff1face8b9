[package]
name = "prompt_window"
version = "0.1.0"
edition = "2021"
publish = false

[dependencies]
llm = "0.1"
rand = "0.8"
