[package]
name = "git_commit_stats"
version = "0.1.0"
edition = "2021"
publish = false

[dependencies]
clap = "4"
