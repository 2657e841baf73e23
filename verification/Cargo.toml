[package]
name = "text_editor"
version = "0.1.0"
edition = "2021"
publish = false

[dependencies]
ropey = "1"
unicode-width = "0.2"
pulldown-cmark = "0.12"
ratatui = "0.29"
crossterm = "0.28"
arboard = "3"
