[package]
name = "formatter"
version = "0.1.0"
edition = "2021"
publish = false

[dependencies]
anyhow = "=1.0.104"
clap = { version = "=4.6.7", features = ["derive"] }
dprint-plugin-css = "=0.2.3"
dprint-plugin-dockerfile = "=0.7.0"
dprint-plugin-json = "=0.25.2"
dprint-plugin-markdown = "=0.26.0"
dprint-plugin-ruff = "=0.0.1"
dprint-plugin-sql = "=0.2.0"
dprint-plugin-toml = "=0.9.0"
dprint-plugin-typescript = "=0.96.1"
gofmt = "=0.1.0"
hcl-rs = "=0.19.8"
html5ever = "=0.39.0"
ignore = "=0.4.33"
markup5ever_rcdom = "=0.39.0"
pretty_graphql = "=0.2.3"
pretty_yaml = "=0.6.0"
prettyplease = "=0.3.0"
quick-xml = "=0.42.0"
rayon = "=1.12.0"
rust-ini = "=0.21.3"
stylua = "=2.5.2"
syn = { version = "=3.0.6", features = ["full"] }
