[package]
name = "actori_http"
version = "0.1.0"
edition = "2021"
publish = false

[dependencies]
indexmap = "=1.9.3"
slab = "=0.4.12"
language-tags = "=0.2.2"
http = "=0.2.12"
h2 = "=0.2.7"
bytes = "=0.5.6"
futures-util = "=0.3.34"
actori-rt = "=1.0.0"
actori-service = "=1.0.5"
actori-utils = "=1.0.6"
actori-codec = "=0.2.0"

[dev-dependencies]
regex = "=1.13.1"
percent-encoding = "=2.3.2"
