[package]
name = "mongo_oplog"
version = "0.1.0"
edition = "2021"
publish = false

[dependencies]
bson = "=1.2.4"
regex = "=1.13.1"
backtrace = "=0.3.77"
mongo_driver = "=0.13.6"
