[package]
name = "snapshot_migration"
version = "0.1.0"
edition = "2021"
publish = false

[dependencies]
async-trait = "0.1"
sea-orm-migration = { version = "1", default-features = false }
