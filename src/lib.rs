//! Inventory of installed packages: a parser for the flat installed-package
//! database, a resolver for the versions that the ports tree offers, the
//! comparison of both, and the snapshot that spares a re-parse.
pub mod text;
pub mod database;
pub mod ports;
pub mod version;
pub mod report;
pub mod cache;
pub mod inventory;
pub mod command;
