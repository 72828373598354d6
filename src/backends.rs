//! Storage capabilities that a data-handling actor writes through.

pub mod database;
pub mod storage;
